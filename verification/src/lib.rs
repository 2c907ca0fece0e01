//! Verified core of the "Gravity" game: the bookkeeping that decides when the
//! gravity compute pass must be re-seeded, how simulation slots name their
//! entities, how levels advance, and how menus react to input.

pub mod compute_state;
pub mod entity_bits;
pub mod galaxy;
pub mod gravity_sync;
pub mod levels;
pub mod menus;
pub mod firing;
pub mod players;
pub mod mesh;
pub mod level_order;
