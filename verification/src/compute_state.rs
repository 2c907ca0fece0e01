use vstd::prelude::*;

verus! {

/// The three counters of [`GravityComputeState`], as plain values.
#[derive(Clone, Copy, PartialEq, Eq, Structural, Debug)]
pub struct ComputeGenerations {
    pub generation: u64,
    pub prev_generation: u64,
    pub run_once: bool,
}

/// The generation that follows `g`, wrapping at `u64::MAX`.
pub open spec fn next_generation(g: u64) -> u64 {
    if g == u64::MAX {
        0u64
    } else {
        (g + 1) as u64
    }
}

/// The worker must be re-seeded (or run once more).
pub open spec fn is_dirty_spec(v: ComputeGenerations) -> bool {
    v.run_once || v.generation != v.prev_generation
}

/// The state after [`GravityComputeState::touch`].
pub open spec fn touched(v: ComputeGenerations) -> ComputeGenerations {
    if v.prev_generation == v.generation {
        ComputeGenerations { generation: next_generation(v.generation), ..v }
    } else {
        v
    }
}

/// The state after [`GravityComputeState::clean`].
pub open spec fn cleaned(v: ComputeGenerations) -> ComputeGenerations {
    ComputeGenerations { generation: v.prev_generation, prev_generation: v.prev_generation, run_once: false }
}

/// The state after [`GravityComputeState::run_once`].
pub open spec fn forced(v: ComputeGenerations) -> ComputeGenerations {
    ComputeGenerations { run_once: true, ..v }
}

/// Change tracking for the gravity compute worker.
///
/// `generation` moves away from `prev_generation` whenever something outside
/// the simulation changed (see [`GravityComputeState::touch`]) and is brought
/// back by [`GravityComputeState::clean`] once the worker has been re-seeded.
/// `run_once` forces one more pass even while the simulation is paused.
#[derive(Clone, Copy)]
pub struct GravityComputeState {
    generation: u64,
    prev_generation: u64,
    run_once: bool,
}

impl View for GravityComputeState {
    type V = ComputeGenerations;

    closed spec fn view(&self) -> ComputeGenerations {
        ComputeGenerations {
            generation: self.generation,
            prev_generation: self.prev_generation,
            run_once: self.run_once,
        }
    }
}

impl Default for GravityComputeState {
    /// A fresh state: both generations at zero and one pass forced.
    fn default() -> (s: Self)
        ensures
            s@ == (ComputeGenerations { generation: 0, prev_generation: 0, run_once: true }),
    {
        GravityComputeState { run_once: true, generation: 0, prev_generation: 0 }
    }
}

impl GravityComputeState {
    /// Record that something changed outside the simulation. Only the first
    /// touch after a re-seed moves the generation.
    pub fn touch(&mut self)
        ensures
            final(self)@ == touched(old(self)@),
    {
        if self.prev_generation == self.generation {
            self.generation = self.generation.wrapping_add(1);
        }
    }

    /// Whether the worker must be re-seeded or run once more.
    pub fn is_dirty(&self) -> (b: bool)
        ensures
            b == is_dirty_spec(self@),
    {
        self.run_once || self.generation != self.prev_generation
    }

    /// Mark the worker as re-seeded: the generation returns to the recorded
    /// one and the forced pass is consumed.
    pub fn clean(&mut self)
        ensures
            final(self)@ == cleaned(old(self)@),
    {
        self.generation = self.prev_generation;
        self.run_once = false;
    }

    /// Whether one pass is forced regardless of pause.
    pub fn is_run_once(&self) -> (b: bool)
        ensures
            b == self@.run_once,
    {
        self.run_once
    }

    /// Force one pass, even while the simulation is paused.
    pub fn run_once(&mut self)
        ensures
            final(self)@ == forced(old(self)@),
    {
        self.run_once = true;
    }
}

/// A freshly created state is dirty, so the worker runs at least once.
pub proof fn law_default_is_dirty()
    ensures
        is_dirty_spec(ComputeGenerations { generation: 0, prev_generation: 0, run_once: true }),
{
}

/// After a touch the state is always dirty, also when the generation wraps.
pub proof fn law_touch_makes_dirty(v: ComputeGenerations)
    ensures
        is_dirty_spec(touched(v)),
{
}

/// Touching twice is the same as touching once.
pub proof fn law_touch_is_idempotent(v: ComputeGenerations)
    ensures
        touched(touched(v)) == touched(v),
{
}

/// After a clean the state is neither dirty nor forced.
pub proof fn law_clean_settles(v: ComputeGenerations)
    ensures
        !is_dirty_spec(cleaned(v)),
        !cleaned(v).run_once,
{
}

/// A clean forgets any touch and any forced pass that came before it.
pub proof fn law_clean_forgets_touch_and_force(v: ComputeGenerations)
    ensures
        cleaned(touched(v)) == cleaned(v),
        cleaned(forced(v)) == cleaned(v),
{
}

/// Forcing a pass makes the state dirty until the next clean.
pub proof fn law_run_once_makes_dirty(v: ComputeGenerations)
    ensures
        is_dirty_spec(forced(v)),
        forced(v).run_once,
{
}

/// No operation ever moves the recorded generation.
pub proof fn law_prev_generation_is_fixed(v: ComputeGenerations)
    ensures
        touched(v).prev_generation == v.prev_generation,
        cleaned(v).prev_generation == v.prev_generation,
        forced(v).prev_generation == v.prev_generation,
{
}

/// A touch moves nothing but the generation: the first touch after a clean
/// steps the generation by one (wrapping at 2^64), a further touch changes
/// nothing, and a forced pass leaves both generations alone.
pub proof fn law_touch_only_steps_the_generation(v: ComputeGenerations)
    ensures
        touched(v).run_once == v.run_once,
        v.generation == v.prev_generation ==> touched(v).generation as int == (v.generation as int + 1)
            % 0x1_0000_0000_0000_0000,
        v.generation != v.prev_generation ==> touched(v) == v,
        forced(v).generation == v.generation,
{
}

} // verus!
