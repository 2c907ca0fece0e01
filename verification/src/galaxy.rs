use vstd::prelude::*;
use std::collections::HashSet;

verus! {

broadcast use vstd::std_specs::hash::group_hash_axioms;

/// Most simulation slots the compute pass holds.
pub const MAX_ENTITIES: usize = 32768;

/// Threads per workgroup of the compute pass.
pub const WORKGROUP_SIZE: u32 = 64;

/// Slot flag: the object exerts no force.
pub const POINT_INFO_FLAG_FORCE_NONE: u32 = 0x0;
/// Slot flag: the object attracts by gravity.
pub const POINT_INFO_FLAG_FORCE_GRAVITY: u32 = 0x1;
/// Slot flag: the object attracts or repels with a fixed strength.
pub const POINT_INFO_FLAG_FORCE_ATTRACT_REPEL: u32 = 0x2;
/// Mask of the force kind within the flags.
pub const POINT_INFO_FLAG_FORCE_TYPE_MASK: u32 = 0x3;
/// Slot flag: the object does not move.
pub const POINT_INFO_FLAG_HAS_STATIC: u32 = 0x80;

/// How an object influences the others in the simulation.
#[derive(Clone, Copy, PartialEq, Eq, Structural, Debug)]
pub enum ForceType {
    NoForce,
    Gravity,
    Attract,
    Repel,
}

/// The force-kind flag of a force type.
pub open spec fn force_flag(force: ForceType) -> u32 {
    match force {
        ForceType::NoForce => POINT_INFO_FLAG_FORCE_NONE,
        ForceType::Gravity => POINT_INFO_FLAG_FORCE_GRAVITY,
        ForceType::Attract => POINT_INFO_FLAG_FORCE_ATTRACT_REPEL,
        ForceType::Repel => POINT_INFO_FLAG_FORCE_ATTRACT_REPEL,
    }
}

/// The sign of the strength a force type gives a slot: repelling objects
/// push (-1), objects without force have none (0), all others pull (+1).
pub open spec fn force_strength(force: ForceType) -> i8 {
    match force {
        ForceType::NoForce => 0i8,
        ForceType::Gravity => 1,
        ForceType::Attract => 1,
        ForceType::Repel => -1i8,
    }
}

/// The flags and the strength a slot gets for an object with this force
/// type, static or not. The strength is exactly -1, 0 or 1.
pub fn point_force_encoding(force: ForceType, is_static: bool) -> (enc: (u32, i8))
    ensures
        enc.0 == force_flag(force) + (if is_static { POINT_INFO_FLAG_HAS_STATIC } else { 0u32 }),
        enc.1 == force_strength(force),
{
    let (mut flags, strength): (u32, i8) = match force {
        ForceType::NoForce => (POINT_INFO_FLAG_FORCE_NONE, 0i8),
        ForceType::Attract => (POINT_INFO_FLAG_FORCE_ATTRACT_REPEL, 1i8),
        ForceType::Repel => (POINT_INFO_FLAG_FORCE_ATTRACT_REPEL, -1i8),
        ForceType::Gravity => (POINT_INFO_FLAG_FORCE_GRAVITY, 1i8),
    };
    if is_static {
        let base = flags;
        flags = flags | POINT_INFO_FLAG_HAS_STATIC;
        assert(base < 4u32 ==> (base | 0x80u32) == base + 0x80u32) by (bit_vector);
    }
    (flags, strength)
}

/// The flags a slot gets can be read back: the masked bits give the force
/// kind and the static bit tells whether the object is static.
pub proof fn law_force_flags_read_back(force: ForceType, is_static: bool)
    ensures
        ({
            let flags = force_flag(force) + (if is_static { POINT_INFO_FLAG_HAS_STATIC } else { 0u32 });
            &&& flags as u32 & POINT_INFO_FLAG_FORCE_TYPE_MASK == force_flag(force)
            &&& (flags as u32 & POINT_INFO_FLAG_HAS_STATIC != 0) == is_static
        }),
{
    let base = force_flag(force);
    assert(base < 4);
    assert(base < 4u32 ==> (base & 3u32) == base && (base & 0x80u32) == 0u32) by (bit_vector);
    assert(base < 4u32 ==> ((base + 0x80u32) as u32 & 3u32) == base && ((base + 0x80u32) as u32
        & 0x80u32) != 0u32) by (bit_vector);
}

/// Only repelling objects push and only force-less objects exert nothing;
/// attracting and repelling objects share one flag and differ only in
/// strength, while gravity has a flag of its own.
pub proof fn law_force_kinds_are_distinguished(force: ForceType)
    ensures
        (force_strength(force) < 0) <==> force == ForceType::Repel,
        (force_strength(force) == 0) <==> force == ForceType::NoForce,
        (force_flag(force) == POINT_INFO_FLAG_FORCE_ATTRACT_REPEL) <==> (force == ForceType::Attract
            || force == ForceType::Repel),
        (force_flag(force) == POINT_INFO_FLAG_FORCE_GRAVITY) <==> force == ForceType::Gravity,
        (force_flag(force) == POINT_INFO_FLAG_FORCE_NONE) <==> force == ForceType::NoForce,
{
}

/// The number of workgroups one pass dispatches: enough for every slot.
pub fn dispatch_workgroups() -> (n: u32)
    ensures
        n as int * WORKGROUP_SIZE as int == MAX_ENTITIES as int,
{
    MAX_ENTITIES as u32 / WORKGROUP_SIZE
}

/// Summary counts of the simulated galaxy.
#[derive(Clone, Copy, PartialEq, Eq, Structural, Debug)]
pub struct GalaxyState {
    pub using_compute: bool,
    num_objects: usize,
    num_selected: usize,
}

impl GalaxyState {
    /// Whether the galaxy is simulated on the compute pass.
    pub closed spec fn compute_used(&self) -> bool {
        self.using_compute
    }

    /// The number of simulated objects.
    pub closed spec fn objects(&self) -> usize {
        self.num_objects
    }

    /// The number of selected objects.
    pub closed spec fn selected(&self) -> usize {
        self.num_selected
    }

    /// A state with no objects, simulated on the compute pass or not.
    pub fn with_compute(using_compute: bool) -> (s: Self)
        ensures
            s.compute_used() == using_compute,
            s.objects() == 0,
            s.selected() == 0,
    {
        GalaxyState { using_compute, num_objects: 0, num_selected: 0 }
    }

    /// The number of simulated objects.
    pub fn number_of_objects(&self) -> (n: usize)
        ensures
            n == self.objects(),
    {
        self.num_objects
    }

    /// The number of selected objects.
    pub fn number_selected(&self) -> (n: usize)
        ensures
            n == self.selected(),
    {
        self.num_selected
    }
}

/// Entities (by their bits) edited by hand since the last re-seed; the
/// compute pass must not overwrite what was done to them.
pub struct GalaxyEdits {
    pub edited: HashSet<u64>,
}

impl Default for GalaxyEdits {
    /// No edits.
    fn default() -> (e: Self)
        ensures
            e.edited@ == Set::<u64>::empty(),
    {
        GalaxyEdits { edited: HashSet::new() }
    }
}

impl GalaxyEdits {
    /// Record that the entity with these bits was edited (or newly created).
    pub fn mark_edited(&mut self, bits: u64)
        ensures
            final(self).edited@ == old(self).edited@.insert(bits),
    {
        self.edited.insert(bits);
    }

    /// Whether the entity with these bits was edited.
    pub fn is_edited(&self, bits: u64) -> (b: bool)
        ensures
            b == self.edited@.contains(bits),
    {
        self.edited.contains(&bits)
    }

    /// Whether nothing was edited.
    pub fn is_empty(&self) -> (b: bool)
        ensures
            b == self.edited@.is_empty(),
    {
        self.edited.is_empty()
    }

    /// Forget all edits.
    pub fn clear(&mut self)
        ensures
            final(self).edited@ == Set::<u64>::empty(),
    {
        self.edited.clear();
    }
}

} // verus!
