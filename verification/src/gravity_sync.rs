use vstd::prelude::*;
use std::collections::HashMap;

use crate::compute_state::{cleaned, is_dirty_spec, GravityComputeState};
use crate::entity_bits::PointIdentity;
use crate::galaxy::{GalaxyEdits, MAX_ENTITIES};

verus! {

broadcast use vstd::std_specs::hash::group_hash_axioms;

/// The number of leading slots that name an entity: the compute pass fills
/// slots from the front, so the first unassigned slot ends the list.
pub open spec fn assigned_len(slots: Seq<PointIdentity>) -> nat
    decreases slots.len(),
{
    if slots.len() == 0 {
        0
    } else if slots[0].ent_lo == 0 {
        0
    } else {
        1 + assigned_len(slots.drop_first())
    }
}

/// The slots to copy back into the world: each assigned slot, in order, with
/// its entity, unless that entity was edited by hand.
pub open spec fn output_targets(slots: Seq<PointIdentity>, n: int, edited: Set<u64>) -> Seq<(usize, u64)>
    decreases n,
{
    if n <= 0 {
        Seq::empty()
    } else {
        let rest = output_targets(slots, n - 1, edited);
        let bits = slots[n - 1].bits();
        if edited.contains(bits) {
            rest
        } else {
            rest.push(((n - 1) as usize, bits))
        }
    }
}

/// For each entity among the first `n` slots, the last slot that holds it.
pub open spec fn slot_index_map(slots: Seq<PointIdentity>, n: int) -> Map<u64, usize>
    decreases n,
{
    if n <= 0 {
        Map::empty()
    } else {
        slot_index_map(slots, n - 1).insert(slots[n - 1].bits(), (n - 1) as usize)
    }
}

/// A simulated object as the re-seed sees it.
#[derive(Clone, Copy, PartialEq, Eq, Structural, Debug)]
pub struct LiveObject {
    /// The entity's bits.
    pub entity: u64,
    /// The object is colliding; the physics engine's state must win.
    pub is_colliding: bool,
}

/// Where a re-seeded slot takes its contents from.
#[derive(Clone, Copy, PartialEq, Eq, Structural, Debug)]
pub enum PointSource {
    /// The slot with this index in the previous contents.
    Kept(usize),
    /// The world's current state of the live object with this index.
    Fresh(usize),
}

/// The source of the slot for live object `j`: its previous slot, if it had
/// one among the assigned slots and was neither edited nor colliding; the
/// world's state otherwise.
pub open spec fn rebuild_source(
    slots: Seq<PointIdentity>,
    edited: Set<u64>,
    obj: LiveObject,
    j: int,
) -> PointSource {
    let previous = slot_index_map(slots, assigned_len(slots) as int);
    if previous.contains_key(obj.entity) && !edited.contains(obj.entity) && !obj.is_colliding {
        PointSource::Kept(previous[obj.entity])
    } else {
        PointSource::Fresh(j as usize)
    }
}

/// What one input step of the compute worker does.
#[derive(Clone, Copy, PartialEq, Eq, Structural, Debug)]
pub struct InputStep {
    /// Re-seed the slots from the world and the previous slots.
    pub rebuild: bool,
    /// Run one pass of the compute worker.
    pub execute: bool,
}

/// The input step for this frame.
///
/// Something changed when the state is dirty or an edit is pending. With the
/// worker busy and nothing changed, nothing happens. Otherwise the slots are
/// re-seeded when the worker is ready and something changed, and a pass runs
/// when one is forced or when the simulation is running with gravity on.
pub fn plan_input_step(
    state: &GravityComputeState,
    edits: &GalaxyEdits,
    worker_ready: bool,
    physics_paused: bool,
    gravity_enabled: bool,
) -> (step: InputStep)
    ensures
        ({
            let changed = is_dirty_spec(state@) || !edits.edited@.is_empty();
            if !worker_ready && !changed {
                step == (InputStep { rebuild: false, execute: false })
            } else {
                &&& step.rebuild == (worker_ready && changed)
                &&& step.execute == (state@.run_once || (!physics_paused && gravity_enabled))
            }
        }),
{
    let something_changed = state.is_dirty() || !edits.is_empty();
    if !worker_ready && !something_changed {
        return InputStep { rebuild: false, execute: false };
    }
    let run_once = state.is_run_once();
    InputStep {
        rebuild: worker_ready && something_changed,
        execute: run_once || (!physics_paused && gravity_enabled),
    }
}

/// Close a re-seed: the state is clean and the edits are consumed.
pub fn finish_rebuild(state: &mut GravityComputeState, edits: &mut GalaxyEdits)
    ensures
        final(state)@ == cleaned(old(state)@),
        final(edits).edited@ == Set::<u64>::empty(),
{
    state.clean();
    edits.clear();
}

proof fn lemma_assigned_len(slots: Seq<PointIdentity>, i: int)
    requires
        0 <= i <= slots.len(),
        forall|k: int| 0 <= k < i ==> slots[k].ent_lo != 0,
        i == slots.len() || slots[i].ent_lo == 0,
    ensures
        assigned_len(slots) == i,
    decreases i,
{
    if i > 0 {
        lemma_assigned_len(slots.drop_first(), i - 1);
    }
}

proof fn lemma_assigned_len_bound(slots: Seq<PointIdentity>)
    ensures
        assigned_len(slots) <= slots.len(),
        forall|k: int| 0 <= k < assigned_len(slots) ==> slots[k].ent_lo != 0,
    decreases slots.len(),
{
    if slots.len() > 0 && slots[0].ent_lo != 0 {
        lemma_assigned_len_bound(slots.drop_first());
        assert forall|k: int| 0 <= k < assigned_len(slots) implies slots[k].ent_lo != 0 by {
            if k > 0 {
                assert(slots.drop_first()[k - 1] == slots[k]);
            }
        }
    }
}

/// Count the assigned slots at the front.
fn count_assigned(slots: &Vec<PointIdentity>) -> (n: usize)
    ensures
        n == assigned_len(slots@),
        n <= slots.len(),
{
    let mut i: usize = 0;
    while i < slots.len()
        invariant
            i <= slots.len(),
            forall|k: int| 0 <= k < i ==> slots@[k].ent_lo != 0,
        ensures
            i == slots.len() || slots@[i as int].ent_lo == 0,
        decreases slots.len() - i,
    {
        if slots[i].try_get_entity().is_none() {
            break;
        }
        i = i + 1;
    }
    proof {
        lemma_assigned_len(slots@, i as int);
    }
    i
}

/// Whether this frame reads the compute pass's results back into the world:
/// only while the simulation runs with gravity on and the worker is ready.
pub fn should_read_outputs(physics_paused: bool, gravity_enabled: bool, worker_ready: bool) -> (b: bool)
    ensures
        b == (!physics_paused && gravity_enabled && worker_ready),
{
    !(physics_paused || !gravity_enabled) && worker_ready
}

/// The slots whose results go back into the world, with their entities: the
/// assigned slots in order, leaving out entities edited by hand.
pub fn plan_outputs(slots: &Vec<PointIdentity>, edits: &GalaxyEdits) -> (targets: Vec<(usize, u64)>)
    ensures
        targets@ == output_targets(slots@, assigned_len(slots@) as int, edits.edited@),
{
    let n = count_assigned(slots);
    let mut targets: Vec<(usize, u64)> = Vec::new();
    let mut i: usize = 0;
    while i < n
        invariant
            n == assigned_len(slots@),
            n <= slots.len(),
            i <= n,
            targets@ == output_targets(slots@, i as int, edits.edited@),
        decreases n - i,
    {
        let bits = crate::entity_bits::combine_halves(slots[i].ent_hi, slots[i].ent_lo);
        if !edits.is_edited(bits) {
            targets.push((i, bits));
        }
        i = i + 1;
    }
    targets
}

/// The sources of the re-seeded slots: one per live object, in order, up to
/// the capacity of the compute pass (see [`rebuild_source`]).
pub fn plan_rebuild(slots: &Vec<PointIdentity>, live: &Vec<LiveObject>, edits: &GalaxyEdits) -> (plan:
    Vec<PointSource>)
    ensures
        plan.len() == (if live.len() < MAX_ENTITIES { live.len() } else { MAX_ENTITIES }),
        forall|j: int|
            0 <= j < plan.len() ==> plan@[j] == rebuild_source(slots@, edits.edited@, live@[j], j),
{
    let n = count_assigned(slots);
    let mut previous: HashMap<u64, usize> = HashMap::new();
    let mut i: usize = 0;
    while i < n
        invariant
            n == assigned_len(slots@),
            n <= slots.len(),
            i <= n,
            previous@ == slot_index_map(slots@, i as int),
        decreases n - i,
    {
        let bits = crate::entity_bits::combine_halves(slots[i].ent_hi, slots[i].ent_lo);
        previous.insert(bits, i);
        i = i + 1;
    }
    let cap: usize = if live.len() < MAX_ENTITIES { live.len() } else { MAX_ENTITIES };
    let mut plan: Vec<PointSource> = Vec::new();
    let mut j: usize = 0;
    while j < cap
        invariant
            cap <= live.len(),
            cap == (if live.len() < MAX_ENTITIES { live.len() } else { MAX_ENTITIES }),
            j <= cap,
            plan.len() == j,
            previous@ == slot_index_map(slots@, assigned_len(slots@) as int),
            forall|k: int|
                0 <= k < j ==> plan@[k] == rebuild_source(slots@, edits.edited@, live@[k], k),
        decreases cap - j,
    {
        let obj = live[j];
        let source = match previous.get(&obj.entity) {
            Some(index) => {
                if !edits.is_edited(obj.entity) && !obj.is_colliding {
                    PointSource::Kept(*index)
                } else {
                    PointSource::Fresh(j)
                }
            },
            None => PointSource::Fresh(j),
        };
        plan.push(source);
        j = j + 1;
    }
    plan
}

proof fn lemma_output_targets_skip_edited(slots: Seq<PointIdentity>, n: int, edited: Set<u64>)
    ensures
        forall|k: int|
            0 <= k < output_targets(slots, n, edited).len() ==> !edited.contains(
                #[trigger] output_targets(slots, n, edited)[k].1,
            ),
    decreases n,
{
    if n > 0 {
        lemma_output_targets_skip_edited(slots, n - 1, edited);
        let rest = output_targets(slots, n - 1, edited);
        assert forall|k: int| 0 <= k < output_targets(slots, n, edited).len() implies !edited.contains(
            #[trigger] output_targets(slots, n, edited)[k].1,
        ) by {
            if k < rest.len() {
                assert(output_targets(slots, n, edited)[k] == rest[k]);
                assert(!edited.contains(rest[k].1));
            }
        }
    }
}

/// Edits are never lost: a hand-edited entity's slot is never copied back
/// into the world, and when the slots are re-seeded every edited live
/// object takes the world's state, not its previous slot.
pub proof fn law_edits_are_never_lost(
    slots: Seq<PointIdentity>,
    edited: Set<u64>,
    live: Seq<LiveObject>,
)
    ensures
        forall|k: int|
            0 <= k < output_targets(slots, assigned_len(slots) as int, edited).len() ==> !edited.contains(
                #[trigger] output_targets(slots, assigned_len(slots) as int, edited)[k].1,
            ),
        forall|j: int|
            0 <= j < live.len() && edited.contains(live[j].entity) ==> #[trigger] rebuild_source(
                slots,
                edited,
                live[j],
                j,
            ) == PointSource::Fresh(j as usize),
{
    lemma_output_targets_skip_edited(slots, assigned_len(slots) as int, edited);
}

/// Each slot is copied back at most once, in slot order, only from among
/// the assigned slots, and always to the entity that the slot holds.
pub proof fn law_outputs_follow_the_slots(slots: Seq<PointIdentity>, edited: Set<u64>, n: int)
    requires
        0 <= n <= slots.len(),
        n <= usize::MAX + 1,
    ensures
        forall|k: int|
            0 <= k < output_targets(slots, n, edited).len() ==> {
                let t = #[trigger] output_targets(slots, n, edited)[k];
                &&& (t.0 as int) < n
                &&& t.1 == slots[t.0 as int].bits()
            },
        forall|a: int, b: int|
            0 <= a < b < output_targets(slots, n, edited).len() ==> output_targets(slots, n, edited)[a].0
                < output_targets(slots, n, edited)[b].0,
    decreases n,
{
    if n > 0 {
        law_outputs_follow_the_slots(slots, edited, n - 1);
        let rest = output_targets(slots, n - 1, edited);
        let all = output_targets(slots, n, edited);
        assert forall|k: int| 0 <= k < all.len() implies {
            let t = #[trigger] all[k];
            &&& (t.0 as int) < n
            &&& t.1 == slots[t.0 as int].bits()
        } by {
            if k < rest.len() {
                assert(all[k] == rest[k]);
            }
        }
        assert forall|a: int, b: int| 0 <= a < b < all.len() implies all[a].0 < all[b].0 by {
            assert(all[a] == rest[a]);
            if b < rest.len() {
                assert(all[b] == rest[b]);
            } else {
                assert(all[a] == rest[a]);
                assert((rest[a].0 as int) < n - 1);
            }
        }
    }
}

proof fn lemma_slot_index_map_facts(slots: Seq<PointIdentity>, n: int)
    requires
        0 <= n <= slots.len(),
        n <= usize::MAX + 1,
    ensures
        forall|e: u64| #[trigger]
            slot_index_map(slots, n).contains_key(e) ==> {
                let i = slot_index_map(slots, n)[e] as int;
                &&& 0 <= i < n
                &&& slots[i].bits() == e
                &&& forall|k: int| i < k < n ==> slots[k].bits() != e
            },
        forall|i: int| 0 <= i < n ==> #[trigger] slot_index_map(slots, n).contains_key(slots[i].bits()),
    decreases n,
{
    if n > 0 {
        lemma_slot_index_map_facts(slots, n - 1);
        let prev = slot_index_map(slots, n - 1);
        let m = slot_index_map(slots, n);
        let b = slots[n - 1].bits();
        assert(m == prev.insert(b, (n - 1) as usize));
        assert forall|e: u64| #[trigger] m.contains_key(e) implies {
            let i = m[e] as int;
            &&& 0 <= i < n
            &&& slots[i].bits() == e
            &&& forall|k: int| i < k < n ==> slots[k].bits() != e
        } by {
            if e != b {
                assert(prev.contains_key(e));
                assert(m[e] == prev[e]);
            }
        }
        assert forall|i: int| 0 <= i < n implies #[trigger] m.contains_key(slots[i].bits()) by {
            if i < n - 1 {
                assert(prev.contains_key(slots[i].bits()));
            }
        }
    }
}

/// A kept slot really held the same entity before the re-seed, was among the
/// assigned slots, and is the last slot that held it.
pub proof fn law_kept_slots_hold_the_same_entity(
    slots: Seq<PointIdentity>,
    edited: Set<u64>,
    obj: LiveObject,
    j: int,
)
    requires
        slots.len() <= usize::MAX,
    ensures
        rebuild_source(slots, edited, obj, j) matches PointSource::Kept(i) ==> {
            &&& (i as int) < assigned_len(slots)
            &&& slots[i as int].bits() == obj.entity
            &&& forall|k: int| (i as int) < k < assigned_len(slots) ==> slots[k].bits() != obj.entity
        },
        (forall|i: int| 0 <= i < assigned_len(slots) ==> slots[i].bits() != obj.entity)
            ==> rebuild_source(slots, edited, obj, j) == PointSource::Fresh(j as usize),
{
    lemma_assigned_len_bound(slots);
    lemma_slot_index_map_facts(slots, assigned_len(slots) as int);
}

/// The assigned slots are exactly the leading slots that name an entity:
/// every slot before the count names one, and the slot at the count (if
/// there is one) names none.
pub proof fn law_assigned_len_is_first_unassigned(slots: Seq<PointIdentity>)
    ensures
        assigned_len(slots) <= slots.len(),
        forall|k: int| 0 <= k < assigned_len(slots) ==> #[trigger] slots[k].ent_lo != 0,
        assigned_len(slots) < slots.len() ==> slots[assigned_len(slots) as int].ent_lo == 0,
    decreases slots.len(),
{
    lemma_assigned_len_bound(slots);
    if slots.len() > 0 && slots[0].ent_lo != 0 {
        law_assigned_len_is_first_unassigned(slots.drop_first());
        if assigned_len(slots) < slots.len() {
            assert(slots.drop_first()[assigned_len(slots.drop_first()) as int] == slots[assigned_len(slots) as int]);
        }
    }
}

/// A slot taken from the world always takes the world state of the very
/// object it is for; a colliding or hand-edited object is always taken from
/// the world; and an object that held an assigned slot and is neither
/// colliding nor edited always keeps its simulated state.
pub proof fn law_fresh_slots_take_their_own_object(
    slots: Seq<PointIdentity>,
    edited: Set<u64>,
    obj: LiveObject,
    j: int,
)
    requires
        slots.len() <= usize::MAX,
        0 <= j <= usize::MAX,
    ensures
        rebuild_source(slots, edited, obj, j) matches PointSource::Fresh(i) ==> i as int == j,
        (obj.is_colliding || edited.contains(obj.entity)) ==> rebuild_source(slots, edited, obj, j)
            == PointSource::Fresh(j as usize),
        (!obj.is_colliding && !edited.contains(obj.entity) && exists|i: int|
            0 <= i < assigned_len(slots) && #[trigger] slots[i].bits() == obj.entity)
            ==> rebuild_source(slots, edited, obj, j) is Kept,
{
    lemma_assigned_len_bound(slots);
    lemma_slot_index_map_facts(slots, assigned_len(slots) as int);
    if !obj.is_colliding && !edited.contains(obj.entity) && exists|i: int|
        0 <= i < assigned_len(slots) && #[trigger] slots[i].bits() == obj.entity {
        let i = choose|i: int| 0 <= i < assigned_len(slots) && #[trigger] slots[i].bits() == obj.entity;
        assert(slot_index_map(slots, assigned_len(slots) as int).contains_key(slots[i].bits()));
    }
}

/// Every assigned slot whose entity was not edited by hand is copied back
/// to the world (together with the other output laws: exactly those slots).
pub proof fn law_outputs_cover_every_unedited_slot(slots: Seq<PointIdentity>, edited: Set<u64>, n: int)
    requires
        0 <= n <= slots.len(),
        n <= usize::MAX + 1,
    ensures
        forall|k: int|
            0 <= k < n && !edited.contains(#[trigger] slots[k].bits()) ==> exists|t: int|
                0 <= t < output_targets(slots, n, edited).len() && output_targets(slots, n, edited)[t].0
                    as int == k,
    decreases n,
{
    if n > 0 {
        law_outputs_cover_every_unedited_slot(slots, edited, n - 1);
        let rest = output_targets(slots, n - 1, edited);
        let all = output_targets(slots, n, edited);
        assert forall|k: int| 0 <= k < n && !edited.contains(#[trigger] slots[k].bits()) implies exists|t: int|
            0 <= t < all.len() && all[t].0 as int == k by {
            if k < n - 1 {
                let t = choose|t: int| 0 <= t < rest.len() && rest[t].0 as int == k;
                assert(all[t] == rest[t]);
            } else {
                assert(all[rest.len() as int] == ((n - 1) as usize, slots[n - 1].bits()));
            }
        }
    }
}

} // verus!
