use gravity::compute_state::GravityComputeState;
use gravity::entity_bits::PointIdentity;
use gravity::galaxy::{GalaxyEdits, MAX_ENTITIES};
use gravity::gravity_sync::{
    finish_rebuild, plan_input_step, plan_outputs, plan_rebuild, should_read_outputs, InputStep,
    LiveObject, PointSource,
};

fn slot(bits: u64) -> PointIdentity {
    PointIdentity::with_entity(bits)
}

fn clean_state() -> GravityComputeState {
    let mut s = GravityComputeState::default();
    s.clean();
    s
}

#[test]
fn nothing_happens_while_busy_and_unchanged() {
    let s = clean_state();
    let edits = GalaxyEdits::default();
    assert_eq!(
        plan_input_step(&s, &edits, false, false, true),
        InputStep { rebuild: false, execute: false }
    );
}

#[test]
fn a_ready_worker_with_changes_is_rebuilt_and_run() {
    let mut s = clean_state();
    s.touch();
    let edits = GalaxyEdits::default();
    assert_eq!(
        plan_input_step(&s, &edits, true, false, true),
        InputStep { rebuild: true, execute: true }
    );
    assert_eq!(
        plan_input_step(&s, &edits, true, true, true),
        InputStep { rebuild: true, execute: false }
    );
    assert_eq!(
        plan_input_step(&s, &edits, false, false, true),
        InputStep { rebuild: false, execute: true }
    );
}

#[test]
fn a_pending_edit_counts_as_a_change() {
    let s = clean_state();
    let mut edits = GalaxyEdits::default();
    edits.mark_edited(9);
    assert_eq!(
        plan_input_step(&s, &edits, true, false, false),
        InputStep { rebuild: true, execute: false }
    );
}

#[test]
fn a_ready_unchanged_worker_just_runs() {
    let s = clean_state();
    let edits = GalaxyEdits::default();
    assert_eq!(
        plan_input_step(&s, &edits, true, false, true),
        InputStep { rebuild: false, execute: true }
    );
    assert_eq!(
        plan_input_step(&s, &edits, true, true, true),
        InputStep { rebuild: false, execute: false }
    );
}

#[test]
fn a_forced_pass_runs_even_when_paused() {
    let s = GravityComputeState::default();
    let edits = GalaxyEdits::default();
    assert_eq!(
        plan_input_step(&s, &edits, true, true, false),
        InputStep { rebuild: true, execute: true }
    );
}

#[test]
fn finishing_a_rebuild_cleans_and_forgets_edits() {
    let mut s = GravityComputeState::default();
    let mut edits = GalaxyEdits::default();
    edits.mark_edited(1);
    finish_rebuild(&mut s, &mut edits);
    assert!(!s.is_dirty());
    assert!(edits.is_empty());
}

#[test]
fn outputs_are_read_only_while_running() {
    assert!(should_read_outputs(false, true, true));
    assert!(!should_read_outputs(true, true, true));
    assert!(!should_read_outputs(false, false, true));
    assert!(!should_read_outputs(false, true, false));
}

#[test]
fn outputs_stop_at_the_first_empty_slot_and_skip_edits() {
    let slots = vec![slot(5), slot(6), slot(7), slot(0), slot(8)];
    let mut edits = GalaxyEdits::default();
    assert_eq!(plan_outputs(&slots, &edits), vec![(0, 5), (1, 6), (2, 7)]);
    edits.mark_edited(6);
    edits.mark_edited(8);
    assert_eq!(plan_outputs(&slots, &edits), vec![(0, 5), (2, 7)]);
    assert_eq!(plan_outputs(&vec![], &edits), vec![]);
}

#[test]
fn rebuild_keeps_untouched_slots_and_refreshes_the_rest() {
    // Slots: 5, 6, 7, then a stale copy of 5 later, then the end.
    let slots = vec![slot(5), slot(6), slot(7), slot(5), slot(0), slot(9)];
    let mut edits = GalaxyEdits::default();
    edits.mark_edited(6);
    let live = vec![
        LiveObject { entity: 5, is_colliding: false },
        LiveObject { entity: 6, is_colliding: false },
        LiveObject { entity: 7, is_colliding: true },
        LiveObject { entity: 9, is_colliding: false },
        LiveObject { entity: 11, is_colliding: false },
    ];
    assert_eq!(
        plan_rebuild(&slots, &live, &edits),
        vec![
            PointSource::Kept(3),
            PointSource::Fresh(1),
            PointSource::Fresh(2),
            PointSource::Fresh(3),
            PointSource::Fresh(4),
        ]
    );
}

#[test]
fn rebuild_drops_slots_of_vanished_entities() {
    let slots = vec![slot(5), slot(6)];
    let edits = GalaxyEdits::default();
    let live = vec![LiveObject { entity: 6, is_colliding: false }];
    assert_eq!(plan_rebuild(&slots, &live, &edits), vec![PointSource::Kept(1)]);
}

#[test]
fn rebuild_is_capped_at_the_pass_capacity() {
    let live: Vec<LiveObject> = (1..=(MAX_ENTITIES as u64 + 3))
        .map(|e| LiveObject { entity: e, is_colliding: false })
        .collect();
    let plan = plan_rebuild(&vec![], &live, &GalaxyEdits::default());
    assert_eq!(plan.len(), MAX_ENTITIES);
    assert_eq!(plan[0], PointSource::Fresh(0));
    assert_eq!(plan[MAX_ENTITIES - 1], PointSource::Fresh(MAX_ENTITIES - 1));
}
