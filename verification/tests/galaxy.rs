use gravity::galaxy::{
    dispatch_workgroups, point_force_encoding, ForceType, GalaxyEdits, GalaxyState, MAX_ENTITIES,
    POINT_INFO_FLAG_FORCE_ATTRACT_REPEL, POINT_INFO_FLAG_FORCE_GRAVITY, POINT_INFO_FLAG_FORCE_NONE,
    POINT_INFO_FLAG_FORCE_TYPE_MASK, POINT_INFO_FLAG_HAS_STATIC, WORKGROUP_SIZE,
};

#[test]
fn force_types_encode_flags_and_strength() {
    assert_eq!(point_force_encoding(ForceType::NoForce, false), (POINT_INFO_FLAG_FORCE_NONE, 0));
    assert_eq!(point_force_encoding(ForceType::Gravity, false), (POINT_INFO_FLAG_FORCE_GRAVITY, 1));
    assert_eq!(point_force_encoding(ForceType::Attract, false), (POINT_INFO_FLAG_FORCE_ATTRACT_REPEL, 1));
    assert_eq!(point_force_encoding(ForceType::Repel, false), (POINT_INFO_FLAG_FORCE_ATTRACT_REPEL, -1));
    assert_eq!(point_force_encoding(ForceType::Gravity, true), (0x81, 1));
    assert_eq!(point_force_encoding(ForceType::Repel, true), (0x82, -1));
}

#[test]
fn encoded_flags_read_back() {
    for force in [ForceType::NoForce, ForceType::Gravity, ForceType::Attract, ForceType::Repel] {
        for is_static in [false, true] {
            let (flags, _) = point_force_encoding(force, is_static);
            let (plain, _) = point_force_encoding(force, false);
            assert_eq!(flags & POINT_INFO_FLAG_FORCE_TYPE_MASK, plain);
            assert_eq!(flags & POINT_INFO_FLAG_HAS_STATIC != 0, is_static);
        }
    }
}

#[test]
fn one_pass_covers_every_slot() {
    assert_eq!(dispatch_workgroups(), 512);
    assert_eq!(dispatch_workgroups() as usize * WORKGROUP_SIZE as usize, MAX_ENTITIES);
}

#[test]
fn a_new_galaxy_has_no_objects() {
    let g = GalaxyState::with_compute(true);
    assert!(g.using_compute);
    assert_eq!(g.number_of_objects(), 0);
    assert_eq!(g.number_selected(), 0);
    assert!(!GalaxyState::with_compute(false).using_compute);
}

#[test]
fn edits_are_recorded_and_cleared() {
    let mut edits = GalaxyEdits::default();
    assert!(edits.is_empty());
    edits.mark_edited(42);
    edits.mark_edited(42);
    assert!(!edits.is_empty());
    assert!(edits.is_edited(42));
    assert!(!edits.is_edited(43));
    assert_eq!(edits.edited.len(), 1);
    edits.clear();
    assert!(edits.is_empty());
    assert!(!edits.is_edited(42));
}
