use bevy::ecs::entity::Entity;
use gravity::entity_bits::{
    collisions_to_report, combine_halves, decode_collision, decode_entity, CollisionRecord,
    PointIdentity,
};

#[test]
fn combine_halves_puts_high_half_on_top() {
    assert_eq!(combine_halves(0x1234_5678, 0x9abc_def0), 0x1234_5678_9abc_def0);
    assert_eq!(combine_halves(0, 1), 1);
    assert_eq!(combine_halves(1, 0), 1u64 << 32);
}

#[test]
fn with_entity_splits_the_bits() {
    let id = PointIdentity::with_entity(0xdead_beef_0000_0007);
    assert_eq!(id.ent_hi, 0xdead_beef);
    assert_eq!(id.ent_lo, 7);
    assert_eq!(id.try_get_entity(), Some(0xdead_beef_0000_0007));
}

#[test]
fn real_entities_round_trip_through_a_slot() {
    let ent = Entity::from_raw_u32(41).unwrap();
    let bits = ent.to_bits();
    let id = PointIdentity::with_entity(bits);
    assert_eq!(id.try_get_entity(), Some(bits));
    assert_eq!(Entity::from_bits(id.try_get_entity().unwrap()), ent);
}

#[test]
fn an_all_zero_slot_names_no_entity() {
    let id = PointIdentity { ent_hi: 0, ent_lo: 0 };
    assert_eq!(id.try_get_entity(), None);
    let id = PointIdentity { ent_hi: 5, ent_lo: 0 };
    assert_eq!(id.try_get_entity(), None);
}

#[test]
fn decode_entity_checks_the_low_half() {
    assert_eq!(decode_entity(0), None);
    assert_eq!(decode_entity(7u64 << 32), None);
    assert_eq!(decode_entity(3), Some(3));
    let placeholder = Entity::PLACEHOLDER.to_bits();
    assert_eq!(decode_entity(placeholder), Some(placeholder));
}

#[test]
fn a_collision_record_names_two_entities() {
    let c = CollisionRecord { x: 1, y: 2, z: 3, w: 4 };
    assert_eq!(decode_collision(&c), Some(((2u64 << 32) | 1, (4u64 << 32) | 3)));
    let bad_first = CollisionRecord { x: 0, y: 2, z: 3, w: 4 };
    assert_eq!(decode_collision(&bad_first), None);
    let bad_second = CollisionRecord { x: 1, y: 2, z: 0, w: 4 };
    assert_eq!(decode_collision(&bad_second), None);
}

#[test]
fn only_the_counted_collisions_are_reported() {
    let records = vec![
        CollisionRecord { x: 1, y: 0, z: 2, w: 0 },
        CollisionRecord { x: 0, y: 0, z: 0, w: 0 },
        CollisionRecord { x: 3, y: 1, z: 4, w: 1 },
        CollisionRecord { x: 5, y: 0, z: 6, w: 0 },
    ];
    assert_eq!(collisions_to_report(&records, 0), vec![]);
    assert_eq!(collisions_to_report(&records, 3), vec![(1, 2), ((1u64 << 32) | 3, (1u64 << 32) | 4)]);
    assert_eq!(
        collisions_to_report(&records, 100),
        vec![(1, 2), ((1u64 << 32) | 3, (1u64 << 32) | 4), (5, 6)]
    );
}
