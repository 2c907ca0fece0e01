use gravity::firing::{fire_plan, fire_step, FirePlan, FireStep};
use gravity::players::find_player_entity;

#[test]
fn pressing_charges_holding_accelerates_releasing_fires() {
    assert_eq!(fire_step(true, false, false, false), FireStep::Charge);
    assert_eq!(fire_step(true, true, true, true), FireStep::Charge);
    assert_eq!(fire_step(false, true, true, true), FireStep::Accelerate);
    assert_eq!(fire_step(false, false, true, true), FireStep::Release);
    assert_eq!(fire_step(false, false, true, false), FireStep::Idle);
    assert_eq!(fire_step(false, false, false, true), FireStep::Idle);
}

#[test]
fn firing_throws_what_is_held() {
    assert_eq!(fire_plan(false, false), FirePlan::SpawnProjectile);
    assert_eq!(fire_plan(true, true), FirePlan::ThrowHeld);
    assert_eq!(fire_plan(true, false), FirePlan::CancelGrab);
    assert!(FirePlan::SpawnProjectile.fires());
    assert!(FirePlan::ThrowHeld.fires());
    assert!(!FirePlan::CancelGrab.fires());
}

#[test]
fn the_first_player_of_the_user_is_found() {
    let players = vec![(10u64, 1u128), (11, 2), (12, 2)];
    assert_eq!(find_player_entity(&players, 2), Some(11));
    assert_eq!(find_player_entity(&players, 1), Some(10));
    assert_eq!(find_player_entity(&players, 3), None);
    assert_eq!(find_player_entity(&vec![], 0), None);
}
