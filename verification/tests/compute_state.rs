use gravity::compute_state::GravityComputeState;

#[test]
fn default_state_is_dirty_and_forced() {
    let s = GravityComputeState::default();
    assert!(s.is_dirty());
    assert!(s.is_run_once());
}

#[test]
fn clean_settles_the_state() {
    let mut s = GravityComputeState::default();
    s.clean();
    assert!(!s.is_dirty());
    assert!(!s.is_run_once());
}

#[test]
fn touch_after_clean_makes_dirty_without_forcing() {
    let mut s = GravityComputeState::default();
    s.clean();
    s.touch();
    assert!(s.is_dirty());
    assert!(!s.is_run_once());
}

#[test]
fn touch_twice_then_clean_is_clean() {
    let mut s = GravityComputeState::default();
    s.clean();
    s.touch();
    s.touch();
    assert!(s.is_dirty());
    s.clean();
    assert!(!s.is_dirty());
}

#[test]
fn run_once_forces_a_pass() {
    let mut s = GravityComputeState::default();
    s.clean();
    s.run_once();
    assert!(s.is_dirty());
    assert!(s.is_run_once());
    s.clean();
    assert!(!s.is_dirty());
}
