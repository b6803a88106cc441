use game_in_rust::shot::Shot;

#[test]
fn shot_expires_when_its_time_runs_out() {
    let mut s = Shot::new(7, 100);
    assert_eq!(s, Shot { entity_id: 7, time_remaining: 100, expired: false, used: false });
    s.update(40);
    assert_eq!(s.time_remaining, 60);
    assert!(!s.expired);
    s.update(60);
    assert_eq!(s.time_remaining, 0);
    assert!(s.expired);
    s.update(-5);
    assert_eq!(s.time_remaining, 5);
    assert!(!s.expired);
}

#[test]
fn shot_with_no_lifetime_expires_at_first_update() {
    let mut s = Shot::new(1, 0);
    assert!(!s.expired);
    s.update(0);
    assert!(s.expired);
}
