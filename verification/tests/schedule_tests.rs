use netpolicy::schedule::{floor_secs, reload_due, INTERVAL_FLOOR_SECS};

#[test]
fn reload_is_due_on_a_first_or_newer_time() {
    assert!(reload_due(None, Some(5)));
    assert!(reload_due(None, Some(-5)));
    assert!(reload_due(Some(5), Some(6)));
    assert!(reload_due(Some(-6), Some(-5)));
    assert!(!reload_due(Some(5), Some(5)));
    assert!(!reload_due(Some(6), Some(5)));
    assert!(!reload_due(Some(5), None));
    assert!(!reload_due(None, None));
    assert!(reload_due(Some(i128::MIN), Some(i128::MAX)));
    assert!(!reload_due(Some(i128::MAX), Some(i128::MIN)));
}

#[test]
fn intervals_are_floored_at_one_second() {
    assert_eq!(INTERVAL_FLOOR_SECS, 1);
    assert_eq!(floor_secs(0), 1);
    assert_eq!(floor_secs(1), 1);
    assert_eq!(floor_secs(2), 2);
    assert_eq!(floor_secs(3), 3);
    assert_eq!(floor_secs(u64::MAX), u64::MAX);
}
