use netpolicy::telemetry::Telemetry;

#[test]
fn counters_start_at_zero() {
    let s = Telemetry::new().snapshot();
    assert_eq!(
        (s.decisions, s.matches, s.xray_start, s.xray_stop, s.xray_restart, s.errors),
        (0, 0, 0, 0, 0, 0)
    );
    assert_eq!(s.last_error, None);
}

#[test]
fn each_record_moves_its_own_counter() {
    let mut t = Telemetry::new();
    t.record_decision(true);
    t.record_decision(false);
    t.record_decision(true);
    t.record_xray_start();
    t.record_xray_stop();
    t.record_xray_stop();
    t.record_xray_restart();
    t.record_xray_restart();
    t.record_xray_restart();
    t.record_error("first".to_string());
    t.record_error("second".to_string());
    let s = t.snapshot();
    assert_eq!(s.decisions, 3);
    assert_eq!(s.matches, 2);
    assert_eq!(s.xray_start, 1);
    assert_eq!(s.xray_stop, 2);
    assert_eq!(s.xray_restart, 3);
    assert_eq!(s.errors, 2);
    assert_eq!(s.last_error, Some("second".to_string()));
    let again = t.snapshot();
    assert_eq!(again.decisions, 3);
    assert_eq!(again.last_error, Some("second".to_string()));
}
