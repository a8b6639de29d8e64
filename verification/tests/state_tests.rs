use netpolicy::state::EngineState::{Degraded, Failover, Normal, Recovery};
use netpolicy::state::{parse_state, state_to_str, step, EngineState, StateMachine};

fn error_high(error_rate: Option<f32>) -> bool {
    error_rate.unwrap_or(0.0) > 0.05
}

#[test]
fn transition_to_degraded_on_high_latency() {
    let mut sm = StateMachine::new();
    sm.transition(Some(200), error_high(None));
    assert_eq!(sm.state(), EngineState::Degraded);
}

#[test]
fn recovery_to_normal_on_clear_conditions() {
    let mut sm = StateMachine::new();
    sm.set_state(EngineState::Recovery);
    sm.transition(Some(10), error_high(Some(0.0)));
    assert_eq!(sm.state(), EngineState::Normal);
}

#[test]
fn transition_table() {
    let table = [
        (Normal, Degraded, Normal),
        (Degraded, Failover, Recovery),
        (Failover, Failover, Recovery),
        (Recovery, Degraded, Normal),
    ];
    for (from, bad, good) in table {
        assert_eq!(step(from, true), bad);
        assert_eq!(step(from, false), good);
        for (latency, errors, expect) in [
            (Some(121), false, bad),
            (Some(120), false, good),
            (Some(0), false, good),
            (None, false, good),
            (None, true, bad),
            (Some(120), true, bad),
            (Some(u32::MAX), true, bad),
        ] {
            let mut sm = StateMachine::new();
            sm.set_state(from);
            sm.transition(latency, errors);
            assert_eq!(sm.state(), expect, "{:?} {:?} {}", from, latency, errors);
        }
    }
}

#[test]
fn new_machine_is_normal() {
    assert_eq!(StateMachine::new().state(), EngineState::Normal);
}

#[test]
fn state_names() {
    assert_eq!(state_to_str(EngineState::Normal), "NORMAL");
    assert_eq!(state_to_str(EngineState::Degraded), "DEGRADED");
    assert_eq!(state_to_str(EngineState::Failover), "FAILOVER");
    assert_eq!(state_to_str(EngineState::Recovery), "RECOVERY");
    assert_eq!(parse_state("normal"), Ok(EngineState::Normal));
    assert_eq!(parse_state(" DEGRADED "), Ok(EngineState::Degraded));
    assert_eq!(parse_state("FailOver"), Ok(EngineState::Failover));
    assert_eq!(parse_state("recovery\n"), Ok(EngineState::Recovery));
    assert_eq!(
        parse_state("down"),
        Err("invalid --state value (normal|degraded|failover|recovery)".to_string())
    );
    assert!(parse_state("").is_err());
}
