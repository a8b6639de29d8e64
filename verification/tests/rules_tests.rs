use netpolicy::rules::{
    accept_decoded, validate_action, validate_match, validate_port_pattern, validate_rule,
    validate_ruleset, validate_state_selector, validate_state_value, Action, Match, Rule,
    RuleError, RuleSet, RuleWhen, StateSelector,
};

fn rule(name: &str, priority: i32, matcher: Match, action: Action) -> Rule {
    Rule { name: name.to_string(), priority, matcher, when: None, disable: None, action }
}

fn any_match() -> Match {
    Match { any: Some(true), ..Match::default() }
}

fn route(name: &str) -> Action {
    Action { route: Some(name.to_string()), ..Action::default() }
}

fn invalid(r: Result<(), RuleError>) -> String {
    match r {
        Err(RuleError::Invalid(m)) => m,
        other => panic!("expected invalid error, got {:?}", other),
    }
}

#[test]
fn parse_ruleset_ok() {
    let decoded = RuleSet {
        rules: vec![rule(
            "zoom_priority",
            100,
            Match {
                sni: Some("*.zoom.us".to_string()),
                protocol: Some("tcp".to_string()),
                ..Match::default()
            },
            route("tunnel_fast"),
        )],
    };
    let ruleset = accept_decoded(Ok(decoded)).expect("ruleset should parse");
    assert_eq!(ruleset.rules.len(), 1);
    assert_eq!(ruleset.rules[0].name, "zoom_priority");
}

#[test]
fn validate_match_requires_fields() {
    let decoded = RuleSet {
        rules: vec![rule(
            "empty_match",
            10,
            Match::default(),
            Action { log: Some(true), ..Action::default() },
        )],
    };
    let err = accept_decoded(Ok(decoded)).unwrap_err();
    match err {
        RuleError::Invalid(msg) => {
            assert!(msg.contains("match must contain"));
        }
        _ => panic!("expected invalid error"),
    }
}

#[test]
fn validate_action_single_primary() {
    let decoded = RuleSet {
        rules: vec![rule(
            "double_action",
            10,
            any_match(),
            Action { block: Some(true), ..route("tunnel_fast") },
        )],
    };
    let err = accept_decoded(Ok(decoded)).unwrap_err();
    match err {
        RuleError::Invalid(msg) => {
            assert!(msg.contains("multiple primary actions"));
        }
        _ => panic!("expected invalid error"),
    }
}

#[test]
fn validate_any_true_ok() {
    let decoded = RuleSet {
        rules: vec![rule("any_rule", 10, any_match(), Action { log: Some(true), ..route("slow") })],
    };
    let ruleset = accept_decoded(Ok(decoded)).expect("any true should be valid");
    assert_eq!(ruleset.rules.len(), 1);
}

#[test]
fn decoding_failure_becomes_yaml_error() {
    match accept_decoded(Err("bad indentation at line 3".to_string())) {
        Err(RuleError::Yaml(m)) => assert_eq!(m, "bad indentation at line 3"),
        other => panic!("expected Yaml, got {:?}", other),
    }
}

#[test]
fn ruleset_faults_exact() {
    assert_eq!(invalid(validate_ruleset(&RuleSet { rules: Vec::new() })), "rules must not be empty");
    let second_bad = RuleSet {
        rules: vec![
            rule("ok", 1, any_match(), route("a")),
            rule("bad", -1, any_match(), route("a")),
            rule("", 1, any_match(), route("a")),
        ],
    };
    assert_eq!(invalid(validate_ruleset(&second_bad)), "priority must be >= 0");
    let fine = RuleSet { rules: vec![rule("ok", 0, any_match(), route("a"))] };
    assert!(validate_ruleset(&fine).is_ok());
}

#[test]
fn rule_faults_in_order() {
    let bad_sel = || StateSelector::Single("BROKEN".to_string());
    let everything_wrong = Rule {
        name: "  ".to_string(),
        priority: -5,
        matcher: Match::default(),
        when: Some(RuleWhen { state: Some(bad_sel()) }),
        disable: Some(StateSelector::Many(Vec::new())),
        action: Action::default(),
    };
    assert_eq!(invalid(validate_rule(&everything_wrong)), "rule name is required");
    let r = Rule { name: "n".to_string(), ..everything_wrong };
    assert_eq!(invalid(validate_rule(&r)), "priority must be >= 0");
    let r = Rule { priority: 0, ..r };
    assert_eq!(invalid(validate_rule(&r)), "invalid state value: BROKEN");
    let r = Rule { when: Some(RuleWhen { state: None }), ..r };
    assert_eq!(invalid(validate_rule(&r)), "state list must not be empty");
    let r = Rule { disable: None, ..r };
    assert_eq!(invalid(validate_rule(&r)), "match must contain at least one field or any: true");
    let r = Rule { matcher: any_match(), ..r };
    assert_eq!(invalid(validate_rule(&r)), "action must include one primary action");
    let r = Rule { action: route("x"), ..r };
    assert!(validate_rule(&r).is_ok());
}

#[test]
fn state_values_and_selectors() {
    for ok in ["NORMAL", "degraded", " Failover ", "recovery\n"] {
        assert!(validate_state_value(ok).is_ok(), "{}", ok);
    }
    assert_eq!(invalid(validate_state_value("")), "invalid state value: ");
    assert_eq!(invalid(validate_state_value(" up ")), "invalid state value:  up ");
    assert_eq!(invalid(validate_state_value("NORMAL,DEGRADED")), "invalid state value: NORMAL,DEGRADED");
    assert!(validate_state_selector(&StateSelector::Single("normal".to_string())).is_ok());
    assert_eq!(
        invalid(validate_state_selector(&StateSelector::Many(Vec::new()))),
        "state list must not be empty"
    );
    let list = StateSelector::Many(vec!["normal".to_string(), "x".to_string(), "y".to_string()]);
    assert_eq!(invalid(validate_state_selector(&list)), "invalid state value: x");
    let list = StateSelector::Many(vec!["normal".to_string(), "RECOVERY".to_string()]);
    assert!(validate_state_selector(&list).is_ok());
}

#[test]
fn port_patterns() {
    for ok in ["22", "22,1000-2000", " 22 , 1000 - 2000 ", "0-65535", "5-5", "+1"] {
        assert!(validate_port_pattern(ok).is_ok(), "{}", ok);
    }
    assert_eq!(invalid(validate_port_pattern("")), "port pattern must not contain empty entries");
    assert_eq!(invalid(validate_port_pattern("22,")), "port pattern must not contain empty entries");
    assert_eq!(invalid(validate_port_pattern("22, ,23")), "port pattern must not contain empty entries");
    assert_eq!(invalid(validate_port_pattern("22,http")), "invalid port value: http");
    assert_eq!(invalid(validate_port_pattern("65536")), "invalid port value: 65536");
    assert_eq!(invalid(validate_port_pattern(" a -10")), "invalid port range start: a ");
    assert_eq!(invalid(validate_port_pattern("10- b")), "invalid port range end:  b");
    assert_eq!(invalid(validate_port_pattern("10-")), "invalid port range end: ");
    assert_eq!(invalid(validate_port_pattern("-10")), "invalid port range start: ");
    assert_eq!(invalid(validate_port_pattern("1-2-3")), "invalid port range end: 2-3");
    assert_eq!(
        invalid(validate_port_pattern("22, 2000-1000 ")),
        "invalid port range (start > end): 2000-1000"
    );
}

#[test]
fn wildcard_rule_with_reversed_port_range_is_refused() {
    let ruleset = RuleSet {
        rules: vec![Rule {
            name: "r".to_string(),
            priority: 1,
            matcher: Match {
                any: Some(true),
                port: Some("2000-1000".to_string()),
                ..Match::default()
            },
            when: None,
            disable: None,
            action: route("a"),
        }],
    };
    assert_eq!(
        invalid(validate_ruleset(&ruleset)),
        "invalid port range (start > end): 2000-1000"
    );
    match accept_decoded(Ok(ruleset)) {
        Err(RuleError::Invalid(m)) => assert_eq!(m, "invalid port range (start > end): 2000-1000"),
        other => panic!("expected invalid error, got {:?}", other),
    }
}

#[test]
fn match_validation() {
    assert!(validate_match(&any_match()).is_ok());
    let wild_bad_port = Match { any: Some(true), port: Some("x".to_string()), ..Match::default() };
    assert_eq!(invalid(validate_match(&wild_bad_port)), "invalid port value: x");
    let wild_reversed =
        Match { any: Some(true), port: Some("2000-1000".to_string()), ..Match::default() };
    assert_eq!(
        invalid(validate_match(&wild_reversed)),
        "invalid port range (start > end): 2000-1000"
    );
    let wild_good_port =
        Match { any: Some(true), port: Some("22,1000-2000".to_string()), ..Match::default() };
    assert!(validate_match(&wild_good_port).is_ok());
    let tame_bad_port = Match { any: Some(false), port: Some("x".to_string()), ..Match::default() };
    assert_eq!(invalid(validate_match(&tame_bad_port)), "invalid port value: x");
    let only_any_false = Match { any: Some(false), ..Match::default() };
    assert_eq!(
        invalid(validate_match(&only_any_false)),
        "match must contain at least one field or any: true"
    );
    for m in [
        Match { sni: Some("x".to_string()), ..Match::default() },
        Match { protocol: Some("x".to_string()), ..Match::default() },
        Match { port: Some("1".to_string()), ..Match::default() },
        Match { latency_ms: Some("whatever".to_string()), ..Match::default() },
        Match { rtt_ms: Some(">1".to_string()), ..Match::default() },
    ] {
        assert!(validate_match(&m).is_ok());
    }
}

#[test]
fn action_validation() {
    assert_eq!(invalid(validate_action(&Action::default())), "action must include one primary action");
    let log_only = Action { log: Some(true), ..Action::default() };
    assert_eq!(invalid(validate_action(&log_only)), "action must include one primary action");
    let block_off = Action { block: Some(false), ..Action::default() };
    assert_eq!(invalid(validate_action(&block_off)), "action must include one primary action");
    for a in [
        route("x"),
        Action { switch_route: Some("x".to_string()), ..Action::default() },
        Action { block: Some(true), ..Action::default() },
        Action { throttle: Some("x".to_string()), log: Some(true), ..Action::default() },
        Action { block: Some(false), ..route("x") },
    ] {
        assert!(validate_action(&a).is_ok());
    }
    for a in [
        Action { switch_route: Some("y".to_string()), ..route("x") },
        Action { throttle: Some("y".to_string()), block: Some(true), ..Action::default() },
        Action { throttle: Some("y".to_string()), ..route("x") },
    ] {
        assert_eq!(invalid(validate_action(&a)), "action must not include multiple primary actions");
    }
}
