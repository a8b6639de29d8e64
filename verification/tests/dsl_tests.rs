use netpolicy::dsl::{
    parse_action_line, parse_dsl, parse_match_line, parse_state_selector, strip_quotes, DslError,
};
use netpolicy::rules::{validate_ruleset, Action, Match, RuleSet, StateSelector};

fn message(r: Result<RuleSet, DslError>) -> String {
    match r {
        Err(DslError::Invalid(m)) => m,
        Ok(_) => panic!("expected an error"),
    }
}

fn line_message(r: Result<(), DslError>) -> String {
    match r {
        Err(DslError::Invalid(m)) => m,
        Ok(_) => panic!("expected an error"),
    }
}

#[test]
fn parse_dsl_basic_rule() {
    let input = r#"
rule zoom_priority:
  priority 100
  match sni="*.zoom.us" protocol=tcp port=443
  action route=tunnel_fast log=true
  when state=DEGRADED,FAILOVER
"#;
    let ruleset = parse_dsl(input).expect("dsl parsed");
    assert_eq!(ruleset.rules.len(), 1);
    assert_eq!(ruleset.rules[0].priority, 100);
}

#[test]
fn parse_dsl_fills_every_field() {
    let input = "# policy\r\nrule  zoom : \r\n priority +7\r\n match sni='*.zoom.us' protocol=\"tcp\" port=443 latency_ms=>100 rtt_ms=<=20\r\n action switch_route=backup log=false\r\n when state= degraded , failover ,\r\n disable state=normal\r\n\r\nrule rest:\n match any\n action block\n";
    let ruleset = parse_dsl(input).expect("dsl parsed");
    assert!(validate_ruleset(&ruleset).is_ok());
    assert_eq!(ruleset.rules.len(), 2);
    let r = &ruleset.rules[0];
    assert_eq!(r.name, "zoom");
    assert_eq!(r.priority, 7);
    assert_eq!(r.matcher.any, None);
    assert_eq!(r.matcher.sni.as_deref(), Some("*.zoom.us"));
    assert_eq!(r.matcher.protocol.as_deref(), Some("tcp"));
    assert_eq!(r.matcher.port.as_deref(), Some("443"));
    assert_eq!(r.matcher.latency_ms.as_deref(), Some(">100"));
    assert_eq!(r.matcher.rtt_ms.as_deref(), Some("<=20"));
    assert_eq!(r.action.switch_route.as_deref(), Some("backup"));
    assert_eq!(r.action.route, None);
    assert_eq!(r.action.log, Some(false));
    match r.when.as_ref().and_then(|w| w.state.as_ref()) {
        Some(StateSelector::Many(list)) => {
            assert_eq!(list, &vec!["degraded".to_string(), "failover".to_string()])
        }
        other => panic!("expected a list, got {:?}", other),
    }
    match &r.disable {
        Some(StateSelector::Single(s)) => assert_eq!(s, "normal"),
        other => panic!("expected a single state, got {:?}", other),
    }
    let r = &ruleset.rules[1];
    assert_eq!(r.name, "rest");
    assert_eq!(r.priority, 0);
    assert_eq!(r.matcher.any, Some(true));
    assert_eq!(r.action.block, Some(true));
    assert!(r.when.is_none());
    assert!(r.disable.is_none());
}

#[test]
fn parse_dsl_faults_name_the_line() {
    assert_eq!(message(parse_dsl("")), "no rules defined");
    assert_eq!(message(parse_dsl("# nothing\n\n   \n")), "no rules defined");
    assert_eq!(message(parse_dsl("\npriority 1\n")), "line 2: content must be inside a rule block");
    assert_eq!(message(parse_dsl("rule")), "line 1: content must be inside a rule block");
    assert_eq!(message(parse_dsl("rule :\n")), "line 1: rule name is required");
    assert_eq!(message(parse_dsl("rule a:\nrule rule ::")), "line 2: rule name is required");
    assert_eq!(message(parse_dsl("rule a:\n priority x")), "line 2: invalid priority");
    assert_eq!(message(parse_dsl("rule a:\n priority 2147483648")), "line 2: invalid priority");
    assert_eq!(message(parse_dsl("rule a:\n\n\n route x")), "line 4: unknown directive");
    assert_eq!(message(parse_dsl("rule a:\n priority")), "line 2: unknown directive");
    assert_eq!(message(parse_dsl("rule a:\n match port")), "line 2: invalid match token");
    assert_eq!(message(parse_dsl("rule a:\n match host=x")), "line 2: unknown match key host");
    assert_eq!(message(parse_dsl("rule a:\n match any\n action drop")), "line 3: invalid action token");
    assert_eq!(message(parse_dsl("rule a:\n action block=false")), "line 2: unknown action key block");
    assert_eq!(message(parse_dsl("rule a:\n when state=")), "line 2: state value is required");
    assert_eq!(message(parse_dsl("rule a:\n disable   state=")), "line 2: state value is required");
    assert_eq!(message(parse_dsl("rule a:\n disable x")), "invalid state value: x");
    assert_eq!(message(parse_dsl("rule a:\n match any\n action block\n bogus 1\nrule b:")), "line 4: unknown directive");
}

#[test]
fn parse_dsl_results_pass_validation() {
    assert_eq!(message(parse_dsl("rule a:\n priority -1\n match any\n action block")), "priority must be >= 0");
    assert_eq!(
        message(parse_dsl("rule a:\n action block")),
        "match must contain at least one field or any: true"
    );
    assert_eq!(message(parse_dsl("rule a:\n match any")), "action must include one primary action");
    assert_eq!(
        message(parse_dsl("rule a:\n match any\n action block route=x")),
        "action must not include multiple primary actions"
    );
    assert_eq!(
        message(parse_dsl("rule a:\n match port=80-20\n action block")),
        "invalid port range (start > end): 80-20"
    );
    assert_eq!(
        message(parse_dsl("rule a:\n match any\n action block\n when state=up")),
        "invalid state value: up"
    );
    assert_eq!(
        message(parse_dsl("rule a:\n match any\n action block\n when state=,")),
        "state list must not be empty"
    );
    assert_eq!(
        message(parse_dsl("rule a:\n match any port=9-1\n action block")),
        "invalid port range (start > end): 9-1"
    );
    assert_eq!(
        message(parse_dsl("rule a:\n match port=x any=true\n action block")),
        "invalid port value: x"
    );
    let wild = parse_dsl("rule a:\n match any port=1-9\n action block").expect("parsed");
    assert_eq!(wild.rules[0].matcher.any, Some(true));
    assert_eq!(wild.rules[0].matcher.port.as_deref(), Some("1-9"));
    let ok = parse_dsl("rule a:\n match any\n action block\n priority -0").expect("parsed");
    assert_eq!(ok.rules[0].priority, 0);
}

#[test]
fn match_lines() {
    let mut m = Match::default();
    assert!(parse_match_line("match any=true sni=a", &mut m, 1).is_ok());
    assert_eq!(m.any, Some(true));
    assert_eq!(m.sni.as_deref(), Some("a"));
    let mut m = Match::default();
    assert!(parse_match_line("match match port=\"22,80\"  port='443'", &mut m, 1).is_ok());
    assert_eq!(m.port.as_deref(), Some("443"));
    let mut m = Match::default();
    assert_eq!(line_message(parse_match_line("match sni=a bogus rtt_ms=1", &mut m, 9)), "line 9: invalid match token");
    assert_eq!(m.sni.as_deref(), Some("a"));
    assert_eq!(m.rtt_ms, None);
    let mut m = Match::default();
    assert_eq!(line_message(parse_match_line("match ", &mut m, 3)), "line 3: match needs fields");
    assert_eq!(line_message(parse_match_line("match x=1", &mut m, 12)), "line 12: unknown match key x");
    assert_eq!(line_message(parse_match_line("match any=false", &mut m, 1)), "line 1: unknown match key any");
    let mut m = Match::default();
    assert!(parse_match_line("sni=a=b", &mut m, 1).is_ok());
    assert_eq!(m.sni.as_deref(), Some("a=b"));
}

#[test]
fn action_lines() {
    let mut a = Action::default();
    assert!(parse_action_line("action route=fast log", &mut a, 1).is_ok());
    assert_eq!(a.route.as_deref(), Some("fast"));
    assert_eq!(a.log, Some(true));
    let mut a = Action::default();
    assert!(parse_action_line("action block=true throttle='bulk' switch_route=\"b\" log=yes", &mut a, 1).is_ok());
    assert_eq!(a.block, Some(true));
    assert_eq!(a.throttle.as_deref(), Some("bulk"));
    assert_eq!(a.switch_route.as_deref(), Some("b"));
    assert_eq!(a.log, Some(false));
    let mut a = Action::default();
    assert!(parse_action_line("action log='true'", &mut a, 1).is_ok());
    assert_eq!(a.log, Some(true));
    let mut a = Action::default();
    assert_eq!(line_message(parse_action_line("action ", &mut a, 2)), "line 2: action needs fields");
    assert_eq!(line_message(parse_action_line("action", &mut a, 2)), "line 2: invalid action token");
    assert_eq!(line_message(parse_action_line("action route", &mut a, 2)), "line 2: invalid action token");
    assert_eq!(
        line_message(parse_action_line("action throttle=x mark=1 route=y", &mut a, 2)),
        "line 2: unknown action key mark"
    );
    assert_eq!(a.throttle.as_deref(), Some("x"));
    assert_eq!(a.route, None);
}

#[test]
fn state_selectors() {
    let single = |r: Result<StateSelector, DslError>| match r {
        Ok(StateSelector::Single(s)) => s,
        other => panic!("expected a single state, got {:?}", other),
    };
    let list = |r: Result<StateSelector, DslError>| match r {
        Ok(StateSelector::Many(l)) => l,
        other => panic!("expected a list, got {:?}", other),
    };
    assert_eq!(single(parse_state_selector("when state=NORMAL", 1)), "NORMAL");
    assert_eq!(single(parse_state_selector("when NORMAL", 1)), "NORMAL");
    assert_eq!(single(parse_state_selector("disable   state=a,", 1)), "a");
    assert_eq!(list(parse_state_selector("when state=a,b", 1)), vec!["a".to_string(), "b".to_string()]);
    assert_eq!(list(parse_state_selector("when state=a , b", 1)), vec!["a".to_string(), "b".to_string()]);
    assert_eq!(list(parse_state_selector("when a b,c", 1)), vec!["a b".to_string(), "c".to_string()]);
    assert_eq!(list(parse_state_selector("when ,", 1)), Vec::<String>::new());
    assert_eq!(single(parse_state_selector("when state=state=a", 1)), "state=a");
    match parse_state_selector("when", 7) {
        Err(DslError::Invalid(m)) => assert_eq!(m, "line 7: state value is required"),
        other => panic!("expected an error, got {:?}", other),
    }
    match parse_state_selector("", 8) {
        Err(DslError::Invalid(m)) => assert_eq!(m, "line 8: state value is required"),
        other => panic!("expected an error, got {:?}", other),
    }
}

#[test]
fn quotes_are_stripped_in_pairs() {
    assert_eq!(strip_quotes("\"a b\""), "a b");
    assert_eq!(strip_quotes("'a'"), "a");
    assert_eq!(strip_quotes("  'a'  "), "a");
    assert_eq!(strip_quotes("a"), "a");
    assert_eq!(strip_quotes("\"a'"), "\"a'");
    assert_eq!(strip_quotes("\"\""), "");
    assert_eq!(strip_quotes("\""), "\"");
    assert_eq!(strip_quotes("'"), "'");
    assert_eq!(strip_quotes("\"\"a\"\""), "\"a\"");
    assert_eq!(strip_quotes(""), "");
}
