use netpolicy::engine::{
    compare_numeric, compare_rule, evaluate_ruleset, match_port, match_sni, normalize_state,
    parse_comparator, rule_applies_state, rule_matches, selector_contains_state, specificity,
    Comparator, EngineDecisionKind, MatchContext,
};
use netpolicy::rules::{Action, Match, Rule, RuleError, RuleSet, RuleWhen, StateSelector};
use netpolicy::state::EngineState;

fn any_match() -> Match {
    Match { any: Some(true), ..Match::default() }
}

fn route(name: &str) -> Action {
    Action { route: Some(name.to_string()), ..Action::default() }
}

fn rule(name: &str, priority: i32, matcher: Match, action: Action) -> Rule {
    Rule { name: name.to_string(), priority, matcher, when: None, disable: None, action }
}

fn many(names: &[&str]) -> StateSelector {
    StateSelector::Many(names.iter().map(|s| s.to_string()).collect())
}

fn winner(ruleset: &RuleSet, ctx: &MatchContext, state: EngineState) -> Option<String> {
    let decision = evaluate_ruleset(ruleset, ctx, state).expect("decision should be ok");
    match decision.kind {
        EngineDecisionKind::Action => {
            let rule = decision.rule.expect("rule");
            let action = decision.action.expect("action");
            assert!(std::ptr::eq(action, &rule.action));
            assert!(ruleset.rules.iter().any(|r| std::ptr::eq(r, rule)));
            assert!(rule_applies_state(rule, state));
            assert!(rule_matches(&rule.matcher, ctx));
            Some(rule.name.clone())
        }
        EngineDecisionKind::NoMatch => {
            assert!(decision.rule.is_none());
            assert!(decision.action.is_none());
            None
        }
    }
}

#[test]
fn evaluate_ruleset_picks_highest_priority() {
    let ruleset = RuleSet {
        rules: vec![
            rule("low", 10, any_match(), Action { log: Some(true), ..route("slow") }),
            rule("high", 90, any_match(), route("fast")),
        ],
    };
    let ctx = MatchContext::default();
    let decision =
        evaluate_ruleset(&ruleset, &ctx, EngineState::Normal).expect("decision should be ok");
    assert_eq!(decision.kind, EngineDecisionKind::Action);
    assert_eq!(decision.rule.unwrap().name, "high");
}

#[test]
fn evaluate_ruleset_picks_more_specific_on_tie() {
    let ruleset = RuleSet {
        rules: vec![
            rule("general", 50, any_match(), Action { log: Some(true), ..route("slow") }),
            rule(
                "specific",
                50,
                Match {
                    protocol: Some("tcp".to_string()),
                    port: Some("443".to_string()),
                    ..Match::default()
                },
                route("fast"),
            ),
        ],
    };
    let ctx = MatchContext {
        protocol: Some("tcp".to_string()),
        port: Some(443),
        ..MatchContext::default()
    };
    let decision =
        evaluate_ruleset(&ruleset, &ctx, EngineState::Normal).expect("decision should be ok");
    assert_eq!(decision.rule.unwrap().name, "specific");
}

#[test]
fn evaluate_ruleset_skips_non_matching() {
    let ruleset = RuleSet {
        rules: vec![
            rule(
                "only_udp",
                100,
                Match { protocol: Some("udp".to_string()), ..Match::default() },
                route("slow"),
            ),
            rule(
                "tcp_rule",
                10,
                Match { protocol: Some("tcp".to_string()), ..Match::default() },
                route("fast"),
            ),
        ],
    };
    let ctx = MatchContext { protocol: Some("tcp".to_string()), ..MatchContext::default() };
    let decision =
        evaluate_ruleset(&ruleset, &ctx, EngineState::Normal).expect("decision should be ok");
    assert_eq!(decision.rule.unwrap().name, "tcp_rule");
}

fn gating_ruleset() -> RuleSet {
    RuleSet {
        rules: vec![
            rule("normal_rule", 10, any_match(), route("fast")),
            Rule {
                when: Some(RuleWhen { state: Some(StateSelector::Single("FAILOVER".to_string())) }),
                ..rule(
                    "failover_rule",
                    100,
                    any_match(),
                    Action { switch_route: Some("backup".to_string()), ..Action::default() },
                )
            },
        ],
    }
}

#[test]
fn evaluate_ruleset_respects_state_when() {
    let ruleset = gating_ruleset();
    let ctx = MatchContext::default();
    let decision = evaluate_ruleset(&ruleset, &ctx, EngineState::Failover)
        .expect("decision should be ok");
    assert_eq!(decision.rule.unwrap().name, "failover_rule");
}

#[test]
fn state_gating_falls_back_in_other_states() {
    let ruleset = gating_ruleset();
    let ctx = MatchContext::default();
    assert_eq!(winner(&ruleset, &ctx, EngineState::Normal), Some("normal_rule".to_string()));
    assert_eq!(winner(&ruleset, &ctx, EngineState::Degraded), Some("normal_rule".to_string()));
    assert_eq!(winner(&ruleset, &ctx, EngineState::Failover), Some("failover_rule".to_string()));
}

#[test]
fn evaluate_ruleset_respects_state_disable() {
    let ruleset = RuleSet {
        rules: vec![
            Rule {
                disable: Some(many(&["DEGRADED"])),
                ..rule("disabled_in_degraded", 100, any_match(), route("fast"))
            },
            rule("fallback", 10, any_match(), route("slow")),
        ],
    };
    let ctx = MatchContext::default();
    let decision = evaluate_ruleset(&ruleset, &ctx, EngineState::Degraded)
        .expect("decision should be ok");
    assert_eq!(decision.rule.unwrap().name, "fallback");
    assert_eq!(
        winner(&ruleset, &ctx, EngineState::Normal),
        Some("disabled_in_degraded".to_string())
    );
}

#[test]
fn match_port_supports_ranges_and_lists() {
    let ruleset = RuleSet {
        rules: vec![rule(
            "ssh_and_range",
            10,
            Match { port: Some("22,1000-2000".to_string()), ..Match::default() },
            route("slow"),
        )],
    };
    let ctx = MatchContext { port: Some(1500), ..MatchContext::default() };
    let decision =
        evaluate_ruleset(&ruleset, &ctx, EngineState::Normal).expect("decision should be ok");
    assert_eq!(decision.rule.unwrap().name, "ssh_and_range");
    let miss = MatchContext { port: Some(500), ..MatchContext::default() };
    assert_eq!(winner(&ruleset, &miss, EngineState::Normal), None);
    let absent = MatchContext::default();
    assert_eq!(winner(&ruleset, &absent, EngineState::Normal), None);
}

#[test]
fn inspector_to_engine_flow() {
    let ruleset = RuleSet {
        rules: vec![rule(
            "tcp_rule",
            10,
            Match {
                protocol: Some("tcp".to_string()),
                port: Some("443".to_string()),
                ..Match::default()
            },
            route("direct"),
        )],
    };
    let ctx = MatchContext {
        sni: None,
        protocol: Some("tcp".to_string()),
        port: Some(443),
        latency_ms: None,
        rtt_ms: None,
    };
    let decision = evaluate_ruleset(&ruleset, &ctx, EngineState::Normal).expect("decision");
    assert_eq!(decision.rule.unwrap().name, "tcp_rule");
}

#[test]
fn empty_ruleset_is_refused() {
    let ruleset = RuleSet { rules: Vec::new() };
    match evaluate_ruleset(&ruleset, &MatchContext::default(), EngineState::Normal) {
        Err(RuleError::Invalid(m)) => assert_eq!(m, "rules must not be empty"),
        other => panic!("expected Invalid, got {:?}", other),
    }
}

#[test]
fn port_pattern_accepts_exactly_22_and_1000_to_2000() {
    for p in 0..=u16::MAX {
        assert_eq!(match_port("22,1000-2000", p), p == 22 || (1000..=2000).contains(&p), "{}", p);
    }
}

#[test]
fn port_pattern_edge_cases() {
    assert!(match_port(" 22 , 80 ", 80));
    assert!(match_port("1000 - 2000", 1000));
    assert!(match_port("1000 - 2000", 2000));
    assert!(!match_port("2000-1000", 1500));
    assert!(!match_port("", 0));
    assert!(match_port(",,443", 443));
    assert!(match_port("abc,443", 443));
    assert!(!match_port("abc-443", 443));
    assert!(!match_port("65536", 0));
    assert!(match_port("+22", 22));
    assert!(!match_port("-22", 22));
    assert!(match_port("0-65535", 7));
    assert!(!match_port("1-2-3", 2));
    assert!(match_port("0022", 22));
}

#[test]
fn numeric_predicates_match_their_relation() {
    let samples = [0u32, 1, 99, 100, 101, 120, u32::MAX - 1, u32::MAX];
    for n in samples {
        for v in samples {
            assert_eq!(compare_numeric(&format!(">{}", n), v), v > n);
            assert_eq!(compare_numeric(&format!(">={}", n), v), v >= n);
            assert_eq!(compare_numeric(&format!("<{}", n), v), v < n);
            assert_eq!(compare_numeric(&format!("<={}", n), v), v <= n);
            assert_eq!(compare_numeric(&format!("={}", n), v), v == n);
            assert_eq!(compare_numeric(&format!("=={}", n), v), v == n);
            assert_eq!(compare_numeric(&format!("  >=  {}  ", n), v), v >= n);
        }
    }
}

#[test]
fn numeric_predicates_that_cannot_be_read() {
    assert_eq!(parse_comparator(">100"), Some((Comparator::Gt, 100)));
    assert_eq!(parse_comparator(">=100"), Some((Comparator::Gte, 100)));
    assert_eq!(parse_comparator("<7"), Some((Comparator::Lt, 7)));
    assert_eq!(parse_comparator("<= 7"), Some((Comparator::Lte, 7)));
    assert_eq!(parse_comparator("= 7"), Some((Comparator::Eq, 7)));
    assert_eq!(parse_comparator("==+7"), Some((Comparator::Eq, 7)));
    assert_eq!(parse_comparator("100"), None);
    assert_eq!(parse_comparator(""), None);
    assert_eq!(parse_comparator(">"), None);
    assert_eq!(parse_comparator("> 4294967296"), None);
    assert_eq!(parse_comparator(">-1"), None);
    assert_eq!(parse_comparator("=>1"), None);
    assert_eq!(parse_comparator("===1"), None);
    assert_eq!(parse_comparator("!=1"), None);
    assert_eq!(parse_comparator("> 1 2"), None);
    assert!(!compare_numeric("fast", 1));
    assert!(!compare_numeric("", 0));
}

#[test]
fn sni_patterns() {
    assert!(match_sni("*", Some("example.com")));
    assert!(!match_sni("*", Some("")));
    assert!(!match_sni("*", None));
    assert!(match_sni("*.zoom.us", Some("eu.zoom.us")));
    assert!(match_sni("*.ZOOM.us", Some("EU.Zoom.US")));
    assert!(!match_sni("*.zoom.us", Some("zoom.us")));
    assert!(!match_sni("*.zoom.us", Some("notzoom.us")));
    assert!(!match_sni("*.zoom.us", None));
    assert!(match_sni("cdn*", Some("cdn7.example.com")));
    assert!(match_sni("CDN*", Some("cdn")));
    assert!(!match_sni("cdn*", Some("acdn")));
    assert!(match_sni("Example.com", Some("example.COM")));
    assert!(!match_sni("example.com", Some("example.org")));
    assert!(!match_sni("example.com", None));
    assert!(match_sni("", Some("")));
    assert!(!match_sni("*zoom.us", Some("eu.zoom.us")));
    assert!(match_sni("*zoom.us", Some("*zoom.us")));
}

#[test]
fn match_fields_are_conjoined_and_absent_context_fails() {
    let m = Match {
        sni: Some("*.example.com".to_string()),
        protocol: Some("TCP".to_string()),
        port: Some("443".to_string()),
        latency_ms: Some(">100".to_string()),
        rtt_ms: Some("<=50".to_string()),
        ..Match::default()
    };
    let full = MatchContext {
        sni: Some("a.example.com".to_string()),
        protocol: Some("tcp".to_string()),
        port: Some(443),
        latency_ms: Some(101),
        rtt_ms: Some(50),
    };
    assert!(rule_matches(&m, &full));
    assert!(!rule_matches(&m, &MatchContext { sni: None, ..clone_ctx(&full) }));
    assert!(!rule_matches(&m, &MatchContext { protocol: None, ..clone_ctx(&full) }));
    assert!(!rule_matches(&m, &MatchContext { port: None, ..clone_ctx(&full) }));
    assert!(!rule_matches(&m, &MatchContext { latency_ms: None, ..clone_ctx(&full) }));
    assert!(!rule_matches(&m, &MatchContext { rtt_ms: None, ..clone_ctx(&full) }));
    assert!(!rule_matches(&m, &MatchContext { latency_ms: Some(100), ..clone_ctx(&full) }));
    assert!(!rule_matches(&m, &MatchContext { rtt_ms: Some(51), ..clone_ctx(&full) }));
    assert!(!rule_matches(&m, &MatchContext { port: Some(80), ..clone_ctx(&full) }));
    assert!(!rule_matches(
        &m,
        &MatchContext { protocol: Some("udp".to_string()), ..clone_ctx(&full) }
    ));
    assert!(rule_matches(&Match::default(), &MatchContext::default()));
    let wild = Match { any: Some(true), ..m };
    assert!(rule_matches(&wild, &MatchContext::default()));
    let not_wild = Match { any: Some(false), port: Some("1".to_string()), ..Match::default() };
    assert!(!rule_matches(&not_wild, &MatchContext::default()));
}

fn clone_ctx(c: &MatchContext) -> MatchContext {
    MatchContext {
        sni: c.sni.clone(),
        protocol: c.protocol.clone(),
        port: c.port,
        latency_ms: c.latency_ms,
        rtt_ms: c.rtt_ms,
    }
}

#[test]
fn specificity_counts_fields_and_wildcard_is_zero() {
    let all = Match {
        any: None,
        sni: Some("a".to_string()),
        protocol: Some("b".to_string()),
        port: Some("1".to_string()),
        latency_ms: Some(">1".to_string()),
        rtt_ms: Some(">1".to_string()),
    };
    assert_eq!(specificity(&rule("r", 0, Match::default(), route("x"))), 0);
    assert_eq!(
        specificity(&rule("r", 0, Match { port: Some("1".to_string()), ..Match::default() }, route("x"))),
        1
    );
    let wild = Match { any: Some(true), ..clone_match(&all) };
    let tame = Match { any: Some(false), ..clone_match(&all) };
    assert_eq!(specificity(&rule("r", 0, all, route("x"))), 5);
    assert_eq!(specificity(&rule("r", 0, wild, route("x"))), 0);
    assert_eq!(specificity(&rule("r", 0, tame, route("x"))), 5);
}

fn clone_match(m: &Match) -> Match {
    Match {
        any: m.any,
        sni: m.sni.clone(),
        protocol: m.protocol.clone(),
        port: m.port.clone(),
        latency_ms: m.latency_ms.clone(),
        rtt_ms: m.rtt_ms.clone(),
    }
}

#[test]
fn compare_rule_orders_by_priority_then_specificity() {
    let tcp = || Match { protocol: Some("tcp".to_string()), ..Match::default() };
    let a = rule("a", 5, any_match(), route("x"));
    let b = rule("b", 6, any_match(), route("x"));
    let c = rule("c", 5, tcp(), route("x"));
    let d = rule("d", 5, tcp(), route("y"));
    assert_eq!(compare_rule(&a, &b), -1);
    assert_eq!(compare_rule(&b, &a), 1);
    assert_eq!(compare_rule(&c, &a), 1);
    assert_eq!(compare_rule(&a, &c), -1);
    assert_eq!(compare_rule(&c, &d), 0);
    assert_eq!(compare_rule(&b, &c), 1);
}

#[test]
fn equal_rank_resolves_to_the_first() {
    let tcp = || Match { protocol: Some("tcp".to_string()), ..Match::default() };
    let ruleset = RuleSet {
        rules: vec![
            rule("low", 1, tcp(), route("x")),
            rule("first", 7, tcp(), route("x")),
            rule("second", 7, tcp(), route("y")),
            rule("wild", 7, any_match(), route("z")),
        ],
    };
    let ctx = MatchContext { protocol: Some("tcp".to_string()), ..MatchContext::default() };
    assert_eq!(winner(&ruleset, &ctx, EngineState::Normal), Some("first".to_string()));
    let other = MatchContext { protocol: Some("udp".to_string()), ..MatchContext::default() };
    assert_eq!(winner(&ruleset, &other, EngineState::Normal), Some("wild".to_string()));
    let again = winner(&ruleset, &ctx, EngineState::Normal);
    assert_eq!(again, Some("first".to_string()));
}

#[test]
fn disable_wins_over_when() {
    for state in [EngineState::Normal, EngineState::Degraded, EngineState::Failover, EngineState::Recovery] {
        let both = Rule {
            when: Some(RuleWhen { state: Some(many(&["normal", "degraded", "failover", "recovery"])) }),
            disable: Some(many(&["NORMAL", "DEGRADED", "FAILOVER", "RECOVERY"])),
            ..rule("r", 1, any_match(), route("x"))
        };
        assert!(!rule_applies_state(&both, state));
    }
    let r = Rule {
        when: Some(RuleWhen { state: Some(StateSelector::Single(" degraded ".to_string())) }),
        disable: Some(StateSelector::Single("failover".to_string())),
        ..rule("r", 1, any_match(), route("x"))
    };
    assert!(rule_applies_state(&r, EngineState::Degraded));
    assert!(!rule_applies_state(&r, EngineState::Failover));
    assert!(!rule_applies_state(&r, EngineState::Normal));
    let empty_when = Rule { when: Some(RuleWhen { state: None }), ..rule("r", 1, any_match(), route("x")) };
    assert!(rule_applies_state(&empty_when, EngineState::Recovery));
    let never = Rule { when: Some(RuleWhen { state: Some(many(&[])) }), ..rule("r", 1, any_match(), route("x")) };
    assert!(!rule_applies_state(&never, EngineState::Normal));
}

#[test]
fn selectors_ignore_case_and_space() {
    assert!(selector_contains_state(&StateSelector::Single("  Normal\t".to_string()), EngineState::Normal));
    assert!(!selector_contains_state(&StateSelector::Single("Normal".to_string()), EngineState::Degraded));
    assert!(selector_contains_state(&many(&["x", "recovery"]), EngineState::Recovery));
    assert!(!selector_contains_state(&many(&["x", "recovery"]), EngineState::Failover));
    assert_eq!(normalize_state("  faiLover "), "FAILOVER");
}
