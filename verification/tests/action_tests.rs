use netpolicy::action_backend::{
    match_fragment, parse_backend, render_backend, render_iptables, render_nftables, route_mark,
    BackendKind, IptRuleStyle,
};
use netpolicy::actions::{action_summary, plan_action, ActionDecision, ActionKind};
use netpolicy::engine::MatchContext;
use netpolicy::rules::{Action, Match, Rule};
use std::collections::hash_map::DefaultHasher;
use std::hash::{Hash, Hasher};

fn expected_mark(name: &str) -> String {
    let mut hasher = DefaultHasher::new();
    name.hash(&mut hasher);
    format!("0x{:x}", hasher.finish() & 0xffff)
}

#[test]
fn render_iptables_block() {
    let ctx = MatchContext {
        protocol: Some("tcp".to_string()),
        port: Some(443),
        ..MatchContext::default()
    };
    let decision = ActionDecision {
        kind: ActionKind::Block,
        log: false,
    };
    let plan = render_backend(BackendKind::Iptables, &ctx, &decision);
    assert!(plan.commands[0].contains("iptables"));
    assert!(plan.commands[0].contains("DROP"));
}

#[test]
fn render_nftables_route() {
    let ctx = MatchContext {
        protocol: Some("tcp".to_string()),
        port: Some(80),
        ..MatchContext::default()
    };
    let decision = ActionDecision {
        kind: ActionKind::Route("fast".to_string()),
        log: false,
    };
    let plan = render_backend(BackendKind::Nftables, &ctx, &decision);
    assert!(plan.commands[0].contains("nft add rule"));
    assert!(plan.commands[0].contains("mark set"));
}

#[test]
fn plan_action_prefers_route() {
    let action = Action {
        route: Some("fast".to_string()),
        switch_route: None,
        block: None,
        throttle: None,
        log: Some(true),
    };
    let decision = plan_action(&action);
    assert_eq!(decision.summary(), "route fast");
    assert!(decision.log);
}

#[test]
fn plan_action_block() {
    let action = Action {
        route: None,
        switch_route: None,
        block: Some(true),
        throttle: None,
        log: None,
    };
    let decision = plan_action(&action);
    assert_eq!(decision.summary(), "block");
}

#[test]
fn plan_action_orders_primaries() {
    let all = Action {
        route: Some("a".to_string()),
        switch_route: Some("b".to_string()),
        block: Some(true),
        throttle: Some("c".to_string()),
        log: None,
    };
    let d = plan_action(&all);
    assert_eq!(d.kind, ActionKind::Route("a".to_string()));
    assert!(!d.log);
    let no_route = Action { route: None, ..all };
    assert_eq!(plan_action(&no_route).kind, ActionKind::SwitchRoute("b".to_string()));
    let no_switch = Action { switch_route: None, ..no_route };
    assert_eq!(plan_action(&no_switch).kind, ActionKind::Block);
    let block_off = Action { block: Some(false), ..no_switch };
    assert_eq!(plan_action(&block_off).kind, ActionKind::Throttle("c".to_string()));
    assert_eq!(plan_action(&block_off).summary(), "throttle c");
}

#[test]
fn plan_action_falls_back_to_log_only() {
    let none = Action::default();
    let d = plan_action(&none);
    assert_eq!(d.kind, ActionKind::LogOnly);
    assert!(d.log);
    assert_eq!(d.summary(), "log");
    let log_off = Action { log: Some(false), ..Action::default() };
    let d = plan_action(&log_off);
    assert_eq!(d.kind, ActionKind::LogOnly);
    assert!(d.log);
}

#[test]
fn action_summary_names_the_primary() {
    let rule = Rule {
        name: "r".to_string(),
        priority: 1,
        matcher: Match { any: Some(true), ..Match::default() },
        when: None,
        disable: None,
        action: Action { switch_route: Some("backup".to_string()), ..Action::default() },
    };
    assert_eq!(action_summary(&rule), "switch_route backup");
}

#[test]
fn route_mark_is_low_sixteen_bits_in_hex() {
    for name in ["fast", "slow", "", "tunnel_fast", "ünïcode"] {
        assert_eq!(route_mark(name), expected_mark(name));
    }
    assert_eq!(route_mark("fast"), route_mark("fast"));
}

#[test]
fn match_fragment_exact() {
    assert_eq!(match_fragment("tcp", Some(443), IptRuleStyle::Iptables), "-p tcp --dport 443");
    assert_eq!(match_fragment("udp", None, IptRuleStyle::Iptables), "-p udp");
    assert_eq!(match_fragment("tcp", Some(80), IptRuleStyle::Nftables), "tcp dport 80");
    assert_eq!(match_fragment("udp", None, IptRuleStyle::Nftables), "udp");
    assert_eq!(match_fragment("tcp", Some(0), IptRuleStyle::Nftables), "tcp dport 0");
    assert_eq!(match_fragment("tcp", Some(65535), IptRuleStyle::Iptables), "-p tcp --dport 65535");
}

#[test]
fn render_commands_exact() {
    let ctx = MatchContext { protocol: Some("udp".to_string()), port: Some(53), ..MatchContext::default() };
    let none = MatchContext::default();
    let block = ActionDecision { kind: ActionKind::Block, log: false };
    let log = ActionDecision { kind: ActionKind::LogOnly, log: true };
    let route = ActionDecision { kind: ActionKind::Route("fast".to_string()), log: false };
    let switch = ActionDecision { kind: ActionKind::SwitchRoute("fast".to_string()), log: false };
    let throttle = ActionDecision { kind: ActionKind::Throttle("bulk".to_string()), log: false };
    assert_eq!(render_iptables(&ctx, &block), vec!["iptables -A OUTPUT -p udp --dport 53 -j DROP".to_string()]);
    assert_eq!(render_iptables(&none, &block), vec!["iptables -A OUTPUT -p tcp -j DROP".to_string()]);
    assert_eq!(
        render_iptables(&none, &log),
        vec!["iptables -A OUTPUT -p tcp -j LOG --log-prefix \"netpolicy\"".to_string()]
    );
    assert_eq!(
        render_iptables(&ctx, &route),
        vec![format!("iptables -A OUTPUT -p udp --dport 53 -j MARK --set-mark {}", expected_mark("fast"))]
    );
    assert_eq!(render_iptables(&ctx, &route), render_iptables(&ctx, &switch));
    assert_eq!(
        render_iptables(&ctx, &throttle),
        vec![format!("iptables -A OUTPUT -p udp --dport 53 -j MARK --set-mark {}", expected_mark("bulk"))]
    );
    assert_eq!(
        render_nftables(&ctx, &block),
        vec!["nft add rule inet netpolicy output udp dport 53 drop".to_string()]
    );
    assert_eq!(
        render_nftables(&none, &log),
        vec!["nft add rule inet netpolicy output tcp log prefix \"netpolicy\"".to_string()]
    );
    assert_eq!(
        render_nftables(&none, &route),
        vec![format!("nft add rule inet netpolicy output tcp mark set {}", expected_mark("fast"))]
    );
    assert_eq!(render_nftables(&none, &route), render_nftables(&none, &switch));
    assert_eq!(
        render_nftables(&ctx, &throttle),
        vec![format!("nft add rule inet netpolicy output udp dport 53 mark set {}", expected_mark("bulk"))]
    );
}

#[test]
fn render_backend_is_deterministic() {
    let ctx = MatchContext { protocol: Some("tcp".to_string()), port: Some(8443), ..MatchContext::default() };
    let d = ActionDecision { kind: ActionKind::Throttle("bulk".to_string()), log: true };
    for backend in [BackendKind::Iptables, BackendKind::Nftables] {
        let a = render_backend(backend, &ctx, &d);
        let b = render_backend(backend, &ctx, &d);
        assert_eq!(a, b);
        assert_eq!(a.backend, backend);
        assert_eq!(a.commands.len(), 1);
    }
}

#[test]
fn parse_backend_names() {
    assert_eq!(parse_backend("iptables"), Ok(BackendKind::Iptables));
    assert_eq!(parse_backend("NFTables"), Ok(BackendKind::Nftables));
    assert_eq!(parse_backend("pf"), Err("invalid backend: pf".to_string()));
    assert_eq!(parse_backend(" iptables"), Err("invalid backend:  iptables".to_string()));
}
