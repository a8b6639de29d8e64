//! The backend renderer: from a decision and its flow to the command lines
//! of a packet filter. Nothing here runs a command.

use crate::actions::{ActionDecision, ActionKind, DecisionView, KindView};
use crate::engine::{ContextView, MatchContext};
use crate::numerals::{decimal, hexadecimal, push_decimal, push_hexadecimal};
use crate::strings::{chars_of, is_word, lower, lowercase, push_str, string_of, strings_view};
use std::collections::hash_map::DefaultHasher;
use std::hash::{Hash, Hasher};
use vstd::prelude::*;

verus! {

/// The packet filter that a plan is written for.
#[derive(Debug, Clone, Copy, PartialEq, Eq, Structural)]
pub enum BackendKind {
    Iptables,
    Nftables,
}

/// The command lines for one decision.
#[derive(Debug, Clone, PartialEq, Eq)]
pub struct BackendPlan {
    pub backend: BackendKind,
    pub commands: Vec<String>,
}

/// The syntax in which the match of a command is written.
#[derive(Debug, Clone, Copy, PartialEq, Eq, Structural)]
pub enum IptRuleStyle {
    Iptables,
    Nftables,
}

/// The model of a `BackendPlan`.
pub struct PlanView {
    pub backend: BackendKind,
    pub commands: Seq<Seq<char>>,
}

impl View for BackendPlan {
    type V = PlanView;

    open spec fn view(&self) -> PlanView {
        PlanView { backend: self.backend, commands: strings_view(self.commands@) }
    }
}

/// The 64-bit hash that the standard library's default hasher, freshly
/// made, gives for a text.
pub uninterp spec fn route_hash(name: Seq<char>) -> u64;

/// Hashes a name with `DefaultHasher::new`, `str::hash` and
/// `Hasher::finish` of the standard library. Every hasher made by `new` is
/// the same, so the result is a function of the text alone, called
/// `route_hash` in contracts.
#[verifier::external_body]
fn hash_name(route: &str) -> (h: u64)
    ensures
        h == route_hash(route@),
{
    let mut hasher = DefaultHasher::new();
    route.hash(&mut hasher);
    hasher.finish()
}

/// The firewall mark of a name: the low 16 bits of its hash, written in
/// hexadecimal after `0x`.
pub open spec fn mark_of(name: Seq<char>) -> Seq<char> {
    "0x"@ + hexadecimal((route_hash(name) & 0xffff) as nat)
}

/// The protocol of a flow; `tcp` where none is known.
pub open spec fn protocol_of(c: ContextView) -> Seq<char> {
    match c.protocol {
        Some(p) => p,
        None => "tcp"@,
    }
}

/// The part of a command that selects the flow's protocol and port.
pub open spec fn fragment_of(proto: Seq<char>, port: Option<u16>, style: IptRuleStyle) -> Seq<
    char,
> {
    match style {
        IptRuleStyle::Iptables => match port {
            Some(p) => "-p "@ + proto + " --dport "@ + decimal(p as nat),
            None => "-p "@ + proto,
        },
        IptRuleStyle::Nftables => match port {
            Some(p) => proto + " dport "@ + decimal(p as nat),
            None => proto,
        },
    }
}

/// What an iptables command does with the flow.
pub open spec fn iptables_target(kind: KindView) -> Seq<char> {
    match kind {
        KindView::Block => " -j DROP"@,
        KindView::Route(name) => " -j MARK --set-mark "@ + mark_of(name),
        KindView::SwitchRoute(name) => " -j MARK --set-mark "@ + mark_of(name),
        KindView::Throttle(class) => " -j MARK --set-mark "@ + mark_of(class),
        KindView::LogOnly => " -j LOG --log-prefix \"netpolicy\""@,
    }
}

/// What an nftables command does with the flow.
pub open spec fn nftables_verdict(kind: KindView) -> Seq<char> {
    match kind {
        KindView::Block => " drop"@,
        KindView::Route(name) => " mark set "@ + mark_of(name),
        KindView::SwitchRoute(name) => " mark set "@ + mark_of(name),
        KindView::Throttle(class) => " mark set "@ + mark_of(class),
        KindView::LogOnly => " log prefix \"netpolicy\""@,
    }
}

/// The iptables command for a decision.
pub open spec fn iptables_command(c: ContextView, d: DecisionView) -> Seq<char> {
    "iptables -A OUTPUT "@ + fragment_of(protocol_of(c), c.port, IptRuleStyle::Iptables)
        + iptables_target(d.kind)
}

/// The nftables command for a decision.
pub open spec fn nftables_command(c: ContextView, d: DecisionView) -> Seq<char> {
    "nft add rule inet netpolicy output "@ + fragment_of(
        protocol_of(c),
        c.port,
        IptRuleStyle::Nftables,
    ) + nftables_verdict(d.kind)
}

/// The plan for a decision: one command in the syntax of the backend.
pub open spec fn rendered(backend: BackendKind, c: ContextView, d: DecisionView) -> PlanView {
    PlanView {
        backend,
        commands: match backend {
            BackendKind::Iptables => seq![iptables_command(c, d)],
            BackendKind::Nftables => seq![nftables_command(c, d)],
        },
    }
}

/// The firewall mark of a name.
pub fn route_mark(route: &str) -> (mark: String)
    ensures
        mark@ == mark_of(route@),
{
    let value: u64 = hash_name(route) & 0xffff;
    let mut out = chars_of("0x");
    push_hexadecimal(&mut out, value);
    string_of(out.as_slice())
}

/// The part of a command that selects the flow's protocol and port.
pub fn match_fragment(proto: &str, port: Option<u16>, style: IptRuleStyle) -> (fragment: String)
    ensures
        fragment@ == fragment_of(proto@, port, style),
{
    let mut out: Vec<char> = Vec::new();
    match style {
        IptRuleStyle::Iptables => {
            push_str(&mut out, "-p ");
            push_str(&mut out, proto);
            if let Some(p) = port {
                push_str(&mut out, " --dport ");
                push_decimal(&mut out, p as u64);
            }
        },
        IptRuleStyle::Nftables => {
            push_str(&mut out, proto);
            if let Some(p) = port {
                push_str(&mut out, " dport ");
                push_decimal(&mut out, p as u64);
            }
        },
    }
    proof {
        assert(out@ =~= fragment_of(proto@, port, style));
    }
    string_of(out.as_slice())
}

/// The mark of the name that a decision carries, if it carries one.
fn mark_for(kind: &ActionKind) -> (mark: Option<String>)
    ensures
        match kind@ {
            KindView::Route(name) => mark is Some && mark->0@ == mark_of(name),
            KindView::SwitchRoute(name) => mark is Some && mark->0@ == mark_of(name),
            KindView::Throttle(class) => mark is Some && mark->0@ == mark_of(class),
            _ => mark is None,
        },
{
    match kind {
        ActionKind::Route(route) => Some(route_mark(route.as_str())),
        ActionKind::SwitchRoute(route) => Some(route_mark(route.as_str())),
        ActionKind::Throttle(name) => Some(route_mark(name.as_str())),
        _ => None,
    }
}

/// The protocol of a flow; `tcp` where none is known.
fn protocol_text(ctx: &MatchContext) -> (proto: &str)
    ensures
        proto@ == protocol_of(ctx@),
{
    match &ctx.protocol {
        Some(p) => p.as_str(),
        None => "tcp",
    }
}

/// The iptables commands for a decision: one command.
pub fn render_iptables(ctx: &MatchContext, decision: &ActionDecision) -> (commands: Vec<String>)
    ensures
        strings_view(commands@) == seq![iptables_command(ctx@, decision@)],
{
    let fragment = match_fragment(protocol_text(ctx), ctx.port, IptRuleStyle::Iptables);
    let mut out = chars_of("iptables -A OUTPUT ");
    push_str(&mut out, fragment.as_str());
    match mark_for(&decision.kind) {
        Some(mark) => {
            push_str(&mut out, " -j MARK --set-mark ");
            push_str(&mut out, mark.as_str());
        },
        None => {
            if let ActionKind::Block = &decision.kind {
                push_str(&mut out, " -j DROP");
            } else {
                push_str(&mut out, " -j LOG --log-prefix \"netpolicy\"");
            }
        },
    }
    proof {
        assert(out@ =~= iptables_command(ctx@, decision@));
    }
    let mut commands: Vec<String> = Vec::new();
    commands.push(string_of(out.as_slice()));
    proof {
        assert(strings_view(commands@) =~= seq![iptables_command(ctx@, decision@)]);
    }
    commands
}

/// The nftables commands for a decision: one command.
pub fn render_nftables(ctx: &MatchContext, decision: &ActionDecision) -> (commands: Vec<String>)
    ensures
        strings_view(commands@) == seq![nftables_command(ctx@, decision@)],
{
    let fragment = match_fragment(protocol_text(ctx), ctx.port, IptRuleStyle::Nftables);
    let mut out = chars_of("nft add rule inet netpolicy output ");
    push_str(&mut out, fragment.as_str());
    match mark_for(&decision.kind) {
        Some(mark) => {
            push_str(&mut out, " mark set ");
            push_str(&mut out, mark.as_str());
        },
        None => {
            if let ActionKind::Block = &decision.kind {
                push_str(&mut out, " drop");
            } else {
                push_str(&mut out, " log prefix \"netpolicy\"");
            }
        },
    }
    proof {
        assert(out@ =~= nftables_command(ctx@, decision@));
    }
    let mut commands: Vec<String> = Vec::new();
    commands.push(string_of(out.as_slice()));
    proof {
        assert(strings_view(commands@) =~= seq![nftables_command(ctx@, decision@)]);
    }
    commands
}

/// Writes the plan for a decision. The plan is a function of the backend,
/// the flow and the decision: equal arguments give equal plans.
pub fn render_backend(backend: BackendKind, ctx: &MatchContext, decision: &ActionDecision) -> (plan:
    BackendPlan)
    ensures
        plan@ == rendered(backend, ctx@, decision@),
{
    let commands = match backend {
        BackendKind::Iptables => render_iptables(ctx, decision),
        BackendKind::Nftables => render_nftables(ctx, decision),
    };
    BackendPlan { backend, commands }
}

/// The backend that a name stands for, whatever its case.
pub open spec fn backend_named(value: Seq<char>) -> Option<BackendKind> {
    if lowercase(value) == "iptables"@ {
        Some(BackendKind::Iptables)
    } else if lowercase(value) == "nftables"@ {
        Some(BackendKind::Nftables)
    } else {
        None
    }
}

/// Reads the name of a backend, `iptables` or `nftables` in any case.
pub fn parse_backend(value: &str) -> (r: Result<BackendKind, String>)
    ensures
        match r {
            Ok(kind) => backend_named(value@) == Some(kind),
            Err(message) => backend_named(value@) is None && message@ == "invalid backend: "@
                + value@,
        },
{
    let chars = chars_of(value);
    let folded = lower(chars.as_slice());
    if is_word(folded.as_slice(), "iptables") {
        Ok(BackendKind::Iptables)
    } else if is_word(folded.as_slice(), "nftables") {
        Ok(BackendKind::Nftables)
    } else {
        Err(crate::strings::tagged("invalid backend: ", chars.as_slice()))
    }
}

/// Rendering is a function of its arguments: flows and decisions with the
/// same models give the same plan, command for command.
pub proof fn lemma_render_deterministic(
    backend: BackendKind,
    c1: ContextView,
    d1: DecisionView,
    c2: ContextView,
    d2: DecisionView,
)
    requires
        c1 == c2,
        d1 == d2,
    ensures
        rendered(backend, c1, d1) == rendered(backend, c2, d2),
        rendered(backend, c1, d1).commands.len() == 1,
        rendered(backend, c1, d1).backend == backend,
{
}

} // verus!
