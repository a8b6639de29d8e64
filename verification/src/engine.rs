//! The decision engine: which rule, if any, governs a flow.
//!
//! An evaluation is a function of the rule set, the flow's context and the
//! operational state, and of nothing else.

use crate::numerals::{parse_u16, parse_u32, parsed_u16, parsed_u32};
use crate::rules::{
    Action, Match, MatchView, Rule, RuleError, RuleErrorView, RuleSet, RuleView, SelectorView,
    StateSelector,
};
use crate::state::{state_name, state_to_str, EngineState};
use crate::strings::{
    chars_of, lower, lower_str, lowercase, opt_view, strings_view, upper, uppercase,
};
use crate::text::{
    cut, ends_with, pieces, same, split, split_once, starts_with, texts, trim, trimmed,
};
use vstd::prelude::*;
use vstd::slice::slice_subrange;

verus! {

/// Whether an evaluation found a rule.
#[derive(Debug, Clone, Copy, PartialEq, Eq, Structural)]
pub enum EngineDecisionKind {
    Action,
    NoMatch,
}

/// The outcome of an evaluation: the winning rule and its action, borrowed
/// from the rule set, or neither.
#[derive(Debug)]
pub struct EngineDecision<'a> {
    pub kind: EngineDecisionKind,
    pub rule: Option<&'a Rule>,
    pub action: Option<&'a Action>,
}

/// What is known of a flow when a decision is made.
#[derive(Debug)]
pub struct MatchContext {
    pub sni: Option<String>,
    pub protocol: Option<String>,
    pub port: Option<u16>,
    pub latency_ms: Option<u32>,
    pub rtt_ms: Option<u32>,
}

/// The model of a `MatchContext`.
pub struct ContextView {
    pub sni: Option<Seq<char>>,
    pub protocol: Option<Seq<char>>,
    pub port: Option<u16>,
    pub latency_ms: Option<u32>,
    pub rtt_ms: Option<u32>,
}

impl View for MatchContext {
    type V = ContextView;

    open spec fn view(&self) -> ContextView {
        ContextView {
            sni: opt_view(self.sni),
            protocol: opt_view(self.protocol),
            port: self.port,
            latency_ms: self.latency_ms,
            rtt_ms: self.rtt_ms,
        }
    }
}

/// The context of which nothing is known.
pub open spec fn empty_context() -> ContextView {
    ContextView { sni: None, protocol: None, port: None, latency_ms: None, rtt_ms: None }
}

impl Default for MatchContext {
    fn default() -> (out: Self)
        ensures
            out@ == empty_context(),
    {
        MatchContext { sni: None, protocol: None, port: None, latency_ms: None, rtt_ms: None }
    }
}

/// The relation that a numeric predicate asks for.
#[derive(Debug, Clone, Copy, PartialEq, Eq, Structural)]
pub enum Comparator {
    Gt,
    Gte,
    Lt,
    Lte,
    Eq,
}

/// Whether `value`, trimmed and in upper case, is the name of `state`.
pub open spec fn names_state(value: Seq<char>, state: EngineState) -> bool {
    uppercase(trimmed(value)) == state_name(state)
}

/// Whether one of the names in `list` is the name of `state`.
pub open spec fn some_names_state(list: Seq<Seq<char>>, state: EngineState) -> bool {
    exists|i: int| 0 <= i < list.len() && names_state(#[trigger] list[i], state)
}

/// Whether a selector holds the name of `state`.
pub open spec fn selector_contains(selector: SelectorView, state: EngineState) -> bool {
    match selector {
        SelectorView::Single(s) => names_state(s, state),
        SelectorView::Many(list) => some_names_state(list, state),
    }
}

/// Whether a rule may be considered in `state`: its `disable` selector does
/// not hold the state, and its `when` selector, if it has one, does.
pub open spec fn eligible(r: RuleView, state: EngineState) -> bool {
    &&& match r.disable {
        Some(d) => !selector_contains(d, state),
        None => true,
    }
    &&& match r.when {
        Some(w) => selector_contains(w, state),
        None => true,
    }
}

/// Whether a server name satisfies a pattern. Both are compared in lower
/// case. `*` accepts every name that is not empty; `*.suffix` accepts the
/// names that end in `.suffix`, the dot included; `prefix*` accepts the names
/// that start with `prefix`; any other pattern accepts itself. An absent name
/// satisfies nothing.
pub open spec fn sni_matches(pattern: Seq<char>, value: Option<Seq<char>>) -> bool {
    match value {
        None => false,
        Some(name) => {
            let v = lowercase(name);
            let p = lowercase(pattern);
            if p.len() == 1 && p[0] == '*' {
                v.len() > 0
            } else if p.len() >= 2 && p[0] == '*' && p[1] == '.' {
                p.skip(1).is_suffix_of(v)
            } else if p.len() >= 1 && p.last() == '*' {
                p.drop_last().is_prefix_of(v)
            } else {
                v == p
            }
        },
    }
}

/// Whether `port` satisfies one entry of a port pattern: a port, or a range
/// `lo-hi` with both ends included. An entry that cannot be read accepts
/// nothing.
pub open spec fn port_entry_matches(entry: Seq<char>, port: u16) -> bool {
    let token = trimmed(entry);
    match cut(token, '-') {
        Some((start, end)) => match (parsed_u16(trimmed(start)), parsed_u16(trimmed(end))) {
            (Some(lo), Some(hi)) => lo <= port <= hi,
            _ => false,
        },
        None => parsed_u16(token) == Some(port),
    }
}

/// Whether `port` satisfies some entry of a comma-separated port pattern.
pub open spec fn port_matches(pattern: Seq<char>, port: u16) -> bool {
    exists|i: int|
        0 <= i < pieces(pattern, ',').len() && port_entry_matches(
            #[trigger] pieces(pattern, ',')[i],
            port,
        )
}

/// Whether `t` has the character `c` at index `i`.
pub open spec fn has_at(t: Seq<char>, i: int, c: char) -> bool {
    0 <= i < t.len() && t[i] == c
}

/// The comparison operator that `t` starts with, and the operator's length.
/// The longer operator is preferred.
pub open spec fn operator_of(t: Seq<char>) -> Option<(Comparator, int)> {
    if has_at(t, 0, '>') && has_at(t, 1, '=') {
        Some((Comparator::Gte, 2))
    } else if has_at(t, 0, '<') && has_at(t, 1, '=') {
        Some((Comparator::Lte, 2))
    } else if has_at(t, 0, '>') {
        Some((Comparator::Gt, 1))
    } else if has_at(t, 0, '<') {
        Some((Comparator::Lt, 1))
    } else if has_at(t, 0, '=') && has_at(t, 1, '=') {
        Some((Comparator::Eq, 2))
    } else if has_at(t, 0, '=') {
        Some((Comparator::Eq, 1))
    } else {
        None
    }
}

/// The operator and the number of a numeric predicate: after trimming, one
/// of `>=`, `<=`, `>`, `<`, `==`, `=`, then a `u32` that white space may
/// surround.
pub open spec fn parsed_comparator(expr: Seq<char>) -> Option<(Comparator, u32)> {
    let t = trimmed(expr);
    match operator_of(t) {
        Some((op, n)) => match parsed_u32(trimmed(t.skip(n))) {
            Some(rhs) => Some((op, rhs)),
            None => None,
        },
        None => None,
    }
}

/// Whether `value` stands in the relation `op` to `rhs`.
pub open spec fn holds(op: Comparator, value: u32, rhs: u32) -> bool {
    match op {
        Comparator::Gt => value > rhs,
        Comparator::Gte => value >= rhs,
        Comparator::Lt => value < rhs,
        Comparator::Lte => value <= rhs,
        Comparator::Eq => value == rhs,
    }
}

/// Whether `value` satisfies a numeric predicate. A predicate that cannot be
/// read accepts nothing.
pub open spec fn numeric_matches(expr: Seq<char>, value: u32) -> bool {
    match parsed_comparator(expr) {
        Some((op, rhs)) => holds(op, value, rhs),
        None => false,
    }
}

/// Whether a context value satisfies an optional numeric predicate.
pub open spec fn numeric_field_matches(expr: Option<Seq<char>>, value: Option<u32>) -> bool {
    match expr {
        None => true,
        Some(e) => match value {
            Some(v) => numeric_matches(e, v),
            None => false,
        },
    }
}

/// Whether a flow satisfies a match: the wildcard accepts every flow;
/// otherwise each field that is present must hold, and a field whose
/// context value is absent does not hold.
pub open spec fn matches(m: MatchView, c: ContextView) -> bool {
    m.any == Some(true) || {
        &&& match m.sni {
            Some(p) => sni_matches(p, c.sni),
            None => true,
        }
        &&& match m.protocol {
            Some(p) => match c.protocol {
                Some(v) => lowercase(p) == lowercase(v),
                None => false,
            },
            None => true,
        }
        &&& match m.port {
            Some(p) => match c.port {
                Some(v) => port_matches(p, v),
                None => false,
            },
            None => true,
        }
        &&& numeric_field_matches(m.latency_ms, c.latency_ms)
        &&& numeric_field_matches(m.rtt_ms, c.rtt_ms)
    }
}

/// The number of predicate fields of a match; none for a wildcard, whatever
/// else it names.
pub open spec fn specificity_of(m: MatchView) -> int {
    if m.any == Some(true) {
        0
    } else {
        (if m.sni is Some {
            1int
        } else {
            0
        }) + (if m.protocol is Some {
            1int
        } else {
            0
        }) + (if m.port is Some {
            1int
        } else {
            0
        }) + (if m.latency_ms is Some {
            1int
        } else {
            0
        }) + (if m.rtt_ms is Some {
            1int
        } else {
            0
        })
    }
}

/// Whether `a` ranks above `b`: by higher priority, and at equal priority by
/// higher specificity.
pub open spec fn outranks(a: RuleView, b: RuleView) -> bool {
    a.priority > b.priority || (a.priority == b.priority && specificity_of(a.matcher)
        > specificity_of(b.matcher))
}

/// Whether a rule is eligible in `state` and matches the flow.
pub open spec fn candidate(r: RuleView, c: ContextView, state: EngineState) -> bool {
    eligible(r, state) && matches(r.matcher, c)
}

/// Whether the rule at index `i` wins: it is a candidate, no candidate ranks
/// above it, and it ranks above every candidate that stands before it.
pub open spec fn is_winner(
    rules: Seq<RuleView>,
    c: ContextView,
    state: EngineState,
    i: int,
) -> bool {
    &&& 0 <= i < rules.len()
    &&& candidate(rules[i], c, state)
    &&& forall|j: int|
        0 <= j < rules.len() && candidate(#[trigger] rules[j], c, state) ==> !outranks(
            rules[j],
            rules[i],
        ) && (j < i ==> outranks(rules[i], rules[j]))
}

/// Whether some rule is a candidate.
pub open spec fn any_candidate(rules: Seq<RuleView>, c: ContextView, state: EngineState) -> bool {
    exists|j: int| 0 <= j < rules.len() && candidate(#[trigger] rules[j], c, state)
}

/// A state name in its canonical form: trimmed and in upper case.
pub fn normalize_state(value: &str) -> (name: String)
    ensures
        name@ == uppercase(trimmed(value@)),
{
    let chars = chars_of(value);
    let normalized = upper(trim(chars.as_slice()));
    crate::strings::string_of(normalized.as_slice())
}

/// Whether a selector holds the name of `state`.
#[verifier::loop_isolation(false)]
pub fn selector_contains_state(selector: &StateSelector, state: EngineState) -> (r: bool)
    ensures
        r == selector_contains(selector@, state),
{
    let name = chars_of(state_to_str(state));
    match selector {
        StateSelector::Single(s) => {
            let n = chars_of(normalize_state(s.as_str()).as_str());
            same(n.as_slice(), name.as_slice())
        },
        StateSelector::Many(list) => {
            let ghost names = strings_view(list@);
            let mut i: usize = 0;
            while i < list.len()
                invariant
                    i <= list.len(),
                    forall|j: int| 0 <= j < i ==> !names_state(#[trigger] names[j], state),
                decreases list.len() - i,
            {
                let n = chars_of(normalize_state(list[i].as_str()).as_str());
                if same(n.as_slice(), name.as_slice()) {
                    proof {
                        assert(names_state(names[i as int], state));
                    }
                    return true;
                }
                i += 1;
            }
            false
        },
    }
}

/// Whether a rule may be considered in `state`. A `disable` selector that
/// holds the state rules the rule out, whatever its `when` selector says.
pub fn rule_applies_state(rule: &Rule, state: EngineState) -> (r: bool)
    ensures
        r == eligible(rule@, state),
        rule@.disable is Some && selector_contains(rule@.disable->0, state) ==> !r,
{
    if let Some(selector) = &rule.disable {
        if selector_contains_state(selector, state) {
            return false;
        }
    }
    if let Some(when) = &rule.when {
        if let Some(selector) = &when.state {
            return selector_contains_state(selector, state);
        }
    }
    true
}

/// Whether a server name satisfies a pattern.
pub fn match_sni(pattern: &str, value: Option<&str>) -> (r: bool)
    ensures
        r == sni_matches(
            pattern@,
            match value {
                Some(v) => Some(v@),
                None => None,
            },
        ),
{
    let name = match value {
        Some(v) => chars_of(v),
        None => {
            return false;
        },
    };
    let v_owned = lower(name.as_slice());
    let v = v_owned.as_slice();
    let pattern_chars = chars_of(pattern);
    let p_owned = lower(pattern_chars.as_slice());
    let p = p_owned.as_slice();
    if p.len() == 1 && p[0] == '*' {
        return v.len() > 0;
    }
    if p.len() >= 2 && p[0] == '*' && p[1] == '.' {
        let suffix = slice_subrange(p, 1, p.len());
        proof {
            assert(suffix@ =~= p@.skip(1));
        }
        return ends_with(v, suffix);
    }
    if p.len() >= 1 && p[p.len() - 1] == '*' {
        let prefix = slice_subrange(p, 0, p.len() - 1);
        proof {
            assert(prefix@ =~= p@.drop_last());
        }
        return starts_with(v, prefix);
    }
    same(v, p)
}

/// Whether `port` satisfies one entry of a port pattern.
pub fn match_port_entry(entry: &[char], port: u16) -> (r: bool)
    ensures
        r == port_entry_matches(entry@, port),
{
    let token = trim(entry);
    match split_once(token, '-') {
        Some((start, end)) => {
            let lo = match parse_u16(trim(start)) {
                Some(v) => v,
                None => {
                    return false;
                },
            };
            let hi = match parse_u16(trim(end)) {
                Some(v) => v,
                None => {
                    return false;
                },
            };
            lo <= port && port <= hi
        },
        None => match parse_u16(token) {
            Some(v) => v == port,
            None => false,
        },
    }
}

/// Whether `port` satisfies a comma-separated pattern of ports and inclusive
/// port ranges.
#[verifier::loop_isolation(false)]
pub fn match_port(pattern: &str, port: u16) -> (r: bool)
    ensures
        r == port_matches(pattern@, port),
{
    let chars = chars_of(pattern);
    let entries = split(chars.as_slice(), ',');
    let ghost parts = pieces(pattern@, ',');
    let mut i: usize = 0;
    while i < entries.len()
        invariant
            i <= entries.len(),
            forall|j: int| 0 <= j < i ==> !port_entry_matches(#[trigger] parts[j], port),
        decreases entries.len() - i,
    {
        proof {
            assert(texts(entries@)[i as int] == entries@[i as int]@);
        }
        if match_port_entry(entries[i], port) {
            proof {
                assert(port_entry_matches(parts[i as int], port));
            }
            return true;
        }
        i += 1;
    }
    false
}

/// Reads a numeric predicate: an operator and a number.
pub fn parse_comparator(expr: &str) -> (r: Option<(Comparator, u32)>)
    ensures
        r == parsed_comparator(expr@),
{
    let chars = chars_of(expr);
    let t = trim(chars.as_slice());
    let first_is_eq = t.len() >= 2 && t[1] == '=';
    let (op, n): (Comparator, usize) = if t.len() >= 1 && t[0] == '>' {
        if first_is_eq {
            (Comparator::Gte, 2)
        } else {
            (Comparator::Gt, 1)
        }
    } else if t.len() >= 1 && t[0] == '<' {
        if first_is_eq {
            (Comparator::Lte, 2)
        } else {
            (Comparator::Lt, 1)
        }
    } else if t.len() >= 1 && t[0] == '=' {
        if first_is_eq {
            (Comparator::Eq, 2)
        } else {
            (Comparator::Eq, 1)
        }
    } else {
        return None;
    };
    let rest = slice_subrange(t, n, t.len());
    proof {
        assert(rest@ =~= t@.skip(n as int));
    }
    match parse_u32(trim(rest)) {
        Some(rhs) => Some((op, rhs)),
        None => None,
    }
}

/// Whether `value` satisfies a numeric predicate.
pub fn compare_numeric(expr: &str, value: u32) -> (r: bool)
    ensures
        r == numeric_matches(expr@, value),
{
    match parse_comparator(expr) {
        Some((op, rhs)) => match op {
            Comparator::Gt => value > rhs,
            Comparator::Gte => value >= rhs,
            Comparator::Lt => value < rhs,
            Comparator::Lte => value <= rhs,
            Comparator::Eq => value == rhs,
        },
        None => false,
    }
}

/// Whether a flow satisfies a match.
pub fn rule_matches(m: &Match, ctx: &MatchContext) -> (r: bool)
    ensures
        r == matches(m@, ctx@),
{
    if let Some(true) = m.any {
        return true;
    }
    if let Some(sni) = &m.sni {
        let value = match &ctx.sni {
            Some(v) => Some(v.as_str()),
            None => None,
        };
        if !match_sni(sni.as_str(), value) {
            return false;
        }
    }
    if let Some(proto) = &m.protocol {
        let ctx_proto = match &ctx.protocol {
            Some(p) => p,
            None => {
                return false;
            },
        };
        let a = lower_str(proto.as_str());
        let b = lower_str(ctx_proto.as_str());
        if !same(a.as_slice(), b.as_slice()) {
            return false;
        }
    }
    if let Some(port) = &m.port {
        let ctx_port = match ctx.port {
            Some(p) => p,
            None => {
                return false;
            },
        };
        if !match_port(port.as_str(), ctx_port) {
            return false;
        }
    }
    if let Some(latency) = &m.latency_ms {
        let ctx_latency = match ctx.latency_ms {
            Some(v) => v,
            None => {
                return false;
            },
        };
        if !compare_numeric(latency.as_str(), ctx_latency) {
            return false;
        }
    }
    if let Some(rtt) = &m.rtt_ms {
        let ctx_rtt = match ctx.rtt_ms {
            Some(v) => v,
            None => {
                return false;
            },
        };
        if !compare_numeric(rtt.as_str(), ctx_rtt) {
            return false;
        }
    }
    true
}

/// The number of predicate fields of a rule's match. A wildcard has
/// specificity 0, whatever else the match names.
pub fn specificity(rule: &Rule) -> (s: i32)
    ensures
        s == specificity_of(rule@.matcher),
        rule@.matcher.any == Some(true) ==> s == 0,
        0 <= s <= 5,
{
    let m = &rule.matcher;
    let mut count: i32 = 0;
    if let Some(true) = m.any {
        return 0;
    }
    if m.sni.is_some() {
        count += 1;
    }
    if m.protocol.is_some() {
        count += 1;
    }
    if m.port.is_some() {
        count += 1;
    }
    if m.latency_ms.is_some() {
        count += 1;
    }
    if m.rtt_ms.is_some() {
        count += 1;
    }
    count
}

/// Ranks two rules: 1 where `a` ranks above `b`, -1 where `b` ranks above
/// `a`, 0 where neither does.
pub fn compare_rule(a: &Rule, b: &Rule) -> (r: i32)
    ensures
        r == (if outranks(a@, b@) {
            1int
        } else if outranks(b@, a@) {
            -1int
        } else {
            0int
        }),
{
    if a.priority != b.priority {
        return if a.priority > b.priority {
            1
        } else {
            -1
        };
    }
    let a_spec = specificity(a);
    let b_spec = specificity(b);
    if a_spec > b_spec {
        1
    } else if a_spec < b_spec {
        -1
    } else {
        0
    }
}

/// What `evaluate_ruleset` owes for a rule set that is not empty: the
/// winning rule and its action, both borrowed from the rule set, where some
/// rule is a candidate; `NoMatch` and neither where none is.
pub open spec fn decides(
    d: EngineDecision,
    ruleset: &RuleSet,
    c: ContextView,
    state: EngineState,
) -> bool {
    if any_candidate(ruleset@, c, state) {
        &&& d.kind == EngineDecisionKind::Action
        &&& exists|i: int|
            #![trigger ruleset.rules@[i]]
            {
                &&& is_winner(ruleset@, c, state, i)
                &&& d.rule == Some(&ruleset.rules@[i])
                &&& d.action == Some(&ruleset.rules@[i].action)
            }
    } else {
        &&& d.kind == EngineDecisionKind::NoMatch
        &&& d.rule is None
        &&& d.action is None
    }
}

/// Picks the rule that governs a flow. Among the rules that are eligible in
/// `state` and match `ctx`, the one of highest priority wins, at equal
/// priority the one of highest specificity, and among equals the one that
/// stands first. An empty rule set is refused.
pub fn evaluate_ruleset<'a>(ruleset: &'a RuleSet, ctx: &MatchContext, state: EngineState) -> (r:
    Result<EngineDecision<'a>, RuleError>)
    ensures
        match r {
            Err(e) => ruleset@.len() == 0 && e@ == RuleErrorView::Invalid(
                "rules must not be empty"@,
            ),
            Ok(d) => ruleset@.len() > 0 && decides(d, ruleset, ctx@, state),
        },
        r matches Ok(d) ==> (d.rule matches Some(rule) ==> candidate(rule@, ctx@, state)),
{
    if ruleset.rules.len() == 0 {
        return Err(RuleError::Invalid("rules must not be empty".to_owned()));
    }
    let ghost rules = ruleset@;
    let ghost c = ctx@;
    let mut best: Option<&'a Rule> = None;
    let ghost mut at: int = -1;
    let mut k: usize = 0;
    while k < ruleset.rules.len()
        invariant
            k <= ruleset.rules.len(),
            rules == ruleset@,
            c == ctx@,
            -1 <= at < k,
            at == -1 <==> best is None,
            at == -1 ==> forall|j: int| 0 <= j < k ==> !candidate(#[trigger] rules[j], c, state),
            at >= 0 ==> best == Some(&ruleset.rules@[at]) && candidate(rules[at], c, state),
            at >= 0 ==> forall|j: int|
                0 <= j < k && candidate(#[trigger] rules[j], c, state) ==> !outranks(
                    rules[j],
                    rules[at],
                ) && (j < at ==> outranks(rules[at], rules[j])),
        decreases ruleset.rules.len() - k,
    {
        let rule = &ruleset.rules[k];
        proof {
            assert(rules[k as int] == rule@);
        }
        if rule_applies_state(rule, state) && rule_matches(&rule.matcher, ctx) {
            let better = match best {
                None => true,
                Some(current) => compare_rule(rule, current) > 0,
            };
            if better {
                best = Some(rule);
                proof {
                    at = k as int;
                }
            }
        }
        k += 1;
    }
    match best {
        Some(rule) => {
            proof {
                assert(is_winner(rules, c, state, at));
                assert(candidate(rules[at], c, state));
            }
            Ok(
                EngineDecision {
                    kind: EngineDecisionKind::Action,
                    rule: Some(rule),
                    action: Some(&rule.action),
                },
            )
        },
        None => Ok(EngineDecision { kind: EngineDecisionKind::NoMatch, rule: None, action: None }),
    }
}

/// At most one rule wins.
pub proof fn lemma_winner_unique(
    rules: Seq<RuleView>,
    c: ContextView,
    state: EngineState,
    i: int,
    j: int,
)
    requires
        is_winner(rules, c, state, i),
        is_winner(rules, c, state, j),
    ensures
        i == j,
{
    if i < j {
        assert(candidate(rules[i], c, state));
        assert(outranks(rules[j], rules[i]));
    } else if j < i {
        assert(candidate(rules[j], c, state));
        assert(outranks(rules[i], rules[j]));
    }
}

/// The winner is determined by priority, specificity and position alone:
/// two rule lists whose rules agree, index by index, on being candidates, on
/// priority and on specificity have their winner at the same index.
pub proof fn lemma_winner_by_rank(
    a: Seq<RuleView>,
    b: Seq<RuleView>,
    c: ContextView,
    state: EngineState,
    i: int,
)
    requires
        a.len() == b.len(),
        forall|j: int|
            0 <= j < a.len() ==> {
                &&& candidate(#[trigger] a[j], c, state) == candidate(b[j], c, state)
                &&& a[j].priority == b[j].priority
                &&& specificity_of(a[j].matcher) == specificity_of(b[j].matcher)
            },
        is_winner(a, c, state, i),
    ensures
        is_winner(b, c, state, i),
{
    assert(candidate(a[i], c, state));
    assert forall|j: int|
        0 <= j < b.len() && candidate(#[trigger] b[j], c, state) implies !outranks(b[j], b[i]) && (j
        < i ==> outranks(b[i], b[j])) by {
        assert(candidate(a[j], c, state));
    }
}

/// Of two candidates, the one that ranks above the other wins, and the first
/// wins where neither ranks above the other.
pub proof fn lemma_winner_of_two(a: RuleView, b: RuleView, c: ContextView, state: EngineState)
    requires
        candidate(a, c, state),
        candidate(b, c, state),
    ensures
        is_winner(seq![a, b], c, state, 1) <==> outranks(b, a),
        is_winner(seq![a, b], c, state, 0) <==> !outranks(b, a),
{
    let rules = seq![a, b];
    assert(rules[0] == a && rules[1] == b);
    if outranks(b, a) {
        assert(is_winner(rules, c, state, 1));
    } else {
        assert(is_winner(rules, c, state, 0));
    }
    if is_winner(rules, c, state, 1) {
        assert(candidate(rules[0], c, state));
    }
    if is_winner(rules, c, state, 0) {
        assert(candidate(rules[1], c, state));
    }
}

/// Where some rule is a candidate, some rule wins.
pub proof fn lemma_winner_exists(rules: Seq<RuleView>, c: ContextView, state: EngineState)
    requires
        any_candidate(rules, c, state),
    ensures
        exists|i: int| is_winner(rules, c, state, i),
{
    let w = winner_below(rules, c, state, rules.len() as int);
    lemma_winner_below(rules, c, state, rules.len() as int);
    let j = choose|j: int| 0 <= j < rules.len() && candidate(#[trigger] rules[j], c, state);
    assert(w >= 0);
    assert(is_winner(rules, c, state, w));
}

/// The index of the winner among the first `n` rules, or -1 where none of
/// them is a candidate.
pub open spec fn winner_below(
    rules: Seq<RuleView>,
    c: ContextView,
    state: EngineState,
    n: int,
) -> int
    decreases n,
{
    if n <= 0 {
        -1
    } else {
        let w = winner_below(rules, c, state, n - 1);
        if candidate(rules[n - 1], c, state) && (w < 0 || outranks(rules[n - 1], rules[w])) {
            n - 1
        } else {
            w
        }
    }
}

/// `winner_below` is the winner among the first `n` rules.
pub proof fn lemma_winner_below(rules: Seq<RuleView>, c: ContextView, state: EngineState, n: int)
    requires
        0 <= n <= rules.len(),
    ensures
        -1 <= winner_below(rules, c, state, n) < n,
        winner_below(rules, c, state, n) == -1 ==> forall|j: int|
            0 <= j < n ==> !candidate(#[trigger] rules[j], c, state),
        winner_below(rules, c, state, n) >= 0 ==> candidate(
            rules[winner_below(rules, c, state, n)],
            c,
            state,
        ) && forall|j: int|
            0 <= j < n && candidate(#[trigger] rules[j], c, state) ==> !outranks(
                rules[j],
                rules[winner_below(rules, c, state, n)],
            ) && (j < winner_below(rules, c, state, n) ==> outranks(
                rules[winner_below(rules, c, state, n)],
                rules[j],
            )),
    decreases n,
{
    if n > 0 {
        lemma_winner_below(rules, c, state, n - 1);
    }
}

/// A rule whose `disable` selector holds the state is not eligible, whatever
/// its `when` selector holds.
pub proof fn lemma_disable_overrides(r: RuleView, state: EngineState)
    requires
        r.disable is Some,
        selector_contains(r.disable->0, state),
    ensures
        !eligible(r, state),
{
}

/// A wildcard match has specificity 0, whatever else it names, and accepts
/// every flow.
pub proof fn lemma_wildcard(m: MatchView, c: ContextView)
    requires
        m.any == Some(true),
    ensures
        specificity_of(m) == 0,
        matches(m, c),
{
}

} // verus!
