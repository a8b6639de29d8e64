//! The rule-set model and its structural validation.

use crate::numerals::{parse_u16, parsed_u16};
use crate::strings::{chars_of, is_word, opt_view, strings_view, tagged, upper, uppercase};
use crate::text::{
    cut, is_blank, lemma_trimmed_blank, pieces, split, split_once, texts, trim, trimmed,
};
use vstd::prelude::*;

verus! {

/// A non-empty, ordered list of rules.
#[derive(Debug)]
pub struct RuleSet {
    pub rules: Vec<Rule>,
}

/// One rule: what it matches, when it is eligible, and what it does.
#[derive(Debug)]
pub struct Rule {
    pub name: String,
    pub priority: i32,
    pub matcher: Match,
    pub when: Option<RuleWhen>,
    pub disable: Option<StateSelector>,
    pub action: Action,
}

/// The states in which a rule is eligible.
#[derive(Debug)]
pub struct RuleWhen {
    pub state: Option<StateSelector>,
}

/// The predicate of a rule; every field that is present must hold.
#[derive(Debug)]
pub struct Match {
    pub any: Option<bool>,
    pub sni: Option<String>,
    pub protocol: Option<String>,
    pub port: Option<String>,
    pub latency_ms: Option<String>,
    pub rtt_ms: Option<String>,
}

/// What a rule does with a flow it matches.
#[derive(Debug)]
pub struct Action {
    pub route: Option<String>,
    pub switch_route: Option<String>,
    pub block: Option<bool>,
    pub throttle: Option<String>,
    pub log: Option<bool>,
}

/// One state name or a list of them.
#[derive(Debug)]
pub enum StateSelector {
    Single(String),
    Many(Vec<String>),
}

/// Why a rule set was refused.
#[derive(Debug)]
pub enum RuleError {
    Yaml(String),
    Invalid(String),
}

/// The model of a `Match`.
pub struct MatchView {
    pub any: Option<bool>,
    pub sni: Option<Seq<char>>,
    pub protocol: Option<Seq<char>>,
    pub port: Option<Seq<char>>,
    pub latency_ms: Option<Seq<char>>,
    pub rtt_ms: Option<Seq<char>>,
}

/// The model of an `Action`.
pub struct ActionView {
    pub route: Option<Seq<char>>,
    pub switch_route: Option<Seq<char>>,
    pub block: Option<bool>,
    pub throttle: Option<Seq<char>>,
    pub log: Option<bool>,
}

/// The model of a `StateSelector`.
pub enum SelectorView {
    Single(Seq<char>),
    Many(Seq<Seq<char>>),
}

/// The model of a `Rule`. `when` holds the selector of the rule's `when`
/// block, if the block is there and has one.
pub struct RuleView {
    pub name: Seq<char>,
    pub priority: int,
    pub matcher: MatchView,
    pub when: Option<SelectorView>,
    pub disable: Option<SelectorView>,
    pub action: ActionView,
}

/// The model of a `RuleError`.
pub enum RuleErrorView {
    Yaml(Seq<char>),
    Invalid(Seq<char>),
}

impl View for Match {
    type V = MatchView;

    open spec fn view(&self) -> MatchView {
        MatchView {
            any: self.any,
            sni: opt_view(self.sni),
            protocol: opt_view(self.protocol),
            port: opt_view(self.port),
            latency_ms: opt_view(self.latency_ms),
            rtt_ms: opt_view(self.rtt_ms),
        }
    }
}

impl View for Action {
    type V = ActionView;

    open spec fn view(&self) -> ActionView {
        ActionView {
            route: opt_view(self.route),
            switch_route: opt_view(self.switch_route),
            block: self.block,
            throttle: opt_view(self.throttle),
            log: self.log,
        }
    }
}

impl View for StateSelector {
    type V = SelectorView;

    open spec fn view(&self) -> SelectorView {
        match self {
            StateSelector::Single(s) => SelectorView::Single(s@),
            StateSelector::Many(list) => SelectorView::Many(strings_view(list@)),
        }
    }
}

/// The model of an optional selector.
pub open spec fn opt_selector(o: Option<StateSelector>) -> Option<SelectorView> {
    match o {
        Some(s) => Some(s@),
        None => None,
    }
}

impl View for RuleWhen {
    type V = Option<SelectorView>;

    open spec fn view(&self) -> Option<SelectorView> {
        opt_selector(self.state)
    }
}

impl View for Rule {
    type V = RuleView;

    open spec fn view(&self) -> RuleView {
        RuleView {
            name: self.name@,
            priority: self.priority as int,
            matcher: self.matcher@,
            when: match self.when {
                Some(w) => w@,
                None => None,
            },
            disable: opt_selector(self.disable),
            action: self.action@,
        }
    }
}

/// The models of a sequence of rules.
pub open spec fn rules_view(rules: Seq<Rule>) -> Seq<RuleView> {
    Seq::new(rules.len(), |i: int| rules[i]@)
}

impl View for RuleSet {
    type V = Seq<RuleView>;

    open spec fn view(&self) -> Seq<RuleView> {
        rules_view(self.rules@)
    }
}

impl View for RuleError {
    type V = RuleErrorView;

    open spec fn view(&self) -> RuleErrorView {
        match self {
            RuleError::Yaml(m) => RuleErrorView::Yaml(m@),
            RuleError::Invalid(m) => RuleErrorView::Invalid(m@),
        }
    }
}

impl Default for RuleWhen {
    fn default() -> (out: Self)
        ensures
            out@ is None,
    {
        RuleWhen { state: None }
    }
}

impl Default for Match {
    fn default() -> (out: Self)
        ensures
            out@ == empty_match(),
    {
        Match { any: None, sni: None, protocol: None, port: None, latency_ms: None, rtt_ms: None }
    }
}

impl Default for Action {
    fn default() -> (out: Self)
        ensures
            out@ == empty_action(),
    {
        Action { route: None, switch_route: None, block: None, throttle: None, log: None }
    }
}

/// The match that constrains nothing and has no wildcard.
pub open spec fn empty_match() -> MatchView {
    MatchView { any: None, sni: None, protocol: None, port: None, latency_ms: None, rtt_ms: None }
}

/// The action that does nothing.
pub open spec fn empty_action() -> ActionView {
    ActionView { route: None, switch_route: None, block: None, throttle: None, log: None }
}

/// The first fault in a list of findings, if any.
pub open spec fn first_some(findings: Seq<Option<Seq<char>>>) -> Option<Seq<char>>
    decreases findings.len(),
{
    if findings.len() == 0 {
        None
    } else if findings[0] is Some {
        findings[0]
    } else {
        first_some(findings.drop_first())
    }
}

/// `first_some` is the finding at the first index that holds one.
pub proof fn lemma_first_some_at(findings: Seq<Option<Seq<char>>>, k: int)
    requires
        0 <= k < findings.len(),
        findings[k] is Some,
        forall|j: int| 0 <= j < k ==> #[trigger] findings[j] is None,
    ensures
        first_some(findings) == findings[k],
    decreases k,
{
    if k > 0 {
        let rest = findings.drop_first();
        assert(findings[0] is None);
        assert forall|j: int| 0 <= j < k - 1 implies #[trigger] rest[j] is None by {
            assert(rest[j] == findings[j + 1]);
        }
        lemma_first_some_at(rest, k - 1);
    }
}

/// `first_some` finds nothing exactly where no index holds a finding.
pub proof fn lemma_first_some_none(findings: Seq<Option<Seq<char>>>)
    ensures
        first_some(findings) is None <==> forall|j: int|
            0 <= j < findings.len() ==> #[trigger] findings[j] is None,
    decreases findings.len(),
{
    if findings.len() > 0 {
        let rest = findings.drop_first();
        lemma_first_some_none(rest);
        if first_some(findings) is None {
            assert forall|j: int| 0 <= j < findings.len() implies #[trigger] findings[j]
                is None by {
                if j > 0 {
                    assert(rest[j - 1] == findings[j]);
                }
            }
        } else if findings[0] is None {
            let j = choose|j: int| 0 <= j < rest.len() && !(#[trigger] rest[j] is None);
            assert(findings[j + 1] == rest[j]);
        }
    }
}

/// The first finding of two.
pub open spec fn or_fault(a: Option<Seq<char>>, b: Option<Seq<char>>) -> Option<Seq<char>> {
    if a is Some {
        a
    } else {
        b
    }
}

/// Whether `value`, trimmed and in upper case, names one of the four states.
pub open spec fn known_state(value: Seq<char>) -> bool {
    let n = uppercase(trimmed(value));
    n == "NORMAL"@ || n == "DEGRADED"@ || n == "FAILOVER"@ || n == "RECOVERY"@
}

/// What is wrong with a state name.
pub open spec fn state_value_fault(value: Seq<char>) -> Option<Seq<char>> {
    if known_state(value) {
        None
    } else {
        Some("invalid state value: "@ + value)
    }
}

/// What is wrong with a state selector: the first bad name, or an empty list.
pub open spec fn selector_fault(selector: SelectorView) -> Option<Seq<char>> {
    match selector {
        SelectorView::Single(s) => state_value_fault(s),
        SelectorView::Many(list) => if list.len() == 0 {
            Some("state list must not be empty"@)
        } else {
            first_some(Seq::new(list.len(), |i: int| state_value_fault(list[i])))
        },
    }
}

/// What is wrong with an optional state selector.
pub open spec fn opt_selector_fault(selector: Option<SelectorView>) -> Option<Seq<char>> {
    match selector {
        Some(s) => selector_fault(s),
        None => None,
    }
}

/// What is wrong with one entry of a port pattern.
pub open spec fn port_entry_fault(entry: Seq<char>) -> Option<Seq<char>> {
    let token = trimmed(entry);
    if token.len() == 0 {
        Some("port pattern must not contain empty entries"@)
    } else {
        match cut(token, '-') {
            Some((start, end)) => match parsed_u16(trimmed(start)) {
                None => Some("invalid port range start: "@ + start),
                Some(lo) => match parsed_u16(trimmed(end)) {
                    None => Some("invalid port range end: "@ + end),
                    Some(hi) => if lo > hi {
                        Some("invalid port range (start > end): "@ + token)
                    } else {
                        None
                    },
                },
            },
            None => if parsed_u16(token) is None {
                Some("invalid port value: "@ + token)
            } else {
                None
            },
        }
    }
}

/// What is wrong with a port pattern: the fault of its first bad entry.
pub open spec fn port_pattern_fault(pattern: Seq<char>) -> Option<Seq<char>> {
    let entries = pieces(pattern, ',');
    first_some(Seq::new(entries.len(), |i: int| port_entry_fault(entries[i])))
}

/// Whether a match names at least one predicate field.
pub open spec fn has_predicate(m: MatchView) -> bool {
    m.sni is Some || m.protocol is Some || m.port is Some || m.latency_ms is Some || m.rtt_ms
        is Some
}

/// What is wrong with a match: that it is neither a wildcard nor names a
/// predicate field, or else the fault of its port pattern, if it has one. A
/// wildcard's port pattern is held to the same form as any other.
pub open spec fn match_fault(m: MatchView) -> Option<Seq<char>> {
    if m.any != Some(true) && !has_predicate(m) {
        Some("match must contain at least one field or any: true"@)
    } else {
        match m.port {
            Some(p) => port_pattern_fault(p),
            None => None,
        }
    }
}

/// The number of primary actions that an action names.
pub open spec fn primary_count(a: ActionView) -> int {
    (if a.route is Some {
        1int
    } else {
        0
    }) + (if a.switch_route is Some {
        1int
    } else {
        0
    }) + (if a.block == Some(true) {
        1int
    } else {
        0
    }) + (if a.throttle is Some {
        1int
    } else {
        0
    })
}

/// What is wrong with an action.
pub open spec fn action_fault(a: ActionView) -> Option<Seq<char>> {
    if primary_count(a) == 0 {
        Some("action must include one primary action"@)
    } else if primary_count(a) > 1 {
        Some("action must not include multiple primary actions"@)
    } else {
        None
    }
}

/// What is wrong with a rule: the first fault among its name, priority,
/// `when` selector, `disable` selector, match and action.
pub open spec fn rule_fault(r: RuleView) -> Option<Seq<char>> {
    if trimmed(r.name).len() == 0 {
        Some("rule name is required"@)
    } else if r.priority < 0 {
        Some("priority must be >= 0"@)
    } else {
        or_fault(
            opt_selector_fault(r.when),
            or_fault(
                opt_selector_fault(r.disable),
                or_fault(match_fault(r.matcher), action_fault(r.action)),
            ),
        )
    }
}

/// What is wrong with a rule set: that it is empty, or the fault of its first
/// bad rule.
pub open spec fn ruleset_fault(rules: Seq<RuleView>) -> Option<Seq<char>> {
    if rules.len() == 0 {
        Some("rules must not be empty"@)
    } else {
        first_some(Seq::new(rules.len(), |i: int| rule_fault(rules[i])))
    }
}

/// A selector is well formed when it names at least one state and every name
/// is one of the four.
pub open spec fn valid_selector(selector: SelectorView) -> bool {
    match selector {
        SelectorView::Single(s) => known_state(s),
        SelectorView::Many(list) => list.len() > 0 && forall|i: int|
            0 <= i < list.len() ==> known_state(#[trigger] list[i]),
    }
}

/// A port entry is well formed when it is one port, or two ports with a `-`
/// between them of which the first is not the larger.
pub open spec fn valid_port_entry(entry: Seq<char>) -> bool {
    let token = trimmed(entry);
    token.len() > 0 && match cut(token, '-') {
        Some((start, end)) => match (parsed_u16(trimmed(start)), parsed_u16(trimmed(end))) {
            (Some(lo), Some(hi)) => lo <= hi,
            _ => false,
        },
        None => parsed_u16(token) is Some,
    }
}

/// A port pattern is well formed when each of its entries is.
pub open spec fn valid_port_pattern(pattern: Seq<char>) -> bool {
    forall|i: int|
        0 <= i < pieces(pattern, ',').len() ==> valid_port_entry(#[trigger] pieces(pattern, ',')[i])
}

/// A match is well formed when it is a wildcard or names a predicate field,
/// and its port pattern, if it has one, is well formed.
pub open spec fn valid_match(m: MatchView) -> bool {
    (m.any == Some(true) || has_predicate(m)) && match m.port {
        Some(p) => valid_port_pattern(p),
        None => true,
    }
}

/// An action is well formed when it names exactly one primary action.
pub open spec fn valid_action(a: ActionView) -> bool {
    primary_count(a) == 1
}

/// A rule is well formed when its name is not blank, its priority is not
/// negative, and its selectors, match and action are well formed.
pub open spec fn valid_rule(r: RuleView) -> bool {
    &&& !is_blank(r.name)
    &&& r.priority >= 0
    &&& match r.when {
        Some(s) => valid_selector(s),
        None => true,
    }
    &&& match r.disable {
        Some(s) => valid_selector(s),
        None => true,
    }
    &&& valid_match(r.matcher)
    &&& valid_action(r.action)
}

/// A rule set is well formed when it is not empty and each of its rules is
/// well formed.
pub open spec fn valid_ruleset(rules: Seq<RuleView>) -> bool {
    rules.len() > 0 && forall|i: int| 0 <= i < rules.len() ==> valid_rule(#[trigger] rules[i])
}

/// A selector has no fault exactly when it is well formed.
pub proof fn lemma_selector_fault(selector: SelectorView)
    ensures
        selector_fault(selector) is None <==> valid_selector(selector),
{
    match selector {
        SelectorView::Single(s) => {},
        SelectorView::Many(list) => {
            let findings = Seq::new(list.len(), |i: int| state_value_fault(list[i]));
            lemma_first_some_none(findings);
            if valid_selector(selector) {
                assert forall|j: int| 0 <= j < findings.len() implies #[trigger] findings[j]
                    is None by {
                    assert(known_state(list[j]));
                }
            } else if list.len() > 0 {
                let i = choose|i: int| 0 <= i < list.len() && !known_state(#[trigger] list[i]);
                assert(findings[i] is Some);
            }
        },
    }
}

/// A port pattern has no fault exactly when it is well formed.
pub proof fn lemma_port_pattern_fault(pattern: Seq<char>)
    ensures
        port_pattern_fault(pattern) is None <==> valid_port_pattern(pattern),
{
    let entries = pieces(pattern, ',');
    let findings = Seq::new(entries.len(), |i: int| port_entry_fault(entries[i]));
    lemma_first_some_none(findings);
    if valid_port_pattern(pattern) {
        assert forall|j: int| 0 <= j < findings.len() implies #[trigger] findings[j] is None by {
            assert(valid_port_entry(entries[j]));
        }
    } else {
        let i = choose|i: int| 0 <= i < entries.len() && !valid_port_entry(#[trigger] entries[i]);
        assert(findings[i] is Some);
    }
}

/// A match has no fault exactly when it is well formed.
pub proof fn lemma_match_fault(m: MatchView)
    ensures
        match_fault(m) is None <==> valid_match(m),
{
    if m.port is Some {
        lemma_port_pattern_fault(m.port->0);
    }
}

/// A rule has no fault exactly when it is well formed.
pub proof fn lemma_rule_fault(r: RuleView)
    ensures
        rule_fault(r) is None <==> valid_rule(r),
{
    lemma_trimmed_blank(r.name);
    if r.when is Some {
        lemma_selector_fault(r.when->0);
    }
    if r.disable is Some {
        lemma_selector_fault(r.disable->0);
    }
    lemma_match_fault(r.matcher);
}

/// A rule set has no fault exactly when it is well formed.
pub proof fn lemma_ruleset_fault(rules: Seq<RuleView>)
    ensures
        ruleset_fault(rules) is None <==> valid_ruleset(rules),
{
    let findings = Seq::new(rules.len(), |i: int| rule_fault(rules[i]));
    lemma_first_some_none(findings);
    if valid_ruleset(rules) {
        assert forall|j: int| 0 <= j < findings.len() implies #[trigger] findings[j] is None by {
            assert(valid_rule(rules[j]));
            lemma_rule_fault(rules[j]);
        }
    } else if rules.len() > 0 {
        let i = choose|i: int| 0 <= i < rules.len() && !valid_rule(#[trigger] rules[i]);
        lemma_rule_fault(rules[i]);
        assert(findings[i] is Some);
    }
}

/// What a validator returns for a finding: `Ok` for none, else `Invalid` with
/// the finding as its message.
pub open spec fn verdict(r: Result<(), RuleError>, fault: Option<Seq<char>>) -> bool {
    match r {
        Ok(_) => fault is None,
        Err(e) => fault is Some && e@ == RuleErrorView::Invalid(fault->0),
    }
}

/// Checks a state name.
pub fn validate_state_value(value: &str) -> (r: Result<(), RuleError>)
    ensures
        verdict(r, state_value_fault(value@)),
{
    let chars = chars_of(value);
    let normalized = upper(trim(chars.as_slice()));
    let n = normalized.as_slice();
    if is_word(n, "NORMAL") || is_word(n, "DEGRADED") || is_word(n, "FAILOVER") || is_word(
        n,
        "RECOVERY",
    ) {
        Ok(())
    } else {
        Err(RuleError::Invalid(tagged("invalid state value: ", chars.as_slice())))
    }
}

/// Checks a state selector.
#[verifier::loop_isolation(false)]
pub fn validate_state_selector(selector: &StateSelector) -> (r: Result<(), RuleError>)
    ensures
        verdict(r, selector_fault(selector@)),
{
    match selector {
        StateSelector::Single(s) => validate_state_value(s.as_str()),
        StateSelector::Many(list) => {
            if list.len() == 0 {
                return Err(RuleError::Invalid("state list must not be empty".to_owned()));
            }
            let ghost names = strings_view(list@);
            let ghost findings = Seq::new(names.len(), |i: int| state_value_fault(names[i]));
            let mut i: usize = 0;
            while i < list.len()
                invariant
                    i <= list.len(),
                    names == strings_view(list@),
                    findings == Seq::new(names.len(), |i: int| state_value_fault(names[i])),
                    forall|j: int| 0 <= j < i ==> #[trigger] findings[j] is None,
                decreases list.len() - i,
            {
                proof {
                    assert(findings[i as int] == state_value_fault(list@[i as int]@));
                }
                match validate_state_value(list[i].as_str()) {
                    Ok(_) => {},
                    Err(e) => {
                        proof {
                            lemma_first_some_at(findings, i as int);
                        }
                        return Err(e);
                    },
                }
                i += 1;
            }
            proof {
                lemma_first_some_none(findings);
            }
            Ok(())
        },
    }
}

/// Checks one entry of a port pattern.
pub fn validate_port_entry(entry: &[char]) -> (r: Result<(), RuleError>)
    ensures
        verdict(r, port_entry_fault(entry@)),
{
    let token = trim(entry);
    if token.len() == 0 {
        return Err(
            RuleError::Invalid("port pattern must not contain empty entries".to_owned()),
        );
    }
    match split_once(token, '-') {
        Some((start, end)) => {
            let lo = match parse_u16(trim(start)) {
                Some(v) => v,
                None => {
                    return Err(RuleError::Invalid(tagged("invalid port range start: ", start)));
                },
            };
            let hi = match parse_u16(trim(end)) {
                Some(v) => v,
                None => {
                    return Err(RuleError::Invalid(tagged("invalid port range end: ", end)));
                },
            };
            if lo > hi {
                return Err(
                    RuleError::Invalid(tagged("invalid port range (start > end): ", token)),
                );
            }
            Ok(())
        },
        None => {
            if parse_u16(token).is_none() {
                return Err(RuleError::Invalid(tagged("invalid port value: ", token)));
            }
            Ok(())
        },
    }
}

/// Checks a port pattern: a comma-separated list of ports and port ranges.
#[verifier::loop_isolation(false)]
pub fn validate_port_pattern(value: &str) -> (r: Result<(), RuleError>)
    ensures
        verdict(r, port_pattern_fault(value@)),
        r is Ok <==> valid_port_pattern(value@),
{
    let chars = chars_of(value);
    let entries = split(chars.as_slice(), ',');
    let ghost parts = pieces(value@, ',');
    let ghost findings = Seq::new(parts.len(), |i: int| port_entry_fault(parts[i]));
    proof {
        lemma_port_pattern_fault(value@);
    }
    let mut i: usize = 0;
    while i < entries.len()
        invariant
            i <= entries.len(),
            texts(entries@) == parts,
            findings == Seq::new(parts.len(), |i: int| port_entry_fault(parts[i])),
            forall|j: int| 0 <= j < i ==> #[trigger] findings[j] is None,
        decreases entries.len() - i,
    {
        proof {
            assert(texts(entries@)[i as int] == entries@[i as int]@);
            assert(findings[i as int] == port_entry_fault(entries@[i as int]@));
        }
        match validate_port_entry(entries[i]) {
            Ok(_) => {},
            Err(e) => {
                proof {
                    lemma_first_some_at(findings, i as int);
                }
                return Err(e);
            },
        }
        i += 1;
    }
    proof {
        lemma_first_some_none(findings);
    }
    Ok(())
}

/// Checks a match: it must be a wildcard or name a predicate field, and its
/// port pattern, if it has one, must be well formed, wildcard or not.
pub fn validate_match(m: &Match) -> (r: Result<(), RuleError>)
    ensures
        verdict(r, match_fault(m@)),
        r is Ok <==> valid_match(m@),
{
    proof {
        lemma_match_fault(m@);
    }
    let wildcard = match m.any {
        Some(flag) => flag,
        None => false,
    };
    let has_any = m.sni.is_some() || m.protocol.is_some() || m.port.is_some()
        || m.latency_ms.is_some() || m.rtt_ms.is_some();
    if !wildcard && !has_any {
        return Err(
            RuleError::Invalid("match must contain at least one field or any: true".to_owned()),
        );
    }
    match &m.port {
        Some(port) => validate_port_pattern(port.as_str()),
        None => Ok(()),
    }
}

/// Checks that an action names exactly one primary action.
pub fn validate_action(a: &Action) -> (r: Result<(), RuleError>)
    ensures
        verdict(r, action_fault(a@)),
{
    let mut count: u8 = 0;
    if a.route.is_some() {
        count += 1;
    }
    if a.switch_route.is_some() {
        count += 1;
    }
    if let Some(true) = a.block {
        count += 1;
    }
    if a.throttle.is_some() {
        count += 1;
    }
    if count == 0 {
        return Err(RuleError::Invalid("action must include one primary action".to_owned()));
    }
    if count > 1 {
        return Err(
            RuleError::Invalid("action must not include multiple primary actions".to_owned()),
        );
    }
    Ok(())
}

/// Checks a rule.
pub fn validate_rule(rule: &Rule) -> (r: Result<(), RuleError>)
    ensures
        verdict(r, rule_fault(rule@)),
        r is Ok <==> valid_rule(rule@),
{
    proof {
        lemma_rule_fault(rule@);
    }
    let name = chars_of(rule.name.as_str());
    if trim(name.as_slice()).len() == 0 {
        return Err(RuleError::Invalid("rule name is required".to_owned()));
    }
    if rule.priority < 0 {
        return Err(RuleError::Invalid("priority must be >= 0".to_owned()));
    }
    if let Some(when) = &rule.when {
        if let Some(selector) = &when.state {
            validate_state_selector(selector)?;
        }
    }
    if let Some(selector) = &rule.disable {
        validate_state_selector(selector)?;
    }
    validate_match(&rule.matcher)?;
    validate_action(&rule.action)
}

/// Checks a rule set: it must not be empty, and each rule must be well
/// formed. The error is that of the first bad rule.
#[verifier::loop_isolation(false)]
pub fn validate_ruleset(ruleset: &RuleSet) -> (r: Result<(), RuleError>)
    ensures
        verdict(r, ruleset_fault(ruleset@)),
        r is Ok <==> valid_ruleset(ruleset@),
{
    proof {
        lemma_ruleset_fault(ruleset@);
    }
    if ruleset.rules.len() == 0 {
        return Err(RuleError::Invalid("rules must not be empty".to_owned()));
    }
    let ghost rules = ruleset@;
    let ghost findings = Seq::new(rules.len(), |i: int| rule_fault(rules[i]));
    let mut i: usize = 0;
    while i < ruleset.rules.len()
        invariant
            i <= ruleset.rules.len(),
            rules == ruleset@,
            findings == Seq::new(rules.len(), |i: int| rule_fault(rules[i])),
            forall|j: int| 0 <= j < i ==> #[trigger] findings[j] is None,
        decreases ruleset.rules.len() - i,
    {
        proof {
            assert(findings[i as int] == rule_fault(ruleset.rules@[i as int]@));
        }
        match validate_rule(&ruleset.rules[i]) {
            Ok(_) => {},
            Err(e) => {
                proof {
                    lemma_first_some_at(findings, i as int);
                }
                return Err(e);
            },
        }
        i += 1;
    }
    proof {
        lemma_first_some_none(findings);
    }
    Ok(())
}

/// Finishes the reading of a rule set from its serialized form: a decoding
/// failure becomes `Yaml` with the decoder's message, and a decoded rule set
/// is returned exactly when it is well formed.
pub fn accept_decoded(decoded: Result<RuleSet, String>) -> (r: Result<RuleSet, RuleError>)
    ensures
        match decoded {
            Err(message) => r is Err && r->Err_0@ == RuleErrorView::Yaml(message@),
            Ok(ruleset) => match r {
                Ok(accepted) => accepted == ruleset && valid_ruleset(ruleset@),
                Err(e) => ruleset_fault(ruleset@) is Some && e@ == RuleErrorView::Invalid(
                    ruleset_fault(ruleset@)->0,
                ),
            },
        },
{
    match decoded {
        Err(message) => Err(RuleError::Yaml(message)),
        Ok(ruleset) => match validate_ruleset(&ruleset) {
            Ok(_) => Ok(ruleset),
            Err(e) => Err(e),
        },
    }
}

} // verus!
