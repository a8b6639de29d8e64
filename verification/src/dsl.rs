//! The compact rule language: one directive per line, rules opened by a
//! `rule <name>:` header.

use crate::numerals::{decimal, parse_i32, parsed_i32, push_decimal};
use crate::rules::{
    empty_action, empty_match, lemma_ruleset_fault, rules_view, ruleset_fault, valid_ruleset,
    validate_ruleset, Action, ActionView, Match, MatchView, Rule, RuleError, RuleSet, RuleView,
    RuleWhen, SelectorView, StateSelector,
};
use crate::strings::{begins_with, chars_of, is_word, push_str, string_of, strings_view};
use crate::text::{
    append, cut, pieces, split, split_once, split_words, strip_prefixes, strip_trailing, texts,
    trim, trimmed, without_prefixes, without_trailing, words,
};
use vstd::prelude::*;
use vstd::slice::slice_subrange;

verus! {

/// Why a text in the rule language was refused.
#[derive(Debug)]
pub enum DslError {
    Invalid(String),
}

impl View for DslError {
    type V = Seq<char>;

    open spec fn view(&self) -> Seq<char> {
        match self {
            DslError::Invalid(message) => message@,
        }
    }
}

/// The message of a fault found on line `n`, counted from 1.
pub open spec fn line_fault(n: nat, what: Seq<char>) -> Seq<char> {
    "line "@ + decimal(n) + ": "@ + what
}

/// The error for a fault found on a line.
fn line_error(line_no: usize, what: &str) -> (e: DslError)
    ensures
        e@ == line_fault(line_no as nat, what@),
{
    let mut out = chars_of("line ");
    push_decimal(&mut out, line_no as u64);
    push_str(&mut out, ": ");
    push_str(&mut out, what);
    DslError::Invalid(string_of(out.as_slice()))
}

/// The error for a fault found on a line, naming what is at fault.
fn line_error_about(line_no: usize, what: &str, subject: &[char]) -> (e: DslError)
    ensures
        e@ == line_fault(line_no as nat, what@ + subject@),
{
    let mut out = chars_of("line ");
    push_decimal(&mut out, line_no as u64);
    push_str(&mut out, ": ");
    push_str(&mut out, what);
    append(&mut out, subject);
    proof {
        assert(out@ =~= line_fault(line_no as nat, what@ + subject@));
    }
    DslError::Invalid(string_of(out.as_slice()))
}

/// A value without the white space around it and without the pair of double
/// or single quotes that encloses it, if one does.
pub open spec fn unquoted(raw: Seq<char>) -> Seq<char> {
    let v = trimmed(raw);
    if v.len() >= 2 && ((v[0] == '"' && v.last() == '"') || (v[0] == '\'' && v.last() == '\'')) {
        v.subrange(1, v.len() - 1)
    } else {
        v
    }
}

/// Strips white space and one enclosing pair of quotes from a value.
fn unquote(raw: &[char]) -> (value: String)
    ensures
        value@ == unquoted(raw@),
{
    let v = trim(raw);
    let n = v.len();
    if n >= 2 && ((v[0] == '"' && v[n - 1] == '"') || (v[0] == '\'' && v[n - 1] == '\'')) {
        string_of(slice_subrange(v, 1, n - 1))
    } else {
        string_of(v)
    }
}

/// Strips white space and one enclosing pair of quotes from a value.
pub fn strip_quotes(value: &str) -> (r: String)
    ensures
        r@ == unquoted(value@),
{
    let chars = chars_of(value);
    unquote(chars.as_slice())
}

/// A match after one token of a `match` line, and the fault of the token if
/// it has one. `any` and `any=true` set the wildcard; `key=value` sets the
/// field that `key` names.
pub open spec fn match_token(m: MatchView, token: Seq<char>, n: nat) -> (
    MatchView,
    Option<Seq<char>>,
) {
    if token == "any"@ || token == "any=true"@ {
        (MatchView { any: Some(true), ..m }, None)
    } else {
        match cut(token, '=') {
            None => (m, Some(line_fault(n, "invalid match token"@))),
            Some((key, raw)) => {
                let value = unquoted(raw);
                if key == "sni"@ {
                    (MatchView { sni: Some(value), ..m }, None)
                } else if key == "protocol"@ {
                    (MatchView { protocol: Some(value), ..m }, None)
                } else if key == "port"@ {
                    (MatchView { port: Some(value), ..m }, None)
                } else if key == "latency_ms"@ {
                    (MatchView { latency_ms: Some(value), ..m }, None)
                } else if key == "rtt_ms"@ {
                    (MatchView { rtt_ms: Some(value), ..m }, None)
                } else {
                    (m, Some(line_fault(n, "unknown match key "@ + key)))
                }
            },
        }
    }
}

/// A match after the first `k` tokens of a `match` line, up to the first
/// token at fault.
pub open spec fn match_tokens(m: MatchView, tokens: Seq<Seq<char>>, k: int, n: nat) -> (
    MatchView,
    Option<Seq<char>>,
)
    decreases k,
{
    if k <= 0 {
        (m, None)
    } else {
        let before = match_tokens(m, tokens, k - 1, n);
        if before.1 is Some {
            before
        } else {
            match_token(before.0, tokens[k - 1], n)
        }
    }
}

/// A match after a `match` line, and the line's fault if it has one.
pub open spec fn match_line(m: MatchView, line: Seq<char>, n: nat) -> (
    MatchView,
    Option<Seq<char>>,
) {
    let rest = trimmed(without_prefixes(line, "match "@));
    if rest.len() == 0 {
        (m, Some(line_fault(n, "match needs fields"@)))
    } else {
        match_tokens(m, words(rest), words(rest).len() as int, n)
    }
}

/// An action after one token of an `action` line, and the fault of the token
/// if it has one. `block` and `log`, bare or with `=true`, set their flags;
/// `key=value` sets the field that `key` names.
pub open spec fn action_token(a: ActionView, token: Seq<char>, n: nat) -> (
    ActionView,
    Option<Seq<char>>,
) {
    if token == "block"@ || token == "block=true"@ {
        (ActionView { block: Some(true), ..a }, None)
    } else if token == "log"@ || token == "log=true"@ {
        (ActionView { log: Some(true), ..a }, None)
    } else {
        match cut(token, '=') {
            None => (a, Some(line_fault(n, "invalid action token"@))),
            Some((key, raw)) => {
                let value = unquoted(raw);
                if key == "route"@ {
                    (ActionView { route: Some(value), ..a }, None)
                } else if key == "switch_route"@ {
                    (ActionView { switch_route: Some(value), ..a }, None)
                } else if key == "throttle"@ {
                    (ActionView { throttle: Some(value), ..a }, None)
                } else if key == "log"@ {
                    (ActionView { log: Some(value == "true"@), ..a }, None)
                } else {
                    (a, Some(line_fault(n, "unknown action key "@ + key)))
                }
            },
        }
    }
}

/// An action after the first `k` tokens of an `action` line, up to the first
/// token at fault.
pub open spec fn action_tokens(a: ActionView, tokens: Seq<Seq<char>>, k: int, n: nat) -> (
    ActionView,
    Option<Seq<char>>,
)
    decreases k,
{
    if k <= 0 {
        (a, None)
    } else {
        let before = action_tokens(a, tokens, k - 1, n);
        if before.1 is Some {
            before
        } else {
            action_token(before.0, tokens[k - 1], n)
        }
    }
}

/// An action after an `action` line, and the line's fault if it has one.
pub open spec fn action_line(a: ActionView, line: Seq<char>, n: nat) -> (
    ActionView,
    Option<Seq<char>>,
) {
    let rest = trimmed(without_prefixes(line, "action "@));
    if rest.len() == 0 {
        (a, Some(line_fault(n, "action needs fields"@)))
    } else {
        action_tokens(a, words(rest), words(rest).len() as int, n)
    }
}

/// The first `k` words with one space between neighbours.
pub open spec fn joined(ws: Seq<Seq<char>>, k: int) -> Seq<char>
    decreases k,
{
    if k <= 0 {
        seq![]
    } else if k == 1 {
        ws[0]
    } else {
        joined(ws, k - 1) + seq![' '] + ws[k - 1]
    }
}

/// Of the first `k` parts, trimmed, those that are not empty.
pub open spec fn kept(parts: Seq<Seq<char>>, k: int) -> Seq<Seq<char>>
    decreases k,
{
    if k <= 0 {
        seq![]
    } else if trimmed(parts[k - 1]).len() == 0 {
        kept(parts, k - 1)
    } else {
        kept(parts, k - 1).push(trimmed(parts[k - 1]))
    }
}

/// The state names of a `when` or `disable` line: what follows the
/// directive's word, without the leading `state=` if it is there.
pub open spec fn selector_text(line: Seq<char>) -> Seq<char> {
    let ws = words(line);
    let rest = if ws.len() >= 1 {
        joined(ws.skip(1), ws.len() - 1)
    } else {
        seq![]
    };
    if "state="@.is_prefix_of(rest) {
        trimmed(rest.skip("state="@.len() as int))
    } else {
        trimmed(rest)
    }
}

/// The selector that a comma-separated list of names writes: one name gives
/// `Single`, any other number gives `Many`.
pub open spec fn selector_of(value: Seq<char>) -> SelectorView {
    let items = kept(pieces(value, ','), pieces(value, ',').len() as int);
    if items.len() == 1 {
        SelectorView::Single(items[0])
    } else {
        SelectorView::Many(items)
    }
}

/// The selector of a `when` or `disable` line, or the line's fault.
pub open spec fn selector_line(line: Seq<char>, n: nat) -> Result<SelectorView, Seq<char>> {
    let value = selector_text(line);
    if value.len() == 0 {
        Err(line_fault(n, "state value is required"@))
    } else {
        Ok(selector_of(value))
    }
}

/// The rules read so far and the rule that is being read.
pub struct DslState {
    pub done: Seq<RuleView>,
    pub open: Option<RuleView>,
}

/// The rules of a state, the one being read included.
pub open spec fn closed(st: DslState) -> Seq<RuleView> {
    match st.open {
        Some(r) => st.done.push(r),
        None => st.done,
    }
}

/// The rule that a header opens: priority 0, nothing matched, nothing done.
pub open spec fn fresh_rule(name: Seq<char>) -> RuleView {
    RuleView {
        name,
        priority: 0,
        matcher: empty_match(),
        when: None,
        disable: None,
        action: empty_action(),
    }
}

/// The name that a `rule` header gives.
pub open spec fn rule_name(line: Seq<char>) -> Seq<char> {
    trimmed(without_trailing(without_prefixes(line, "rule "@), ':'))
}

/// The rule that is being read after a directive other than a header.
pub open spec fn field_directive(rule: RuleView, t: Seq<char>, n: nat) -> Result<
    RuleView,
    Seq<char>,
> {
    if "priority "@.is_prefix_of(t) {
        match parsed_i32(trimmed(without_prefixes(t, "priority "@))) {
            None => Err(line_fault(n, "invalid priority"@)),
            Some(p) => Ok(RuleView { priority: p as int, ..rule }),
        }
    } else if "match "@.is_prefix_of(t) {
        match match_line(rule.matcher, t, n).1 {
            Some(fault) => Err(fault),
            None => Ok(RuleView { matcher: match_line(rule.matcher, t, n).0, ..rule }),
        }
    } else if "action "@.is_prefix_of(t) {
        match action_line(rule.action, t, n).1 {
            Some(fault) => Err(fault),
            None => Ok(RuleView { action: action_line(rule.action, t, n).0, ..rule }),
        }
    } else if "when "@.is_prefix_of(t) {
        match selector_line(t, n) {
            Err(fault) => Err(fault),
            Ok(s) => Ok(RuleView { when: Some(s), ..rule }),
        }
    } else if "disable "@.is_prefix_of(t) {
        match selector_line(t, n) {
            Err(fault) => Err(fault),
            Ok(s) => Ok(RuleView { disable: Some(s), ..rule }),
        }
    } else {
        Err(line_fault(n, "unknown directive"@))
    }
}

/// The state after the directive `t`, a trimmed line that is neither blank
/// nor a comment. A header closes the rule being read and opens the next;
/// any other directive needs a rule being read.
pub open spec fn directive(st: DslState, t: Seq<char>, n: nat) -> Result<DslState, Seq<char>> {
    if "rule "@.is_prefix_of(t) {
        if rule_name(t).len() == 0 {
            Err(line_fault(n, "rule name is required"@))
        } else {
            Ok(DslState { done: closed(st), open: Some(fresh_rule(rule_name(t))) })
        }
    } else {
        match st.open {
            None => Err(line_fault(n, "content must be inside a rule block"@)),
            Some(rule) => match field_directive(rule, t, n) {
                Err(fault) => Err(fault),
                Ok(next) => Ok(DslState { done: st.done, open: Some(next) }),
            },
        }
    }
}

/// The state after one line. Blank lines and lines whose first character
/// after white space is `#` change nothing.
pub open spec fn line_step(st: DslState, line: Seq<char>, n: nat) -> Result<DslState, Seq<char>> {
    let t = trimmed(line);
    if t.len() == 0 || t[0] == '#' {
        Ok(st)
    } else {
        directive(st, t, n)
    }
}

/// The state after the first `k` lines, or the first fault among them.
pub open spec fn after_lines(lines: Seq<Seq<char>>, k: int) -> Result<DslState, Seq<char>>
    decreases k,
{
    if k <= 0 {
        Ok(DslState { done: seq![], open: None })
    } else {
        match after_lines(lines, k - 1) {
            Err(fault) => Err(fault),
            Ok(st) => line_step(st, lines[k - 1], k as nat),
        }
    }
}

/// What a text in the rule language means: its rules, if every line is in
/// order, at least one rule is defined and the rules are well formed; else
/// the message of the first fault.
pub open spec fn dsl_parsed(input: Seq<char>) -> Result<Seq<RuleView>, Seq<char>> {
    let lines = pieces(input, '\n');
    match after_lines(lines, lines.len() as int) {
        Err(fault) => Err(fault),
        Ok(st) => if closed(st).len() == 0 {
            Err("no rules defined"@)
        } else {
            match ruleset_fault(closed(st)) {
                Some(fault) => Err(fault),
                None => Ok(closed(st)),
            }
        },
    }
}

/// What a line parser returns for a fault: `Ok` for none, else the fault as
/// the error's message.
pub open spec fn reports(r: Result<(), DslError>, fault: Option<Seq<char>>) -> bool {
    match r {
        Ok(_) => fault is None,
        Err(e) => fault == Some(e@),
    }
}

/// Applies one token of a `match` line.
fn apply_match_token(token: &[char], target: &mut Match, line_no: usize) -> (r: Result<
    (),
    DslError,
>)
    ensures
        final(target)@ == match_token(old(target)@, token@, line_no as nat).0,
        reports(r, match_token(old(target)@, token@, line_no as nat).1),
{
    if is_word(token, "any") || is_word(token, "any=true") {
        target.any = Some(true);
        return Ok(());
    }
    let (key, raw) = match split_once(token, '=') {
        Some(pair) => pair,
        None => {
            return Err(line_error(line_no, "invalid match token"));
        },
    };
    let value = unquote(raw);
    if is_word(key, "sni") {
        target.sni = Some(value);
    } else if is_word(key, "protocol") {
        target.protocol = Some(value);
    } else if is_word(key, "port") {
        target.port = Some(value);
    } else if is_word(key, "latency_ms") {
        target.latency_ms = Some(value);
    } else if is_word(key, "rtt_ms") {
        target.rtt_ms = Some(value);
    } else {
        return Err(line_error_about(line_no, "unknown match key ", key));
    }
    Ok(())
}

/// Reads a `match` line into `target`. Tokens are applied from left to right
/// up to the first one at fault.
#[verifier::loop_isolation(false)]
pub fn parse_match_line(line: &str, target: &mut Match, line_no: usize) -> (r: Result<(), DslError>)
    ensures
        final(target)@ == match_line(old(target)@, line@, line_no as nat).0,
        reports(r, match_line(old(target)@, line@, line_no as nat).1),
{
    let chars = chars_of(line);
    let word = chars_of("match ");
    let rest = trim(strip_prefixes(chars.as_slice(), word.as_slice()));
    if rest.len() == 0 {
        return Err(line_error(line_no, "match needs fields"));
    }
    let tokens = split_words(rest);
    let ghost ws = words(rest@);
    let ghost start = old(target)@;
    let ghost n = line_no as nat;
    let mut i: usize = 0;
    while i < tokens.len()
        invariant
            i <= tokens.len(),
            texts(tokens@) == ws,
            match_tokens(start, ws, i as int, n) == (target@, None::<Seq<char>>),
        decreases tokens.len() - i,
    {
        proof {
            assert(texts(tokens@)[i as int] == tokens@[i as int]@);
        }
        match apply_match_token(tokens[i], target, line_no) {
            Ok(_) => {},
            Err(e) => {
                proof {
                    lemma_match_tokens_stop(start, ws, i + 1, ws.len() as int, n);
                }
                return Err(e);
            },
        }
        i += 1;
    }
    Ok(())
}

/// Once a token is at fault, later tokens change nothing.
proof fn lemma_match_tokens_stop(m: MatchView, tokens: Seq<Seq<char>>, k: int, len: int, n: nat)
    requires
        0 <= k <= len,
        match_tokens(m, tokens, k, n).1 is Some,
    ensures
        match_tokens(m, tokens, len, n) == match_tokens(m, tokens, k, n),
    decreases len - k,
{
    if k < len {
        lemma_match_tokens_stop(m, tokens, k, len - 1, n);
    }
}

/// Applies one token of an `action` line.
fn apply_action_token(token: &[char], target: &mut Action, line_no: usize) -> (r: Result<
    (),
    DslError,
>)
    ensures
        final(target)@ == action_token(old(target)@, token@, line_no as nat).0,
        reports(r, action_token(old(target)@, token@, line_no as nat).1),
{
    if is_word(token, "block") || is_word(token, "block=true") {
        target.block = Some(true);
        return Ok(());
    }
    if is_word(token, "log") || is_word(token, "log=true") {
        target.log = Some(true);
        return Ok(());
    }
    let (key, raw) = match split_once(token, '=') {
        Some(pair) => pair,
        None => {
            return Err(line_error(line_no, "invalid action token"));
        },
    };
    let value = unquote(raw);
    if is_word(key, "route") {
        target.route = Some(value);
    } else if is_word(key, "switch_route") {
        target.switch_route = Some(value);
    } else if is_word(key, "throttle") {
        target.throttle = Some(value);
    } else if is_word(key, "log") {
        let on = chars_of(value.as_str());
        target.log = Some(is_word(on.as_slice(), "true"));
    } else {
        return Err(line_error_about(line_no, "unknown action key ", key));
    }
    Ok(())
}

/// Once a token is at fault, later tokens change nothing.
proof fn lemma_action_tokens_stop(a: ActionView, tokens: Seq<Seq<char>>, k: int, len: int, n: nat)
    requires
        0 <= k <= len,
        action_tokens(a, tokens, k, n).1 is Some,
    ensures
        action_tokens(a, tokens, len, n) == action_tokens(a, tokens, k, n),
    decreases len - k,
{
    if k < len {
        lemma_action_tokens_stop(a, tokens, k, len - 1, n);
    }
}

/// Reads an `action` line into `target`. Tokens are applied from left to
/// right up to the first one at fault.
#[verifier::loop_isolation(false)]
pub fn parse_action_line(line: &str, target: &mut Action, line_no: usize) -> (r: Result<
    (),
    DslError,
>)
    ensures
        final(target)@ == action_line(old(target)@, line@, line_no as nat).0,
        reports(r, action_line(old(target)@, line@, line_no as nat).1),
{
    let chars = chars_of(line);
    let word = chars_of("action ");
    let rest = trim(strip_prefixes(chars.as_slice(), word.as_slice()));
    if rest.len() == 0 {
        return Err(line_error(line_no, "action needs fields"));
    }
    let tokens = split_words(rest);
    let ghost ws = words(rest@);
    let ghost start = old(target)@;
    let ghost n = line_no as nat;
    let mut i: usize = 0;
    while i < tokens.len()
        invariant
            i <= tokens.len(),
            texts(tokens@) == ws,
            action_tokens(start, ws, i as int, n) == (target@, None::<Seq<char>>),
        decreases tokens.len() - i,
    {
        proof {
            assert(texts(tokens@)[i as int] == tokens@[i as int]@);
        }
        match apply_action_token(tokens[i], target, line_no) {
            Ok(_) => {},
            Err(e) => {
                proof {
                    lemma_action_tokens_stop(start, ws, i + 1, ws.len() as int, n);
                }
                return Err(e);
            },
        }
        i += 1;
    }
    Ok(())
}

/// Reads the selector of a `when` or `disable` line.
pub fn parse_state_selector(line: &str, line_no: usize) -> (r: Result<StateSelector, DslError>)
    ensures
        match r {
            Ok(selector) => selector_line(line@, line_no as nat) == Ok::<SelectorView, Seq<char>>(
                selector@,
            ),
            Err(e) => selector_line(line@, line_no as nat) == Err::<SelectorView, Seq<char>>(e@),
        },
{
    let chars = chars_of(line);
    let ws = split_words(chars.as_slice());
    let ghost all = words(line@);
    let mut rest: Vec<char> = Vec::new();
    if ws.len() >= 1 {
        let ghost tail = all.skip(1);
        let mut i: usize = 1;
        while i < ws.len()
            invariant
                1 <= i <= ws.len(),
                texts(ws@) == all,
                tail == all.skip(1),
                rest@ == joined(tail, i - 1),
            decreases ws.len() - i,
        {
            proof {
                assert(texts(ws@)[i as int] == ws@[i as int]@);
                assert(tail[i - 1] == all[i as int]);
            }
            if i > 1 {
                rest.push(' ');
            }
            append(&mut rest, ws[i]);
            proof {
                if i > 1 {
                    assert(rest@ =~= joined(tail, i - 1) + seq![' '] + tail[i - 1]);
                } else {
                    assert(rest@ =~= tail[0]);
                }
            }
            i += 1;
        }
    }
    let prefix = chars_of("state=");
    let body = if crate::text::starts_with(rest.as_slice(), prefix.as_slice()) {
        let b = slice_subrange(rest.as_slice(), prefix.len(), rest.len());
        proof {
            assert(b@ =~= rest@.skip("state="@.len() as int));
        }
        b
    } else {
        rest.as_slice()
    };
    let value = trim(body);
    if value.len() == 0 {
        return Err(line_error(line_no, "state value is required"));
    }
    let parts = split(value, ',');
    let ghost ps = pieces(value@, ',');
    let mut items: Vec<String> = Vec::new();
    let mut j: usize = 0;
    while j < parts.len()
        invariant
            j <= parts.len(),
            texts(parts@) == ps,
            strings_view(items@) == kept(ps, j as int),
        decreases parts.len() - j,
    {
        proof {
            assert(texts(parts@)[j as int] == parts@[j as int]@);
        }
        let item = trim(parts[j]);
        if item.len() != 0 {
            let ghost before = items@;
            items.push(string_of(item));
            proof {
                assert(strings_view(items@) =~= strings_view(before).push(item@));
            }
        }
        j += 1;
    }
    if items.len() == 1 {
        proof {
            assert(strings_view(items@)[0] == items@[0]@);
        }
        Ok(StateSelector::Single(items[0].clone()))
    } else {
        Ok(StateSelector::Many(items))
    }
}

/// The model of the rule that is being read, if one is.
pub open spec fn opt_rule(current: Option<Rule>) -> Option<RuleView> {
    match current {
        Some(r) => Some(r@),
        None => None,
    }
}

/// Applies a directive other than a header to the rule that is being read.
fn apply_field(rule: Rule, t: &[char], line_no: usize) -> (r: Result<Rule, DslError>)
    ensures
        match r {
            Ok(next) => field_directive(rule@, t@, line_no as nat) == Ok::<RuleView, Seq<char>>(
                next@,
            ),
            Err(e) => field_directive(rule@, t@, line_no as nat) == Err::<RuleView, Seq<char>>(
                e@,
            ),
        },
{
    let mut rule = rule;
    let ghost start = rule@;
    if begins_with(t, "priority ") {
        let word = chars_of("priority ");
        let value = trim(strip_prefixes(t, word.as_slice()));
        match parse_i32(value) {
            Some(p) => {
                rule.priority = p;
                proof {
                    assert(rule@ == RuleView { priority: p as int, ..start });
                }
                Ok(rule)
            },
            None => Err(line_error(line_no, "invalid priority")),
        }
    } else if begins_with(t, "match ") {
        let line = string_of(t);
        let mut matcher = rule.matcher;
        match parse_match_line(line.as_str(), &mut matcher, line_no) {
            Ok(_) => {
                let next = Rule {
                    name: rule.name,
                    priority: rule.priority,
                    matcher,
                    when: rule.when,
                    disable: rule.disable,
                    action: rule.action,
                };
                proof {
                    assert(next@ == RuleView { matcher: matcher@, ..start });
                }
                Ok(next)
            },
            Err(e) => Err(e),
        }
    } else if begins_with(t, "action ") {
        let line = string_of(t);
        let mut action = rule.action;
        match parse_action_line(line.as_str(), &mut action, line_no) {
            Ok(_) => {
                let next = Rule {
                    name: rule.name,
                    priority: rule.priority,
                    matcher: rule.matcher,
                    when: rule.when,
                    disable: rule.disable,
                    action,
                };
                proof {
                    assert(next@ == RuleView { action: action@, ..start });
                }
                Ok(next)
            },
            Err(e) => Err(e),
        }
    } else if begins_with(t, "when ") {
        let line = string_of(t);
        match parse_state_selector(line.as_str(), line_no) {
            Ok(selector) => {
                rule.when = Some(RuleWhen { state: Some(selector) });
                proof {
                    assert(rule@ == RuleView { when: Some(selector@), ..start });
                }
                Ok(rule)
            },
            Err(e) => Err(e),
        }
    } else if begins_with(t, "disable ") {
        let line = string_of(t);
        match parse_state_selector(line.as_str(), line_no) {
            Ok(selector) => {
                rule.disable = Some(selector);
                proof {
                    assert(rule@ == RuleView { disable: Some(selector@), ..start });
                }
                Ok(rule)
            },
            Err(e) => Err(e),
        }
    } else {
        Err(line_error(line_no, "unknown directive"))
    }
}

/// Applies one directive: a header closes the rule being read into `rules`
/// and opens the next; any other directive changes the rule being read.
fn apply_directive(rules: &mut Vec<Rule>, current: Option<Rule>, t: &[char], line_no: usize) -> (r:
    Result<Option<Rule>, DslError>)
    ensures
        match r {
            Ok(next) => directive(
                DslState { done: rules_view(old(rules)@), open: opt_rule(current) },
                t@,
                line_no as nat,
            ) == Ok::<DslState, Seq<char>>(
                DslState { done: rules_view(final(rules)@), open: opt_rule(next) },
            ),
            Err(e) => directive(
                DslState { done: rules_view(old(rules)@), open: opt_rule(current) },
                t@,
                line_no as nat,
            ) == Err::<DslState, Seq<char>>(e@),
        },
{
    if begins_with(t, "rule ") {
        let word = chars_of("rule ");
        let name = trim(strip_trailing(strip_prefixes(t, word.as_slice()), ':'));
        if name.len() == 0 {
            return Err(line_error(line_no, "rule name is required"));
        }
        if let Some(rule) = current {
            let ghost before = rules@;
            rules.push(rule);
            proof {
                assert(rules_view(rules@) =~= rules_view(before).push(rule@));
            }
        }
        let fresh = Rule {
            name: string_of(name),
            priority: 0,
            matcher: Match::default(),
            when: None,
            disable: None,
            action: Action::default(),
        };
        return Ok(Some(fresh));
    }
    match current {
        None => Err(line_error(line_no, "content must be inside a rule block")),
        Some(rule) => match apply_field(rule, t, line_no) {
            Ok(next) => Ok(Some(next)),
            Err(e) => Err(e),
        },
    }
}

/// Reads a text in the rule language. Lines are taken in order; the first
/// fault ends the reading, and its message names the line, counted from 1.
/// The rules that come out have passed the same validation as any other rule
/// set.
#[verifier::loop_isolation(false)]
pub fn parse_dsl(input: &str) -> (r: Result<RuleSet, DslError>)
    ensures
        match r {
            Ok(ruleset) => dsl_parsed(input@) == Ok::<Seq<RuleView>, Seq<char>>(ruleset@)
                && valid_ruleset(ruleset@),
            Err(e) => dsl_parsed(input@) == Err::<Seq<RuleView>, Seq<char>>(e@),
        },
{
    let chars = chars_of(input);
    let lines = split(chars.as_slice(), '\n');
    let ghost ls = pieces(input@, '\n');
    let mut rules: Vec<Rule> = Vec::new();
    let mut current: Option<Rule> = None;
    let mut idx: usize = 0;
    proof {
        assert(rules_view(rules@) =~= Seq::<RuleView>::empty());
    }
    while idx < lines.len()
        invariant
            idx <= lines.len(),
            texts(lines@) == ls,
            ls == pieces(input@, '\n'),
            after_lines(ls, idx as int) == Ok::<DslState, Seq<char>>(
                DslState { done: rules_view(rules@), open: opt_rule(current) },
            ),
        decreases lines.len() - idx,
    {
        proof {
            assert(texts(lines@)[idx as int] == lines@[idx as int]@);
        }
        let t = trim(lines[idx]);
        if !(t.len() == 0 || t[0] == '#') {
            match apply_directive(&mut rules, current, t, idx + 1) {
                Ok(next) => {
                    current = next;
                },
                Err(e) => {
                    proof {
                        lemma_after_lines_stop(ls, idx + 1, ls.len() as int);
                    }
                    return Err(e);
                },
            }
        }
        idx += 1;
    }
    if let Some(rule) = current {
        let ghost before = rules@;
        rules.push(rule);
        proof {
            assert(rules_view(rules@) =~= rules_view(before).push(rule@));
        }
    }
    if rules.len() == 0 {
        return Err(DslError::Invalid("no rules defined".to_owned()));
    }
    let ruleset = RuleSet { rules };
    proof {
        lemma_ruleset_fault(ruleset@);
    }
    match validate_ruleset(&ruleset) {
        Ok(_) => Ok(ruleset),
        Err(RuleError::Yaml(message)) => Err(DslError::Invalid(message)),
        Err(RuleError::Invalid(message)) => Err(DslError::Invalid(message)),
    }
}

/// Once a line is at fault, later lines change nothing.
proof fn lemma_after_lines_stop(lines: Seq<Seq<char>>, k: int, len: int)
    requires
        0 <= k <= len,
        after_lines(lines, k) is Err,
    ensures
        after_lines(lines, len) == after_lines(lines, k),
    decreases len - k,
{
    if k < len {
        lemma_after_lines_stop(lines, k, len - 1);
    }
}

} // verus!
