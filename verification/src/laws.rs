//! Laws of the predicate languages: what port patterns and numeric
//! predicates accept, stated for every pattern of a given shape.

use crate::engine::{
    holds, names_state, numeric_matches, operator_of, port_entry_matches, port_matches,
};
use crate::numerals::{decimal, is_digit, lemma_decimal_reads_back, lemma_decimal_value};
use crate::rules::{
    known_state, lemma_match_fault, match_fault, valid_match, valid_port_entry, valid_port_pattern,
    MatchView,
};
use crate::state::{state_name, state_named, EngineState};
use crate::strings::{is_ascii_text, lowercase, uppercase};
use crate::text::{
    is_blank, is_space, lemma_position, lemma_position_is, lemma_trimmed_fixed,
    lemma_trimmed_padded, pieces, trimmed,
};
use vstd::prelude::*;

verus! {

/// A decimal numeral holds neither white space nor a hyphen, a comma or an
/// operator sign, and trimming leaves it as it is.
pub proof fn lemma_decimal_plain(n: nat)
    ensures
        trimmed(decimal(n)) == decimal(n),
        !decimal(n).contains('-'),
        !decimal(n).contains(','),
        decimal(n).len() > 0,
        decimal(n)[0] != '=',
        !is_space(decimal(n)[0]),
        !is_space(decimal(n).last()),
{
    lemma_decimal_value(n);
    let s = decimal(n);
    assert(is_digit(s[0]));
    assert(is_digit(s[s.len() - 1]));
    lemma_trimmed_fixed(s);
    assert forall|i: int| 0 <= i < s.len() implies s[i] != '-' && s[i] != ',' by {
        assert(is_digit(s[i]));
    }
}

/// Blank text holds neither a hyphen nor a comma.
pub proof fn lemma_blank_plain(s: Seq<char>)
    requires
        is_blank(s),
    ensures
        !s.contains('-'),
        !s.contains(','),
{
    assert forall|i: int| 0 <= i < s.len() implies s[i] != '-' && s[i] != ',' by {
        assert(is_space(s[i]));
    }
}

/// An entry that is the numeral of one port, with any white space around
/// it, accepts that port and no other.
pub proof fn lemma_single_port(before: Seq<char>, n: u16, after: Seq<char>, port: u16)
    requires
        is_blank(before),
        is_blank(after),
    ensures
        port_entry_matches(before + decimal(n as nat) + after, port) <==> port == n,
{
    let s = decimal(n as nat);
    lemma_decimal_plain(n as nat);
    lemma_trimmed_padded(before, s, after);
    lemma_position(s, '-');
    lemma_decimal_reads_back(n as nat, 0xffff);
}

/// An entry `lo-hi`, with any white space around the numerals, accepts the
/// ports from `lo` to `hi`, both included, and is well formed exactly when
/// `lo` is not the larger.
pub proof fn lemma_port_range(
    before: Seq<char>,
    lo: u16,
    left: Seq<char>,
    right: Seq<char>,
    hi: u16,
    after: Seq<char>,
    port: u16,
)
    requires
        is_blank(before),
        is_blank(left),
        is_blank(right),
        is_blank(after),
    ensures
        port_entry_matches(
            before + (decimal(lo as nat) + left + seq!['-'] + right + decimal(hi as nat)) + after,
            port,
        ) <==> lo <= port <= hi,
        valid_port_entry(
            before + (decimal(lo as nat) + left + seq!['-'] + right + decimal(hi as nat)) + after,
        ) <==> lo <= hi,
{
    let a = decimal(lo as nat);
    let b = decimal(hi as nat);
    let start = a + left;
    let end = right + b;
    let e = a + left + seq!['-'] + right + b;
    let none = Seq::<char>::empty();
    lemma_decimal_plain(lo as nat);
    lemma_decimal_plain(hi as nat);
    lemma_blank_plain(left);
    assert(e[0] == a[0]);
    assert(e.last() == b.last());
    lemma_trimmed_padded(before, e, after);
    assert forall|i: int| 0 <= i < start.len() implies #[trigger] e[i] != '-' by {
        if i < a.len() {
            assert(e[i] == a[i]);
            assert(a.contains(a[i]));
        } else {
            assert(e[i] == left[i - a.len()]);
            assert(left.contains(left[i - a.len()]));
        }
    }
    assert(e[start.len() as int] == '-');
    lemma_position_is(e, '-', start.len() as int);
    assert(e.take(start.len() as int) =~= start);
    assert(e.skip(start.len() as int + 1) =~= end);
    lemma_trimmed_padded(none, a, left);
    assert(none + a + left =~= start);
    lemma_trimmed_padded(right, b, none);
    assert(right + b + none =~= end);
    lemma_decimal_reads_back(lo as nat, 0xffff);
    lemma_decimal_reads_back(hi as nat, 0xffff);
}

/// A pattern that is one range `lo-hi` is well formed exactly when `lo` is
/// not the larger.
pub proof fn lemma_range_pattern(lo: u16, hi: u16)
    ensures
        valid_port_pattern(decimal(lo as nat) + seq!['-'] + decimal(hi as nat)) <==> lo <= hi,
{
    let none = Seq::<char>::empty();
    let a = decimal(lo as nat);
    let b = decimal(hi as nat);
    let range = a + seq!['-'] + b;
    lemma_decimal_plain(lo as nat);
    lemma_decimal_plain(hi as nat);
    assert forall|i: int| 0 <= i < range.len() implies #[trigger] range[i] != ',' by {
        if i < a.len() {
            assert(range[i] == a[i]);
            assert(a.contains(a[i]));
        } else if i > a.len() {
            assert(range[i] == b[i - a.len() - 1]);
            assert(b.contains(b[i - a.len() - 1]));
        }
    }
    lemma_position_is(range, ',', range.len() as int);
    let parts = pieces(range, ',');
    assert(parts =~= seq![range]);
    lemma_port_range(none, lo, none, none, hi, none, 0);
    assert(none + (a + none + seq!['-'] + none + b) + none =~= range);
    if lo <= hi {
        assert forall|i: int| 0 <= i < parts.len() implies valid_port_entry(
            #[trigger] parts[i],
        ) by {
            assert(parts[i] == range);
        }
    } else {
        assert(!valid_port_entry(parts[0]));
    }
}

/// A match whose port pattern is a range with the larger port first is at
/// fault, whether it is a wildcard or not.
pub proof fn lemma_reversed_range_refused(m: MatchView, lo: u16, hi: u16)
    requires
        lo > hi,
        m.port == Some(decimal(lo as nat) + seq!['-'] + decimal(hi as nat)),
    ensures
        !valid_match(m),
        match_fault(m) is Some,
{
    lemma_range_pattern(lo, hi);
    lemma_match_fault(m);
}

/// A pattern without a comma is one entry.
pub proof fn lemma_one_entry(entry: Seq<char>, port: u16)
    requires
        !entry.contains(','),
    ensures
        port_matches(entry, port) <==> port_entry_matches(entry, port),
{
    lemma_position(entry, ',');
    let parts = pieces(entry, ',');
    assert(parts =~= seq![entry]);
    if port_entry_matches(entry, port) {
        assert(port_entry_matches(parts[0], port));
    }
}

/// A pattern `entry,rest` accepts what `entry` accepts and what the pattern
/// `rest` accepts.
pub proof fn lemma_port_list(entry: Seq<char>, rest: Seq<char>, port: u16)
    requires
        !entry.contains(','),
    ensures
        port_matches(entry + seq![','] + rest, port) <==> port_entry_matches(entry, port)
            || port_matches(rest, port),
{
    let s = entry + seq![','] + rest;
    lemma_position(entry, ',');
    assert forall|i: int| 0 <= i < entry.len() implies #[trigger] s[i] != ',' by {
        assert(s[i] == entry[i]);
        assert(entry.contains(entry[i]));
    }
    assert(s[entry.len() as int] == ',');
    lemma_position_is(s, ',', entry.len() as int);
    assert(s.take(entry.len() as int) =~= entry);
    assert(s.skip(entry.len() as int + 1) =~= rest);
    let parts = pieces(s, ',');
    let tail = pieces(rest, ',');
    assert(parts =~= seq![entry] + tail);
    if port_matches(s, port) {
        let i = choose|i: int|
            0 <= i < parts.len() && port_entry_matches(#[trigger] parts[i], port);
        if i > 0 {
            assert(parts[i] == tail[i - 1]);
            assert(port_entry_matches(tail[i - 1], port));
        }
    }
    if port_entry_matches(entry, port) {
        assert(port_entry_matches(parts[0], port));
    }
    if port_matches(rest, port) {
        let i = choose|i: int| 0 <= i < tail.len() && port_entry_matches(#[trigger] tail[i], port);
        assert(parts[i + 1] == tail[i]);
        assert(port_entry_matches(parts[i + 1], port));
    }
}

/// The pattern of one port and one range, `n,lo-hi`, accepts `n` and the
/// ports from `lo` to `hi`, and no others.
pub proof fn lemma_port_and_range(n: u16, lo: u16, hi: u16, port: u16)
    ensures
        port_matches(
            decimal(n as nat) + seq![','] + (decimal(lo as nat) + seq!['-'] + decimal(hi as nat)),
            port,
        ) <==> port == n || lo <= port <= hi,
{
    let none = Seq::<char>::empty();
    let single = decimal(n as nat);
    let a = decimal(lo as nat);
    let b = decimal(hi as nat);
    let range = a + seq!['-'] + b;
    lemma_decimal_plain(n as nat);
    lemma_decimal_plain(lo as nat);
    lemma_decimal_plain(hi as nat);
    assert forall|i: int| 0 <= i < range.len() implies range[i] != ',' by {
        if i < a.len() {
            assert(range[i] == a[i]);
            assert(a.contains(a[i]));
        } else if i > a.len() {
            assert(range[i] == b[i - a.len() - 1]);
            assert(b.contains(b[i - a.len() - 1]));
        }
    }
    lemma_port_list(single, range, port);
    lemma_one_entry(range, port);
    lemma_single_port(none, n, none, port);
    assert(none + single + none =~= single);
    lemma_port_range(none, lo, none, none, hi, none, port);
    assert(none + (a + none + seq!['-'] + none + b) + none =~= range);
}

/// The pattern `22,1000-2000` accepts port 22 and the ports from 1000 to
/// 2000, and no others.
pub proof fn lemma_port_pattern_sample(port: u16)
    ensures
        port_matches("22,1000-2000"@, port) <==> port == 22 || 1000 <= port <= 2000,
{
    reveal_strlit("22,1000-2000");
    reveal_with_fuel(decimal, 5);
    lemma_port_and_range(22, 1000, 2000, port);
    assert(decimal(22) =~= seq!['2', '2']);
    assert(decimal(1000) =~= seq!['1', '0', '0', '0']);
    assert(decimal(2000) =~= seq!['2', '0', '0', '0']);
    assert("22,1000-2000"@ =~= decimal(22) + seq![','] + (decimal(1000) + seq!['-'] + decimal(
        2000,
    )));
}

/// Whether `op` is one of the six comparison operators.
pub open spec fn is_operator(op: Seq<char>) -> bool {
    ||| op == seq!['>']
    ||| op == seq!['>', '=']
    ||| op == seq!['<']
    ||| op == seq!['<', '=']
    ||| op == seq!['=']
    ||| op == seq!['=', '=']
}

/// The relation between `value` and `n` that the operator `op` writes.
pub open spec fn relation(op: Seq<char>, value: u32, n: u32) -> bool {
    if op == seq!['>'] {
        value > n
    } else if op == seq!['>', '='] {
        value >= n
    } else if op == seq!['<'] {
        value < n
    } else if op == seq!['<', '='] {
        value <= n
    } else {
        value == n
    }
}

/// A numeric predicate written as an operator and the numeral of `n`, with
/// any white space before, between and after them, accepts exactly the
/// values that stand in the operator's relation to `n`.
pub proof fn lemma_numeric_predicate(
    before: Seq<char>,
    op: Seq<char>,
    between: Seq<char>,
    n: u32,
    after: Seq<char>,
    value: u32,
)
    requires
        is_operator(op),
        is_blank(before),
        is_blank(between),
        is_blank(after),
    ensures
        numeric_matches(before + op + between + decimal(n as nat) + after, value) <==> relation(
            op,
            value,
            n,
        ),
{
    let d = decimal(n as nat);
    let e = op + between + d;
    lemma_decimal_plain(n as nat);
    lemma_decimal_reads_back(n as nat, 0xffff_ffff);
    assert(e[0] == op[0]);
    assert(e.last() == d.last());
    lemma_trimmed_padded(before, e, after);
    assert(before + e + after =~= before + op + between + d + after);
    if op.len() == 1 {
        if between.len() > 0 {
            assert(e[1] == between[0]);
            assert(is_space(between[0]));
        } else {
            assert(e[1] == d[0]);
        }
    } else {
        assert(e[1] == op[1]);
    }
    assert(e.skip(op.len() as int) =~= between + d);
    let none = Seq::<char>::empty();
    lemma_trimmed_padded(between, d, none);
    assert(between + d + none =~= between + d);
    assert(operator_of(e) is Some);
    let found = operator_of(e).unwrap();
    assert(found.1 == op.len());
}

/// The canonical names of the states are ASCII text that is not empty, has
/// no white space at its ends and is in upper case already.
pub proof fn lemma_state_names_plain(state: EngineState)
    ensures
        is_ascii_text(state_name(state)),
        trimmed(state_name(state)) == state_name(state),
        uppercase(state_name(state)) == state_name(state),
        state_name(state).len() > 0,
{
    reveal_strlit("NORMAL");
    reveal_strlit("DEGRADED");
    reveal_strlit("FAILOVER");
    reveal_strlit("RECOVERY");
    let s = state_name(state);
    lemma_trimmed_fixed(s);
    assert(uppercase(s) =~= s);
}

/// The canonical name of a state is a known state name, names that state
/// and no other, and is read back as that state.
pub proof fn lemma_canonical_names(a: EngineState, b: EngineState)
    ensures
        known_state(state_name(a)),
        names_state(state_name(a), b) <==> a == b,
        state_named(state_name(a)) == Some(a),
{
    lemma_state_names_plain(a);
    lemma_state_names_plain(b);
    reveal_strlit("NORMAL");
    reveal_strlit("DEGRADED");
    reveal_strlit("FAILOVER");
    reveal_strlit("RECOVERY");
    reveal_strlit("normal");
    reveal_strlit("degraded");
    reveal_strlit("failover");
    reveal_strlit("recovery");
    let s = state_name(a);
    assert(s[0] != state_name(b)[0] || a == b);
    let l = lowercase(s);
    match a {
        EngineState::Normal => {
            assert(l =~= "normal"@);
        },
        EngineState::Degraded => {
            assert(l =~= "degraded"@);
            assert(l[0] != "normal"@[0]);
        },
        EngineState::Failover => {
            assert(l =~= "failover"@);
            assert(l[0] != "normal"@[0]);
            assert(l[0] != "degraded"@[0]);
        },
        EngineState::Recovery => {
            assert(l =~= "recovery"@);
            assert(l[0] != "normal"@[0]);
            assert(l[0] != "degraded"@[0]);
            assert(l[0] != "failover"@[0]);
        },
    }
}

} // verus!
