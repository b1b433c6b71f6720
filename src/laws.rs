//! Properties that relate parsing and formatting.
use crate::duration::ErrorKind;
use crate::model::{
    component_nanos, decimal, digit_run, format_model, lemma_component_prefix, lemma_decimal,
    is_ascii_digit, lemma_strip_plain, lemma_unit_letters, parse_model, plain_text, u64_literal,
    unit_nanos, MAX_NANOS,
};
use vstd::arithmetic::div_mod::{lemma_div_by_multiple, lemma_mod_multiples_basic};
use vstd::prelude::*;

verus! {

/// The outcome of adding two parsed durations, failing as the first failed
/// operand did, and with an overflow when the sum does not fit.
pub open spec fn add_outcomes(
    x: core::result::Result<nat, ErrorKind>,
    y: core::result::Result<nat, ErrorKind>,
) -> core::result::Result<nat, ErrorKind> {
    match x {
        Err(e) => Err(e),
        Ok(m) => match y {
            Err(e) => Err(e),
            Ok(n) => if m + n > MAX_NANOS {
                Err(ErrorKind::Overflow)
            } else {
                Ok(m + n)
            },
        },
    }
}

/// The outcome of parsing the single component `d` `u`.
pub open spec fn component_outcome(d: Seq<char>, u: Seq<char>) -> core::result::Result<nat, ErrorKind> {
    match u64_literal(d) {
        None => Err(ErrorKind::ParseInt),
        Some(p) => match component_nanos(p, u) {
            Err(e) => Err(e),
            Ok(c) => if c > MAX_NANOS {
                Err(ErrorKind::Overflow)
            } else {
                Ok(c)
            },
        },
    }
}

proof fn lemma_plain_concat(a: Seq<char>, b: Seq<char>)
    requires
        plain_text(a),
        plain_text(b),
    ensures
        plain_text(a + b),
{
    assert forall|i: int| 0 <= i < (a + b).len() implies is_ascii_digit(#[trigger] (a + b)[i]) || (
    'a' <= (a + b)[i] && (a + b)[i] <= 'z') by {
        if i < a.len() {
            assert((a + b)[i] == a[i]);
        } else {
            assert((a + b)[i] == b[i - a.len()]);
        }
    }
}

proof fn lemma_plain_component(d: Seq<char>, u: Seq<char>)
    requires
        digit_run(d),
        unit_nanos(u) is Some,
    ensures
        plain_text(d + u),
{
    lemma_unit_letters(u);
    lemma_plain_concat(d, u);
}

/// A text of one component, a run of digits and a unit of the table, parses
/// as that component alone.
pub proof fn lemma_single_component(d: Seq<char>, u: Seq<char>)
    requires
        digit_run(d),
        unit_nanos(u) is Some,
    ensures
        parse_model(d + u) == component_outcome(d, u),
{
    let s = d + u;
    lemma_plain_component(d, u);
    lemma_strip_plain(s);
    lemma_component_prefix(d, u, Seq::empty(), 0);
    assert(d + u + Seq::<char>::empty() =~= s);
}

/// Components add up in any order: for two components, each a run of
/// digits whose value fits in a `u64` followed by a unit of the table,
/// parsing them together in either order gives the sum of parsing each alone.
pub proof fn lemma_component_order(d1: Seq<char>, u1: Seq<char>, d2: Seq<char>, u2: Seq<char>)
    requires
        digit_run(d1),
        digit_run(d2),
        unit_nanos(u1) is Some,
        unit_nanos(u2) is Some,
        u64_literal(d1) is Some,
        u64_literal(d2) is Some,
    ensures
        parse_model(d1 + u1 + (d2 + u2)) == add_outcomes(parse_model(d1 + u1), parse_model(d2 + u2)),
        parse_model(d1 + u1 + (d2 + u2)) == parse_model(d2 + u2 + (d1 + u1)),
{
    lemma_pair(d1, u1, d2, u2);
    lemma_pair(d2, u2, d1, u1);
    lemma_single_component(d1, u1);
    lemma_single_component(d2, u2);
}

proof fn lemma_pair(d1: Seq<char>, u1: Seq<char>, d2: Seq<char>, u2: Seq<char>)
    requires
        digit_run(d1),
        digit_run(d2),
        unit_nanos(u1) is Some,
        unit_nanos(u2) is Some,
    ensures
        parse_model(d1 + u1 + (d2 + u2)) == add_outcomes(
            component_outcome(d1, u1),
            component_outcome(d2, u2),
        ),
{
    let s = d1 + u1 + (d2 + u2);
    lemma_plain_component(d1, u1);
    lemma_plain_component(d2, u2);
    lemma_plain_concat(d1 + u1, d2 + u2);
    lemma_strip_plain(s);
    assert((d2 + u2)[0] == d2[0]);
    lemma_component_prefix(d1, u1, d2 + u2, 0);
    let empty = Seq::<char>::empty();
    assert(d2 + u2 + empty =~= d2 + u2);
    match u64_literal(d1) {
        None => {},
        Some(p) => match component_nanos(p, u1) {
            Err(_) => {},
            Ok(c) => {
                lemma_component_prefix(d2, u2, empty, c);
            },
        },
    }
}

/// Canonical text comes back unchanged: for a magnitude `n` of at least 1
/// whose value in the unit `u` fits and is not a multiple of any larger
/// unit, formatting the parse of `n` written in decimal followed by `u` gives
/// that same text.
pub proof fn lemma_canonical_round_trip(n: nat, u: Seq<char>)
    requires
        1 <= n <= u64::MAX,
        unit_nanos(u) is Some,
        component_nanos(n, u) is Ok,
        forall|v: Seq<char>|
            #[trigger] unit_nanos(v) is Some && unit_nanos(v)->0 > unit_nanos(u)->0 ==> (n
                * unit_nanos(u)->0) % unit_nanos(v)->0 != 0,
    ensures
        parse_model(decimal(n) + u) == Ok::<nat, ErrorKind>(n * unit_nanos(u)->0),
        format_model(n * unit_nanos(u)->0) == decimal(n) + u,
{
    let k = unit_nanos(u)->0;
    lemma_decimal(n);
    lemma_single_component(decimal(n), u);
    assert(n * k <= MAX_NANOS) by (nonlinear_arith)
        requires
            n <= u64::MAX,
            k <= 31_556_926_000_000_000,
            k > 1_000_000_000 ==> n * (k / 1_000_000_000) <= u64::MAX,
            k % 1_000_000_000 == 0 || k <= 1_000_000_000,
            MAX_NANOS == u64::MAX * 1_000_000_000 + 999_999_999,
    ;
    lemma_mod_multiples_basic(n as int, k as int);
    lemma_div_by_multiple(n as int, k as int);
    let y = unit_nanos(seq!['y']);
    let w = unit_nanos(seq!['w']);
    let d = unit_nanos(seq!['d']);
    let h = unit_nanos(seq!['h']);
    let m = unit_nanos(seq!['m']);
    let s = unit_nanos(seq!['s']);
    let ms = unit_nanos(seq!['m', 's']);
    let us = unit_nanos(seq!['u', 's']);
    assert(seq!['y'][0] == 'y' && seq!['w'][0] == 'w' && seq!['d'][0] == 'd' && seq!['h'][0] == 'h'
        && seq!['m'][0] == 'm' && seq!['s'][0] == 's');
    assert(seq!['m', 's'][0] == 'm' && seq!['u', 's'][0] == 'u' && seq!['n', 's'][0] == 'n');
    assert(seq!['y'].len() == 1 && seq!['w'].len() == 1 && seq!['d'].len() == 1 && seq!['h'].len()
        == 1 && seq!['m'].len() == 1 && seq!['s'].len() == 1);
    assert(seq!['m', 's'].len() == 2 && seq!['u', 's'].len() == 2 && seq!['n', 's'].len() == 2);
    assert(y == Some(31_556_926_000_000_000nat));
    assert(w == Some(604_800_000_000_000nat));
    assert(d == Some(86_400_000_000_000nat));
    assert(h == Some(3_600_000_000_000nat));
    assert(m == Some(60_000_000_000nat));
    assert(s == Some(1_000_000_000nat));
    assert(ms == Some(1_000_000nat));
    assert(us == Some(1_000nat));
    assert((n * k) / k == n);
    if u == seq!['y'] {
        assert(format_model(n * k) == decimal(n) + u);
    } else if u == seq!['w'] {
        assert(format_model(n * k) == decimal(n) + u);
    } else if u == seq!['d'] {
        assert(format_model(n * k) == decimal(n) + u);
    } else if u == seq!['h'] {
        assert(format_model(n * k) == decimal(n) + u);
    } else if u == seq!['m'] {
        assert(format_model(n * k) == decimal(n) + u);
    } else if u == seq!['s'] {
        assert(format_model(n * k) == decimal(n) + u);
    } else if u == seq!['m', 's'] {
        assert(format_model(n * k) == decimal(n) + u);
    } else if u == seq!['u', 's'] {
        assert(format_model(n * k) == decimal(n) + u);
    } else {
        assert(u == seq!['n', 's']);
        assert(k == 1);
        assert(n * k == n) by (nonlinear_arith)
            requires
                k == 1,
        ;
        assert(n % 1_000 != 0);
    }
}

/// A year count that fits in a `u64` but whose seconds do not is an overflow,
/// not a wrapped or truncated value.
pub proof fn lemma_year_overflow(n: nat)
    requires
        n <= u64::MAX,
        n * 31_556_926 > u64::MAX,
    ensures
        parse_model(decimal(n) + seq!['y']) == Err::<nat, ErrorKind>(ErrorKind::Overflow),
{
    lemma_decimal(n);
    lemma_single_component(decimal(n), seq!['y']);
}

} // verus!
