use crate::duration::{DurationString, Error, ErrorKind};
use crate::model::{
    component_nanos, is_numeric_char, lemma_run_len_bound, lemma_run_len_exact, parse_from, parse_model, run_len,
    strip_spaces, unit_nanos, MAX_NANOS, NANOS_PER_SEC,
};
use crate::platform::{char_is_numeric, char_is_whitespace, chars_of, parse_u64};
use vstd::prelude::*;

verus! {

/// Nanoseconds per unit for the suffix `u`, if it is one of the table's.
fn unit_of(u: &[char]) -> (r: Option<u128>)
    ensures
        match r {
            Some(k) => unit_nanos(u@) == Some(k as nat),
            None => unit_nanos(u@) is None,
        },
{
    if u.len() == 2 && u[1] == 's' {
        if u[0] == 'n' {
            assert(u@ =~= seq!['n', 's']);
            Some(1)
        } else if u[0] == 'u' {
            assert(u@ =~= seq!['u', 's']);
            Some(1_000)
        } else if u[0] == 'm' {
            assert(u@ =~= seq!['m', 's']);
            Some(1_000_000)
        } else {
            None
        }
    } else if u.len() == 1 {
        if u[0] == 's' {
            assert(u@ =~= seq!['s']);
            Some(1_000_000_000)
        } else if u[0] == 'm' {
            assert(u@ =~= seq!['m']);
            Some(60_000_000_000)
        } else if u[0] == 'h' {
            assert(u@ =~= seq!['h']);
            Some(3_600_000_000_000)
        } else if u[0] == 'd' {
            assert(u@ =~= seq!['d']);
            Some(86_400_000_000_000)
        } else if u[0] == 'w' {
            assert(u@ =~= seq!['w']);
            Some(604_800_000_000_000)
        } else if u[0] == 'y' {
            assert(u@ =~= seq!['y']);
            Some(31_556_926_000_000_000)
        } else {
            None
        }
    } else {
        None
    }
}

/// Nanoseconds of `p` counts of the unit `u`. From the minute up the count is
/// scaled as whole seconds, which must fit in a `u64`.
fn component(p: u64, u: &[char]) -> (r: core::result::Result<u128, Error>)
    ensures
        match component_nanos(p as nat, u@) {
            Ok(c) => r == Ok::<u128, Error>(c as u128) && c <= u64::MAX * NANOS_PER_SEC,
            Err(k) => r is Err && r->Err_0.kind_spec() == k,
        },
{
    match unit_of(u) {
        None => Err(Error::Format),
        Some(k) => {
            if k > NANOS_PER_SEC {
                let per_unit: u64 = (k / NANOS_PER_SEC) as u64;
                match p.checked_mul(per_unit) {
                    None => Err(Error::Overflow),
                    Some(secs) => {
                        assert(p * k == secs * NANOS_PER_SEC) by (nonlinear_arith)
                            requires
                                secs == p * per_unit,
                                per_unit == k / 1_000_000_000,
                                k % 1_000_000_000 == 0,
                                NANOS_PER_SEC == 1_000_000_000,
                        ;
                        assert(secs * NANOS_PER_SEC <= u64::MAX * NANOS_PER_SEC) by (nonlinear_arith)
                            requires secs <= u64::MAX,
                        ;
                        Ok(secs as u128 * NANOS_PER_SEC)
                    },
                }
            } else {
                assert(p * k <= u64::MAX * NANOS_PER_SEC) by (nonlinear_arith)
                    requires
                        p <= u64::MAX,
                        k <= NANOS_PER_SEC,
                ;
                Ok(p as u128 * k)
            }
        },
    }
}

/// The end of the run of characters of `t` from `start` that are numeric
/// (`numeric == true`) or not.
fn run_end(t: &Vec<char>, start: usize, numeric: bool) -> (end: usize)
    requires
        start <= t@.len(),
    ensures
        start <= end <= t@.len(),
        end - start == run_len(t@.skip(start as int), numeric),
{
    let mut end: usize = start;
    while end < t.len() && char_is_numeric(t[end]) == numeric
        invariant
            start <= end <= t@.len(),
            forall|k: int| start <= k < end ==> is_numeric_char(#[trigger] t@[k]) == numeric,
        decreases t@.len() - end,
    {
        end = end + 1;
    }
    proof {
        lemma_run_len_exact(t@.skip(start as int), numeric, end - start);
    }
    end
}

/// The characters of `s` that are not whitespace.
fn strip(s: &Vec<char>) -> (t: Vec<char>)
    ensures
        t@ == strip_spaces(s@),
{
    let mut t: Vec<char> = Vec::new();
    let mut i: usize = 0;
    while i < s.len()
        invariant
            i <= s@.len(),
            t@ == strip_spaces(s@.take(i as int)),
        decreases s@.len() - i,
    {
        let c = s[i];
        assert(s@.take(i + 1).drop_last() =~= s@.take(i as int));
        if !char_is_whitespace(c) {
            t.push(c);
        }
        i = i + 1;
    }
    assert(s@.take(s@.len() as int) =~= s@);
    t
}

/// Parses duration text: whitespace anywhere is ignored, and the components
/// `[0-9]+` followed by a unit are summed in order.
pub fn parse(text: &str) -> (r: core::result::Result<DurationString, Error>)
    ensures
        match parse_model(text@) {
            Ok(n) => r is Ok && r->Ok_0@ == n,
            Err(k) => r is Err && r->Err_0.kind_spec() == k,
        },
{
    let chars = chars_of(text);
    let t = strip(&chars);
    if t.len() == 0 {
        return Err(Error::Format);
    }
    let mut total: u128 = 0;
    let mut i: usize = 0;
    assert(t@.skip(0) =~= t@);
    while i < t.len()
        invariant
            i <= t@.len(),
            total <= MAX_NANOS,
            parse_model(text@) == parse_from(t@, 0),
            parse_from(t@, 0) == parse_from(t@.skip(i as int), total as nat),
        decreases t@.len() - i,
    {
        let ghost s = t@.skip(i as int);
        let a_end = run_end(&t, i, true);
        let b_end = run_end(&t, a_end, false);
        proof {
            assert(t@.skip(i as int).skip((a_end - i) as int) =~= t@.skip(a_end as int));
            assert(s.take((a_end - i) as int) =~= t@.subrange(i as int, a_end as int));
            assert(s.subrange((a_end - i) as int, (b_end - i) as int) =~= t@.subrange(
                a_end as int,
                b_end as int,
            ));
            assert(s.skip((b_end - i) as int) =~= t@.skip(b_end as int));
            if b_end == i {
                lemma_group_nonempty(s);
            }
        }
        let digits = &t.as_slice()[i..a_end];
        let unit = &t.as_slice()[a_end..b_end];
        assert(digits@ == s.take((a_end - i) as int));
        assert(unit@ == s.subrange((a_end - i) as int, (b_end - i) as int));
        let p = match parse_u64(digits) {
            Ok(p) => p,
            Err(e) => {
                return Err(Error::ParseInt(e));
            },
        };
        let c = match component(p, unit) {
            Ok(c) => c,
            Err(e) => {
                return Err(e);
            },
        };
        if c > MAX_NANOS - total {
            return Err(Error::Overflow);
        }
        total = total + c;
        i = b_end;
    }
    assert(t@.skip(i as int).len() == 0);
    Ok(DurationString::from_total(total))
}

impl core::str::FromStr for DurationString {
    type Err = Error;

    fn from_str(s: &str) -> core::result::Result<DurationString, Error> {
        parse(s)
    }
}

/// Every group of a non-empty text takes at least one character.
proof fn lemma_group_nonempty(s: Seq<char>)
    requires
        s.len() > 0,
    ensures
        run_len(s, true) + run_len(s.skip(run_len(s, true) as int), false) > 0,
{
    lemma_run_len_bound(s, true);
    if run_len(s, true) == 0 {
        assert(s.skip(0)[0] == s[0]);
        lemma_run_len_bound(s.skip(0), false);
    }
}

} // verus!
