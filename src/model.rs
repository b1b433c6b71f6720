use crate::duration::ErrorKind;
use vstd::prelude::*;

verus! {

/// Nanoseconds in one second.
pub const NANOS_PER_SEC: u128 = 1_000_000_000;

/// The largest representable duration in nanoseconds: `u64::MAX` whole
/// seconds plus 999,999,999 nanoseconds.
pub const MAX_NANOS: u128 = 18_446_744_073_709_551_615_999_999_999;

/// Whether `c` has the Unicode `White_Space` property (only consulted for
/// characters beyond ASCII).
pub uninterp spec fn unicode_white_space(c: char) -> bool;

/// Whether `c` is in one of the Unicode general categories for numbers
/// (only consulted for characters beyond ASCII).
pub uninterp spec fn unicode_numeric(c: char) -> bool;

/// Whitespace as `char::is_whitespace` decides it: space and `\t` to `\r` in
/// ASCII, the `White_Space` property beyond.
pub open spec fn is_space_char(c: char) -> bool {
    if (c as u32) < 128 {
        c == ' ' || (9 <= (c as u32) && (c as u32) <= 13)
    } else {
        unicode_white_space(c)
    }
}

/// Numeric characters as `char::is_numeric` decides it: the ASCII digits, and
/// the Unicode number categories beyond ASCII.
pub open spec fn is_numeric_char(c: char) -> bool {
    if (c as u32) < 128 {
        '0' <= c && c <= '9'
    } else {
        unicode_numeric(c)
    }
}

/// `s` with every whitespace character removed.
pub open spec fn strip_spaces(s: Seq<char>) -> Seq<char>
    decreases s.len(),
{
    if s.len() == 0 {
        s
    } else if is_space_char(s.last()) {
        strip_spaces(s.drop_last())
    } else {
        strip_spaces(s.drop_last()).push(s.last())
    }
}

/// Length of the longest prefix of `s` whose characters are numeric
/// (`numeric == true`) or non-numeric (`numeric == false`).
pub open spec fn run_len(s: Seq<char>, numeric: bool) -> nat
    decreases s.len(),
{
    if s.len() > 0 && is_numeric_char(s[0]) == numeric {
        1 + run_len(s.drop_first(), numeric)
    } else {
        0
    }
}

/// One of the ASCII digits `0` to `9`.
pub open spec fn is_ascii_digit(c: char) -> bool {
    '0' <= c && c <= '9'
}

/// The value of a run of decimal digits, most significant first.
pub open spec fn digits_value(s: Seq<char>) -> nat
    decreases s.len(),
{
    if s.len() == 0 {
        0
    } else {
        digits_value(s.drop_last()) * 10 + ((s.last() as u32) - ('0' as u32)) as nat
    }
}

/// What `u64::from_str` accepts: an optional `+`, then one or more ASCII
/// digits whose value fits in a `u64`.
pub open spec fn u64_literal(s: Seq<char>) -> Option<nat> {
    let body = if s.len() > 0 && s[0] == '+' {
        s.drop_first()
    } else {
        s
    };
    if body.len() > 0 && (forall|i: int| 0 <= i < body.len() ==> is_ascii_digit(#[trigger] body[i]))
        && digits_value(body) <= u64::MAX {
        Some(digits_value(body))
    } else {
        None
    }
}

/// The unit table: nanoseconds per unit for each suffix.
pub open spec fn unit_nanos(u: Seq<char>) -> Option<nat> {
    if u == seq!['n', 's'] {
        Some(1)
    } else if u == seq!['u', 's'] {
        Some(1_000)
    } else if u == seq!['m', 's'] {
        Some(1_000_000)
    } else if u == seq!['s'] {
        Some(1_000_000_000)
    } else if u == seq!['m'] {
        Some(60_000_000_000)
    } else if u == seq!['h'] {
        Some(3_600_000_000_000)
    } else if u == seq!['d'] {
        Some(86_400_000_000_000)
    } else if u == seq!['w'] {
        Some(604_800_000_000_000)
    } else if u == seq!['y'] {
        Some(31_556_926_000_000_000)
    } else {
        None
    }
}

/// Nanoseconds of one component: `p` counts of the unit `u`. Units from the
/// minute up are scaled as whole seconds first, which must fit in a `u64`.
pub open spec fn component_nanos(p: nat, u: Seq<char>) -> core::result::Result<nat, ErrorKind> {
    match unit_nanos(u) {
        None => Err(ErrorKind::Format),
        Some(k) => if k > NANOS_PER_SEC && p * (k / NANOS_PER_SEC as nat) > u64::MAX {
            Err(ErrorKind::Overflow)
        } else {
            Ok(p * k)
        },
    }
}

/// Parses the whitespace-free text `s` onto the running `total`: each group is
/// a numeric run followed by a non-numeric run, and groups are taken in order.
pub open spec fn parse_from(s: Seq<char>, total: nat) -> core::result::Result<nat, ErrorKind>
    decreases s.len(),
    via parse_from_decreases
{
    if s.len() == 0 {
        Ok(total)
    } else {
        let a = run_len(s, true);
        let b = run_len(s.skip(a as int), false);
        let digits = s.take(a as int);
        let unit = s.subrange(a as int, (a + b) as int);
        match u64_literal(digits) {
            None => Err(ErrorKind::ParseInt),
            Some(p) => match component_nanos(p, unit) {
                Err(e) => Err(e),
                Ok(c) => if total + c > MAX_NANOS {
                    Err(ErrorKind::Overflow)
                } else {
                    parse_from(s.skip((a + b) as int), total + c)
                },
            },
        }
    }
}

/// A run is no longer than its text, and not empty when the first character
/// is of its kind.
pub proof fn lemma_run_len_bound(s: Seq<char>, numeric: bool)
    ensures
        run_len(s, numeric) <= s.len(),
        s.len() > 0 && is_numeric_char(s[0]) == numeric ==> run_len(s, numeric) > 0,
    decreases s.len(),
{
    if s.len() > 0 && is_numeric_char(s[0]) == numeric {
        lemma_run_len_bound(s.drop_first(), numeric);
    }
}

/// A run is exactly as long as the prefix of characters of its kind.
pub proof fn lemma_run_len_exact(s: Seq<char>, numeric: bool, m: int)
    requires
        0 <= m <= s.len(),
        forall|k: int| 0 <= k < m ==> is_numeric_char(#[trigger] s[k]) == numeric,
        m == s.len() || is_numeric_char(s[m]) != numeric,
    ensures
        run_len(s, numeric) == m,
    decreases m,
{
    if m > 0 {
        assert forall|k: int| 0 <= k < m - 1 implies is_numeric_char(
            #[trigger] s.drop_first()[k],
        ) == numeric by {
            assert(s.drop_first()[k] == s[k + 1]);
        }
        lemma_run_len_exact(s.drop_first(), numeric, m - 1);
    }
}

#[via_fn]
proof fn parse_from_decreases(s: Seq<char>, total: nat) {
    if s.len() > 0 {
        let a = run_len(s, true);
        lemma_run_len_bound(s, true);
        lemma_run_len_bound(s.skip(a as int), false);
        if a == 0 {
            assert(s.skip(0)[0] == s[0]);
        }
    }
}

/// What a text parses to: a Format error when nothing but whitespace is
/// given, otherwise the sum of its groups in nanoseconds.
pub open spec fn parse_model(s: Seq<char>) -> core::result::Result<nat, ErrorKind> {
    let t = strip_spaces(s);
    if t.len() == 0 {
        Err(ErrorKind::Format)
    } else {
        parse_from(t, 0)
    }
}

/// Decimal digits of `n`, without leading zeros.
pub open spec fn decimal(n: nat) -> Seq<char>
    decreases n,
{
    if n < 10 {
        seq![seq!['0', '1', '2', '3', '4', '5', '6', '7', '8', '9'][n as int]]
    } else {
        decimal(n / 10).push(seq!['0', '1', '2', '3', '4', '5', '6', '7', '8', '9'][(n % 10) as int])
    }
}

/// The text of a duration of `ns` nanoseconds: its count in the largest unit
/// that divides it exactly, or in nanoseconds.
pub open spec fn format_model(ns: nat) -> Seq<char> {
    if ns % 31_556_926_000_000_000 == 0 {
        decimal(ns / 31_556_926_000_000_000) + seq!['y']
    } else if ns % 604_800_000_000_000 == 0 {
        decimal(ns / 604_800_000_000_000) + seq!['w']
    } else if ns % 86_400_000_000_000 == 0 {
        decimal(ns / 86_400_000_000_000) + seq!['d']
    } else if ns % 3_600_000_000_000 == 0 {
        decimal(ns / 3_600_000_000_000) + seq!['h']
    } else if ns % 60_000_000_000 == 0 {
        decimal(ns / 60_000_000_000) + seq!['m']
    } else if ns % 1_000_000_000 == 0 {
        decimal(ns / 1_000_000_000) + seq!['s']
    } else if ns % 1_000_000 == 0 {
        decimal(ns / 1_000_000) + seq!['m', 's']
    } else if ns % 1_000 == 0 {
        decimal(ns / 1_000) + seq!['u', 's']
    } else {
        decimal(ns) + seq!['n', 's']
    }
}

/// Digits and lowercase ASCII letters only: nothing to strip, and a clear
/// split between numeric and non-numeric characters.
pub open spec fn plain_text(s: Seq<char>) -> bool {
    forall|i: int| 0 <= i < s.len() ==> is_ascii_digit(#[trigger] s[i]) || ('a' <= s[i] && s[i] <= 'z')
}

/// Text without whitespace is left as it is by stripping.
pub proof fn lemma_strip_plain(s: Seq<char>)
    requires
        plain_text(s),
    ensures
        strip_spaces(s) == s,
    decreases s.len(),
{
    if s.len() > 0 {
        assert(plain_text(s.drop_last()));
        lemma_strip_plain(s.drop_last());
        assert(s.drop_last().push(s.last()) =~= s);
    }
}

/// A run of one or more ASCII digits.
pub open spec fn digit_run(d: Seq<char>) -> bool {
    d.len() > 0 && forall|i: int| 0 <= i < d.len() ==> is_ascii_digit(#[trigger] d[i])
}

/// Every unit of the table is one or more lowercase ASCII letters.
pub proof fn lemma_unit_letters(u: Seq<char>)
    requires
        unit_nanos(u) is Some,
    ensures
        u.len() > 0,
        forall|i: int| 0 <= i < u.len() ==> 'a' <= #[trigger] u[i] && u[i] <= 'z',
{
}

/// The digit character for `k` and its value.
proof fn lemma_digit_code(k: nat)
    requires
        k < 10,
    ensures
        is_ascii_digit(seq!['0', '1', '2', '3', '4', '5', '6', '7', '8', '9'][k as int]),
        ((seq!['0', '1', '2', '3', '4', '5', '6', '7', '8', '9'][k as int] as u32) - ('0' as u32)) as nat == k,
{
    let digits = seq!['0', '1', '2', '3', '4', '5', '6', '7', '8', '9'];
    if k == 0 { assert(digits[0] == '0'); }
    else if k == 1 { assert(digits[1] == '1'); }
    else if k == 2 { assert(digits[2] == '2'); }
    else if k == 3 { assert(digits[3] == '3'); }
    else if k == 4 { assert(digits[4] == '4'); }
    else if k == 5 { assert(digits[5] == '5'); }
    else if k == 6 { assert(digits[6] == '6'); }
    else if k == 7 { assert(digits[7] == '7'); }
    else if k == 8 { assert(digits[8] == '8'); }
    else { assert(digits[9] == '9'); }
}

/// The decimal text of `n` is a run of digits that reads back as `n`.
pub proof fn lemma_decimal(n: nat)
    ensures
        digit_run(decimal(n)),
        digits_value(decimal(n)) == n,
        n <= u64::MAX ==> u64_literal(decimal(n)) == Some(n),
    decreases n,
{
    let d = decimal(n);
    if n >= 10 {
        lemma_decimal(n / 10);
        lemma_digit_code(n % 10);
        assert(d.drop_last() == decimal(n / 10));
        assert(d.last() == seq!['0', '1', '2', '3', '4', '5', '6', '7', '8', '9'][(n % 10) as int]);
        assert(digits_value(d) == (n / 10) * 10 + n % 10);
        assert(digit_run(d)) by {
            assert forall|i: int| 0 <= i < d.len() implies is_ascii_digit(#[trigger] d[i]) by {
                if i < d.len() - 1 {
                    assert(d[i] == decimal(n / 10)[i]);
                }
            }
        }
    } else {
        lemma_digit_code(n);
        assert(d.drop_last() =~= Seq::<char>::empty());
        assert(digits_value(d.drop_last()) == 0);
        assert(d.last() == seq!['0', '1', '2', '3', '4', '5', '6', '7', '8', '9'][n as int]);
        assert(digits_value(d) == n);
    }
    assert(d[0] != '+');
}

/// Parsing a leading component `d` `u` and then the rest `rest`, which is
/// empty or starts with a digit.
pub proof fn lemma_component_prefix(d: Seq<char>, u: Seq<char>, rest: Seq<char>, total: nat)
    requires
        digit_run(d),
        unit_nanos(u) is Some,
        rest.len() == 0 || is_ascii_digit(rest[0]),
    ensures
        parse_from(d + u + rest, total) == match u64_literal(d) {
            None => Err(ErrorKind::ParseInt),
            Some(p) => match component_nanos(p, u) {
                Err(e) => Err(e),
                Ok(c) => if total + c > MAX_NANOS {
                    Err(ErrorKind::Overflow)
                } else {
                    parse_from(rest, total + c)
                },
            },
        },
{
    lemma_unit_letters(u);
    let s = d + u + rest;
    let a = d.len();
    assert forall|k: int| 0 <= k < a implies is_numeric_char(#[trigger] s[k]) == true by {
        assert(s[k] == d[k]);
    }
    assert(s[a as int] == u[0]);
    lemma_run_len_exact(s, true, a as int);
    let t = s.skip(a as int);
    assert(t =~= u + rest);
    assert forall|k: int| 0 <= k < u.len() implies is_numeric_char(#[trigger] t[k]) == false by {
        assert(t[k] == u[k]);
    }
    if rest.len() > 0 {
        assert(t[u.len() as int] == rest[0]);
    }
    lemma_run_len_exact(t, false, u.len() as int);
    assert(s.take(a as int) =~= d);
    assert(s.subrange(a as int, (a + u.len()) as int) =~= u);
    assert(s.skip((a + u.len()) as int) =~= rest);
}

} // verus!
