//! The calls into std that the parser and formatter make.
use crate::model::{decimal, u64_literal, unicode_numeric, unicode_white_space};
use vstd::prelude::*;

verus! {

/// Relies on `str::chars`, collected: the characters of `s` in order.
#[verifier::external_body]
pub(crate) fn chars_of(s: &str) -> (r: Vec<char>)
    ensures
        r@ == s@,
{
    s.chars().collect()
}

/// Relies on `char::is_whitespace`: space and `\t` to `\r` within ASCII, the
/// Unicode `White_Space` property beyond it.
#[verifier::external_body]
pub(crate) fn char_is_whitespace(c: char) -> (r: bool)
    ensures
        r == if (c as u32) < 128 {
            c == ' ' || (9 <= (c as u32) && (c as u32) <= 13)
        } else {
            unicode_white_space(c)
        },
{
    c.is_whitespace()
}

/// Relies on `char::is_numeric`: the digits `0` to `9` within ASCII, the
/// Unicode number categories beyond it.
#[verifier::external_body]
pub(crate) fn char_is_numeric(c: char) -> (r: bool)
    ensures
        r == if (c as u32) < 128 {
            '0' <= c && c <= '9'
        } else {
            unicode_numeric(c)
        },
{
    c.is_numeric()
}

/// Relies on `<u64 as FromStr>::from_str` on the collected characters: it
/// accepts an optional `+` and then one or more ASCII digits whose value fits.
#[verifier::external_body]
pub(crate) fn parse_u64(digits: &[char]) -> (r: core::result::Result<u64, std::num::ParseIntError>)
    ensures
        r is Ok <==> u64_literal(digits@) is Some,
        r is Ok ==> u64_literal(digits@) == Some(r->Ok_0 as nat),
{
    digits.iter().collect::<String>().parse::<u64>()
}

/// Relies on `format!` with `Display` of `u128` and of `str`: the decimal
/// digits of `q` followed by `suffix`.
#[verifier::external_body]
pub(crate) fn render(q: u128, suffix: &str) -> (r: String)
    ensures
        r@ == decimal(q as nat) + suffix@,
{
    format!("{q}{suffix}")
}

} // verus!
