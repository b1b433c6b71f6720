use crate::model::{parse_model, MAX_NANOS, NANOS_PER_SEC};
use crate::parser::parse;
use vstd::prelude::*;

verus! {

#[verifier::external_type_specification]
#[verifier::external_body]
pub struct ExParseIntError(std::num::ParseIntError);

/// Relies on the `Clone` impl of `ParseIntError`, which an `Error` clone calls.
pub assume_specification[ <std::num::ParseIntError as Clone>::clone ](
    e: &std::num::ParseIntError,
) -> std::num::ParseIntError;

/// Which of the three ways a parse failed.
#[derive(Clone, Copy, Debug, PartialEq, Eq, Structural)]
pub enum ErrorKind {
    /// The text is not a sequence of `[0-9]+` and unit components.
    Format,
    /// A valid number whose duration does not fit.
    Overflow,
    /// A magnitude that is empty or does not fit in a `u64`.
    ParseInt,
}

/// Why a text could not be parsed.
#[derive(Clone, Debug, PartialEq, Eq)]
pub enum Error {
    Format,
    Overflow,
    /// The error that `u64` parsing gave for the magnitude.
    ParseInt(std::num::ParseIntError),
}

pub type Result<T> = core::result::Result<T, Error>;

impl Error {
    pub open spec fn kind_spec(&self) -> ErrorKind {
        match self {
            Error::Format => ErrorKind::Format,
            Error::Overflow => ErrorKind::Overflow,
            Error::ParseInt(_) => ErrorKind::ParseInt,
        }
    }

    pub fn kind(&self) -> (r: ErrorKind)
        ensures
            r == self.kind_spec(),
    {
        match self {
            Error::Format => ErrorKind::Format,
            Error::Overflow => ErrorKind::Overflow,
            Error::ParseInt(_) => ErrorKind::ParseInt,
        }
    }
}

/// A non-negative elapsed time with nanosecond precision, at most
/// `u64::MAX` seconds and 999,999,999 nanoseconds.
#[derive(Clone, Copy, Debug, PartialEq, Eq, PartialOrd, Ord, Hash, Default)]
pub struct DurationString {
    nanos: u128,
}

impl View for DurationString {
    type V = nat;

    /// The total count of nanoseconds.
    closed spec fn view(&self) -> nat {
        self.nanos as nat
    }
}

impl DurationString {
    #[verifier::type_invariant]
    spec fn fits(self) -> bool {
        self.nanos <= MAX_NANOS
    }

    /// A duration of `nanos` nanoseconds, which must not exceed `MAX_NANOS`.
    pub(crate) fn from_total(nanos: u128) -> (r: DurationString)
        requires
            nanos <= MAX_NANOS,
        ensures
            r@ == nanos as nat,
    {
        DurationString { nanos }
    }

    /// A duration of `secs` seconds and `nanos` nanoseconds; nanoseconds past a
    /// whole second carry into the seconds, which must then still fit in a `u64`.
    pub fn new(secs: u64, nanos: u32) -> (r: DurationString)
        requires
            secs + nanos / 1_000_000_000 <= u64::MAX,
        ensures
            r@ == secs * NANOS_PER_SEC + nanos,
    {
        let total: u128 = secs as u128 * NANOS_PER_SEC + nanos as u128;
        assert(total <= MAX_NANOS) by (nonlinear_arith)
            requires
                total == secs * 1_000_000_000 + nanos,
                secs + nanos / 1_000_000_000 <= u64::MAX,
                MAX_NANOS == u64::MAX * 1_000_000_000 + 999_999_999,
        ;
        DurationString { nanos: total }
    }

    /// Parses duration text such as `1h30m` or `100ms`; see [`crate::parse`].
    pub fn from_string(duration: String) -> (r: Result<DurationString>)
        ensures
            match parse_model(duration@) {
                Ok(n) => r is Ok && r->Ok_0@ == n,
                Err(k) => r is Err && r->Err_0.kind_spec() == k,
            },
    {
        parse(duration.as_str())
    }

    /// The total count of nanoseconds.
    pub fn as_nanos(&self) -> (r: u128)
        ensures
            r == self@,
            r <= MAX_NANOS,
    {
        proof {
            use_type_invariant(&*self);
        }
        self.nanos
    }

    /// The count of whole seconds.
    pub fn as_secs(&self) -> (r: u64)
        ensures
            r == self@ / NANOS_PER_SEC as nat,
    {
        proof {
            use_type_invariant(&*self);
        }
        (self.nanos / NANOS_PER_SEC) as u64
    }

    /// The nanoseconds past the last whole second.
    pub fn subsec_nanos(&self) -> (r: u32)
        ensures
            r == self@ % NANOS_PER_SEC as nat,
    {
        (self.nanos % NANOS_PER_SEC) as u32
    }
}

} // verus!
