//! Conversion between compact duration text such as `100ms`, `1h30m` or
//! `5m 30s` and a nanosecond-precise duration value.
//!
//! The text format is one or more components `[0-9]+(ns|us|ms|s|m|h|d|w|y)`,
//! with whitespace allowed anywhere. Parsing sums the components; formatting
//! picks the largest unit that divides the value exactly.

mod duration;
mod formatter;
mod laws;
mod model;
mod parser;
mod platform;

pub use duration::{DurationString, Error, ErrorKind, Result};
pub use laws::{
    add_outcomes, component_outcome, lemma_canonical_round_trip, lemma_component_order,
    lemma_single_component, lemma_year_overflow,
};
pub use model::{
    component_nanos, decimal, digit_run, digits_value, format_model, is_numeric_char,
    is_space_char, parse_from, parse_model, run_len, strip_spaces, u64_literal, unit_nanos,
    MAX_NANOS, NANOS_PER_SEC,
};
pub use parser::parse;
