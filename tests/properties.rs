use duration_string::{parse, DurationString, Error, ErrorKind, MAX_NANOS};

fn nanos(text: &str) -> u128 {
    parse(text).expect("parse should succeed").as_nanos()
}

fn kind_of(text: &str) -> ErrorKind {
    parse(text).expect_err("parse should fail").kind()
}

#[test]
fn canonical_text_round_trips() {
    for text in ["7ns", "1500ns", "3us", "250ms", "61s", "90m", "25h", "8d", "3w", "2y"] {
        assert_eq!(parse(text).unwrap().to_string(), text);
    }
}

#[test]
fn components_add_in_any_order() {
    assert_eq!(nanos("1h30m"), nanos("30m1h"));
    assert_eq!(nanos("1h30m"), nanos("1h") + nanos("30m"));
    assert_eq!(nanos("5ms7ns"), nanos("7ns5ms"));
    assert_eq!(nanos("5ms7ns"), 5_000_007);
}

#[test]
fn repeated_unit_is_summed() {
    assert_eq!(nanos("1m128m"), 129 * 60_000_000_000);
}

#[test]
fn year_overflow_is_reported() {
    assert_eq!(kind_of("584554530873y"), ErrorKind::Overflow);
    assert_eq!(nanos("584554530872y"), 584_554_530_872 * 31_556_926_000_000_000);
}

#[test]
fn sum_overflow_is_reported() {
    assert_eq!(nanos("18446744073709551615s999999999ns"), MAX_NANOS);
    assert_eq!(kind_of("18446744073709551615s1000000000ns"), ErrorKind::Overflow);
}

#[test]
fn missing_unit_is_a_format_error() {
    assert_eq!(kind_of("1234"), ErrorKind::Format);
    assert_eq!(parse("1234"), Err(Error::Format));
}

#[test]
fn missing_magnitude_is_an_integer_error() {
    assert_eq!(kind_of("ms"), ErrorKind::ParseInt);
    assert_eq!(kind_of("1sms"), ErrorKind::Format);
}

#[test]
fn unknown_unit_is_a_format_error() {
    assert_eq!(kind_of("1000x"), ErrorKind::Format);
    assert_eq!(kind_of("1S"), ErrorKind::Format);
    assert_eq!(kind_of("1mss"), ErrorKind::Format);
}

#[test]
fn empty_text_is_a_format_error() {
    assert_eq!(kind_of(""), ErrorKind::Format);
    assert_eq!(kind_of(" \t\n"), ErrorKind::Format);
}

#[test]
fn magnitude_past_u64_is_an_integer_error() {
    assert_eq!(kind_of("18446744073709551616ns"), ErrorKind::ParseInt);
    assert_eq!(nanos("18446744073709551615ns"), 18_446_744_073_709_551_615);
}

#[test]
fn non_ascii_digit_is_an_integer_error() {
    assert_eq!(kind_of("\u{0661}s"), ErrorKind::ParseInt);
}

#[test]
fn sign_is_not_part_of_a_magnitude() {
    assert_eq!(kind_of("+5s"), ErrorKind::ParseInt);
}

#[test]
fn whitespace_is_ignored_anywhere() {
    assert_eq!(nanos("1m 1s"), nanos("1m1s"));
    assert_eq!(nanos("1m1s"), 61_000_000_000);
    assert_eq!(nanos(" 1 m\t1\ns "), 61_000_000_000);
    assert_eq!(nanos("1\u{00A0}h"), 3_600_000_000_000);
}

#[test]
fn compound_values() {
    assert_eq!(nanos("1h30m"), 5400 * 1_000_000_000);
    assert_eq!(nanos("1h128m"), 11280 * 1_000_000_000);
    assert_eq!(nanos("1ms100us"), 1100 * 1_000);
}

#[test]
fn largest_dividing_unit_is_chosen() {
    assert_eq!(DurationString::new(60, 0).to_string(), "1m");
    assert_eq!(DurationString::new(61, 0).to_string(), "61s");
    assert_eq!(DurationString::new(11280, 0).to_string(), "188m");
    assert_eq!(DurationString::new(11281, 0).to_string(), "11281s");
    assert_eq!(DurationString::new(0, 1_500_000).to_string(), "1500us");
    assert_eq!(DurationString::new(0, 1_000_001).to_string(), "1000001ns");
    assert_eq!(DurationString::new(0, 0).to_string(), "0y");
    assert_eq!(DurationString::new(31_556_926, 0).to_string(), "1y");
    assert_eq!(DurationString::new(604_800 * 2, 0).to_string(), "2w");
}

#[test]
fn largest_value_formats_in_nanoseconds() {
    let d = DurationString::new(u64::MAX, 999_999_999);
    assert_eq!(d.as_nanos(), MAX_NANOS);
    assert_eq!(d.to_string(), "18446744073709551615999999999ns");
    assert_eq!(kind_of(&d.to_string()), ErrorKind::ParseInt);
}

#[test]
fn new_carries_whole_seconds() {
    let d = DurationString::new(1, 2_500_000_000);
    assert_eq!(d.as_secs(), 3);
    assert_eq!(d.subsec_nanos(), 500_000_000);
    assert_eq!(d.as_nanos(), 3_500_000_000);
    assert_eq!(d.to_string(), "3500ms");
}

#[test]
fn ordering_follows_elapsed_time() {
    assert!(parse("59s").unwrap() < parse("1m").unwrap());
    assert_eq!(parse("60s").unwrap(), parse("1m").unwrap());
    assert_eq!(DurationString::default().as_nanos(), 0);
}

#[test]
fn error_kinds_match_variants() {
    assert_eq!(Error::Format.kind(), ErrorKind::Format);
    assert_eq!(Error::Overflow.kind(), ErrorKind::Overflow);
    assert!(matches!(parse("ms"), Err(Error::ParseInt(_))));
}
