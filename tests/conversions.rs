use duration_string::{parse, DurationString, Error, ErrorKind};
use std::time::Duration;

fn from_std(d: Duration) -> DurationString {
    DurationString::new(d.as_secs(), d.subsec_nanos())
}

fn to_std(d: DurationString) -> Duration {
    Duration::new(d.as_secs(), d.subsec_nanos())
}

fn test_parse_string(input_str: &str, expected_duration: Duration) {
    let d_fromstr: Duration = to_std(
        input_str
            .parse::<DurationString>()
            .expect("Parse with FromStr failed"),
    );
    assert_eq!(d_fromstr, expected_duration, "FromStr");
    let d_from_string: Duration = to_std(
        DurationString::from_string(input_str.to_owned()).expect("Parse with from_string failed"),
    );
    assert_eq!(d_from_string, expected_duration, "from_string");
}

fn kind_of(text: &str) -> ErrorKind {
    parse(text).expect_err("parsing should fail").kind()
}

#[test]
fn test_string_int_overflow() {
    DurationString::from_string(String::from("ms")).expect_err("parsing \"ms\" should fail");
}

#[test]
fn test_from_string_no_char() {
    DurationString::from_string(String::from("1234")).expect_err("parsing \"1234\" should fail");
}

#[test]
fn test_from_string() {
    let d = DurationString::from_string(String::from("100ms"));
    assert_eq!("100ms", d.unwrap().to_string());
}

#[test]
fn test_display_trait() {
    let d = from_std(Duration::from_millis(100));
    assert_eq!("100ms", d.to_string());
}

#[test]
fn test_from_duration() {
    let d: String = from_std(Duration::from_millis(100)).to_string();
    assert_eq!(d, String::from("100ms"));
}

#[test]
fn test_from_string_ms() {
    test_parse_string("100ms", Duration::from_millis(100));
}

#[test]
fn test_from_string_us() {
    test_parse_string("100us", Duration::from_micros(100));
}

#[test]
fn test_from_string_us_ms() {
    test_parse_string("1ms100us", Duration::from_micros(1100));
}

#[test]
fn test_from_string_ns() {
    test_parse_string("100ns", Duration::from_nanos(100));
}

#[test]
fn test_from_string_s() {
    test_parse_string("1s", Duration::from_secs(1));
}

#[test]
fn test_from_string_m() {
    test_parse_string("1m", Duration::from_secs(60));
}

#[test]
fn test_from_string_m_s() {
    test_parse_string("1m 1s", Duration::from_secs(61));
}

#[test]
fn test_from_string_h() {
    test_parse_string("1h", Duration::from_secs(3600));
}

#[test]
fn test_from_string_h_m() {
    test_parse_string("1h30m", Duration::from_secs(5400));
}

#[test]
fn test_from_string_h_m2() {
    test_parse_string("1h128m", Duration::from_secs(11280));
}

#[test]
fn test_from_string_d() {
    test_parse_string("1d", Duration::from_secs(86_400));
}

#[test]
fn test_from_string_w() {
    test_parse_string("1w", Duration::from_secs(604_800));
}

#[test]
fn test_from_string_w_s() {
    test_parse_string("1w 1s", Duration::from_secs(604_801));
}

#[test]
fn test_from_string_y() {
    test_parse_string("1y", Duration::from_secs(31_556_926));
}

#[test]
fn test_into_string_ms() {
    let d: String = DurationString::from_string(String::from("100ms")).unwrap().to_string();
    assert_eq!(d, "100ms");
}

#[test]
fn test_into_string_s() {
    let d: String = DurationString::from_string(String::from("1s")).unwrap().to_string();
    assert_eq!(d, "1s");
}

#[test]
fn test_into_string_m() {
    let d: String = DurationString::from_string(String::from("1m")).unwrap().to_string();
    assert_eq!(d, "1m");
}

#[test]
fn test_into_string_h() {
    let d: String = DurationString::from_string(String::from("1h")).unwrap().to_string();
    assert_eq!(d, "1h");
}

#[test]
fn test_into_string_d() {
    let d: String = DurationString::from_string(String::from("1d")).unwrap().to_string();
    assert_eq!(d, "1d");
}

#[test]
fn test_into_string_w() {
    let d: String = DurationString::from_string(String::from("1w")).unwrap().to_string();
    assert_eq!(d, "1w");
}

#[test]
fn test_into_string_y() {
    let d: String = DurationString::from_string(String::from("1y")).unwrap().to_string();
    assert_eq!(d, "1y");
}

#[test]
fn test_into_string_overflow_unit() {
    let d: String = DurationString::from_string(String::from("1000ms")).unwrap().to_string();
    assert_eq!(d, "1s");

    let d: String = DurationString::from_string(String::from("60000ms")).unwrap().to_string();
    assert_eq!(d, "1m");

    let d: String = DurationString::from_string(String::from("61000ms")).unwrap().to_string();
    assert_eq!(d, "61s");
}

#[test]
fn test_from_string_invalid_string() {
    DurationString::from_string(String::from("1000x"))
        .expect_err("Should have failed with invalid format");
}

#[test]
fn test_try_from_string_overflow_y() {
    let result = DurationString::from_string(String::from("584554530873y"));
    assert_eq!(result, Err(Error::Overflow));
}

#[test]
fn test_try_from_string_overflow_y_w() {
    let result = DurationString::from_string(String::from("584554530872y 29w"));
    assert_eq!(result, Err(Error::Overflow));
}
