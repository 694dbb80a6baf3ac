use aws_assume_role::duration::{parse_duration, DurationError};

fn range_error(d: &str) -> String {
    format!(
        "duration ({}) must be between 900 seconds (15 minutes) and 43200 seconds (12 hours)",
        d
    )
}

fn malformed_error(d: &str) -> String {
    format!(
        "Failed to parse duration: {} (expected <digits> with an optional s, m or h, between 900 seconds (15 minutes) and 43200 seconds (12 hours))",
        d
    )
}

fn expect_ok(s: &str, expected: i32) {
    match parse_duration(s) {
        Ok(v) => assert_eq!(v, expected),
        Err(e) => panic!("{} refused: {}", s, e.message()),
    }
}

fn expect_err(s: &str, message: String) {
    match parse_duration(s) {
        Ok(v) => panic!("{} accepted as {}", s, v),
        Err(e) => assert_eq!(e.message(), message),
    }
}

#[test]
fn error_empty_string() {
    expect_err("", malformed_error(""));
}

#[test]
fn error_less_than_min_n() {
    expect_err("899", range_error("899"));
}

#[test]
fn error_less_than_min_s() {
    expect_err("899s", range_error("899s"));
}

#[test]
fn error_more_than_max_n() {
    expect_err("43201", range_error("43201"));
}

#[test]
fn error_more_than_max_s() {
    expect_err("43201s", range_error("43201s"));
}

#[test]
fn error_less_than_min_m() {
    expect_err("14m", range_error("14m"));
}

#[test]
fn error_more_than_max_m() {
    expect_err("721m", range_error("721m"));
}

#[test]
fn error_more_than_max_h() {
    expect_err("13h", range_error("13h"));
}

#[test]
fn success_1_hour() {
    expect_ok("1h", 3600);
}

#[test]
fn success_12_hours() {
    expect_ok("12h", 43200);
}

#[test]
fn success_15_minutes() {
    expect_ok("15m", 900);
}

#[test]
fn success_720_minutes() {
    expect_ok("720m", 43200);
}

#[test]
fn success_900_seconds() {
    expect_ok("900s", 900);
}

#[test]
fn success_43200_seconds() {
    expect_ok("43200s", 43200);
}

#[test]
fn success_900() {
    expect_ok("900", 900);
}

#[test]
fn success_43200() {
    expect_ok("43200", 43200);
}

#[test]
fn fractional_hours_are_malformed() {
    let message = parse_duration("0.25h").err().unwrap().message();
    assert!(message.contains("0.25h") && message.contains("900") && message.contains("43200"));
    match parse_duration("0.25h") {
        Err(DurationError::Malformed(s)) => assert_eq!(s, "0.25h"),
        _ => panic!("0.25h must be malformed"),
    }
    expect_err("0.25h", malformed_error("0.25h"));
}

#[test]
fn unknown_unit_is_malformed() {
    expect_err("15d", malformed_error("15d"));
    expect_err("h", malformed_error("h"));
    expect_err("abc900", malformed_error("abc900"));
}

#[test]
fn huge_amount_is_out_of_range() {
    expect_err("99999999999999999999h", range_error("99999999999999999999h"));
}
