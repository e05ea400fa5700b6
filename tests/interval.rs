use wpe::interval::{format_interval, parse_interval, IntervalError};

#[test]
fn parse_interval_five_minutes() {
    assert_eq!(parse_interval("00:05:00"), Ok(300));
}

#[test]
fn parse_interval_largest() {
    assert_eq!(parse_interval("99:59:59"), Ok(359999));
}

#[test]
fn parse_interval_one_digit_field_is_refused() {
    assert_eq!(parse_interval("1:00:00"), Err(IntervalError::FieldWidth));
}

#[test]
fn parse_interval_minutes_above_59_are_refused() {
    assert_eq!(parse_interval("00:60:00"), Err(IntervalError::OutOfRange));
}

#[test]
fn parse_interval_seconds_above_59_are_refused() {
    assert_eq!(parse_interval("00:00:60"), Err(IntervalError::OutOfRange));
}

#[test]
fn parse_interval_zero_becomes_one_second() {
    assert_eq!(parse_interval("00:00:00"), Ok(1));
}

#[test]
fn parse_interval_wrong_field_count() {
    assert_eq!(parse_interval("05:00"), Err(IntervalError::FieldCount));
    assert_eq!(parse_interval(""), Err(IntervalError::FieldCount));
    assert_eq!(parse_interval("00:00:00:00"), Err(IntervalError::FieldCount));
}

#[test]
fn parse_interval_not_numeric() {
    assert_eq!(parse_interval("aa:00:00"), Err(IntervalError::NotNumeric));
    assert_eq!(parse_interval("00:-1:00"), Err(IntervalError::NotNumeric));
}

#[test]
fn parse_interval_plus_sign_like_integer_parsing() {
    assert_eq!(parse_interval("+1:00:00"), Ok(3600));
}

#[test]
fn parse_interval_two_byte_character_is_not_numeric() {
    assert_eq!(parse_interval("é:00:00"), Err(IntervalError::NotNumeric));
}

#[test]
fn parse_interval_first_error_wins() {
    assert_eq!(parse_interval("0:99:00"), Err(IntervalError::FieldWidth));
}

#[test]
fn format_interval_values() {
    assert_eq!(format_interval(300), "00:05:00");
    assert_eq!(format_interval(0), "00:00:00");
    assert_eq!(format_interval(3661), "01:01:01");
    assert_eq!(format_interval(359999), "99:59:59");
}

#[test]
fn format_interval_caps_hours() {
    assert_eq!(format_interval(400000), "99:06:40");
}

#[test]
fn interval_error_messages() {
    assert_eq!(IntervalError::FieldCount.message(), "Use HH:MM:SS");
    assert_eq!(IntervalError::FieldWidth.message(), "Use two-digit fields");
    assert_eq!(IntervalError::NotNumeric.message(), "Interval fields must be numeric");
    assert_eq!(IntervalError::OutOfRange.message(), "Minutes/seconds must be <= 59");
}

#[test]
fn format_then_parse_gives_interval_back() {
    for s in [0u64, 1, 59, 60, 300, 3599, 3600, 86399, 359999] {
        assert_eq!(parse_interval(&format_interval(s)), Ok(s.max(1)));
    }
}
