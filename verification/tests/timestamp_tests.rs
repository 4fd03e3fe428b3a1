use egui_replay::timestamp::{NanoDelta, NanoTimestamp, TimestampError};

#[test]
fn nano_timestamp_creation() {
    let ts = NanoTimestamp::from(1000);
    assert_eq!(ts.0, 1000);
}

#[test]
fn nano_delta_creation() {
    let delta = NanoDelta::from(1000);
    assert_eq!(delta.0, 1000);
}

#[test]
fn nano_timestamp_add() {
    let ts = NanoTimestamp::from(1000);
    let ts2 = ts.add_delta(NanoDelta::from(2000));
    assert_eq!(ts2.0, 3000);
}

#[test]
fn nano_timestamp_sub() {
    let ts = NanoTimestamp::from(1000);
    let ts2 = ts.sub_delta(NanoDelta::from(2000));
    assert_eq!(ts2.0, -1000);
}

#[test]
fn nano_delta_add() {
    let delta = NanoDelta::from(1000);
    let delta2 = delta.add_delta(NanoDelta::from(2000));
    assert_eq!(delta2.0, 3000);
}

#[test]
fn nano_delta_sub() {
    let delta = NanoDelta::from(1000);
    let delta2 = delta.sub_delta(NanoDelta::from(2000));
    assert_eq!(delta2.0, -1000);
}

#[test]
fn timestamp_overflow() {
    // Test overflow cases
    assert!(NanoTimestamp::from_hours(i64::MAX).is_err());
    assert!(NanoTimestamp::from_hours(i64::MIN).is_err());
    assert!(NanoTimestamp::from_minutes(i64::MAX).is_err());
    assert!(NanoTimestamp::from_minutes(i64::MIN).is_err());
    assert!(NanoTimestamp::from_secs(i64::MAX).is_err());
    assert!(NanoTimestamp::from_secs(i64::MIN).is_err());
    assert!(NanoTimestamp::from_millis(i64::MAX).is_err());
    assert!(NanoTimestamp::from_millis(i64::MIN).is_err());
    assert!(NanoTimestamp::from_micros(i64::MAX).is_err());
    assert!(NanoTimestamp::from_micros(i64::MIN).is_err());

    // Test valid cases
    assert!(NanoTimestamp::from_hours(24).is_ok());
    assert!(NanoTimestamp::from_minutes(60).is_ok());
    assert!(NanoTimestamp::from_secs(3600).is_ok());
}

#[test]
fn timestamp_conversion() {
    let ts = NanoTimestamp::from(1_123_456_789_000_000);
    assert_eq!(ts.as_nanos(), 1_123_456_789_000_000);
    assert_eq!(ts.as_micros(), 1_123_456_789_000);
    assert_eq!(ts.as_millis(), 1_123_456_789);
    assert_eq!(ts.as_secs(), 1_123_456);
    assert_eq!(ts.as_minutes(), 18724);
    assert_eq!(ts.as_hours(), 312);
    assert_eq!(ts.as_days(), 13);

    let delta = NanoDelta::from(1_123_456_789_000_000);
    assert_eq!(delta.as_nanos(), 1_123_456_789_000_000);
    assert_eq!(delta.as_micros(), 1_123_456_789_000);
    assert_eq!(delta.as_millis(), 1_123_456_789);
    assert_eq!(delta.as_secs(), 1_123_456);
    assert_eq!(delta.as_minutes(), 18724);
    assert_eq!(delta.as_hours(), 312);
    assert_eq!(delta.as_days(), 13);
}

#[test]
fn timestamp_conversion_negative_values() {
    let ts = NanoTimestamp::from(-1_123_456_789_000_000);
    assert_eq!(ts.as_micros(), -1_123_456_789_000);
    assert_eq!(ts.as_millis(), -1_123_456_789);
    assert_eq!(ts.as_secs(), -1_123_456);
    assert_eq!(ts.as_days(), -13);
}

#[test]
fn timestamp_overflow_error_variant() {
    match NanoTimestamp::from_hours(i64::MAX) {
        Err(TimestampError::Overflow(_)) => { /* Expected */ }
        Err(e) => panic!("Expected Overflow error, got {:?}", e),
        Ok(_) => panic!("Expected error for overflowing conversion"),
    }
}

#[test]
fn timestamp_le_bytes_round_trip() {
    for value in [
        0i64,
        1,
        -1,
        1_123_456_789_000_000,
        i64::MIN + 1,
        i64::MIN,
        i64::MAX,
    ] {
        let ts = NanoTimestamp::from_nanos(value);
        let bytes = ts.as_le_bytes();
        let back = NanoTimestamp::from_le_bytes(bytes);
        assert_eq!(back, ts);
        assert_eq!(bytes, value.to_le_bytes());
    }
}

#[test]
fn timestamp_rfc3339_formatting() {
    let ts = NanoTimestamp::from(1_123_456_789_000_000);
    assert_eq!(ts.as_rfc3339(), "1970-01-14T00:04:16.789+00:00");
}

#[test]
fn timestamp_rfc2822_formatting() {
    let ts = NanoTimestamp::from(1_123_456_789_000_000);
    assert_eq!(ts.as_rfc2822(), "Wed, 14 Jan 1970 00:04:16 +0000");
}

#[test]
fn timestamp_rfc3339_parse_round_trip() {
    let ts = NanoTimestamp::from(1_123_456_789_000_000);
    let text = ts.as_rfc3339();
    let back = NanoTimestamp::from_rfc3339(&text).unwrap();
    assert_eq!(back, ts);
}

#[test]
fn timestamp_rfc2822_parse() {
    let back = NanoTimestamp::from_rfc2822("Wed, 14 Jan 1970 00:04:16 +0000").unwrap();
    assert_eq!(back.as_nanos(), 1_123_456_000_000_000);
}

#[test]
fn timestamp_parse_errors() {
    // Far beyond the i64 nanosecond capacity, or malformed: both fail.
    let far_future_date_str = "+275760-09-13T00:00:00Z";
    match NanoTimestamp::from_rfc3339(far_future_date_str) {
        Err(TimestampError::Parse(_)) => { /* Expected */ }
        Err(e) => panic!("Expected Parse error, got {:?}", e),
        Ok(_) => panic!("Expected error for far future date"),
    }

    let invalid_date_str = "not a date";
    match NanoTimestamp::from_rfc3339(invalid_date_str) {
        Err(TimestampError::Parse(_)) => { /* Expected */ }
        Err(e) => panic!("Expected Parse error, got {:?}", e),
        Ok(_) => panic!("Expected error for invalid date string"),
    }

    match NanoTimestamp::from_rfc2822("not a date") {
        Err(TimestampError::Parse(_)) => { /* Expected */ }
        Err(e) => panic!("Expected Parse error, got {:?}", e),
        Ok(_) => panic!("Expected error for invalid date string"),
    }
}

#[test]
fn timestamp_safe_conversions() {
    assert_eq!(NanoTimestamp::from_micros_safe(7).as_nanos(), 7_000);
    assert_eq!(NanoTimestamp::from_millis_safe(7).as_nanos(), 7_000_000);
    assert_eq!(NanoTimestamp::from_secs_safe(7).as_nanos(), 7_000_000_000);
    assert_eq!(NanoTimestamp::from_minutes_safe(2).as_nanos(), 120_000_000_000);
    assert_eq!(NanoTimestamp::from_hours_safe(1).as_nanos(), 3_600_000_000_000);
    assert_eq!(NanoTimestamp::from_days_safe(1).as_nanos(), 86_400_000_000_000);
    assert_eq!(NanoDelta::from_secs_safe(-3).as_nanos(), -3_000_000_000);
    assert_eq!(NanoDelta::from_days_safe(2).as_nanos(), 172_800_000_000_000);
}

#[test]
fn timestamp_checked_conversions_values() {
    assert_eq!(NanoTimestamp::from_micros(5).unwrap().as_nanos(), 5_000);
    assert_eq!(NanoDelta::from_millis(5).unwrap().as_nanos(), 5_000_000);
    assert_eq!(NanoDelta::from_hours(-2).unwrap().as_nanos(), -7_200_000_000_000);
    assert!(NanoDelta::from_days(i64::MAX).is_err());
}

#[test]
fn timestamp_zero() {
    assert_eq!(NanoTimestamp::zero().as_nanos(), 0);
    assert_eq!(NanoDelta::zero().as_nanos(), 0);
}
