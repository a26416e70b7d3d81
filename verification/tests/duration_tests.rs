use prometheus_http_query::duration::validate_duration;
use prometheus_http_query::error::Error;

#[test]
fn accepts_simple_durations() {
    assert!(validate_duration("5m").is_ok());
    assert!(validate_duration("1h").is_ok());
    assert!(validate_duration("30s").is_ok());
}

#[test]
fn accepts_every_unit() {
    assert!(validate_duration("250ms").is_ok());
    assert!(validate_duration("7d").is_ok());
    assert!(validate_duration("2w").is_ok());
    assert!(validate_duration("1y").is_ok());
}

#[test]
fn accepts_leading_zeros_with_nonzero_value() {
    assert!(validate_duration("05m").is_ok());
}

#[test]
fn rejects_empty_string() {
    match validate_duration("") {
        Err(Error::InvalidDuration { reason }) => {
            assert_eq!(reason, "duration string must not be empty");
        }
        other => panic!("expected InvalidDuration, got {:?}", other),
    }
}

#[test]
fn rejects_missing_unit() {
    match validate_duration("5") {
        Err(Error::InvalidDuration { reason }) => {
            assert_eq!(reason, "duration string lacks a time unit");
        }
        other => panic!("expected InvalidDuration, got {:?}", other),
    }
}

#[test]
fn rejects_zero_value() {
    match validate_duration("0m") {
        Err(Error::InvalidDuration { reason }) => {
            assert_eq!(reason, "duration value must not be zero");
        }
        other => panic!("expected InvalidDuration, got {:?}", other),
    }
    assert!(validate_duration("00h").is_err());
}

#[test]
fn rejects_unrecognized_unit() {
    match validate_duration("5mx") {
        Err(Error::InvalidDuration { reason }) => {
            assert_eq!(reason, "duration string holds an unrecognized time unit");
        }
        other => panic!("expected InvalidDuration, got {:?}", other),
    }
    assert!(validate_duration("5x").is_err());
    assert!(validate_duration("3mo").is_err());
}

#[test]
fn rejects_missing_number() {
    match validate_duration("ms") {
        Err(Error::InvalidDuration { reason }) => {
            assert_eq!(reason, "duration string must begin with a number");
        }
        other => panic!("expected InvalidDuration, got {:?}", other),
    }
}

#[test]
fn rejects_composite_durations() {
    assert!(validate_duration("1h30m").is_err());
    assert!(validate_duration("5m5").is_err());
}
