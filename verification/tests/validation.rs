//! Tests of the pure validators: identifier shape and timestamp
//! plausibility, including the exact boundaries.

use record_ledger::error::Error;
use record_ledger::validation::{
    validate_client_id, validate_project_id, validate_project_record, validate_timestamp,
};

#[test]
fn test_validate_client_id_accepts_everything() {
    assert_eq!(validate_client_id(&String::new()), Ok(()));
    assert_eq!(validate_client_id(&"client-1".to_string()), Ok(()));
}

#[test]
fn test_validate_project_id_boundaries() {
    assert_eq!(
        validate_project_id(&String::new()),
        Err(Error::InvalidProjectId)
    );
    assert_eq!(validate_project_id(&"x".to_string()), Ok(()));
    assert_eq!(validate_project_id(&"a".repeat(100)), Ok(()));
    assert_eq!(
        validate_project_id(&"a".repeat(101)),
        Err(Error::InvalidProjectId)
    );
}

#[test]
fn test_validate_project_id_counts_encoded_bytes() {
    // The length bound is on the UTF-8 encoding: fifty two-byte characters
    // fill the 100-byte budget exactly, fifty-one overflow it.
    let within = "\u{e9}".repeat(50);
    let beyond = "\u{e9}".repeat(51);
    assert_eq!(validate_project_id(&within), Ok(()));
    assert_eq!(validate_project_id(&beyond), Err(Error::InvalidProjectId));
}

#[test]
fn test_validate_timestamp_boundary() {
    assert_eq!(validate_timestamp(300, 0), Ok(()));
    assert_eq!(validate_timestamp(301, 0), Err(Error::InvalidTimestamp));
    assert_eq!(validate_timestamp(1300, 1000), Ok(()));
    assert_eq!(validate_timestamp(1301, 1000), Err(Error::InvalidTimestamp));
}

#[test]
fn test_validate_timestamp_near_the_clock_maximum() {
    // The comparison must not overflow when the ledger clock sits near the
    // top of its range.
    assert_eq!(validate_timestamp(u64::MAX, u64::MAX - 100), Ok(()));
    assert_eq!(validate_timestamp(u64::MAX - 301, u64::MAX), Ok(()));
    assert_eq!(
        validate_timestamp(u64::MAX, u64::MAX - 301),
        Err(Error::InvalidTimestamp)
    );
}

#[test]
fn test_validate_timestamp_accepts_old_events() {
    assert_eq!(validate_timestamp(0, u64::MAX), Ok(()));
}

#[test]
fn test_validate_project_record_checks_in_order() {
    // An invalid identifier is reported before an invalid timestamp.
    assert_eq!(
        validate_project_record(&"client-1".to_string(), &String::new(), 1000, 0),
        Err(Error::InvalidProjectId)
    );
    assert_eq!(
        validate_project_record(&"client-1".to_string(), &"p".to_string(), 1000, 0),
        Err(Error::InvalidTimestamp)
    );
    assert_eq!(
        validate_project_record(&"client-1".to_string(), &"p".to_string(), 300, 0),
        Ok(())
    );
}
