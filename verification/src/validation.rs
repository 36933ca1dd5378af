//! Input validation for the project-publication ledger.
//!
//! Pure checks on identifier shape and timestamp plausibility; nothing here
//! reads or writes ledger state.

use crate::error::Error;
use vstd::prelude::*;

verus! {

/// Shortest accepted project identifier, in bytes of its UTF-8 encoding.
pub const MIN_PROJECT_ID_LENGTH: usize = 1;

/// Longest accepted project identifier, in bytes of its UTF-8 encoding.
/// The bound caps storage-key size so unbounded keys cannot be used to
/// exhaust storage.
pub const MAX_PROJECT_ID_LENGTH: usize = 100;

/// How far ahead of the ledger clock an asserted event timestamp may lie.
/// Callers may legitimately run slightly ahead of ledger consensus time.
pub const MAX_TIMESTAMP_DIFF: u64 = 300;

/// A project identifier is acceptable when its UTF-8 encoding is neither
/// empty nor longer than [`MAX_PROJECT_ID_LENGTH`] bytes.
pub open spec fn valid_identifier(id: Seq<char>) -> bool {
    MIN_PROJECT_ID_LENGTH <= vstd::utf8::encode_utf8(id).len() <= MAX_PROJECT_ID_LENGTH
}

/// An asserted event timestamp is acceptable when it does not exceed the
/// current ledger time by more than [`MAX_TIMESTAMP_DIFF`]; the bound is
/// inclusive, and arbitrarily old timestamps are accepted.
pub open spec fn timestamp_ok(timestamp: u64, current_time: u64) -> bool {
    timestamp <= current_time + MAX_TIMESTAMP_DIFF
}

/// Validate a client identity.  Identity well-formedness is the host
/// boundary's concern, so every identity that reaches the ledger is accepted.
pub fn validate_client_id(_client_id: &String) -> (r: Result<(), Error>)
    ensures
        r is Ok,
{
    Ok(())
}

/// Validate a project identifier's shape.
pub fn validate_project_id(project_id: &String) -> (r: Result<(), Error>)
    ensures
        r is Ok <==> valid_identifier(project_id@),
        r is Err ==> r == Err::<(), Error>(Error::InvalidProjectId),
{
    let len = project_id.as_str().as_bytes().len();
    if len < MIN_PROJECT_ID_LENGTH {
        return Err(Error::InvalidProjectId);
    }
    if len > MAX_PROJECT_ID_LENGTH {
        return Err(Error::InvalidProjectId);
    }
    Ok(())
}

/// Validate an asserted event timestamp against the current ledger time.
pub fn validate_timestamp(timestamp: u64, current_time: u64) -> (r: Result<(), Error>)
    ensures
        r is Ok <==> timestamp_ok(timestamp, current_time),
        r is Err ==> r == Err::<(), Error>(Error::InvalidTimestamp),
{
    if timestamp > current_time && timestamp - current_time > MAX_TIMESTAMP_DIFF {
        return Err(Error::InvalidTimestamp);
    }
    Ok(())
}

/// Outcome of running all record validations in order: client identity,
/// then project identifier, then timestamp.
pub open spec fn spec_validate_record(
    project_id: Seq<char>,
    timestamp: u64,
    current_time: u64,
) -> Result<(), Error> {
    if !valid_identifier(project_id) {
        Err(Error::InvalidProjectId)
    } else if !timestamp_ok(timestamp, current_time) {
        Err(Error::InvalidTimestamp)
    } else {
        Ok(())
    }
}

/// Run every validation a publication record must pass before it is stored.
pub fn validate_project_record(
    client_id: &String,
    project_id: &String,
    timestamp: u64,
    current_time: u64,
) -> (r: Result<(), Error>)
    ensures
        r == spec_validate_record(project_id@, timestamp, current_time),
{
    match validate_client_id(client_id) {
        Err(e) => {
            return Err(e);
        },
        Ok(()) => {},
    }
    match validate_project_id(project_id) {
        Err(e) => {
            return Err(e);
        },
        Ok(()) => {},
    }
    match validate_timestamp(timestamp, current_time) {
        Err(e) => {
            return Err(e);
        },
        Ok(()) => {},
    }
    Ok(())
}

} // verus!
