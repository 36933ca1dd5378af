//! Failures of the project-publication ledger.

use vstd::prelude::*;

verus! {

/// Everything that can go wrong when initializing the project-publication
/// ledger or recording a publication.  Every operation either completes in
/// full or fails with one of these; no partial state change survives a
/// failure.
#[derive(Clone, Copy, Debug, PartialEq, Eq)]
pub enum Error {
    /// The ledger has already been initialized.
    AlreadyInitialized,
    /// The ledger has not been initialized yet.
    NotInitialized,
    /// The caller is not the registered administrator.
    Unauthorized,
    /// The client identity was rejected by validation.
    InvalidClientId,
    /// The project identifier is empty or longer than the allowed maximum.
    InvalidProjectId,
    /// A record with this project identifier already exists.
    ProjectAlreadyRecorded,
    /// The asserted event timestamp lies too far in the future.
    InvalidTimestamp,
}

} // verus!
