//! Failures of the task-record ledger.

use vstd::prelude::*;

verus! {

/// Everything that can go wrong when initializing the task-record ledger or
/// recording a task outcome.  Every failure surfaces a distinguishable kind.
#[derive(Clone, Copy, Debug, PartialEq, Eq)]
pub enum Errors {
    /// A malformed request.
    InvalidInput,
    /// The ledger has already been initialized.
    AlreadyInitialized,
    /// The ledger has not been initialized yet.
    NotInitialized,
    /// The caller is not the registered administrator.
    Unauthorized,
}

} // verus!
