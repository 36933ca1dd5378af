//! The record stored by the project-publication ledger.

use vstd::prelude::*;

verus! {

/// Mathematical image of a [`ProjectRecord`]: identities and identifiers as
/// character sequences, timestamps as they are.
pub struct ProjectRecordV {
    pub client_id: Seq<char>,
    pub project_id: Seq<char>,
    pub timestamp: u64,
    pub recorded_at: u64,
}

/// An immutable proof of when a project was published and by whom.  Once
/// stored under its `project_id`, a record is never modified or removed.
#[derive(Debug)]
pub struct ProjectRecord {
    /// The client this publication belongs to.
    pub client_id: String,
    /// The caller-chosen primary key, unique for the ledger's lifetime.
    pub project_id: String,
    /// The caller-asserted time of the publication event.
    pub timestamp: u64,
    /// The ledger time at the moment the record was committed.  Assigned by
    /// the ledger, never by the caller, so it cannot be backdated.
    pub recorded_at: u64,
}

impl View for ProjectRecord {
    type V = ProjectRecordV;

    open spec fn view(&self) -> ProjectRecordV {
        ProjectRecordV {
            client_id: self.client_id@,
            project_id: self.project_id@,
            timestamp: self.timestamp,
            recorded_at: self.recorded_at,
        }
    }
}

impl Clone for ProjectRecord {
    fn clone(&self) -> (r: Self)
        ensures
            r == *self,
    {
        ProjectRecord {
            client_id: self.client_id.clone(),
            project_id: self.project_id.clone(),
            timestamp: self.timestamp,
            recorded_at: self.recorded_at,
        }
    }
}

} // verus!
