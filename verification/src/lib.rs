//! An append-only, admin-gated record ledger.
//!
//! Entities register immutable facts exactly once, keyed either by a
//! caller-supplied identifier (project publications) or by an automatically
//! assigned sequence number (task outcomes), with secondary indexing for
//! lookup by related parties.  The host boundary (caller authentication,
//! durable storage, clocks, notifications) stays outside: operations receive
//! an already-authenticated caller identity and the current ledger time, and
//! act on an explicit ledger value.

pub mod contract;
pub mod error;
pub mod errors;
pub mod index;
pub mod laws;
pub mod task_record;
pub mod types;
pub mod validation;

use crate::contract::{
    spec_get_record, spec_initialize, spec_record_project, ProjectLedgerV,
    ProjectPublicationContract,
};
use crate::error::Error;
use crate::types::{ProjectRecord, ProjectRecordV};
use vstd::prelude::*;

verus! {

/// The caller-facing facade over the project-publication ledger: it owns the
/// ledger state and forwards each operation, under the same contracts.
pub struct Contract {
    ledger: ProjectPublicationContract,
}

impl View for Contract {
    type V = ProjectLedgerV;

    closed spec fn view(&self) -> ProjectLedgerV {
        self.ledger@
    }
}

impl Contract {
    /// The underlying ledger's internal consistency.
    pub closed spec fn wf(&self) -> bool {
        self.ledger.wf()
    }

    /// An empty, uninitialized ledger behind the facade.
    pub fn new() -> (r: Self)
        ensures
            r.wf(),
            r@.admin is None,
            r@.records == Seq::<ProjectRecordV>::empty(),
    {
        Contract { ledger: ProjectPublicationContract::new() }
    }

    /// Register `admin` as the administrator; see
    /// [`ProjectPublicationContract::initialize`].
    pub fn initialize(&mut self, admin: &String) -> (r: Result<(), Error>)
        requires
            old(self).wf(),
        ensures
            final(self).wf(),
            ({
                let (post, res) = spec_initialize(old(self)@, admin@);
                final(self)@ == post && r == res
            }),
    {
        self.ledger.initialize(admin)
    }

    /// Record a project publication; see
    /// [`ProjectPublicationContract::record_project`].
    pub fn record_project(
        &mut self,
        caller: &String,
        client_id: &String,
        project_id: &String,
        timestamp: u64,
        now: u64,
    ) -> (r: Result<(), Error>)
        requires
            old(self).wf(),
        ensures
            final(self).wf(),
            ({
                let (post, res) = spec_record_project(
                    old(self)@,
                    caller@,
                    client_id@,
                    project_id@,
                    timestamp,
                    now,
                );
                final(self)@ == post && r == res
            }),
    {
        self.ledger.record_project(caller, client_id, project_id, timestamp, now)
    }

    /// A copy of the record stored under `project_id`, if any; see
    /// [`ProjectPublicationContract::get_project_record`].
    pub fn get_project_record(&self, project_id: &String) -> (r: Option<ProjectRecord>)
        requires
            self.wf(),
        ensures
            match r {
                Some(rec) => spec_get_record(self@.records, project_id@) == Some(rec@),
                None => spec_get_record(self@.records, project_id@) is None,
            },
    {
        self.ledger.get_project_record(project_id)
    }
}

} // verus!
