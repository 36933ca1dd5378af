//! The project-publication ledger: an admin-gated, write-once store of
//! publication records keyed by a caller-supplied project identifier, with a
//! secondary index from client identity to the projects published for it.
//!
//! Every operation is described by a transition function over the ledger's
//! mathematical view ([`ProjectLedgerV`]); the executable methods promise to
//! agree with those transitions exactly.

use crate::error::Error;
use crate::index::IndexMap;
use crate::types::{ProjectRecord, ProjectRecordV};
use crate::validation::{spec_validate_record, validate_project_record};
use vstd::prelude::*;

verus! {

/// Mathematical view of the ledger: the administrator, if one was set, and
/// every stored record in write order.
pub struct ProjectLedgerV {
    pub admin: Option<Seq<char>>,
    pub records: Seq<ProjectRecordV>,
}

/// The views of a sequence of stored records.
pub open spec fn record_views(rs: Seq<ProjectRecord>) -> Seq<ProjectRecordV> {
    rs.map_values(|r: ProjectRecord| r@)
}

/// The views of a sequence of identifier strings.
pub open spec fn string_views(ss: Seq<String>) -> Seq<Seq<char>> {
    ss.map_values(|s: String| s@)
}

/// The primary keys of a sequence of records, in order.
pub open spec fn record_ids(rs: Seq<ProjectRecordV>) -> Seq<Seq<char>> {
    rs.map_values(|r: ProjectRecordV| r.project_id)
}

/// Some record in `records` has primary key `id`.
pub open spec fn has_record_with_id(records: Seq<ProjectRecordV>, id: Seq<char>) -> bool {
    exists|i: int| 0 <= i < records.len() && records[i].project_id == id
}

/// The record stored under primary key `id`, if any.
pub open spec fn spec_get_record(records: Seq<ProjectRecordV>, id: Seq<char>) -> Option<
    ProjectRecordV,
> {
    if has_record_with_id(records, id) {
        let i = choose|i: int| 0 <= i < records.len() && records[i].project_id == id;
        Some(records[i])
    } else {
        None
    }
}

/// The records whose client is `client`, in write order.
pub open spec fn records_for_party(records: Seq<ProjectRecordV>, client: Seq<char>) -> Seq<
    ProjectRecordV,
>
    decreases records.len(),
{
    if records.len() == 0 {
        Seq::empty()
    } else if records.last().client_id == client {
        records_for_party(records.drop_last(), client).push(records.last())
    } else {
        records_for_party(records.drop_last(), client)
    }
}

/// No two stored records share a primary key.
pub open spec fn ids_distinct(records: Seq<ProjectRecordV>) -> bool {
    forall|i: int, j: int|
        0 <= i < j < records.len() ==> records[i].project_id != records[j].project_id
}

/// How `initialize` acts on the ledger view: sets the administrator once,
/// and refuses every later attempt.
pub open spec fn spec_initialize(pre: ProjectLedgerV, admin: Seq<char>) -> (ProjectLedgerV, Result<
    (),
    Error,
>) {
    if pre.admin is Some {
        (pre, Err(Error::AlreadyInitialized))
    } else {
        (ProjectLedgerV { admin: Some(admin), records: pre.records }, Ok(()))
    }
}

/// How `record_project` acts on the ledger view: the authorization gate, the
/// input validations and the duplicate check in order, and on success the
/// append of a record whose `recorded_at` is the ledger time `now`.
pub open spec fn spec_record_project(
    pre: ProjectLedgerV,
    caller: Seq<char>,
    client_id: Seq<char>,
    project_id: Seq<char>,
    timestamp: u64,
    now: u64,
) -> (ProjectLedgerV, Result<(), Error>) {
    match pre.admin {
        None => (pre, Err(Error::NotInitialized)),
        Some(admin) => if caller != admin {
            (pre, Err(Error::Unauthorized))
        } else {
            match spec_validate_record(project_id, timestamp, now) {
                Err(e) => (pre, Err(e)),
                Ok(()) => if has_record_with_id(pre.records, project_id) {
                    (pre, Err(Error::ProjectAlreadyRecorded))
                } else {
                    let record = ProjectRecordV {
                        client_id: client_id,
                        project_id: project_id,
                        timestamp: timestamp,
                        recorded_at: now,
                    };
                    (
                        ProjectLedgerV { admin: pre.admin, records: pre.records.push(record) },
                        Ok(()),
                    )
                },
            }
        },
    }
}

/// Appending a record extends its own client's party list by exactly that
/// record and leaves every other party's list unchanged.
pub proof fn lemma_records_for_party_push(
    records: Seq<ProjectRecordV>,
    r: ProjectRecordV,
    client: Seq<char>,
)
    ensures
        r.client_id == client ==> records_for_party(records.push(r), client) == records_for_party(
            records,
            client,
        ).push(r),
        r.client_id != client ==> records_for_party(records.push(r), client) == records_for_party(
            records,
            client,
        ),
{
    let sp = records.push(r);
    assert(sp.drop_last() =~= records);
    assert(sp.last() == r);
}

/// Every element of a party's list is one of the stored records, and its
/// client is that party.
pub proof fn lemma_records_for_party_membership(
    records: Seq<ProjectRecordV>,
    client: Seq<char>,
    j: int,
)
    requires
        0 <= j < records_for_party(records, client).len(),
    ensures
        records_for_party(records, client)[j].client_id == client,
        exists|i: int|
            0 <= i < records.len() && records[i] == records_for_party(records, client)[j],
    decreases records.len(),
{
    let part = records_for_party(records, client);
    let pre = records_for_party(records.drop_last(), client);
    if j < pre.len() {
        lemma_records_for_party_membership(records.drop_last(), client, j);
        let i = choose|i: int|
            0 <= i < records.drop_last().len() && records.drop_last()[i] == pre[j];
        assert(records[i] == part[j]);
    } else {
        assert(part[j] == records.last());
        assert(records[records.len() - 1] == part[j]);
    }
}

/// With unique keys, any position holding key `id` determines the result of
/// [`spec_get_record`].
pub proof fn lemma_get_record_at(records: Seq<ProjectRecordV>, id: Seq<char>, i: int)
    requires
        ids_distinct(records),
        0 <= i < records.len(),
        records[i].project_id == id,
    ensures
        has_record_with_id(records, id),
        spec_get_record(records, id) == Some(records[i]),
{
    assert(has_record_with_id(records, id));
    let j = choose|j: int| 0 <= j < records.len() && records[j].project_id == id;
    if j < i {
        assert(records[j].project_id != records[i].project_id);
    } else if i < j {
        assert(records[i].project_id != records[j].project_id);
    }
}

/// The project-publication ledger.  State is explicit: it is created once
/// with [`ProjectPublicationContract::new`] and threaded through every call.
pub struct ProjectPublicationContract {
    admin: Option<String>,
    records: Vec<ProjectRecord>,
    client_index: IndexMap<String>,
}

impl View for ProjectPublicationContract {
    type V = ProjectLedgerV;

    closed spec fn view(&self) -> ProjectLedgerV {
        ProjectLedgerV {
            admin: match self.admin {
                Some(a) => Some(a@),
                None => None,
            },
            records: record_views(self.records@),
        }
    }
}

impl ProjectPublicationContract {
    /// The ledger's internal consistency: primary keys are unique, and the
    /// client index lists, for every party, exactly the keys of that party's
    /// records in write order.
    pub closed spec fn wf(&self) -> bool {
        &&& ids_distinct(self@.records)
        &&& self.client_index.wf()
        &&& forall|c: Seq<char>|
            string_views(#[trigger] self.client_index.lookup(c)) == record_ids(
                records_for_party(self@.records, c),
            )
    }

    /// An empty, uninitialized ledger.
    pub fn new() -> (r: Self)
        ensures
            r.wf(),
            r@.admin is None,
            r@.records == Seq::<ProjectRecordV>::empty(),
    {
        let r = ProjectPublicationContract {
            admin: None,
            records: Vec::new(),
            client_index: IndexMap::new(),
        };
        proof {
            assert(r@.records =~= Seq::<ProjectRecordV>::empty());
            assert forall|c: Seq<char>|
                string_views(#[trigger] r.client_index.lookup(c)) == record_ids(
                    records_for_party(r@.records, c),
                ) by {
                assert(string_views(r.client_index.lookup(c)) =~= Seq::<Seq<char>>::empty());
                assert(record_ids(records_for_party(r@.records, c)) =~= Seq::<Seq<char>>::empty());
            }
        }
        r
    }

    /// Whether an administrator has been registered.
    pub fn is_initialized(&self) -> (r: bool)
        ensures
            r == (self@.admin is Some),
    {
        match &self.admin {
            Some(_) => true,
            None => false,
        }
    }

    /// The registered administrator, if any.
    pub fn get_admin(&self) -> (r: Option<String>)
        ensures
            match r {
                Some(a) => self@.admin == Some(a@),
                None => self@.admin is None,
            },
    {
        match &self.admin {
            Some(a) => Some(a.clone()),
            None => None,
        }
    }

    /// Whether a record is stored under `project_id`.
    #[verifier::loop_isolation(false)]
    pub fn has_project_record(&self, project_id: &String) -> (r: bool)
        ensures
            r == has_record_with_id(self@.records, project_id@),
    {
        let n = self.records.len();
        let mut i: usize = 0;
        while i < n
            invariant
                i <= n,
                n == self.records@.len(),
                forall|j: int| 0 <= j < i ==> self@.records[j].project_id != project_id@,
            decreases n - i,
        {
            if self.records[i].project_id == *project_id {
                assert(self@.records[i as int].project_id == project_id@);
                return true;
            }
            i += 1;
        }
        false
    }

    /// Borrow the record stored under `project_id`, if any.
    #[verifier::loop_isolation(false)]
    fn find_record<'a>(&'a self, project_id: &String) -> (r: Option<&'a ProjectRecord>)
        requires
            self.wf(),
        ensures
            match r {
                Some(rec) => spec_get_record(self@.records, project_id@) == Some(rec@),
                None => spec_get_record(self@.records, project_id@) is None,
            },
    {
        let n = self.records.len();
        let mut i: usize = 0;
        while i < n
            invariant
                i <= n,
                n == self.records@.len(),
                forall|j: int| 0 <= j < i ==> self@.records[j].project_id != project_id@,
            decreases n - i,
        {
            if self.records[i].project_id == *project_id {
                proof {
                    lemma_get_record_at(self@.records, project_id@, i as int);
                }
                return Some(&self.records[i]);
            }
            i += 1;
        }
        proof {
            assert(!has_record_with_id(self@.records, project_id@));
        }
        None
    }

    /// A copy of the record stored under `project_id`, if any.
    pub fn get_project_record_storage(&self, project_id: &String) -> (r: Option<ProjectRecord>)
        requires
            self.wf(),
        ensures
            match r {
                Some(rec) => spec_get_record(self@.records, project_id@) == Some(rec@),
                None => spec_get_record(self@.records, project_id@) is None,
            },
    {
        match self.find_record(project_id) {
            Some(rec) => Some(rec.clone()),
            None => None,
        }
    }

    /// Commit a record whose key is not yet in use: append it to the store
    /// and its key to its client's index list, as one step.
    fn set_project_record(&mut self, record: ProjectRecord)
        requires
            old(self).wf(),
            !has_record_with_id(old(self)@.records, record.project_id@),
        ensures
            final(self).wf(),
            final(self)@.records == old(self)@.records.push(record@),
            final(self)@.admin == old(self)@.admin,
    {
        let ghost rv = record@;
        let ghost records0 = old(self)@.records;
        let client_key = record.client_id.clone();
        let id_value = record.project_id.clone();
        self.records.push(record);
        self.client_index.append(&client_key, id_value);
        proof {
            assert(self@.records =~= records0.push(rv));
            assert(ids_distinct(self@.records));
            assert forall|c: Seq<char>|
                string_views(#[trigger] self.client_index.lookup(c)) == record_ids(
                    records_for_party(self@.records, c),
                ) by {
                lemma_records_for_party_push(records0, rv, c);
                if c == client_key@ {
                    assert(self.client_index.lookup(c) == old(self).client_index.lookup(c).push(
                        id_value,
                    ));
                    assert(string_views(self.client_index.lookup(c)) =~= string_views(
                        old(self).client_index.lookup(c),
                    ).push(id_value@));
                    assert(record_ids(records_for_party(self@.records, c)) =~= record_ids(
                        records_for_party(records0, c),
                    ).push(rv.project_id));
                } else {
                    assert(self.client_index.lookup(c) == old(self).client_index.lookup(c));
                    assert(records_for_party(self@.records, c) == records_for_party(records0, c));
                }
            }
        }
    }

    /// Register `admin` as the administrator.  Succeeds exactly once: every
    /// call after the first fails with `AlreadyInitialized` and changes
    /// nothing.  The caller must already have proven control of `admin` at
    /// the host boundary.
    pub fn initialize(&mut self, admin: &String) -> (r: Result<(), Error>)
        requires
            old(self).wf(),
        ensures
            final(self).wf(),
            ({
                let (post, res) = spec_initialize(old(self)@, admin@);
                final(self)@ == post && r == res
            }),
    {
        match &self.admin {
            Some(_) => Err(Error::AlreadyInitialized),
            None => {
                self.admin = Some(admin.clone());
                Ok(())
            },
        }
    }

    /// Record a project publication.  Requires an initialized ledger, a
    /// caller equal to the administrator, a well-shaped identifier, a
    /// timestamp no further than the skew budget past `now`, and an unused
    /// key; then stores the record with `recorded_at = now` and indexes it
    /// under its client.  Any failure leaves the ledger unchanged.
    pub fn record_project(
        &mut self,
        caller: &String,
        client_id: &String,
        project_id: &String,
        timestamp: u64,
        now: u64,
    ) -> (r: Result<(), Error>)
        requires
            old(self).wf(),
        ensures
            final(self).wf(),
            ({
                let (post, res) = spec_record_project(
                    old(self)@,
                    caller@,
                    client_id@,
                    project_id@,
                    timestamp,
                    now,
                );
                final(self)@ == post && r == res
            }),
    {
        let authorized = match &self.admin {
            None => {
                return Err(Error::NotInitialized);
            },
            Some(admin) => *caller == *admin,
        };
        if !authorized {
            return Err(Error::Unauthorized);
        }
        match validate_project_record(client_id, project_id, timestamp, now) {
            Err(e) => {
                return Err(e);
            },
            Ok(()) => {},
        }
        if self.has_project_record(project_id) {
            return Err(Error::ProjectAlreadyRecorded);
        }
        let record = ProjectRecord {
            client_id: client_id.clone(),
            project_id: project_id.clone(),
            timestamp: timestamp,
            recorded_at: now,
        };
        self.set_project_record(record);
        Ok(())
    }

    /// A copy of the record stored under `project_id`, if any.  Reads need
    /// no authorization.
    pub fn get_project_record(&self, project_id: &String) -> (r: Option<ProjectRecord>)
        requires
            self.wf(),
        ensures
            match r {
                Some(rec) => spec_get_record(self@.records, project_id@) == Some(rec@),
                None => spec_get_record(self@.records, project_id@) is None,
            },
    {
        self.get_project_record_storage(project_id)
    }

    /// Copies of every record whose client is `client_id`, in write order:
    /// the index list resolved through the record store.  Reads need no
    /// authorization.
    #[verifier::loop_isolation(false)]
    pub fn list_by_party(&self, client_id: &String) -> (r: Vec<ProjectRecord>)
        requires
            self.wf(),
        ensures
            record_views(r@) == records_for_party(self@.records, client_id@),
    {
        let ghost filtered = records_for_party(self@.records, client_id@);
        let mut out: Vec<ProjectRecord> = Vec::new();
        match self.client_index.get(client_id) {
            None => {
                proof {
                    assert(string_views(self.client_index.lookup(client_id@)) =~= Seq::<
                        Seq<char>,
                    >::empty());
                    assert(record_ids(filtered).len() == 0);
                    assert(record_views(out@) =~= filtered);
                }
            },
            Some(ids) => {
                let n = ids.len();
                proof {
                    assert(string_views(ids@).len() == record_ids(filtered).len());
                }
                let mut j: usize = 0;
                while j < n
                    invariant
                        j <= n,
                        n == ids@.len(),
                        n == filtered.len(),
                        record_views(out@) =~= filtered.subrange(0, j as int),
                    decreases n - j,
                {
                    proof {
                        assert(string_views(ids@)[j as int] == ids@[j as int]@);
                        assert(record_ids(filtered)[j as int] == filtered[j as int].project_id);
                        lemma_records_for_party_membership(
                            self@.records,
                            client_id@,
                            j as int,
                        );
                    }
                    let ghost fj = filtered[j as int];
                    match self.find_record(&ids[j]) {
                        Some(rec) => {
                            proof {
                                let i = choose|i: int|
                                    0 <= i < self@.records.len() && self@.records[i] == fj;
                                lemma_get_record_at(self@.records, ids@[j as int]@, i);
                                assert(rec@ == fj);
                            }
                            out.push(rec.clone());
                            proof {
                                assert(record_views(out@) =~= filtered.subrange(0, j as int + 1));
                            }
                        },
                        None => {
                            proof {
                                let i = choose|i: int|
                                    0 <= i < self@.records.len() && self@.records[i] == fj;
                                lemma_get_record_at(self@.records, ids@[j as int]@, i);
                                assert(false);
                            }
                        },
                    }
                    j += 1;
                }
                proof {
                    assert(filtered.subrange(0, n as int) =~= filtered);
                }
            },
        }
        out
    }
}

} // verus!
