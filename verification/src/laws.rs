//! The guarantees the ledger operations give together, proved once and for
//! all over the transition functions that the executable methods promise to
//! follow.

use crate::contract::{
    has_record_with_id, ids_distinct, lemma_get_record_at, records_for_party, spec_get_record,
    spec_initialize, spec_record_project, ProjectLedgerV,
};
use crate::types::ProjectRecordV;
use crate::error::Error;
use crate::errors::Errors;
use crate::task_record::{
    lemma_tasks_for_client_push, lemma_tasks_for_freelancer_push, sequential_ids,
    spec_record_task_outcome, spec_task_initialize, tasks_for_client, tasks_for_freelancer,
    TaskLedgerV, TaskRecordV,
};
use crate::validation::{timestamp_ok, valid_identifier, MAX_TIMESTAMP_DIFF};
use vstd::prelude::*;

verus! {

/// Initialization happens exactly once.  On an uninitialized ledger,
/// `initialize` succeeds and registers its argument; after that, a second
/// `initialize` with any argument fails with `AlreadyInitialized` and the
/// administrator remains the first value provided.
pub proof fn lemma_initialize_once(pre: ProjectLedgerV, admin1: Seq<char>, admin2: Seq<char>)
    requires
        pre.admin is None,
    ensures
        ({
            let (post1, res1) = spec_initialize(pre, admin1);
            let (post2, res2) = spec_initialize(post1, admin2);
            &&& res1 is Ok
            &&& post1.admin == Some(admin1)
            &&& post1.records == pre.records
            &&& res2 == Err::<(), Error>(Error::AlreadyInitialized)
            &&& post2 == post1
        }),
{
}

/// Initialization of the task-record ledger happens exactly once, in the
/// same way.
pub proof fn lemma_task_initialize_once(pre: TaskLedgerV, admin1: Seq<char>, admin2: Seq<char>)
    requires
        pre.admin is None,
    ensures
        ({
            let (post1, res1) = spec_task_initialize(pre, admin1);
            let (post2, res2) = spec_task_initialize(post1, admin2);
            &&& res1 is Ok
            &&& post1.admin == Some(admin1)
            &&& post1.tasks == pre.tasks
            &&& res2 == Err::<(), Errors>(Errors::AlreadyInitialized)
            &&& post2 == post1
        }),
{
}

/// Writes are gated on the administrator.  Before initialization every
/// `record_project` fails with `NotInitialized`; afterwards every caller
/// other than the administrator fails with `Unauthorized`.  Either way the
/// ledger is unchanged.
pub proof fn lemma_admin_gate(
    pre: ProjectLedgerV,
    caller: Seq<char>,
    client_id: Seq<char>,
    project_id: Seq<char>,
    timestamp: u64,
    now: u64,
)
    ensures
        pre.admin is None ==> spec_record_project(pre, caller, client_id, project_id, timestamp, now)
            == (pre, Err::<(), Error>(Error::NotInitialized)),
        (pre.admin is Some && pre.admin != Some(caller)) ==> spec_record_project(
            pre,
            caller,
            client_id,
            project_id,
            timestamp,
            now,
        ) == (pre, Err::<(), Error>(Error::Unauthorized)),
{
}

/// Writes to the task-record ledger are gated in the same way.  Before
/// initialization every `record_task_outcome` fails with `NotInitialized`;
/// afterwards every caller other than the administrator fails with
/// `Unauthorized`.  Either way the ledger is unchanged.
pub proof fn lemma_task_admin_gate(
    pre: TaskLedgerV,
    caller: Seq<char>,
    project_id: Seq<char>,
    freelancer_id: Seq<char>,
    client_id: Seq<char>,
    completed: bool,
    now: u64,
)
    ensures
        pre.admin is None ==> spec_record_task_outcome(
            pre,
            caller,
            project_id,
            freelancer_id,
            client_id,
            completed,
            now,
        ) == (pre, Err::<u64, Errors>(Errors::NotInitialized)),
        (pre.admin is Some && pre.admin != Some(caller)) ==> spec_record_task_outcome(
            pre,
            caller,
            project_id,
            freelancer_id,
            client_id,
            completed,
            now,
        ) == (pre, Err::<u64, Errors>(Errors::Unauthorized)),
{
}

/// Records are write-once.  After a successful `record_project`, a second
/// call with the same key by the administrator and with an acceptable
/// timestamp fails with `ProjectAlreadyRecorded`, changes nothing, and the
/// record stored under the key is still exactly the first call's payload.
pub proof fn lemma_write_once(
    pre: ProjectLedgerV,
    caller: Seq<char>,
    client_id1: Seq<char>,
    project_id: Seq<char>,
    timestamp1: u64,
    now1: u64,
    client_id2: Seq<char>,
    timestamp2: u64,
    now2: u64,
)
    requires
        ids_distinct(pre.records),
        spec_record_project(pre, caller, client_id1, project_id, timestamp1, now1).1 is Ok,
        timestamp_ok(timestamp2, now2),
    ensures
        ({
            let (post1, res1) = spec_record_project(
                pre,
                caller,
                client_id1,
                project_id,
                timestamp1,
                now1,
            );
            let (post2, res2) = spec_record_project(
                post1,
                caller,
                client_id2,
                project_id,
                timestamp2,
                now2,
            );
            let stored = ProjectRecordV {
                client_id: client_id1,
                project_id: project_id,
                timestamp: timestamp1,
                recorded_at: now1,
            };
            &&& res2 == Err::<(), Error>(Error::ProjectAlreadyRecorded)
            &&& post2 == post1
            &&& spec_get_record(post1.records, project_id) == Some(stored)
            &&& spec_get_record(post2.records, project_id) == Some(stored)
        }),
{
    let (post1, res1) = spec_record_project(pre, caller, client_id1, project_id, timestamp1, now1);
    let stored = ProjectRecordV {
        client_id: client_id1,
        project_id: project_id,
        timestamp: timestamp1,
        recorded_at: now1,
    };
    assert(post1.records == pre.records.push(stored));
    assert(ids_distinct(post1.records));
    lemma_get_record_at(post1.records, project_id, post1.records.len() - 1);
}

/// The timestamp gate is inclusive: an otherwise-valid `record_project`
/// succeeds exactly when the asserted timestamp is at most the clock-skew
/// budget past the ledger time, and otherwise fails with `InvalidTimestamp`.
pub proof fn lemma_timestamp_bound(
    pre: ProjectLedgerV,
    caller: Seq<char>,
    client_id: Seq<char>,
    project_id: Seq<char>,
    timestamp: u64,
    now: u64,
)
    requires
        pre.admin == Some(caller),
        valid_identifier(project_id),
        !has_record_with_id(pre.records, project_id),
    ensures
        timestamp <= now + MAX_TIMESTAMP_DIFF ==> spec_record_project(
            pre,
            caller,
            client_id,
            project_id,
            timestamp,
            now,
        ).1 is Ok,
        timestamp > now + MAX_TIMESTAMP_DIFF ==> spec_record_project(
            pre,
            caller,
            client_id,
            project_id,
            timestamp,
            now,
        ) == (pre, Err::<(), Error>(Error::InvalidTimestamp)),
{
}

/// The identifier gate: an otherwise-valid `record_project` succeeds exactly
/// when the key's UTF-8 encoding is non-empty and within the length bound,
/// and otherwise fails with `InvalidProjectId`.
pub proof fn lemma_identifier_bound(
    pre: ProjectLedgerV,
    caller: Seq<char>,
    client_id: Seq<char>,
    project_id: Seq<char>,
    timestamp: u64,
    now: u64,
)
    requires
        pre.admin == Some(caller),
        timestamp_ok(timestamp, now),
        !has_record_with_id(pre.records, project_id),
    ensures
        valid_identifier(project_id) ==> spec_record_project(
            pre,
            caller,
            client_id,
            project_id,
            timestamp,
            now,
        ).1 is Ok,
        !valid_identifier(project_id) ==> spec_record_project(
            pre,
            caller,
            client_id,
            project_id,
            timestamp,
            now,
        ) == (pre, Err::<(), Error>(Error::InvalidProjectId)),
{
}

/// A successful `record_project` extends exactly its own client's party
/// list, by exactly the submitted payload, and leaves every other party's
/// list unchanged; failures leave every list unchanged.
pub proof fn lemma_party_lists_follow_writes(
    pre: ProjectLedgerV,
    caller: Seq<char>,
    client_id: Seq<char>,
    project_id: Seq<char>,
    timestamp: u64,
    now: u64,
    party: Seq<char>,
)
    ensures
        ({
            let (post, res) = spec_record_project(pre, caller, client_id, project_id, timestamp, now);
            let stored = ProjectRecordV {
                client_id: client_id,
                project_id: project_id,
                timestamp: timestamp,
                recorded_at: now,
            };
            &&& res is Err ==> records_for_party(post.records, party) == records_for_party(
                pre.records,
                party,
            )
            &&& (res is Ok && party == client_id) ==> records_for_party(post.records, party)
                == records_for_party(pre.records, party).push(stored)
            &&& (res is Ok && party != client_id) ==> records_for_party(post.records, party)
                == records_for_party(pre.records, party)
        }),
{
    let (post, res) = spec_record_project(pre, caller, client_id, project_id, timestamp, now);
    if res is Ok {
        let stored = ProjectRecordV {
            client_id: client_id,
            project_id: project_id,
            timestamp: timestamp,
            recorded_at: now,
        };
        crate::contract::lemma_records_for_party_push(pre.records, stored, party);
    }
}

/// A successful `record_task_outcome` extends exactly its freelancer's and
/// its client's lists, by exactly the submitted payload under the assigned
/// sequence number, and leaves every other party's lists unchanged; failures
/// leave every list unchanged.
pub proof fn lemma_task_lists_follow_writes(
    pre: TaskLedgerV,
    caller: Seq<char>,
    project_id: Seq<char>,
    freelancer_id: Seq<char>,
    client_id: Seq<char>,
    completed: bool,
    now: u64,
    party: Seq<char>,
)
    ensures
        ({
            let (post, res) = spec_record_task_outcome(
                pre,
                caller,
                project_id,
                freelancer_id,
                client_id,
                completed,
                now,
            );
            let stored = TaskRecordV {
                task_id: (pre.tasks.len() + 1) as u64,
                project_id: project_id,
                freelancer_id: freelancer_id,
                client_id: client_id,
                completed: completed,
                timestamp: now,
            };
            &&& res is Err ==> post == pre
            &&& (res is Ok && party == freelancer_id) ==> tasks_for_freelancer(post.tasks, party)
                == tasks_for_freelancer(pre.tasks, party).push(stored)
            &&& (res is Ok && party != freelancer_id) ==> tasks_for_freelancer(post.tasks, party)
                == tasks_for_freelancer(pre.tasks, party)
            &&& (res is Ok && party == client_id) ==> tasks_for_client(post.tasks, party)
                == tasks_for_client(pre.tasks, party).push(stored)
            &&& (res is Ok && party != client_id) ==> tasks_for_client(post.tasks, party)
                == tasks_for_client(pre.tasks, party)
        }),
{
    let (post, res) = spec_record_task_outcome(
        pre,
        caller,
        project_id,
        freelancer_id,
        client_id,
        completed,
        now,
    );
    if res is Ok {
        let stored = TaskRecordV {
            task_id: (pre.tasks.len() + 1) as u64,
            project_id: project_id,
            freelancer_id: freelancer_id,
            client_id: client_id,
            completed: completed,
            timestamp: now,
        };
        lemma_tasks_for_freelancer_push(pre.tasks, stored, party);
        lemma_tasks_for_client_push(pre.tasks, stored, party);
    }
}

/// Sequence numbers are assigned monotonically: a successful
/// `record_task_outcome` returns exactly one more than the number of tasks
/// already stored and appends the task under that number, so assigned
/// numbers run `1, 2, 3, …` in call order; a failed call changes nothing,
/// so failures leave no gap and no number is ever reused.
pub proof fn lemma_sequence_monotonic(
    pre: TaskLedgerV,
    caller: Seq<char>,
    project_id: Seq<char>,
    freelancer_id: Seq<char>,
    client_id: Seq<char>,
    completed: bool,
    now: u64,
)
    requires
        sequential_ids(pre.tasks),
        pre.tasks.len() < u64::MAX,
    ensures
        ({
            let (post, res) = spec_record_task_outcome(
                pre,
                caller,
                project_id,
                freelancer_id,
                client_id,
                completed,
                now,
            );
            &&& res is Err ==> post == pre
            &&& res is Ok ==> res == Ok::<u64, Errors>((pre.tasks.len() + 1) as u64)
            &&& res is Ok ==> post.tasks.len() == pre.tasks.len() + 1
            &&& res is Ok ==> post.tasks.last().task_id == pre.tasks.len() + 1
            &&& sequential_ids(post.tasks)
        }),
{
    let (post, res) = spec_record_task_outcome(
        pre,
        caller,
        project_id,
        freelancer_id,
        client_id,
        completed,
        now,
    );
    if res is Ok {
        assert(forall|i: int|
            0 <= i < pre.tasks.len() ==> post.tasks[i] == pre.tasks[i]);
        assert(sequential_ids(post.tasks));
    }
}

} // verus!
