//! The task-record ledger: an admin-gated, append-only store of task
//! outcomes keyed by an automatically assigned sequence number, with
//! secondary indices from freelancer and client identifiers to the tasks
//! referencing them.
//!
//! As with the project-publication ledger, every operation is described by a
//! transition function over the ledger's mathematical view ([`TaskLedgerV`]),
//! and the executable methods promise to agree with those transitions.

use crate::errors::Errors;
use crate::index::IndexMap;
use vstd::prelude::*;

verus! {

/// Mathematical image of a [`TaskRecord`].
pub struct TaskRecordV {
    pub task_id: u64,
    pub project_id: Seq<char>,
    pub freelancer_id: Seq<char>,
    pub client_id: Seq<char>,
    pub completed: bool,
    pub timestamp: u64,
}

/// The immutable outcome of one task.  Once stored under its `task_id`, a
/// record is never modified or removed.
#[derive(Debug)]
pub struct TaskRecord {
    /// The ledger-assigned sequence number: `1` for the first task recorded,
    /// then `2`, `3`, and so on, with no gaps or reuse.
    pub task_id: u64,
    /// The project the task belonged to.
    pub project_id: String,
    /// The freelancer who worked the task.
    pub freelancer_id: String,
    /// The client the task was worked for.
    pub client_id: String,
    /// Whether the task completed successfully.
    pub completed: bool,
    /// The ledger time at the moment the record was committed.  Assigned by
    /// the ledger, never by the caller.
    pub timestamp: u64,
}

impl View for TaskRecord {
    type V = TaskRecordV;

    open spec fn view(&self) -> TaskRecordV {
        TaskRecordV {
            task_id: self.task_id,
            project_id: self.project_id@,
            freelancer_id: self.freelancer_id@,
            client_id: self.client_id@,
            completed: self.completed,
            timestamp: self.timestamp,
        }
    }
}

impl Clone for TaskRecord {
    fn clone(&self) -> (r: Self)
        ensures
            r == *self,
    {
        TaskRecord {
            task_id: self.task_id,
            project_id: self.project_id.clone(),
            freelancer_id: self.freelancer_id.clone(),
            client_id: self.client_id.clone(),
            completed: self.completed,
            timestamp: self.timestamp,
        }
    }
}

/// Mathematical view of the ledger: the administrator, if one was set, and
/// every stored task in write order.  The task at position `i` carries
/// sequence number `i + 1`, so the counter is the number of stored tasks.
pub struct TaskLedgerV {
    pub admin: Option<Seq<char>>,
    pub tasks: Seq<TaskRecordV>,
}

/// The views of a sequence of stored tasks.
pub open spec fn task_views(ts: Seq<TaskRecord>) -> Seq<TaskRecordV> {
    ts.map_values(|t: TaskRecord| t@)
}

/// The sequence numbers of a sequence of tasks, in order.
pub open spec fn task_ids(ts: Seq<TaskRecordV>) -> Seq<u64> {
    ts.map_values(|t: TaskRecordV| t.task_id)
}

/// The tasks worked by freelancer `f`, in write order.
pub open spec fn tasks_for_freelancer(tasks: Seq<TaskRecordV>, f: Seq<char>) -> Seq<TaskRecordV>
    decreases tasks.len(),
{
    if tasks.len() == 0 {
        Seq::empty()
    } else if tasks.last().freelancer_id == f {
        tasks_for_freelancer(tasks.drop_last(), f).push(tasks.last())
    } else {
        tasks_for_freelancer(tasks.drop_last(), f)
    }
}

/// The tasks worked for client `c`, in write order.
pub open spec fn tasks_for_client(tasks: Seq<TaskRecordV>, c: Seq<char>) -> Seq<TaskRecordV>
    decreases tasks.len(),
{
    if tasks.len() == 0 {
        Seq::empty()
    } else if tasks.last().client_id == c {
        tasks_for_client(tasks.drop_last(), c).push(tasks.last())
    } else {
        tasks_for_client(tasks.drop_last(), c)
    }
}

/// The task at position `i` carries sequence number `i + 1`.
pub open spec fn sequential_ids(tasks: Seq<TaskRecordV>) -> bool {
    forall|i: int| 0 <= i < tasks.len() ==> tasks[i].task_id == i + 1
}

/// How `initialize` acts on the ledger view: sets the administrator once,
/// and refuses every later attempt.
pub open spec fn spec_task_initialize(pre: TaskLedgerV, admin: Seq<char>) -> (TaskLedgerV, Result<
    (),
    Errors,
>) {
    if pre.admin is Some {
        (pre, Err(Errors::AlreadyInitialized))
    } else {
        (TaskLedgerV { admin: Some(admin), tasks: pre.tasks }, Ok(()))
    }
}

/// How `record_task_outcome` acts on the ledger view: a write before
/// initialization fails with `NotInitialized`, a caller other than the
/// administrator with `Unauthorized`.  On success the next sequence number
/// is assigned and the task is appended with `timestamp = now`.
pub open spec fn spec_record_task_outcome(
    pre: TaskLedgerV,
    caller: Seq<char>,
    project_id: Seq<char>,
    freelancer_id: Seq<char>,
    client_id: Seq<char>,
    completed: bool,
    now: u64,
) -> (TaskLedgerV, Result<u64, Errors>) {
    match pre.admin {
        None => (pre, Err(Errors::NotInitialized)),
        Some(admin) => if caller != admin {
            (pre, Err(Errors::Unauthorized))
        } else {
            let id = (pre.tasks.len() + 1) as u64;
            let task = TaskRecordV {
                task_id: id,
                project_id: project_id,
                freelancer_id: freelancer_id,
                client_id: client_id,
                completed: completed,
                timestamp: now,
            };
            (TaskLedgerV { admin: pre.admin, tasks: pre.tasks.push(task) }, Ok(id))
        },
    }
}

/// Appending a task extends its own freelancer's list by exactly that task
/// and leaves every other freelancer's list unchanged.
pub proof fn lemma_tasks_for_freelancer_push(tasks: Seq<TaskRecordV>, t: TaskRecordV, f: Seq<char>)
    ensures
        t.freelancer_id == f ==> tasks_for_freelancer(tasks.push(t), f) == tasks_for_freelancer(
            tasks,
            f,
        ).push(t),
        t.freelancer_id != f ==> tasks_for_freelancer(tasks.push(t), f) == tasks_for_freelancer(
            tasks,
            f,
        ),
{
    let sp = tasks.push(t);
    assert(sp.drop_last() =~= tasks);
    assert(sp.last() == t);
}

/// Appending a task extends its own client's list by exactly that task and
/// leaves every other client's list unchanged.
pub proof fn lemma_tasks_for_client_push(tasks: Seq<TaskRecordV>, t: TaskRecordV, c: Seq<char>)
    ensures
        t.client_id == c ==> tasks_for_client(tasks.push(t), c) == tasks_for_client(
            tasks,
            c,
        ).push(t),
        t.client_id != c ==> tasks_for_client(tasks.push(t), c) == tasks_for_client(tasks, c),
{
    let sp = tasks.push(t);
    assert(sp.drop_last() =~= tasks);
    assert(sp.last() == t);
}

/// Every element of a freelancer's list is one of the stored tasks, and its
/// freelancer is that party.
pub proof fn lemma_tasks_for_freelancer_membership(tasks: Seq<TaskRecordV>, f: Seq<char>, j: int)
    requires
        0 <= j < tasks_for_freelancer(tasks, f).len(),
    ensures
        tasks_for_freelancer(tasks, f)[j].freelancer_id == f,
        exists|i: int| 0 <= i < tasks.len() && tasks[i] == tasks_for_freelancer(tasks, f)[j],
    decreases tasks.len(),
{
    let part = tasks_for_freelancer(tasks, f);
    let pre = tasks_for_freelancer(tasks.drop_last(), f);
    if j < pre.len() {
        lemma_tasks_for_freelancer_membership(tasks.drop_last(), f, j);
        let i = choose|i: int| 0 <= i < tasks.drop_last().len() && tasks.drop_last()[i] == pre[j];
        assert(tasks[i] == part[j]);
    } else {
        assert(part[j] == tasks.last());
        assert(tasks[tasks.len() - 1] == part[j]);
    }
}

/// Every element of a client's list is one of the stored tasks, and its
/// client is that party.
pub proof fn lemma_tasks_for_client_membership(tasks: Seq<TaskRecordV>, c: Seq<char>, j: int)
    requires
        0 <= j < tasks_for_client(tasks, c).len(),
    ensures
        tasks_for_client(tasks, c)[j].client_id == c,
        exists|i: int| 0 <= i < tasks.len() && tasks[i] == tasks_for_client(tasks, c)[j],
    decreases tasks.len(),
{
    let part = tasks_for_client(tasks, c);
    let pre = tasks_for_client(tasks.drop_last(), c);
    if j < pre.len() {
        lemma_tasks_for_client_membership(tasks.drop_last(), c, j);
        let i = choose|i: int| 0 <= i < tasks.drop_last().len() && tasks.drop_last()[i] == pre[j];
        assert(tasks[i] == part[j]);
    } else {
        assert(part[j] == tasks.last());
        assert(tasks[tasks.len() - 1] == part[j]);
    }
}

/// The task-record ledger.  State is explicit: it is created once with
/// [`TaskRecordContract::new`] and threaded through every call.
pub struct TaskRecordContract {
    admin: Option<String>,
    task_counter: u64,
    tasks: Vec<TaskRecord>,
    freelancer_index: IndexMap<u64>,
    client_index: IndexMap<u64>,
}

impl View for TaskRecordContract {
    type V = TaskLedgerV;

    closed spec fn view(&self) -> TaskLedgerV {
        TaskLedgerV {
            admin: match self.admin {
                Some(a) => Some(a@),
                None => None,
            },
            tasks: task_views(self.tasks@),
        }
    }
}

impl TaskRecordContract {
    /// The ledger's internal consistency: the counter equals the number of
    /// stored tasks, sequence numbers are `1, 2, 3, …` by position, and the
    /// two indices list, for every party, exactly the sequence numbers of
    /// that party's tasks in write order.
    pub closed spec fn wf(&self) -> bool {
        &&& self.task_counter as int == self@.tasks.len()
        &&& sequential_ids(self@.tasks)
        &&& self.freelancer_index.wf()
        &&& self.client_index.wf()
        &&& forall|f: Seq<char>|
            #[trigger] self.freelancer_index.lookup(f) == task_ids(
                tasks_for_freelancer(self@.tasks, f),
            )
        &&& forall|c: Seq<char>|
            #[trigger] self.client_index.lookup(c) == task_ids(tasks_for_client(self@.tasks, c))
    }

    /// An empty, uninitialized ledger with the counter at zero.
    pub fn new() -> (r: Self)
        ensures
            r.wf(),
            r@.admin is None,
            r@.tasks == Seq::<TaskRecordV>::empty(),
    {
        let r = TaskRecordContract {
            admin: None,
            task_counter: 0,
            tasks: Vec::new(),
            freelancer_index: IndexMap::new(),
            client_index: IndexMap::new(),
        };
        proof {
            assert(r@.tasks =~= Seq::<TaskRecordV>::empty());
            assert forall|f: Seq<char>|
                #[trigger] r.freelancer_index.lookup(f) == task_ids(
                    tasks_for_freelancer(r@.tasks, f),
                ) by {
                assert(task_ids(tasks_for_freelancer(r@.tasks, f)) =~= Seq::<u64>::empty());
            }
            assert forall|c: Seq<char>|
                #[trigger] r.client_index.lookup(c) == task_ids(tasks_for_client(r@.tasks, c)) by {
                assert(task_ids(tasks_for_client(r@.tasks, c)) =~= Seq::<u64>::empty());
            }
        }
        r
    }

    /// Whether an administrator has been registered.
    pub fn is_initialized(&self) -> (r: bool)
        ensures
            r == (self@.admin is Some),
    {
        match &self.admin {
            Some(_) => true,
            None => false,
        }
    }

    /// The registered administrator, if any.
    pub fn get_admin(&self) -> (r: Option<String>)
        ensures
            match r {
                Some(a) => self@.admin == Some(a@),
                None => self@.admin is None,
            },
    {
        match &self.admin {
            Some(a) => Some(a.clone()),
            None => None,
        }
    }

    /// The number of tasks recorded so far; also the sequence number of the
    /// most recently recorded task.
    pub fn task_counter(&self) -> (r: u64)
        requires
            self.wf(),
        ensures
            r as int == self@.tasks.len(),
    {
        self.task_counter
    }

    /// Register `admin` as the administrator.  Succeeds exactly once: every
    /// call after the first fails with `AlreadyInitialized` and changes
    /// nothing.  The caller must already have proven control of `admin` at
    /// the host boundary.
    pub fn initialize(&mut self, admin: &String) -> (r: Result<(), Errors>)
        requires
            old(self).wf(),
        ensures
            final(self).wf(),
            ({
                let (post, res) = spec_task_initialize(old(self)@, admin@);
                final(self)@ == post && r == res
            }),
    {
        match &self.admin {
            Some(_) => Err(Errors::AlreadyInitialized),
            None => {
                self.admin = Some(admin.clone());
                Ok(())
            },
        }
    }

    /// Record the outcome of a task.  Requires an initialized ledger and a
    /// caller equal to the administrator; then assigns the next sequence
    /// number, stores the task with `timestamp = now`, indexes it under its
    /// freelancer and its client, and returns the assigned number.  Any
    /// failure leaves the ledger unchanged.
    pub fn record_task_outcome(
        &mut self,
        caller: &String,
        project_id: &String,
        freelancer_id: &String,
        client_id: &String,
        completed: bool,
        now: u64,
    ) -> (r: Result<u64, Errors>)
        requires
            old(self).wf(),
            old(self)@.tasks.len() < u64::MAX,
        ensures
            final(self).wf(),
            ({
                let (post, res) = spec_record_task_outcome(
                    old(self)@,
                    caller@,
                    project_id@,
                    freelancer_id@,
                    client_id@,
                    completed,
                    now,
                );
                final(self)@ == post && r == res
            }),
    {
        let authorized = match &self.admin {
            None => {
                return Err(Errors::NotInitialized);
            },
            Some(admin) => *caller == *admin,
        };
        if !authorized {
            return Err(Errors::Unauthorized);
        }
        let ghost tasks0 = old(self)@.tasks;
        let id = self.task_counter + 1;
        self.task_counter = id;
        let record = TaskRecord {
            task_id: id,
            project_id: project_id.clone(),
            freelancer_id: freelancer_id.clone(),
            client_id: client_id.clone(),
            completed: completed,
            timestamp: now,
        };
        let ghost tv = record@;
        self.tasks.push(record);
        self.freelancer_index.append(freelancer_id, id);
        self.client_index.append(client_id, id);
        proof {
            assert(self@.tasks =~= tasks0.push(tv));
            assert(sequential_ids(self@.tasks));
            assert forall|f: Seq<char>|
                #[trigger] self.freelancer_index.lookup(f) == task_ids(
                    tasks_for_freelancer(self@.tasks, f),
                ) by {
                lemma_tasks_for_freelancer_push(tasks0, tv, f);
                if f == freelancer_id@ {
                    assert(task_ids(tasks_for_freelancer(self@.tasks, f)) =~= task_ids(
                        tasks_for_freelancer(tasks0, f),
                    ).push(id));
                }
            }
            assert forall|c: Seq<char>|
                #[trigger] self.client_index.lookup(c) == task_ids(
                    tasks_for_client(self@.tasks, c),
                ) by {
                lemma_tasks_for_client_push(tasks0, tv, c);
                if c == client_id@ {
                    assert(task_ids(tasks_for_client(self@.tasks, c)) =~= task_ids(
                        tasks_for_client(tasks0, c),
                    ).push(id));
                }
            }
        }
        Ok(id)
    }

    /// Copies of every task worked by `freelancer_id`, in write order: the
    /// index list resolved through the task store.  Reads need no
    /// authorization.
    #[verifier::loop_isolation(false)]
    pub fn get_tasks_for_freelancer(&self, freelancer_id: &String) -> (r: Vec<TaskRecord>)
        requires
            self.wf(),
        ensures
            task_views(r@) == tasks_for_freelancer(self@.tasks, freelancer_id@),
    {
        let ghost filtered = tasks_for_freelancer(self@.tasks, freelancer_id@);
        let mut out: Vec<TaskRecord> = Vec::new();
        match self.freelancer_index.get(freelancer_id) {
            None => {
                proof {
                    assert(task_ids(filtered).len() == 0);
                    assert(task_views(out@) =~= filtered);
                }
            },
            Some(ids) => {
                let n = ids.len();
                proof {
                    assert(ids@.len() == task_ids(filtered).len());
                }
                let mut j: usize = 0;
                while j < n
                    invariant
                        j <= n,
                        n == ids@.len(),
                        n == filtered.len(),
                        task_views(out@) =~= filtered.subrange(0, j as int),
                    decreases n - j,
                {
                    let id = ids[j];
                    proof {
                        assert(task_ids(filtered)[j as int] == filtered[j as int].task_id);
                        lemma_tasks_for_freelancer_membership(
                            self@.tasks,
                            freelancer_id@,
                            j as int,
                        );
                        let i = choose|i: int|
                            0 <= i < self@.tasks.len() && self@.tasks[i] == filtered[j as int];
                        assert(self@.tasks[i].task_id == i + 1);
                        assert(self@.tasks[id - 1] == filtered[j as int]);
                    }
                    if id >= 1 && (id - 1) < self.tasks.len() as u64 {
                        let task = &self.tasks[(id - 1) as usize];
                        out.push(task.clone());
                        proof {
                            assert(task_views(out@) =~= filtered.subrange(0, j as int + 1));
                        }
                    } else {
                        proof {
                            assert(false);
                        }
                    }
                    j += 1;
                }
                proof {
                    assert(filtered.subrange(0, n as int) =~= filtered);
                }
            },
        }
        out
    }

    /// Copies of every task worked for `client_id`, in write order: the
    /// index list resolved through the task store.  Reads need no
    /// authorization.
    #[verifier::loop_isolation(false)]
    pub fn get_tasks_for_client(&self, client_id: &String) -> (r: Vec<TaskRecord>)
        requires
            self.wf(),
        ensures
            task_views(r@) == tasks_for_client(self@.tasks, client_id@),
    {
        let ghost filtered = tasks_for_client(self@.tasks, client_id@);
        let mut out: Vec<TaskRecord> = Vec::new();
        match self.client_index.get(client_id) {
            None => {
                proof {
                    assert(task_ids(filtered).len() == 0);
                    assert(task_views(out@) =~= filtered);
                }
            },
            Some(ids) => {
                let n = ids.len();
                proof {
                    assert(ids@.len() == task_ids(filtered).len());
                }
                let mut j: usize = 0;
                while j < n
                    invariant
                        j <= n,
                        n == ids@.len(),
                        n == filtered.len(),
                        task_views(out@) =~= filtered.subrange(0, j as int),
                    decreases n - j,
                {
                    let id = ids[j];
                    proof {
                        assert(task_ids(filtered)[j as int] == filtered[j as int].task_id);
                        lemma_tasks_for_client_membership(self@.tasks, client_id@, j as int);
                        let i = choose|i: int|
                            0 <= i < self@.tasks.len() && self@.tasks[i] == filtered[j as int];
                        assert(self@.tasks[i].task_id == i + 1);
                        assert(self@.tasks[id - 1] == filtered[j as int]);
                    }
                    if id >= 1 && (id - 1) < self.tasks.len() as u64 {
                        let task = &self.tasks[(id - 1) as usize];
                        out.push(task.clone());
                        proof {
                            assert(task_views(out@) =~= filtered.subrange(0, j as int + 1));
                        }
                    } else {
                        proof {
                            assert(false);
                        }
                    }
                    j += 1;
                }
                proof {
                    assert(filtered.subrange(0, n as int) =~= filtered);
                }
            },
        }
        out
    }
}

} // verus!
