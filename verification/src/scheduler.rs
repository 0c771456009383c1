//! The registry of scheduled tasks: scheduling, pausing, resuming,
//! rescheduling and aborting tasks, and the decision that each run of a
//! task's worker takes.
use vstd::prelude::*;

use std::collections::HashMap;

use vstd::std_specs::hash::spec_hash_map_iter;
use vstd::std_specs::iter::IteratorSpec;

use crate::error::PulsyncError;
use crate::recurrence::Recurrence;
use crate::task::{spec_task_id, task_id, Task, TaskDetails, TaskId, TaskStatus};
use crate::text::{decimal, push_decimal, push_text};
use crate::time::{utc_date_text, Timestamp};

verus! {

broadcast use vstd::std_specs::hash::group_hash_axioms;

/// Which kind of worker runs the tasks of a scheduler: a thread that calls
/// the task, or an asynchronous runtime that awaits it.
#[derive(Debug, Clone, Copy, PartialEq, Eq, Structural)]
pub enum TaskKind {
    Sync,
    Async,
}

/// A scheduled task, as the scheduler holds it.
#[derive(Debug)]
pub struct TaskRecord {
    pub id: TaskId,
    pub created_at: Timestamp,
    pub status: TaskStatus,
    pub title: String,
    pub recurrence: Recurrence,
}

/// The name of a kind of task, as labels show it.
pub open spec fn kind_name(k: TaskKind) -> Seq<char> {
    match k {
        TaskKind::Sync => "SyncTask"@,
        TaskKind::Async => "AsyncTask"@,
    }
}

/// The label of a task: `[SyncTask(id)] title started at YYYY-MM-DD`.
pub open spec fn label_text(k: TaskKind, rec: TaskRecord) -> Seq<char> {
    "["@ + kind_name(k) + "("@ + decimal(rec.id as nat) + ")] "@ + rec.title@ + " started at "@
        + utc_date_text(rec.created_at.spec_secs())
}

/// The details tell of the record, with the label of its kind.
pub open spec fn details_of(d: TaskDetails, k: TaskKind, rec: TaskRecord) -> bool {
    &&& d.id == rec.id
    &&& d.label@ == label_text(k, rec)
    &&& d.recurrence == rec.recurrence
    &&& d.status == rec.status
    &&& d.created_at == rec.created_at
}

impl TaskRecord {
    /// The label of the task, run by the given kind of worker.
    pub fn label(&self, kind: TaskKind) -> (s: String)
        ensures
            s@ == label_text(kind, *self),
    {
        let mut s = String::new();
        push_text(&mut s, "[");
        match kind {
            TaskKind::Sync => push_text(&mut s, "SyncTask"),
            TaskKind::Async => push_text(&mut s, "AsyncTask"),
        }
        push_text(&mut s, "(");
        push_decimal(&mut s, self.id);
        push_text(&mut s, ")] ");
        push_text(&mut s, self.title.as_str());
        push_text(&mut s, " started at ");
        let date = self.created_at.date_text();
        push_text(&mut s, date.as_str());
        assert(s@ =~= label_text(kind, *self));
        s
    }

    /// What the scheduler tells of the task.
    pub fn details(&self, kind: TaskKind) -> (d: TaskDetails)
        ensures
            details_of(d, kind, *self),
    {
        TaskDetails {
            id: self.id,
            label: self.label(kind),
            recurrence: self.recurrence,
            status: self.status,
            created_at: self.created_at,
        }
    }
}

/// What a task's worker does after a tick.
#[derive(Debug, Clone, Copy, PartialEq, Eq, Structural)]
pub enum TickAction {
    /// Run the task, then wait one unit.
    Run,
    /// The task is paused: do not run it, but wait one unit.
    Skip,
    /// The task is done or aborted: its record is gone; the worker ends.
    Stop,
}

/// The registry of scheduled tasks, by identifier.
pub struct Scheduler {
    tasks: HashMap<TaskId, TaskRecord>,
    kind: TaskKind,
}

/// Every record is filed under its own identifier, and no record in the
/// registry is cancelled.
pub open spec fn registry_wf(m: Map<TaskId, TaskRecord>) -> bool {
    forall|k: TaskId| #[trigger]
        m.contains_key(k) ==> m[k].id == k && m[k].status != TaskStatus::Abort
}

/// The record of a task just scheduled.
pub open spec fn new_record(
    id: TaskId,
    title: String,
    recurrence: Recurrence,
    created_at: Timestamp,
) -> TaskRecord {
    TaskRecord { id, created_at, status: TaskStatus::Running, title, recurrence }
}

/// Scheduling the task `id`: refused where a task with that identifier is
/// scheduled already.
pub open spec fn spec_schedule(
    m: Map<TaskId, TaskRecord>,
    id: TaskId,
    title: String,
    recurrence: Recurrence,
    created_at: Timestamp,
) -> Result<Map<TaskId, TaskRecord>, PulsyncError> {
    if m.contains_key(id) {
        Err(PulsyncError::AlreadyScheduled(id))
    } else {
        Ok(m.insert(id, new_record(id, title, recurrence, created_at)))
    }
}

/// Replacing the recurrence of the task `id`.
pub open spec fn spec_reschedule(
    m: Map<TaskId, TaskRecord>,
    id: TaskId,
    recurrence: Recurrence,
) -> Result<Map<TaskId, TaskRecord>, PulsyncError> {
    if !m.contains_key(id) {
        Err(PulsyncError::TaskNotFound("reschedule", id))
    } else {
        Ok(m.insert(id, TaskRecord { recurrence, ..m[id] }))
    }
}

/// Pausing the task `id`.
pub open spec fn spec_pause(m: Map<TaskId, TaskRecord>, id: TaskId) -> Result<
    Map<TaskId, TaskRecord>,
    PulsyncError,
> {
    if !m.contains_key(id) {
        Err(PulsyncError::TaskNotFound("pause", id))
    } else if m[id].status == TaskStatus::Paused {
        Err(PulsyncError::AlreadyPaused(id))
    } else {
        Ok(m.insert(id, TaskRecord { status: TaskStatus::Paused, ..m[id] }))
    }
}

/// Resuming the task `id`.
pub open spec fn spec_resume(m: Map<TaskId, TaskRecord>, id: TaskId) -> Result<
    Map<TaskId, TaskRecord>,
    PulsyncError,
> {
    if !m.contains_key(id) {
        Err(PulsyncError::TaskNotFound("resume", id))
    } else if m[id].status == TaskStatus::Running {
        Err(PulsyncError::AlreadyResumed(id))
    } else {
        Ok(m.insert(id, TaskRecord { status: TaskStatus::Running, ..m[id] }))
    }
}

/// Aborting the task `id`: its record leaves the registry.
pub open spec fn spec_abort(m: Map<TaskId, TaskRecord>, id: TaskId) -> Result<
    Map<TaskId, TaskRecord>,
    PulsyncError,
> {
    if !m.contains_key(id) {
        Err(PulsyncError::TaskNotFound("abort", id))
    } else {
        Ok(m.remove(id))
    }
}

/// The registry after an operation whose outcome is `r`: the new registry
/// where it succeeded, the old one where it was refused.
pub open spec fn after(m: Map<TaskId, TaskRecord>, r: Result<Map<TaskId, TaskRecord>, PulsyncError>) -> Map<
    TaskId,
    TaskRecord,
> {
    match r {
        Ok(m2) => m2,
        Err(_) => m,
    }
}

/// The task has run for its span: the whole seconds since it was created
/// reach its limit. A clock that reads earlier than the task's creation has
/// not run the span out.
pub open spec fn limit_reached(rec: TaskRecord, now: Timestamp) -> bool {
    match rec.recurrence.limit {
        Some(l) => now.seconds_since(rec.created_at) >= 0 && now.seconds_since(rec.created_at)
            >= l@,
        None => false,
    }
}

/// The task's last instant has come.
pub open spec fn deadline_reached(rec: TaskRecord, now: Timestamp) -> bool {
    match rec.recurrence.limit_datetime {
        Some(d) => d.at_or_before(now),
        None => false,
    }
}

/// The task has no run left.
pub open spec fn runs_exhausted(rec: TaskRecord) -> bool {
    rec.recurrence.count == Some(0u64)
}

/// Whether the worker of the task stops at this tick.
pub open spec fn tick_stops(rec: TaskRecord, now: Timestamp) -> bool {
    limit_reached(rec, now) || deadline_reached(rec, now) || runs_exhausted(rec)
}

/// The record after a tick that goes on: one run fewer where runs are counted.
pub open spec fn ticked(rec: TaskRecord) -> TaskRecord {
    TaskRecord {
        recurrence: Recurrence {
            count: match rec.recurrence.count {
                Some(c) => Some((c - 1) as u64),
                None => None,
            },
            ..rec.recurrence
        },
        ..rec
    }
}

/// One tick of the worker of task `id` at the instant `now`: the registry
/// after it, and what the worker does.
pub open spec fn spec_tick(m: Map<TaskId, TaskRecord>, id: TaskId, now: Timestamp) -> (Map<
    TaskId,
    TaskRecord,
>, TickAction) {
    if !m.contains_key(id) {
        (m, TickAction::Stop)
    } else if tick_stops(m[id], now) {
        (m.remove(id), TickAction::Stop)
    } else {
        (
            m.insert(id, ticked(m[id])),
            if m[id].status == TaskStatus::Running {
                TickAction::Run
            } else {
                TickAction::Skip
            },
        )
    }
}

/// A task to schedule again: its identifier, its title and its recurrence.
pub type TaskEntry = (TaskId, String, Recurrence);

/// The identifier of the task that an entry describes.
pub open spec fn entry_id(e: TaskEntry) -> TaskId {
    e.0
}

/// The registry after scheduling the entries in turn, from an empty one.
pub open spec fn restart_map(entries: Seq<TaskEntry>, created_at: Timestamp) -> Map<
    TaskId,
    TaskRecord,
>
    decreases entries.len(),
{
    if entries.len() == 0 {
        Map::empty()
    } else {
        let prev = restart_map(entries.drop_last(), created_at);
        let e = entries.last();
        after(prev, spec_schedule(prev, entry_id(e), e.1, e.2, created_at))
    }
}

/// What scheduling the entries in turn gives for each: the identifier, or
/// nothing where a task with that identifier was scheduled already.
pub open spec fn restart_ids(entries: Seq<TaskEntry>, created_at: Timestamp) -> Seq<
    Option<TaskId>,
>
    decreases entries.len(),
{
    if entries.len() == 0 {
        Seq::empty()
    } else {
        let prev = restart_map(entries.drop_last(), created_at);
        let e = entries.last();
        restart_ids(entries.drop_last(), created_at).push(
            if prev.contains_key(entry_id(e)) {
                None
            } else {
                Some(entry_id(e))
            },
        )
    }
}

/// Scheduling the task `id` with the title took the registry from `before`
/// to `after_op` and answered `r`.
pub open spec fn scheduled_as(
    before: Map<TaskId, TaskRecord>,
    after_op: Map<TaskId, TaskRecord>,
    r: Result<TaskId, PulsyncError>,
    id: TaskId,
    title: String,
    recurrence: Recurrence,
    created_at: Timestamp,
) -> bool {
    let outcome = spec_schedule(before, id, title, recurrence, created_at);
    &&& after_op == after(before, outcome)
    &&& r == match outcome {
        Ok(_) => Ok::<TaskId, PulsyncError>(id),
        Err(e) => Err(e),
    }
}

impl View for Scheduler {
    type V = Map<TaskId, TaskRecord>;

    closed spec fn view(&self) -> Map<TaskId, TaskRecord> {
        self.tasks@
    }
}

impl Scheduler {
    #[verifier::type_invariant]
    closed spec fn wf(self) -> bool {
        registry_wf(self.tasks@)
    }

    /// The kind of worker that runs the scheduler's tasks.
    pub closed spec fn spec_kind(&self) -> TaskKind {
        self.kind
    }

    /// An empty scheduler whose tasks run on threads.
    pub fn build() -> (s: Scheduler)
        ensures
            s@ == Map::<TaskId, TaskRecord>::empty(),
            s.spec_kind() == TaskKind::Sync,
            registry_wf(s@),
    {
        Scheduler::build_with(TaskKind::Sync)
    }

    /// An empty scheduler whose tasks run on the given kind of worker.
    pub fn build_with(kind: TaskKind) -> (s: Scheduler)
        ensures
            s@ == Map::<TaskId, TaskRecord>::empty(),
            s.spec_kind() == kind,
            registry_wf(s@),
    {
        let s = Scheduler { tasks: HashMap::new(), kind };
        assert(s@ =~= Map::<TaskId, TaskRecord>::empty());
        s
    }

    /// The kind of worker that runs the scheduler's tasks.
    pub fn kind(&self) -> (k: TaskKind)
        ensures
            k == self.spec_kind(),
    {
        self.kind
    }

    /// The number of scheduled tasks.
    pub fn len(&self) -> (n: usize)
        ensures
            n == self@.len(),
            registry_wf(self@),
    {
        proof {
            use_type_invariant(self);
        }
        self.tasks.len()
    }

    /// Whether a task with the identifier is scheduled.
    pub fn contains(&self, id: TaskId) -> (b: bool)
        ensures
            b == self@.contains_key(id),
            registry_wf(self@),
    {
        proof {
            use_type_invariant(self);
        }
        self.tasks.contains_key(&id)
    }

    /// The status of the task, where it is scheduled.
    pub fn status(&self, id: TaskId) -> (r: Option<TaskStatus>)
        ensures
            r == (if self@.contains_key(id) {
                Some(self@[id].status)
            } else {
                None
            }),
            r != Some(TaskStatus::Abort),
            registry_wf(self@),
    {
        proof {
            use_type_invariant(self);
        }
        match self.tasks.get(&id) {
            Some(rec) => Some(rec.status),
            None => None,
        }
    }

    /// The task's recurrence as it stands now, its count of runs left
    /// included, where the task is scheduled.
    pub fn recurrence(&self, id: TaskId) -> (r: Option<Recurrence>)
        ensures
            r == (if self@.contains_key(id) {
                Some(self@[id].recurrence)
            } else {
                None
            }),
    {
        match self.tasks.get(&id) {
            Some(rec) => Some(rec.recurrence),
            None => None,
        }
    }

    /// The span between runs of the task, in seconds, where it is scheduled.
    pub fn interval(&self, id: TaskId) -> (r: Option<u64>)
        ensures
            r == (if self@.contains_key(id) {
                Some(self@[id].recurrence.unit@)
            } else {
                None
            }),
    {
        match self.tasks.get(&id) {
            Some(rec) => Some(rec.recurrence.unit.as_secs()),
            None => None,
        }
    }

    /// How long the worker of a task waits before its first tick: one unit
    /// where the recurrence runs after the first unit, else nothing.
    pub fn first_delay(&self, id: TaskId) -> (r: Option<u64>)
        ensures
            r == (if self@.contains_key(id) {
                Some(
                    if self@[id].recurrence.run_after {
                        self@[id].recurrence.unit@
                    } else {
                        0u64
                    },
                )
            } else {
                None
            }),
    {
        match self.tasks.get(&id) {
            Some(rec) => Some(
                if rec.recurrence.run_after {
                    rec.recurrence.unit.as_secs()
                } else {
                    0u64
                },
            ),
            None => None,
        }
    }

    /// Schedules the task `id` with its title and recurrence, created at
    /// `created_at`; the task starts running. Refused where a task with that
    /// identifier is scheduled already.
    pub fn schedule_with_id(
        &mut self,
        id: TaskId,
        title: String,
        recurrence: Recurrence,
        created_at: Timestamp,
    ) -> (r: Result<TaskId, PulsyncError>)
        ensures
            final(self).spec_kind() == old(self).spec_kind(),
            registry_wf(final(self)@),
            scheduled_as(old(self)@, final(self)@, r, id, title, recurrence, created_at),
    {
        proof {
            use_type_invariant(&*self);
        }
        let mut tasks: HashMap<TaskId, TaskRecord> = HashMap::new();
        core::mem::swap(&mut tasks, &mut self.tasks);
        if tasks.contains_key(&id) {
            self.tasks = tasks;
            return Err(PulsyncError::AlreadyScheduled(id));
        }
        tasks.insert(id, TaskRecord {
            id,
            created_at,
            status: TaskStatus::Running,
            title,
            recurrence,
        });
        self.tasks = tasks;
        Ok(id)
    }

    /// Schedules a task of the named type whose salt, title and recurrence
    /// are given, created at `created_at`. Its identifier is derived from the
    /// type name, the recurrence and the salt; the task starts running.
    /// Refused where a task with that identifier is scheduled already.
    pub fn schedule(
        &mut self,
        type_key: &str,
        salt: &str,
        title: String,
        recurrence: Recurrence,
        created_at: Timestamp,
    ) -> (r: Result<TaskId, PulsyncError>)
        ensures
            final(self).spec_kind() == old(self).spec_kind(),
            registry_wf(final(self)@),
            scheduled_as(
                old(self)@,
                final(self)@,
                r,
                spec_task_id(type_key@, recurrence, salt@),
                title,
                recurrence,
                created_at,
            ),
    {
        let id = task_id(type_key, &recurrence, salt);
        self.schedule_with_id(id, title, recurrence, created_at)
    }

    /// Replaces the recurrence of the task; its status and creation instant
    /// stay. Refused where the task is not scheduled.
    pub fn reschedule(&mut self, id: TaskId, recurrence: Recurrence) -> (r: Result<
        TaskId,
        PulsyncError,
    >)
        ensures
            final(self).spec_kind() == old(self).spec_kind(),
            registry_wf(final(self)@),
            ({
                let outcome = spec_reschedule(old(self)@, id, recurrence);
                &&& final(self)@ == after(old(self)@, outcome)
                &&& r == match outcome {
                    Ok(_) => Ok::<TaskId, PulsyncError>(id),
                    Err(e) => Err(e),
                }
            }),
    {
        proof {
            use_type_invariant(&*self);
        }
        let mut tasks: HashMap<TaskId, TaskRecord> = HashMap::new();
        core::mem::swap(&mut tasks, &mut self.tasks);
        match tasks.remove(&id) {
            None => {
                self.tasks = tasks;
                Err(PulsyncError::TaskNotFound("reschedule", id))
            },
            Some(rec) => {
                let updated = TaskRecord { recurrence, ..rec };
                tasks.insert(id, updated);
                proof {
                    assert(tasks@ =~= old(self)@.insert(id, TaskRecord { recurrence, ..old(self)@[id] }));
                }
                self.tasks = tasks;
                Ok(id)
            },
        }
    }

    /// Pauses the task: its worker skips its runs until it is resumed.
    /// Refused where the task is not scheduled or is paused already.
    pub fn pause(&mut self, id: TaskId) -> (r: Result<(), PulsyncError>)
        ensures
            final(self).spec_kind() == old(self).spec_kind(),
            registry_wf(final(self)@),
            ({
                let outcome = spec_pause(old(self)@, id);
                &&& final(self)@ == after(old(self)@, outcome)
                &&& r == match outcome {
                    Ok(_) => Ok::<(), PulsyncError>(()),
                    Err(e) => Err(e),
                }
            }),
    {
        proof {
            use_type_invariant(&*self);
        }
        let mut tasks: HashMap<TaskId, TaskRecord> = HashMap::new();
        core::mem::swap(&mut tasks, &mut self.tasks);
        match tasks.remove(&id) {
            None => {
                self.tasks = tasks;
                Err(PulsyncError::TaskNotFound("pause", id))
            },
            Some(rec) => {
                if rec.status == TaskStatus::Paused {
                    tasks.insert(id, rec);
                    proof {
                        assert(tasks@ =~= old(self)@);
                    }
                    self.tasks = tasks;
                    Err(PulsyncError::AlreadyPaused(id))
                } else {
                    let updated = TaskRecord { status: TaskStatus::Paused, ..rec };
                    tasks.insert(id, updated);
                    proof {
                        assert(tasks@ =~= old(self)@.insert(
                            id,
                            TaskRecord { status: TaskStatus::Paused, ..old(self)@[id] },
                        ));
                    }
                    self.tasks = tasks;
                    Ok(())
                }
            },
        }
    }

    /// Resumes the task: its worker runs it again. Refused where the task is
    /// not scheduled or is running already.
    pub fn resume(&mut self, id: TaskId) -> (r: Result<(), PulsyncError>)
        ensures
            final(self).spec_kind() == old(self).spec_kind(),
            registry_wf(final(self)@),
            ({
                let outcome = spec_resume(old(self)@, id);
                &&& final(self)@ == after(old(self)@, outcome)
                &&& r == match outcome {
                    Ok(_) => Ok::<(), PulsyncError>(()),
                    Err(e) => Err(e),
                }
            }),
    {
        proof {
            use_type_invariant(&*self);
        }
        let mut tasks: HashMap<TaskId, TaskRecord> = HashMap::new();
        core::mem::swap(&mut tasks, &mut self.tasks);
        match tasks.remove(&id) {
            None => {
                self.tasks = tasks;
                Err(PulsyncError::TaskNotFound("resume", id))
            },
            Some(rec) => {
                if rec.status == TaskStatus::Running {
                    tasks.insert(id, rec);
                    proof {
                        assert(tasks@ =~= old(self)@);
                    }
                    self.tasks = tasks;
                    Err(PulsyncError::AlreadyResumed(id))
                } else {
                    let updated = TaskRecord { status: TaskStatus::Running, ..rec };
                    tasks.insert(id, updated);
                    proof {
                        assert(tasks@ =~= old(self)@.insert(
                            id,
                            TaskRecord { status: TaskStatus::Running, ..old(self)@[id] },
                        ));
                    }
                    self.tasks = tasks;
                    Ok(())
                }
            },
        }
    }

    /// Aborts the task: its record leaves the registry, and its worker stops
    /// at its next tick. Refused where the task is not scheduled.
    pub fn abort(&mut self, id: TaskId) -> (r: Result<(), PulsyncError>)
        ensures
            final(self).spec_kind() == old(self).spec_kind(),
            registry_wf(final(self)@),
            ({
                let outcome = spec_abort(old(self)@, id);
                &&& final(self)@ == after(old(self)@, outcome)
                &&& r == match outcome {
                    Ok(_) => Ok::<(), PulsyncError>(()),
                    Err(e) => Err(e),
                }
            }),
    {
        proof {
            use_type_invariant(&*self);
        }
        let mut tasks: HashMap<TaskId, TaskRecord> = HashMap::new();
        core::mem::swap(&mut tasks, &mut self.tasks);
        match tasks.remove(&id) {
            None => {
                self.tasks = tasks;
                Err(PulsyncError::TaskNotFound("abort", id))
            },
            Some(_rec) => {
                self.tasks = tasks;
                Ok(())
            },
        }
    }

    /// One tick of the worker of task `id` at the instant `now`: stops the
    /// task (its record leaves the registry) where its span has run out, its
    /// last instant has come or it has no run left; else takes one run from
    /// its count, and says whether to run it (it is running) or skip it (it
    /// is paused). A task that is not scheduled stops.
    pub fn tick(&mut self, id: TaskId, now: Timestamp) -> (a: TickAction)
        ensures
            final(self).spec_kind() == old(self).spec_kind(),
            registry_wf(final(self)@),
            (final(self)@, a) == spec_tick(old(self)@, id, now),
    {
        proof {
            use_type_invariant(&*self);
        }
        let mut tasks: HashMap<TaskId, TaskRecord> = HashMap::new();
        core::mem::swap(&mut tasks, &mut self.tasks);
        match tasks.remove(&id) {
            None => {
                self.tasks = tasks;
                TickAction::Stop
            },
            Some(rec) => {
                let r = rec.recurrence;
                let expired = match r.limit {
                    Some(l) => {
                        let e = now.whole_seconds_since(&rec.created_at);
                        e >= 0 && (e as u64) >= l.as_secs()
                    },
                    None => false,
                };
                let past = match r.limit_datetime {
                    Some(d) => d.is_at_or_before(&now),
                    None => false,
                };
                let exhausted = match r.count {
                    Some(c) => c == 0,
                    None => false,
                };
                if expired || past || exhausted {
                    self.tasks = tasks;
                    TickAction::Stop
                } else {
                    let count = match r.count {
                        Some(c) => Some(c - 1),
                        None => None,
                    };
                    let action = if rec.status == TaskStatus::Running {
                        TickAction::Run
                    } else {
                        TickAction::Skip
                    };
                    let updated = TaskRecord { recurrence: Recurrence { count, ..r }, ..rec };
                    tasks.insert(id, updated);
                    proof {
                        assert(tasks@ =~= old(self)@.insert(id, ticked(old(self)@[id])));
                    }
                    self.tasks = tasks;
                    action
                }
            },
        }
    }
    /// What the scheduler tells of each of its tasks, one entry per task, in
    /// no stated order.
    pub fn get(&self) -> (r: Vec<TaskDetails>)
        ensures
            r.len() == self@.len(),
            forall|i: int|
                0 <= i < r.len() ==> self@.contains_key(#[trigger] r@[i].id) && details_of(
                    r@[i],
                    self.spec_kind(),
                    self@[r@[i].id],
                ),
            forall|i: int, j: int| 0 <= i < j < r.len() ==> r@[i].id != r@[j].id,
            forall|k: TaskId| self@.contains_key(k) ==> exists|i: int| 0 <= i < r.len() && #[trigger] r@[i].id == k,
            registry_wf(self@),
    {
        proof {
            use_type_invariant(self);
        }
        let mut out: Vec<TaskDetails> = Vec::new();
        let ghost m = self@;
        let kind = self.kind;
        for entry in it: self.tasks.iter()
            invariant
                m == self.tasks@,
                registry_wf(m),
                kind == self.spec_kind(),
                out.len() == it.index(),
                it.seq() == spec_hash_map_iter(&self.tasks).remaining(),
                forall|i: int|
                    0 <= i < it.index() ==> #[trigger] out@[i].id == *it.seq()[i].0 && details_of(
                        out@[i],
                        kind,
                        m[*it.seq()[i].0],
                    ),
        {
            let (k, rec) = entry;
            let ghost i0 = out.len() as int;
            proof {
                assert(m.contains_key(*k) && m[*k] == *rec);
                assert(entry == it.seq()[i0]);
            }
            out.push(rec.details(kind));
        }
        proof {
            let v = spec_hash_map_iter(&self.tasks).remaining();
            assert(v.no_duplicates());
            assert forall|k: TaskId| m.contains_key(k) implies exists|i: int|
                0 <= i < out.len() && #[trigger] out@[i].id == k by {
                assert(v.contains((&k, &m[k])));
                let i = choose|i: int| 0 <= i < v.len() && v[i] == (&k, &m[k]);
                assert(out@[i].id == k);
            }
        }
        out
    }
    /// A scheduler of the given kind that holds the entries' tasks, all
    /// created at `created_at`, scheduled in turn; beside it, for each entry,
    /// the task's identifier, or nothing where an earlier entry had taken it.
    pub fn restart(kind: TaskKind, entries: Vec<TaskEntry>, created_at: Timestamp) -> (r: (
        Scheduler,
        Vec<Option<TaskId>>,
    ))
        ensures
            r.0.spec_kind() == kind,
            registry_wf(r.0@),
            r.0@ == restart_map(entries@, created_at),
            r.1@ == restart_ids(entries@, created_at),
    {
        let mut scheduler = Scheduler::build_with(kind);
        let mut ids: Vec<Option<TaskId>> = Vec::new();
        let mut i: usize = 0;
        while i < entries.len()
            invariant
                i <= entries.len(),
                scheduler.spec_kind() == kind,
                registry_wf(scheduler@),
                scheduler@ == restart_map(entries@.subrange(0, i as int), created_at),
                ids@ == restart_ids(entries@.subrange(0, i as int), created_at),
            decreases entries.len() - i,
        {
            let entry = &entries[i];
            let title = entry.1.clone();
            let ghost prev = scheduler@;
            let outcome = scheduler.schedule_with_id(entry.0, title, entry.2, created_at);
            match outcome {
                Ok(id) => ids.push(Some(id)),
                Err(_) => ids.push(None),
            }
            proof {
                let next = entries@.subrange(0, i + 1);
                assert(next.drop_last() =~= entries@.subrange(0, i as int));
                assert(next.last() == entries@[i as int]);
            }
            i = i + 1;
        }
        assert(entries@.subrange(0, entries.len() as int) =~= entries@);
        (scheduler, ids)
    }
    /// Schedules the task itself: its identifier is the one its
    /// `unique_id` gives for the recurrence, and its title the one its
    /// `title` gives; the rest is as `schedule_with_id` says.
    pub fn schedule_task<T: Task + ?Sized>(
        &mut self,
        task: &T,
        recurrence: Recurrence,
        created_at: Timestamp,
    ) -> (r: Result<TaskId, PulsyncError>)
        ensures
            final(self).spec_kind() == old(self).spec_kind(),
            registry_wf(final(self)@),
            exists|id: TaskId, title: String|
                call_ensures(T::unique_id, (task, recurrence), id) && call_ensures(
                    T::title,
                    (task,),
                    title,
                ) && #[trigger] scheduled_as(
                    old(self)@,
                    final(self)@,
                    r,
                    id,
                    title,
                    recurrence,
                    created_at,
                ),
    {
        let id = task.unique_id(recurrence);
        let title = task.title();
        let ghost t = title;
        let ghost before = self@;
        let r = self.schedule_with_id(id, title, recurrence, created_at);
        assert(scheduled_as(before, self@, r, id, t, recurrence, created_at));
        r
    }
}

} // verus!
