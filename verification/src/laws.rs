//! What holds of the scheduler's operations taken together.
use vstd::prelude::*;

use crate::scheduler::{
    after, kind_name, label_text, registry_wf, tick_stops, ticked, TaskKind, spec_abort, spec_pause, spec_reschedule, spec_resume, spec_schedule, spec_tick,
    TaskRecord, TickAction,
};
use crate::task::{TaskId, TaskStatus};
use crate::recurrence::Recurrence;
use crate::text::decimal;
use crate::time::{utc_date_text, Timestamp};
use crate::error::PulsyncError;

verus! {

/// Pausing a running task, then resuming it, gives back the registry it started from.
pub proof fn pause_then_resume_restores(m: Map<TaskId, TaskRecord>, id: TaskId)
    requires
        m.contains_key(id),
        m[id].status == TaskStatus::Running,
    ensures
        spec_pause(m, id) is Ok,
        spec_resume(after(m, spec_pause(m, id)), id) is Ok,
        after(after(m, spec_pause(m, id)), spec_resume(after(m, spec_pause(m, id)), id)) == m,
{
    let m1 = after(m, spec_pause(m, id));
    let m2 = after(m1, spec_resume(m1, id));
    assert(m2 =~= m);
}

/// Resuming a paused task, then pausing it, gives back the registry it started from.
pub proof fn resume_then_pause_restores(m: Map<TaskId, TaskRecord>, id: TaskId)
    requires
        m.contains_key(id),
        m[id].status == TaskStatus::Paused,
    ensures
        spec_resume(m, id) is Ok,
        spec_pause(after(m, spec_resume(m, id)), id) is Ok,
        after(after(m, spec_resume(m, id)), spec_pause(after(m, spec_resume(m, id)), id)) == m,
{
    let m1 = after(m, spec_resume(m, id));
    let m2 = after(m1, spec_pause(m1, id));
    assert(m2 =~= m);
}

/// Scheduling a task whose identifier is free, then aborting it, gives back
/// the registry it started from.
pub proof fn schedule_then_abort_restores(
    m: Map<TaskId, TaskRecord>,
    id: TaskId,
    title: String,
    recurrence: Recurrence,
    created_at: Timestamp,
)
    requires
        !m.contains_key(id),
    ensures
        spec_schedule(m, id, title, recurrence, created_at) is Ok,
        after(
            after(m, spec_schedule(m, id, title, recurrence, created_at)),
            spec_abort(after(m, spec_schedule(m, id, title, recurrence, created_at)), id),
        ) == m,
{
    let m1 = after(m, spec_schedule(m, id, title, recurrence, created_at));
    assert(after(m1, spec_abort(m1, id)) =~= m);
}

/// Pausing a task twice: the second pause is refused as already paused, and
/// leaves the registry as the first left it.
pub proof fn second_pause_is_refused(m: Map<TaskId, TaskRecord>, id: TaskId)
    requires
        m.contains_key(id),
    ensures
        spec_pause(after(m, spec_pause(m, id)), id) == Err::<Map<TaskId, TaskRecord>, _>(
            PulsyncError::AlreadyPaused(id),
        ),
{
}

/// After a task is aborted, pausing, resuming, rescheduling or aborting it
/// again is refused as not found.
pub proof fn aborted_task_is_not_found(m: Map<TaskId, TaskRecord>, id: TaskId, recurrence: Recurrence)
    requires
        m.contains_key(id),
    ensures
        ({
            let m1 = after(m, spec_abort(m, id));
            &&& spec_pause(m1, id) == Err::<Map<TaskId, TaskRecord>, _>(
                PulsyncError::TaskNotFound("pause", id),
            )
            &&& spec_resume(m1, id) == Err::<Map<TaskId, TaskRecord>, _>(
                PulsyncError::TaskNotFound("resume", id),
            )
            &&& spec_reschedule(m1, id, recurrence) == Err::<Map<TaskId, TaskRecord>, _>(
                PulsyncError::TaskNotFound("reschedule", id),
            )
            &&& spec_abort(m1, id) == Err::<Map<TaskId, TaskRecord>, _>(
                PulsyncError::TaskNotFound("abort", id),
            )
        }),
{
}

/// Every operation keeps the registry's invariant: each record filed under
/// its own identifier, none cancelled.
pub proof fn operations_keep_registry_wf(
    m: Map<TaskId, TaskRecord>,
    id: TaskId,
    title: String,
    recurrence: Recurrence,
    created_at: Timestamp,
    now: Timestamp,
)
    requires
        registry_wf(m),
    ensures
        registry_wf(after(m, spec_schedule(m, id, title, recurrence, created_at))),
        registry_wf(after(m, spec_reschedule(m, id, recurrence))),
        registry_wf(after(m, spec_pause(m, id))),
        registry_wf(after(m, spec_resume(m, id))),
        registry_wf(after(m, spec_abort(m, id))),
        registry_wf(spec_tick(m, id, now).0),
{
}

/// A task's entry leaves the registry only when the task is aborted or when
/// a tick of its own worker finds it at its end: scheduling, rescheduling,
/// pausing or resuming any task, aborting another task, and the ticks of
/// other tasks' workers all keep it.
pub proof fn entry_leaves_only_by_abort_or_its_end(
    m: Map<TaskId, TaskRecord>,
    id: TaskId,
    k: TaskId,
    other: TaskId,
    title: String,
    recurrence: Recurrence,
    created_at: Timestamp,
    now: Timestamp,
)
    requires
        m.contains_key(id),
        other != id,
    ensures
        after(m, spec_schedule(m, k, title, recurrence, created_at)).contains_key(id),
        after(m, spec_reschedule(m, k, recurrence)).contains_key(id),
        after(m, spec_pause(m, k)).contains_key(id),
        after(m, spec_resume(m, k)).contains_key(id),
        after(m, spec_abort(m, other)).contains_key(id),
        spec_tick(m, other, now).0.contains_key(id),
        spec_tick(m, id, now).0.contains_key(id) <==> !tick_stops(m[id], now),
        !after(m, spec_abort(m, id)).contains_key(id),
{
}

/// Once a task is aborted, the same task can be scheduled again: the new
/// entry is accepted under the same identifier and starts running.
pub proof fn aborted_task_can_be_scheduled_again(
    m: Map<TaskId, TaskRecord>,
    id: TaskId,
    title: String,
    recurrence: Recurrence,
    created_at: Timestamp,
)
    requires
        m.contains_key(id),
    ensures
        ({
            let m1 = after(m, spec_abort(m, id));
            &&& spec_schedule(m1, id, title, recurrence, created_at) is Ok
            &&& after(m1, spec_schedule(m1, id, title, recurrence, created_at)).contains_key(id)
            &&& after(m1, spec_schedule(m1, id, title, recurrence, created_at))[id].status
                == TaskStatus::Running
        }),
{
}

/// A paused task never runs: a tick of its worker skips it or stops it.
pub proof fn paused_task_never_runs(m: Map<TaskId, TaskRecord>, id: TaskId, now: Timestamp)
    requires
        m.contains_key(id),
        m[id].status == TaskStatus::Paused,
    ensures
        spec_tick(m, id, now).1 != TickAction::Run,
{
}

/// Once a worker is told to stop, the task's record is gone, and every later
/// tick stops it again, leaving the registry as it is.
pub proof fn stop_is_final(m: Map<TaskId, TaskRecord>, id: TaskId, now: Timestamp, later: Timestamp)
    requires
        spec_tick(m, id, now).1 == TickAction::Stop,
    ensures
        !spec_tick(m, id, now).0.contains_key(id),
        spec_tick(spec_tick(m, id, now).0, id, later) == (spec_tick(m, id, now).0, TickAction::Stop),
{
}

/// A scheduled task with no count, no span and no last instant runs on
/// indefinitely: no tick stops it, and ticks leave the registry as it is.
pub proof fn unbounded_task_never_stops(m: Map<TaskId, TaskRecord>, id: TaskId, now: Timestamp)
    requires
        m.contains_key(id),
        m[id].recurrence.count is None,
        m[id].recurrence.limit is None,
        m[id].recurrence.limit_datetime is None,
    ensures
        spec_tick(m, id, now).1 != TickAction::Stop,
        spec_tick(m, id, now).0 == m,
{
    assert(ticked(m[id]) == m[id]);
    assert(m.insert(id, m[id]) =~= m);
}

/// A scheduled task can be paused exactly while it runs, and resumed exactly
/// while it is paused.
pub proof fn pause_and_resume_follow_status(m: Map<TaskId, TaskRecord>, id: TaskId)
    requires
        registry_wf(m),
        m.contains_key(id),
    ensures
        spec_pause(m, id) is Ok <==> m[id].status == TaskStatus::Running,
        spec_resume(m, id) is Ok <==> m[id].status == TaskStatus::Paused,
{
}

/// A clock that reads earlier than a task's creation does not end its span.
pub proof fn earlier_clock_keeps_span(m: Map<TaskId, TaskRecord>, id: TaskId, now: Timestamp)
    requires
        m.contains_key(id),
        m[id].recurrence.limit is Some,
        m[id].recurrence.limit_datetime is None,
        m[id].recurrence.count is None,
        now.seconds_since(m[id].created_at) < 0,
    ensures
        spec_tick(m, id, now).1 != TickAction::Stop,
{
}

/// A task with a span stops at the first tick at which the whole seconds
/// since its creation reach that span.
pub proof fn span_ends_task(m: Map<TaskId, TaskRecord>, id: TaskId, now: Timestamp)
    requires
        m.contains_key(id),
        m[id].recurrence.limit matches Some(l) && now.seconds_since(m[id].created_at) >= l@,
    ensures
        spec_tick(m, id, now) == (m.remove(id), TickAction::Stop),
{
}

/// A task with a last instant stops at the first tick at or after it.
pub proof fn deadline_ends_task(m: Map<TaskId, TaskRecord>, id: TaskId, now: Timestamp)
    requires
        m.contains_key(id),
        m[id].recurrence.limit_datetime matches Some(d) && d.at_or_before(now),
    ensures
        spec_tick(m, id, now) == (m.remove(id), TickAction::Stop),
{
}

/// The ticks of the worker of task `id` at the given instants, in turn: the
/// registry after them, and what each tick said.
pub open spec fn run_ticks(m: Map<TaskId, TaskRecord>, id: TaskId, times: Seq<Timestamp>) -> (Map<
    TaskId,
    TaskRecord,
>, Seq<TickAction>)
    decreases times.len(),
{
    if times.len() == 0 {
        (m, Seq::empty())
    } else {
        let (m1, a) = spec_tick(m, id, times[0]);
        let (m2, rest) = run_ticks(m1, id, times.drop_first());
        (m2, seq![a] + rest)
    }
}

/// A task with `n` runs left and neither span nor last instant is run (or,
/// paused, skipped) at exactly its next `n` ticks; the tick after them stops
/// it and removes it from the registry.
pub proof fn counted_task_runs_count_times(
    m: Map<TaskId, TaskRecord>,
    id: TaskId,
    n: u64,
    times: Seq<Timestamp>,
)
    requires
        m.contains_key(id),
        m[id].recurrence.count == Some(n),
        m[id].recurrence.limit is None,
        m[id].recurrence.limit_datetime is None,
        times.len() == n + 1,
    ensures
        run_ticks(m, id, times).0 == m.remove(id),
        run_ticks(m, id, times).1 == Seq::new(
            n as nat,
            |i: int|
                if m[id].status == TaskStatus::Running {
                    TickAction::Run
                } else {
                    TickAction::Skip
                },
        ).push(TickAction::Stop),
    decreases n,
{
    let step = if m[id].status == TaskStatus::Running {
        TickAction::Run
    } else {
        TickAction::Skip
    };
    if n == 0 {
        assert(times.drop_first().len() == 0);
        reveal_with_fuel(run_ticks, 2);
        assert(run_ticks(m, id, times).1 =~= seq![TickAction::Stop]);
        assert(Seq::new(0, |i: int| step).push(TickAction::Stop) =~= seq![TickAction::Stop]);
    } else {
        let m1 = spec_tick(m, id, times[0]).0;
        assert(spec_tick(m, id, times[0]).1 == step);
        assert(m1[id].recurrence.count == Some((n - 1) as u64));
        counted_task_runs_count_times(m1, id, (n - 1) as u64, times.drop_first());
        assert(run_ticks(m, id, times) == (
            run_ticks(m1, id, times.drop_first()).0,
            seq![step] + run_ticks(m1, id, times.drop_first()).1,
        ));
        assert(m1.remove(id) =~= m.remove(id));
        assert(seq![step] + Seq::new((n - 1) as nat, |i: int| step).push(TickAction::Stop)
            =~= Seq::new(n as nat, |i: int| step).push(TickAction::Stop));
    }
}


/// A tick that does not stop a task takes exactly one run from its count,
/// whatever its span or last instant, and changes nothing else of it: the
/// task stays, with its identifier, status, title, creation instant and the
/// rest of its recurrence; every other task is left as it is. It runs the
/// task where the task is running and skips it where it is paused.
pub proof fn tick_that_goes_on_takes_one_run(m: Map<TaskId, TaskRecord>, id: TaskId, now: Timestamp)
    requires
        registry_wf(m),
        m.contains_key(id),
        spec_tick(m, id, now).1 != TickAction::Stop,
    ensures
        ({
            let (m2, a) = spec_tick(m, id, now);
            let (old_rec, new_rec) = (m[id], m2[id]);
            &&& m2.contains_key(id)
            &&& new_rec.id == old_rec.id
            &&& new_rec.status == old_rec.status
            &&& new_rec.title == old_rec.title
            &&& new_rec.created_at == old_rec.created_at
            &&& new_rec.recurrence.unit == old_rec.recurrence.unit
            &&& new_rec.recurrence.run_after == old_rec.recurrence.run_after
            &&& new_rec.recurrence.limit == old_rec.recurrence.limit
            &&& new_rec.recurrence.limit_datetime == old_rec.recurrence.limit_datetime
            &&& (old_rec.recurrence.count matches Some(c) ==> c > 0
                && new_rec.recurrence.count == Some((c - 1) as u64))
            &&& (old_rec.recurrence.count is None ==> new_rec.recurrence.count is None)
            &&& (a == TickAction::Run <==> old_rec.status == TaskStatus::Running)
            &&& (forall|k: TaskId| k != id ==> (m2.contains_key(k) <==> m.contains_key(k)))
            &&& (forall|k: TaskId| k != id && m.contains_key(k) ==> m2[k] == m[k])
        }),
{
}

/// A task with no run left stops at its next tick and leaves the registry.
pub proof fn tick_with_no_run_left_stops(m: Map<TaskId, TaskRecord>, id: TaskId, now: Timestamp)
    requires
        m.contains_key(id),
        m[id].recurrence.count == Some(0u64),
    ensures
        spec_tick(m, id, now).1 == TickAction::Stop,
        !spec_tick(m, id, now).0.contains_key(id),
{
}

/// Ticks of a task that is not scheduled leave it unscheduled.
proof fn absent_task_stays_absent(m: Map<TaskId, TaskRecord>, id: TaskId, times: Seq<Timestamp>)
    requires
        !m.contains_key(id),
    ensures
        !run_ticks(m, id, times).0.contains_key(id),
    decreases times.len(),
{
    if times.len() > 0 {
        absent_task_stays_absent(spec_tick(m, id, times[0]).0, id, times.drop_first());
    }
}

/// A task with `n` runs left has left the registry after `n + 1` ticks of
/// its worker, whatever its span or last instant: it is run or skipped at
/// most `n` more times.
pub proof fn counted_task_gone_after_count_ticks(
    m: Map<TaskId, TaskRecord>,
    id: TaskId,
    n: u64,
    times: Seq<Timestamp>,
)
    requires
        m.contains_key(id),
        m[id].recurrence.count == Some(n),
        times.len() == n + 1,
    ensures
        !run_ticks(m, id, times).0.contains_key(id),
    decreases n,
{
    let (m1, a) = spec_tick(m, id, times[0]);
    assert(run_ticks(m, id, times).0 == run_ticks(m1, id, times.drop_first()).0);
    if a == TickAction::Stop {
        absent_task_stays_absent(m1, id, times.drop_first());
    } else {
        assert(n > 0);
        assert(m1[id].recurrence.count == Some((n - 1) as u64));
        counted_task_gone_after_count_ticks(m1, id, (n - 1) as u64, times.drop_first());
    }
}

/// A successful reschedule replaces the task's whole recurrence with the new
/// one, and keeps its identifier, status, title and creation instant; every
/// other task is left as it is.
pub proof fn reschedule_replaces_whole_recurrence(
    m: Map<TaskId, TaskRecord>,
    id: TaskId,
    r: Recurrence,
)
    requires
        m.contains_key(id),
    ensures
        spec_reschedule(m, id, r) is Ok,
        ({
            let m2 = after(m, spec_reschedule(m, id, r));
            &&& m2.contains_key(id)
            &&& m2[id].recurrence == r
            &&& m2[id].id == m[id].id
            &&& m2[id].status == m[id].status
            &&& m2[id].title == m[id].title
            &&& m2[id].created_at == m[id].created_at
            &&& (forall|k: TaskId| k != id ==> (m2.contains_key(k) <==> m.contains_key(k)))
            &&& (forall|k: TaskId| k != id && m.contains_key(k) ==> m2[k] == m[k])
        }),
{
}

/// A task's label does not depend on its status or its recurrence: two
/// records with the same identifier, title and creation instant have the
/// same label.
pub proof fn label_ignores_status_and_recurrence(k: TaskKind, a: TaskRecord, b: TaskRecord)
    requires
        a.id == b.id,
        a.title@ == b.title@,
        a.created_at == b.created_at,
    ensures
        label_text(k, a) == label_text(k, b),
{
}

/// A task's title stands whole in its label, after `[Kind(id)] `.
pub proof fn label_holds_title(k: TaskKind, rec: TaskRecord)
    ensures
        ({
            let start: int = (kind_name(k).len() + decimal(rec.id as nat).len() + 5) as int;
            &&& label_text(k, rec).subrange(start, start + rec.title@.len()) == rec.title@
            &&& label_text(k, rec).len() >= start + rec.title@.len()
        }),
{
    let start: int = (kind_name(k).len() + decimal(rec.id as nat).len() + 5) as int;
    let pre = "["@ + kind_name(k) + "("@ + decimal(rec.id as nat) + ")] "@;
    reveal_strlit("[");
    reveal_strlit("(");
    reveal_strlit(")] ");
    assert(pre.len() == start);
    let l = label_text(k, rec);
    assert(l == pre + rec.title@ + (" started at "@ + utc_date_text(rec.created_at.spec_secs())));
    assert(l.subrange(start, start + rec.title@.len()) =~= rec.title@);
}

} // verus!
