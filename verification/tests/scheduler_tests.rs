use pulsync::error::PulsyncError;
use pulsync::recurrence::{every, Recurrence, RecurrenceCast};
use pulsync::scheduler::{Scheduler, TaskKind, TickAction};
use pulsync::task::{task_id, TaskId, TaskStatus};
use pulsync::time::Timestamp;

const EPOCH: i64 = 1_735_689_600; // 2025-01-01T00:00:00Z

fn at(secs: i64) -> Timestamp {
    Timestamp::from_parts(EPOCH + secs, 0).unwrap()
}

/// Drives the worker of `id` on a simulated clock from `start` (in seconds
/// after EPOCH), as the worker thread would, and stops driving before `end`.
/// Returns how many times the task ran, and whether the worker stopped.
fn drive(s: &mut Scheduler, id: TaskId, start: i64, end: i64) -> (u32, bool) {
    let mut t = start + s.first_delay(id).unwrap_or(0) as i64;
    let mut runs = 0;
    while t < end {
        match s.tick(id, at(t)) {
            TickAction::Stop => return (runs, true),
            TickAction::Run => runs += 1,
            TickAction::Skip => {}
        }
        t += s.interval(id).unwrap_or(0) as i64;
    }
    (runs, false)
}

fn schedule(s: &mut Scheduler, salt: &str, title: &str, r: Recurrence, t: i64) -> TaskId {
    s.schedule("MySyncTask", salt, String::from(title), r, at(t)).unwrap()
}

#[test]
fn simulated_single_task() {
    let mut s = Scheduler::build();
    let mut state = 1; // the task ran once on its own
    let id = schedule(&mut s, "MySyncTaskSALT", "MySyncTask", every(1u64.seconds()), 0);
    let (runs, stopped) = drive(&mut s, id, 0, 5);
    state += runs;
    assert!(!stopped);
    assert!(s.abort(id).is_ok());
    assert_eq!(s.tick(id, at(5)), TickAction::Stop);
    assert_eq!(state, 6);

    let id = schedule(&mut s, "MySyncTaskSALT", "MySyncTask", every(3u64.seconds()).count(3), 10);
    let (runs, stopped) = drive(&mut s, id, 10, 20);
    state += runs;
    assert!(stopped);
    assert!(matches!(s.abort(id), Err(PulsyncError::TaskNotFound("abort", x)) if x == id));
    assert_eq!(state, 9);

    let r = every(1u64.minutes()).and(2u64.seconds()).count(1);
    let id = schedule(&mut s, "MySyncTaskSALT", "MySyncTask", r, 30);
    let (runs, stopped) = drive(&mut s, id, 30, 150);
    state += runs;
    assert!(stopped);
    assert!(matches!(s.pause(id), Err(PulsyncError::TaskNotFound("pause", _))));
    assert!(matches!(s.resume(id), Err(PulsyncError::TaskNotFound("resume", _))));
    assert!(matches!(s.abort(id), Err(PulsyncError::TaskNotFound("abort", _))));
    assert_eq!(state, 10);
}

#[test]
fn simulated_run_before_and_after() {
    let mut s = Scheduler::build();
    let id = schedule(&mut s, "MySyncTaskSALT", "", every(3u64.seconds()).run_after(true), 0);
    assert_eq!(s.first_delay(id), Some(3));
    let (runs, _) = drive(&mut s, id, 0, 9);
    assert_eq!(runs, 2);
    s.abort(id).unwrap();
    let id = schedule(&mut s, "MySyncTaskSALT", "", every(3u64.seconds()), 9);
    assert_eq!(s.first_delay(id), Some(0));
    let (runs, _) = drive(&mut s, id, 9, 18);
    assert_eq!(runs, 3);
}

#[test]
fn simulated_multiple_instances() {
    let mut s = Scheduler::build();
    let r = every(5u64.seconds());
    let id1 = schedule(&mut s, "pierre", "", r, 0);
    let id2 = schedule(&mut s, "jean", "", r, 0);
    let id3 = schedule(&mut s, "lucie", "", r, 0);
    assert_eq!(s.len(), 3);
    let mut state = 1;
    for id in [id1, id2, id3] {
        state += drive(&mut s, id, 0, 15).0;
    }
    assert_eq!(state, 10);
    assert!(matches!(s.schedule("MySyncTask", "jean", String::new(), r, at(20)), Err(PulsyncError::AlreadyScheduled(x)) if x == id2));
}

#[test]
fn simulated_reschedule() {
    let mut s = Scheduler::build();
    let id = schedule(&mut s, "MySyncTaskSALT", "", every(1u64.seconds()), 0);
    let (runs, _) = drive(&mut s, id, 0, 3);
    assert_eq!(runs, 3);
    assert_eq!(s.reschedule(id, every(5u64.seconds())).unwrap(), id);
    assert_eq!(s.interval(id), Some(5));
    let (more, _) = drive(&mut s, id, 3, 13);
    assert_eq!(runs + more, 5);
    assert!(matches!(s.reschedule(99, every(5u64.seconds())), Err(PulsyncError::TaskNotFound("reschedule", 99))));
}

#[test]
fn integration_tests_get_task_list() {
    let mut s = Scheduler::build();
    let id = schedule(&mut s, "MySyncTask: 0", "First Task", every(1u64.seconds()).count(3), 0);
    let id2 = schedule(&mut s, "MySyncTask2: Pierre", "Second Task with login Pierre", every(1u64.seconds()).count(3), 0);
    let task_list = s.get();
    assert_eq!(task_list.len(), 2);
    assert!(task_list
        .iter()
        .find(|task| task.label.starts_with(&format!("[SyncTask({id})] First Task started at ")))
        .is_some());
    assert!(task_list
        .iter()
        .find(|task| task
            .label
            .starts_with(&format!("[SyncTask({id2})] Second Task with login Pierre started at ")))
        .is_some());
    s.tick(id, at(0));
    assert_eq!(s.recurrence(id).unwrap().count, Some(2));
    let first = task_list.iter().find(|t| t.id == id).unwrap();
    assert_eq!(first.label, format!("[SyncTask({id})] First Task started at 2025-01-01"));
    assert_eq!(first.status, TaskStatus::Running);
    assert_eq!(first.recurrence.count, Some(3));
}

#[test]
fn async_labels() {
    let mut s = Scheduler::build_with(TaskKind::Async);
    let id = schedule(&mut s, "", "First Task", every(1u64.seconds()), 86_400);
    let list = s.get();
    assert_eq!(list[0].label, format!("[AsyncTask({id})] First Task started at 2025-01-02"));
}

#[test]
fn simulated_run_until() {
    let mut s = Scheduler::build();
    let id1 = schedule(&mut s, "MySyncTask: 0", "", every(2u64.seconds()).until(10u64.seconds()), 0);
    let id2 = schedule(&mut s, "MySyncTask: 1", "", every(3u64.seconds()).until(3u64.seconds()), 0);
    let (value1, stopped1) = drive(&mut s, id1, 0, 15);
    let (value2, stopped2) = drive(&mut s, id2, 0, 15);
    assert!(stopped1 && stopped2);
    assert_eq!(s.get().len(), 0);
    assert_eq!(value1, 5);
    assert_eq!(value2, 1);
}

#[test]
fn simulated_run_until_datetime() {
    let mut s = Scheduler::build();
    let id1 = schedule(&mut s, "MySyncTask: 0", "", every(2u64.seconds()).until_datetime(at(10)), 0);
    let id2 = schedule(&mut s, "MySyncTask: 1", "", every(3u64.seconds()).until_datetime(at(3)), 0);
    let (value1, _) = drive(&mut s, id1, 0, 15);
    let (value2, _) = drive(&mut s, id2, 0, 15);
    assert_eq!(s.get().len(), 0);
    assert_eq!(value1, 5);
    assert_eq!(value2, 1);
}

#[test]
fn pause_and_resume() {
    let mut s = Scheduler::build();
    let id = schedule(&mut s, "x", "", every(1u64.seconds()).count(2), 0);
    assert!(s.pause(id).is_ok());
    assert_eq!(s.status(id), Some(TaskStatus::Paused));
    assert!(matches!(s.pause(id), Err(PulsyncError::AlreadyPaused(x)) if x == id));
    assert_eq!(s.tick(id, at(0)), TickAction::Skip);
    assert!(s.resume(id).is_ok());
    assert!(matches!(s.resume(id), Err(PulsyncError::AlreadyResumed(x)) if x == id));
    assert_eq!(s.tick(id, at(1)), TickAction::Run);
    assert_eq!(s.tick(id, at(2)), TickAction::Stop);
    assert!(!s.contains(id));
}

#[test]
fn schedule_then_abort_leaves_nothing() {
    let mut s = Scheduler::build();
    let r = every(1u64.seconds());
    let id = schedule(&mut s, "salt", "", r, 0);
    assert_eq!(id, task_id("MySyncTask", &r, "salt"));
    assert!(s.abort(id).is_ok());
    assert_eq!(s.len(), 0);
    assert_eq!(s.status(id), None);
}

#[test]
fn restart_schedules_each_entry() {
    let r = every(1u64.seconds());
    let (a, b) = (task_id("T", &r, "a"), task_id("T", &r, "b"));
    let entries = vec![
        (a, String::from("A"), r),
        (b, String::from("B"), r),
        (a, String::from("again"), r),
    ];
    let (s, ids) = Scheduler::restart(TaskKind::Sync, entries, at(0));
    assert_eq!(s.len(), 2);
    assert_eq!(ids, vec![Some(a), Some(b), None]);
    assert_eq!(s.kind(), TaskKind::Sync);
}

#[test]
fn clock_going_back_keeps_a_span() {
    let mut s = Scheduler::build();
    let id = schedule(&mut s, "x", "", every(1u64.seconds()).until(100u64.seconds()), 10);
    assert_eq!(s.tick(id, at(9)), TickAction::Run);
    assert_eq!(s.tick(id, at(110)), TickAction::Stop);
}

struct Counter {
    login: pulsync::task::TaskState<String>,
}
impl pulsync::task::Salt for Counter {
    fn salt(&self) -> String {
        self.login.read().unwrap().clone()
    }
}
impl pulsync::task::UniqueId for Counter {}
impl pulsync::task::Task for Counter {
    fn title(&self) -> String {
        format!("MySyncTask for {}", self.login.read().unwrap())
    }
}
impl pulsync::task::SyncTaskHandler for Counter {
    fn run(&self) {}
}

#[test]
fn schedule_task_reads_salt_and_title() {
    let mut s = Scheduler::build();
    let task = Counter { login: pulsync::task::TaskState::new(String::from("Pierre")) };
    let r = every(3u64.days());
    let id = s.schedule_task(&task, r, at(0)).unwrap();
    assert_eq!(id, pulsync::task::UniqueId::unique_id(&task, r));
    assert_eq!(id, task_id(&pulsync::task::type_key_of::<Counter>(), &r, "Pierre"));
    let list = s.get();
    assert_eq!(list[0].label, format!("[SyncTask({id})] MySyncTask for Pierre started at 2025-01-01"));
    let boxed: Box<dyn pulsync::task::SyncTaskHandler + Send + Sync> = Box::new(task);
    assert!(matches!(s.schedule_task(&*boxed, r, at(1)), Err(PulsyncError::AlreadyScheduled(x)) if x == id));
}

#[test]
fn pause_then_resume_gives_back_the_task() {
    let mut s = Scheduler::build();
    let id = schedule(&mut s, "x", "T", every(1u64.seconds()), 0);
    let before = &s.get()[0];
    let (label, status) = (before.label.clone(), before.status);
    s.pause(id).unwrap();
    s.resume(id).unwrap();
    let after = &s.get()[0];
    assert_eq!(after.label, label);
    assert_eq!(after.status, status);
    assert_eq!(s.len(), 1);
}

#[test]
fn unbounded_task_keeps_running() {
    let mut s = Scheduler::build();
    let id = schedule(&mut s, "x", "", every(1u64.seconds()), 0);
    for t in 0..1000 {
        assert_eq!(s.tick(id, at(t)), TickAction::Run);
    }
    assert!(s.contains(id));
}

#[test]
fn aborted_task_scheduled_again_stays_until_its_end() {
    let mut s = Scheduler::build();
    let r = every(1u64.seconds()).count(2);
    let id = schedule(&mut s, "x", "", r, 0);
    s.abort(id).unwrap();
    assert_eq!(schedule(&mut s, "x", "", r, 0), id);
    let other = schedule(&mut s, "y", "", every(1u64.seconds()).count(0), 0);
    s.pause(id).unwrap();
    s.resume(id).unwrap();
    s.reschedule(id, r).unwrap();
    assert_eq!(s.tick(other, at(0)), TickAction::Stop);
    assert!(s.contains(id));
    assert_eq!(s.tick(id, at(0)), TickAction::Run);
    assert_eq!(s.tick(id, at(1)), TickAction::Run);
    assert!(s.contains(id));
    assert_eq!(s.tick(id, at(2)), TickAction::Stop);
    assert!(!s.contains(id));
}
