use pulsync::error::PulsyncError;
use pulsync::recurrence::{every, RecurrenceCast};
use pulsync::task::{task_id, type_key_of, Salt, Task, TaskState, TaskStatus, UniqueId};
use pulsync::text::decimal_text;

struct MyStruct;
impl Salt for MyStruct {}
impl UniqueId for MyStruct {}

struct Login {
    login: TaskState<String>,
}
impl Salt for Login {
    fn salt(&self) -> String {
        self.login.read().unwrap().clone()
    }
}
impl UniqueId for Login {}
impl Task for Login {
    fn title(&self) -> String {
        format!("Task for {}", self.login.read().unwrap())
    }
}

#[test]
fn unicity() {
    let first_id = MyStruct.unique_id(every(1u64.seconds()));
    let second_id = MyStruct.unique_id(every(1u64.seconds()));
    assert!(first_id == second_id);
}

#[test]
fn unicity_different_struct() {
    struct MyFirstStruct;
    impl Salt for MyFirstStruct {}
    impl UniqueId for MyFirstStruct {}
    struct MySecondStruct;
    impl Salt for MySecondStruct {}
    impl UniqueId for MySecondStruct {}
    let first_id = MyFirstStruct.unique_id(every(1u64.seconds()));
    let second_id = MySecondStruct.unique_id(every(1u64.seconds()));
    assert!(first_id != second_id);
}

#[test]
fn salts_and_recurrences_tell_instances_apart() {
    let pierre = Login { login: TaskState::new(String::from("pierre")) };
    let jean = Login { login: TaskState::new(String::from("jean")) };
    let r = every(5u64.seconds());
    assert_ne!(pierre.unique_id(r), jean.unique_id(r));
    assert_ne!(pierre.unique_id(r), pierre.unique_id(every(6u64.seconds())));
    assert_eq!(pierre.unique_id(r), task_id(&type_key_of::<Login>(), &r, "pierre"));
    assert_eq!(pierre.title(), "Task for pierre");
}

#[test]
fn default_salt_and_title_are_empty() {
    struct Plain;
    impl Salt for Plain {}
    impl UniqueId for Plain {}
    impl Task for Plain {}
    assert_eq!(Plain.salt(), "");
    assert_eq!(Plain.title(), "");
    assert_eq!(
        Plain.unique_id(every(1u64.seconds())),
        task_id(&type_key_of::<Plain>(), &every(1u64.seconds()), "")
    );
}

#[test]
fn task_state_is_shared() {
    let state = TaskState::new(0u8);
    let copy = state.clone();
    *copy.write().unwrap() += 1;
    assert_eq!(*state.read().unwrap(), 1);
}

#[test]
fn status_texts() {
    assert_eq!(TaskStatus::Paused.display_text(), "inactive");
    assert_eq!(TaskStatus::Running.display_text(), "active");
    assert_eq!(TaskStatus::Abort.display_text(), "canceled");
    assert_eq!(TaskStatus::default(), TaskStatus::Running);
}

#[test]
fn error_messages() {
    assert_eq!(PulsyncError::TaskNotFound("pause", 42).message(), "[pause] Task (42): not found");
    assert_eq!(PulsyncError::AlreadyPaused(7).message(), "[pause] Task (7): already paused");
    assert_eq!(PulsyncError::AlreadyResumed(7).message(), "[resume] Task (7): already resumed");
    assert_eq!(
        PulsyncError::AlreadyScheduled(18446744073709551615).message(),
        "[schedule] Task (18446744073709551615): already scheduled"
    );
}

#[test]
fn decimals() {
    assert_eq!(decimal_text(0), "0");
    assert_eq!(decimal_text(120), "120");
    assert_eq!(decimal_text(u64::MAX), u64::MAX.to_string());
}
