//! Scheduling of recurring tasks: the registry of scheduled tasks, the
//! recurrence rules that decide when a task runs and when it stops, the
//! identifiers that tell tasks apart, and the parser of title and salt
//! templates.
pub mod derive;
pub mod error;
pub mod laws;
pub mod recurrence;
pub mod scheduler;
pub mod lock;
pub mod task;
pub mod template;
pub mod text;
pub mod time;
