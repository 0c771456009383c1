//! The errors that the scheduler's operations return.
use vstd::prelude::*;

use crate::task::TaskId;
use crate::text::{decimal, push_decimal, push_text};

verus! {

/// Why a scheduler operation was refused.
#[derive(Debug, Clone)]
pub enum PulsyncError {
    /// The operation (named by the text) found no task with the identifier.
    TaskNotFound(&'static str, TaskId),
    /// The task is paused already.
    AlreadyPaused(TaskId),
    /// The task is running already.
    AlreadyResumed(TaskId),
    /// A task with the identifier is scheduled already.
    AlreadyScheduled(TaskId),
}

/// The message of an error, as the error is displayed.
pub open spec fn error_message(e: PulsyncError) -> Seq<char> {
    match e {
        PulsyncError::TaskNotFound(op, id) => "["@ + op@ + "] Task ("@ + decimal(id as nat)
            + "): not found"@,
        PulsyncError::AlreadyPaused(id) => "[pause] Task ("@ + decimal(id as nat)
            + "): already paused"@,
        PulsyncError::AlreadyResumed(id) => "[resume] Task ("@ + decimal(id as nat)
            + "): already resumed"@,
        PulsyncError::AlreadyScheduled(id) => "[schedule] Task ("@ + decimal(id as nat)
            + "): already scheduled"@,
    }
}

impl PulsyncError {
    /// The message that displays the error.
    pub fn message(&self) -> (r: String)
        ensures
            r@ == error_message(*self),
    {
        let mut s = String::new();
        match self {
            PulsyncError::TaskNotFound(op, id) => {
                push_text(&mut s, "[");
                push_text(&mut s, op);
                push_text(&mut s, "] Task (");
                push_decimal(&mut s, *id);
                push_text(&mut s, "): not found");
            },
            PulsyncError::AlreadyPaused(id) => {
                push_text(&mut s, "[pause] Task (");
                push_decimal(&mut s, *id);
                push_text(&mut s, "): already paused");
            },
            PulsyncError::AlreadyResumed(id) => {
                push_text(&mut s, "[resume] Task (");
                push_decimal(&mut s, *id);
                push_text(&mut s, "): already resumed");
            },
            PulsyncError::AlreadyScheduled(id) => {
                push_text(&mut s, "[schedule] Task (");
                push_decimal(&mut s, *id);
                push_text(&mut s, "): already scheduled");
            },
        }
        assert(s@ =~= error_message(*self));
        s
    }
}

} // verus!
