//! What a daemonization sequence asks of its runner, and what the runner
//! answers.
//!
//! A sequence is driven step by step: it hands out an [`Action`], the runner
//! performs it and reports an [`Answer`], and the sequence decides the next
//! action from that answer alone. Every decision is thereby made, and
//! verified, here; the runner only performs calls.

use vstd::prelude::*;
use crate::error::DaemonError;

verus! {

/// What the runner reports after performing a call.
#[derive(Clone, Debug, PartialEq, Eq)]
pub enum Answer {
    /// The call succeeded and has nothing to report.
    Done,
    /// `fork` returned in the parent.
    Parent,
    /// `fork` returned in the child.
    Child,
    /// A file was opened with this descriptor (a handle value on Windows).
    Opened(i32),
    /// The call produced this number: a process id, a user or group id.
    Number(u32),
    /// A named mutex was created; it already existed iff the flag is set.
    Mutex { handle: u64, existed: bool },
    /// A lookup found no such name.
    NotFound,
    /// A non-blocking lock is held by someone else.
    Busy,
    /// The call failed with this operating-system error code.
    Failed(i32),
    /// The payload ran and failed with this error.
    PayloadFailed(DaemonError),
}

/// The operating-system code carried by an answer, zero if it carries none.
pub open spec fn code_of(a: Answer) -> i32 {
    match a {
        Answer::Failed(e) => e,
        _ => 0,
    }
}

pub fn answer_code(a: &Answer) -> (r: i32)
    ensures
        r == code_of(*a),
{
    match a {
        Answer::Failed(e) => *e,
        _ => 0,
    }
}

/// What a sequence asks of its runner next.
#[derive(Debug)]
pub enum Action<C> {
    /// Perform this call and report its answer.
    Call(C),
    /// This process is the parent of a fork or a relaunch: exit at once with
    /// status 0, without any cleanup.
    ExitParent,
    /// The sequence is complete: return the payload's value.
    Finish,
    /// The sequence failed: return this error.
    Abort(DaemonError),
}

/// Where a sequence stands.
#[derive(Clone, Copy, Debug, PartialEq, Eq, Structural)]
pub enum Status {
    /// Waiting for the answer to the call last handed out.
    Running,
    /// Handed out `ExitParent`.
    Exited,
    /// Handed out `Finish`.
    Finished,
    /// Handed out `Abort`.
    Failed,
}

} // verus!
