//! Exit statuses and the reading of raw `waitpid` outcomes into them.

use vstd::prelude::*;

verus! {

/// An exit code at or above this value stands for a signal: `signal = code - SIGNAL_OFFSET`.
pub const SIGNAL_OFFSET: i32 = 128;

/// The highest signal number.
pub const SIGNAL_MAX: i32 = 64;

/// `errno` of an interrupted system call.
pub const EINTR: i32 = 4;

/// `errno` when the process has no such child.
pub const ECHILD: i32 = 10;

/// How a process ended.
#[derive(Clone, Copy, Debug, PartialEq, Eq, Structural)]
pub enum ExitStatus {
    /// It exited with this code.
    Exit(i32),
    /// A signal with this number killed it.
    Signalled(u8),
}

/// What one `waitpid` call reported, as plain values.
#[derive(Clone, Copy, Debug, PartialEq, Eq, Structural)]
pub enum WaitOutcome {
    /// The child exited with this code.
    Exited(i32),
    /// The child was killed by the signal with this number.
    Signaled(i32),
    /// The child was stopped.
    Stopped,
    /// The child stopped on a ptrace event.
    PtraceEvent,
    /// The child stopped on a traced system call.
    PtraceSyscall,
    /// The child continued after a stop.
    Continued,
    /// Nothing to report yet (`WNOHANG`).
    StillAlive,
    /// The call failed with this `errno`.
    Failed(i32),
}

/// Why waiting on a child cannot go on.
#[derive(Clone, Copy, Debug, PartialEq, Eq, Structural)]
pub enum WaitError {
    /// The child is not ours (`ECHILD`): a bug in the caller.
    NoChild,
    /// A signal number outside `1..=SIGNAL_MAX`, carried by this code or signal.
    InvalidSignal(i32),
    /// A report that this kind of wait does not expect.
    Unexpected,
    /// The call failed with this `errno`.
    Os(i32),
}

/// A valid signal number.
pub open spec fn is_signal(n: int) -> bool {
    1 <= n <= SIGNAL_MAX
}

/// The status that the supervisor derives from one `waitpid(pid, WNOHANG)` call on init:
/// `Ok(None)` means "not yet, wait for the next `SIGCHLD`".
pub open spec fn supervisor_status_of(w: WaitOutcome) -> Result<Option<ExitStatus>, WaitError> {
    match w {
        WaitOutcome::Exited(code) => if code < SIGNAL_OFFSET {
            Ok(Some(ExitStatus::Exit(code)))
        } else if is_signal(code - SIGNAL_OFFSET) {
            Ok(Some(ExitStatus::Signalled((code - SIGNAL_OFFSET) as u8)))
        } else {
            Err(WaitError::InvalidSignal(code))
        },
        WaitOutcome::Signaled(sig) => if is_signal(sig as int) {
            Ok(Some(ExitStatus::Signalled(sig as u8)))
        } else {
            Err(WaitError::InvalidSignal(sig))
        },
        WaitOutcome::Failed(e) => if e == EINTR {
            Ok(None)
        } else if e == ECHILD {
            Err(WaitError::NoChild)
        } else {
            Err(WaitError::Os(e))
        },
        _ => Ok(None),
    }
}

/// The status that init derives from one blocking `waitpid` call on the application:
/// `Ok(None)` means "call again".
pub open spec fn init_status_of(w: WaitOutcome) -> Result<Option<ExitStatus>, WaitError> {
    match w {
        WaitOutcome::Exited(code) => Ok(Some(ExitStatus::Exit(code))),
        WaitOutcome::Signaled(sig) => if is_signal(sig as int) {
            Ok(Some(ExitStatus::Signalled(sig as u8)))
        } else {
            Err(WaitError::InvalidSignal(sig))
        },
        WaitOutcome::Stopped | WaitOutcome::Continued => Ok(None),
        WaitOutcome::Failed(e) => if e == EINTR {
            Ok(None)
        } else {
            Err(WaitError::Os(e))
        },
        _ => Err(WaitError::Unexpected),
    }
}

/// Get the exit status of init from one `waitpid` report, or `None` while it runs.
pub fn exit_status(outcome: WaitOutcome) -> (r: Result<Option<ExitStatus>, WaitError>)
    ensures
        r == supervisor_status_of(outcome),
{
    match outcome {
        WaitOutcome::Exited(code) => {
            if code < SIGNAL_OFFSET {
                Ok(Some(ExitStatus::Exit(code)))
            } else if code - SIGNAL_OFFSET >= 1 && code - SIGNAL_OFFSET <= SIGNAL_MAX {
                Ok(Some(ExitStatus::Signalled((code - SIGNAL_OFFSET) as u8)))
            } else {
                Err(WaitError::InvalidSignal(code))
            }
        },
        WaitOutcome::Signaled(sig) => {
            if sig >= 1 && sig <= SIGNAL_MAX {
                Ok(Some(ExitStatus::Signalled(sig as u8)))
            } else {
                Err(WaitError::InvalidSignal(sig))
            }
        },
        WaitOutcome::Failed(e) => {
            if e == EINTR {
                Ok(None)
            } else if e == ECHILD {
                Err(WaitError::NoChild)
            } else {
                Err(WaitError::Os(e))
            }
        },
        _ => Ok(None),
    }
}

/// Init's reading of one `waitpid` report on the application it forked.
pub fn child_exit_status(outcome: WaitOutcome) -> (r: Result<Option<ExitStatus>, WaitError>)
    ensures
        r == init_status_of(outcome),
{
    match outcome {
        WaitOutcome::Exited(code) => Ok(Some(ExitStatus::Exit(code))),
        WaitOutcome::Signaled(sig) => {
            if sig >= 1 && sig <= SIGNAL_MAX {
                Ok(Some(ExitStatus::Signalled(sig as u8)))
            } else {
                Err(WaitError::InvalidSignal(sig))
            }
        },
        WaitOutcome::Stopped | WaitOutcome::Continued => Ok(None),
        WaitOutcome::Failed(e) => {
            if e == EINTR {
                Ok(None)
            } else {
                Err(WaitError::Os(e))
            }
        },
        _ => Err(WaitError::Unexpected),
    }
}

/// The exit code with which a status is carried across a process boundary.
pub open spec fn spec_exit_code(s: ExitStatus) -> int {
    match s {
        ExitStatus::Exit(code) => code as int,
        ExitStatus::Signalled(sig) => SIGNAL_OFFSET + sig,
    }
}

/// A status that an exit code can carry: a code below the offset, or a valid signal.
pub open spec fn carriable(s: ExitStatus) -> bool {
    match s {
        ExitStatus::Exit(code) => 0 <= code < SIGNAL_OFFSET,
        ExitStatus::Signalled(sig) => is_signal(sig as int),
    }
}

/// Encodes a status as an exit code: a signal `s` becomes `SIGNAL_OFFSET + s`.
pub fn exit_code(s: ExitStatus) -> (r: i32)
    requires
        carriable(s),
    ensures
        r == spec_exit_code(s),
{
    match s {
        ExitStatus::Exit(code) => code,
        ExitStatus::Signalled(sig) => SIGNAL_OFFSET + sig as i32,
    }
}

/// Decoding the exit code of a carriable status gives that status back.
pub proof fn lemma_exit_code_round_trip(s: ExitStatus)
    requires
        carriable(s),
    ensures
        supervisor_status_of(WaitOutcome::Exited(spec_exit_code(s) as i32)) == Ok::<
            Option<ExitStatus>,
            WaitError,
        >(Some(s)),
{
}

} // verus!
