//! Control of a launched container process: signals to its process group and the
//! start handshake with init.

use crate::checkpoint::{Checkpoint, ConditionWait};
use nix::errno::Errno;
use nix::sys::signal::Signal;
use vstd::prelude::*;

verus! {

/// nix's signal numbers, variants visible.
#[verifier::external_type_specification]
pub struct ExSignal(nix::sys::signal::Signal);

/// nix's `errno` values, variants visible.
#[verifier::external_type_specification]
pub struct ExErrno(nix::errno::Errno);

/// Seconds that init has to acknowledge its start before its process group is killed.
pub const SPAWN_TIMEOUT_SECS: u64 = 5;

/// Why a signal could not be sent.
#[derive(Clone, Copy, Debug)]
pub enum KillError {
    /// `kill(2)` failed with this `errno`.
    Os(Errno),
}

/// The target of `kill(2)` that reaches every process of the group led by `pid`.
pub open spec fn group_of(pid: u32) -> i32 {
    (-(pid as int)) as i32
}

/// Relies on nix::sys::signal::kill: sends `signal` to `target` (a negative target names a
/// process group).
#[verifier::external_body]
fn send_signal(target: i32, signal: Signal) -> (r: Result<(), Errno>) {
    nix::sys::signal::kill(nix::unistd::Pid::from_raw(target), signal)
}

/// The outcome of signalling a group: a group that is gone (`ESRCH`) has already been
/// reaped, which is no failure.
pub fn kill_result(r: Result<(), Errno>) -> (o: Result<(), KillError>)
    ensures
        match r {
            Ok(()) => o is Ok,
            Err(e) => if e == Errno::ESRCH {
                o is Ok
            } else {
                o == Err::<(), KillError>(KillError::Os(e))
            },
        },
{
    match r {
        Ok(()) => Ok(()),
        Err(Errno::ESRCH) => Ok(()),
        Err(e) => Err(KillError::Os(e)),
    }
}

/// What the launcher does once init had the chance to acknowledge its start.
#[derive(Clone, Copy, Debug, PartialEq, Eq, Structural)]
pub enum SpawnAction {
    /// Init acknowledged: nothing to do.
    Started,
    /// Init stayed silent: send `SIGKILL` to this target, its whole process group.
    KillGroup(i32),
}

/// A container process: init, cloned into new namespaces, waiting for its start.
pub struct Process {
    pid: u32,
    checkpoint: Option<Checkpoint>,
}

impl Process {
    /// Init's pid is one that `kill(2)` can negate.
    pub closed spec fn wf(&self) -> bool {
        1 <= self.pid <= i32::MAX
    }

    /// The process `pid`, which waits behind `checkpoint` for its start.
    pub fn new(pid: u32, checkpoint: Checkpoint) -> (r: Option<Process>)
        ensures
            r is Some <==> 1 <= pid <= i32::MAX,
            r matches Some(p) ==> p.wf() && p.spec_pid() == pid && p.spec_startable(),
    {
        if pid >= 1 && pid <= i32::MAX as u32 {
            Some(Process { pid, checkpoint: Some(checkpoint) })
        } else {
            None
        }
    }

    pub closed spec fn spec_pid(&self) -> u32 {
        self.pid
    }

    /// The start has not been given yet.
    pub closed spec fn spec_startable(&self) -> bool {
        self.checkpoint is Some
    }

    /// The start has not been given yet.
    pub fn is_startable(&self) -> (r: bool)
        ensures
            r == self.spec_startable(),
    {
        self.checkpoint.is_some()
    }

    /// The process id of init.
    pub fn pid(&self) -> (r: u32)
        requires
            self.wf(),
        ensures
            r == self.spec_pid(),
            1 <= r <= i32::MAX,
    {
        self.pid
    }

    /// The target that reaches init's whole process group.
    pub fn process_group(&self) -> (r: i32)
        requires
            self.wf(),
        ensures
            r == group_of(self.spec_pid()),
            r < 0,
    {
        -(self.pid as i32)
    }

    /// Release init: notify its checkpoint and hand back the half on which its
    /// acknowledgement arrives.
    pub fn start(&mut self) -> (r: ConditionWait)
        requires
            old(self).wf(),
            old(self).spec_startable(),
        ensures
            final(self).wf(),
            final(self).spec_pid() == old(self).spec_pid(),
            !final(self).spec_startable(),
    {
        let checkpoint = self.checkpoint.take();
        checkpoint.unwrap().notify()
    }

    /// What to do once the acknowledgement arrived (`acknowledged`) or the
    /// `SPAWN_TIMEOUT_SECS` deadline passed without it.
    pub fn spawn_action(&self, acknowledged: bool) -> (r: SpawnAction)
        requires
            self.wf(),
        ensures
            acknowledged ==> r == SpawnAction::Started,
            !acknowledged ==> r == SpawnAction::KillGroup(group_of(self.spec_pid())),
    {
        if acknowledged {
            SpawnAction::Started
        } else {
            SpawnAction::KillGroup(self.process_group())
        }
    }

    /// Kill init's process group after it failed to acknowledge its start in time.
    pub fn kill_unstarted(&self) -> (r: Result<(), KillError>)
        requires
            self.wf(),
        ensures
            r matches Err(KillError::Os(e)) ==> e != Errno::ESRCH,
    {
        kill_result(send_signal(self.process_group(), Signal::SIGKILL))
    }

    /// Send `signal` to init's process group. A group that no longer exists has already been
    /// reaped: that is a success.
    pub fn kill(&self, signal: Signal) -> (r: Result<(), KillError>)
        requires
            self.wf(),
        ensures
            r matches Err(KillError::Os(e)) ==> e != Errno::ESRCH,
    {
        kill_result(send_signal(self.process_group(), signal))
    }
}

} // verus!
