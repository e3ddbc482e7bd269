//! A one-shot barrier between two processes, backed by pipes.
//!
//! A condition is a pipe: one end blocks reading a byte, the other releases it by
//! writing that byte or by closing. A checkpoint pairs the wait end of one
//! condition with the notify end of another, so that notifying one half releases
//! the peer and leaves the wait end on which the peer's answer arrives.

use std::io::{PipeReader, PipeWriter};
use vstd::prelude::*;

verus! {

/// The read end of a std pipe, opaque.
#[verifier::external_type_specification]
#[verifier::external_body]
pub struct ExPipeReader(std::io::PipeReader);

/// The write end of a std pipe, opaque.
#[verifier::external_type_specification]
#[verifier::external_body]
pub struct ExPipeWriter(std::io::PipeWriter);

/// Relies on std::io::pipe: opens a new anonymous pipe.
#[verifier::external_body]
fn open_pipe() -> (r: Result<(PipeReader, PipeWriter), std::io::Error>) {
    std::io::pipe()
}

/// Relies on `Write::write` of std::io::PipeWriter: writes the one byte `b`, or fails.
#[verifier::external_body]
fn write_byte(w: &mut PipeWriter, b: u8) -> (r: Result<usize, std::io::Error>)
    ensures
        r matches Ok(n) ==> n <= 1,
{
    std::io::Write::write(w, &[b])
}

/// Relies on `Read::read` of std::io::PipeReader: blocks until one byte or the end of the
/// pipe arrives, and says how many bytes came.
#[verifier::external_body]
fn read_byte(r: &mut PipeReader) -> (o: Result<usize, std::io::Error>)
    ensures
        o matches Ok(n) ==> n <= 1,
{
    std::io::Read::read(r, &mut [0u8; 1])
}

/// Why a checkpoint failed.
#[derive(Debug)]
pub enum CheckpointError {
    /// Opening a pipe failed.
    Pipe(std::io::Error),
    /// Reading the wait end failed.
    Wait(std::io::Error),
}

/// The end of a condition that blocks.
pub struct ConditionWait {
    read: PipeReader,
    pipe: Ghost<int>,
}

/// The end of a condition that releases the waiter.
pub struct ConditionNotify {
    write: PipeWriter,
    pipe: Ghost<int>,
}

/// A new condition: both ends of one pipe, labelled `pipe`.
fn condition(pipe: Ghost<int>) -> (r: Result<(ConditionWait, ConditionNotify), CheckpointError>)
    ensures
        r matches Ok((w, n)) ==> w.pipe_id() == pipe@ && n.pipe_id() == pipe@,
{
    match open_pipe() {
        Ok((read, write)) => Ok((ConditionWait { read, pipe }, ConditionNotify { write, pipe })),
        Err(e) => Err(CheckpointError::Pipe(e)),
    }
}

impl ConditionNotify {
    /// The pipe this end belongs to.
    pub closed spec fn pipe_id(&self) -> int {
        self.pipe@
    }

    /// Release the waiter: write the byte, then close. Closing releases the waiter too,
    /// so a failed write changes nothing.
    pub fn notify(self) {
        let mut w = self.write;
        let _ = write_byte(&mut w, 1u8);
    }
}

impl ConditionWait {
    /// The pipe this end belongs to.
    pub closed spec fn pipe_id(&self) -> int {
        self.pipe@
    }

    /// Block until the notify end writes or closes.
    pub fn wait(self) -> (r: Result<(), CheckpointError>) {
        let mut r = self.read;
        match read_byte(&mut r) {
            Ok(_) => Ok(()),
            Err(e) => Err(CheckpointError::Wait(e)),
        }
    }
}

/// One half of a cross-process barrier: the wait end of one condition and the notify end
/// of the other.
pub struct Checkpoint(ConditionWait, ConditionNotify);

impl Checkpoint {
    /// The pipe on which this half waits.
    pub closed spec fn wait_pipe(&self) -> int {
        self.0.pipe_id()
    }

    /// The pipe through which this half releases its peer.
    pub closed spec fn notify_pipe(&self) -> int {
        self.1.pipe_id()
    }

    /// Release the peer, and keep the end on which the peer's answer arrives.
    pub fn notify(self) -> (r: ConditionWait)
        ensures
            r.pipe_id() == self.wait_pipe(),
    {
        self.1.notify();
        self.0
    }

    /// Wait for the peer, and keep the end with which to answer it.
    pub fn wait(self) -> (r: Result<ConditionNotify, CheckpointError>)
        ensures
            r matches Ok(n) ==> n.pipe_id() == self.notify_pipe(),
    {
        self.0.wait()?;
        Ok(self.1)
    }
}

/// A pair of checkpoint halves: each half notifies the pipe on which the other waits, and
/// waits on a pipe other than the one it notifies.
pub fn checkpoints() -> (r: Result<(Checkpoint, Checkpoint), CheckpointError>)
    ensures
        r matches Ok((a, b)) ==> {
            &&& a.notify_pipe() == b.wait_pipe()
            &&& b.notify_pipe() == a.wait_pipe()
            &&& a.wait_pipe() != a.notify_pipe()
        },
{
    let (aw, an) = condition(Ghost(0int))?;
    let (bw, bn) = condition(Ghost(1int))?;
    Ok((Checkpoint(aw, bn), Checkpoint(bw, an)))
}

} // verus!
