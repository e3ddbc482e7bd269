//! The runtime's view of the messages that init sends: every `Forked { pid }` is
//! followed by exactly one `Exit { pid, .. }` before any other `Forked`.

use crate::message::{Message, MessageView};
use vstd::prelude::*;

verus! {

/// A message that breaks the protocol.
#[derive(Clone, Copy, Debug, PartialEq, Eq, Structural)]
pub enum ProtocolError {
    /// A `Forked` while a child is still running.
    ForkedTwice,
    /// An `Exit` for no running child, or for another one.
    StrayExit,
    /// An `Exec`, which only the runtime sends.
    Exec,
}

/// The child that runs after `m` was observed while `running` ran, or `None` when `m` breaks
/// the protocol.
pub open spec fn track(running: Option<u32>, m: MessageView) -> Option<Option<u32>> {
    match m {
        MessageView::Forked { pid } => if running is None {
            Some(Some(pid))
        } else {
            None
        },
        MessageView::Exit { pid, .. } => if running == Some(pid) {
            Some(None)
        } else {
            None
        },
        MessageView::Exec { .. } => None,
    }
}

/// The child that runs after the whole of `ms`, or `None` when one of them breaks the
/// protocol.
pub open spec fn track_all(running: Option<u32>, ms: Seq<MessageView>) -> Option<Option<u32>>
    decreases ms.len(),
{
    if ms.len() == 0 {
        Some(running)
    } else {
        match track(running, ms[0]) {
            Some(r) => track_all(r, ms.subrange(1, ms.len() as int)),
            None => None,
        }
    }
}

/// The runtime's record of the child that init runs.
pub struct ChildTracker {
    pub running: Option<u32>,
}

impl ChildTracker {
    /// No child runs yet.
    pub fn new() -> (r: ChildTracker)
        ensures
            r.running is None,
    {
        ChildTracker { running: None }
    }

    /// Take the message `m` into account, or say how it breaks the protocol.
    pub fn observe(&mut self, m: &Message) -> (r: Result<(), ProtocolError>)
        ensures
            match track(old(self).running, m@) {
                Some(next) => r is Ok && final(self).running == next,
                None => r is Err && final(self).running == old(self).running,
            },
    {
        match m {
            Message::Forked { pid } => {
                if self.running.is_none() {
                    self.running = Some(*pid);
                    Ok(())
                } else {
                    Err(ProtocolError::ForkedTwice)
                }
            },
            Message::Exit { pid, .. } => {
                match self.running {
                    Some(p) => {
                        if p == *pid {
                            self.running = None;
                            Ok(())
                        } else {
                            Err(ProtocolError::StrayExit)
                        }
                    },
                    None => Err(ProtocolError::StrayExit),
                }
            },
            Message::Exec { .. } => Err(ProtocolError::Exec),
        }
    }
}

/// `m` is `Forked { pid }`.
pub open spec fn is_forked(m: MessageView, pid: u32) -> bool {
    m matches MessageView::Forked { pid: p } && p == pid
}

/// `m` is `Exit { pid, .. }`.
pub open spec fn is_exit(m: MessageView, pid: u32) -> bool {
    m matches MessageView::Exit { pid: p, .. } && p == pid
}

/// In a stream that keeps the protocol, a `Forked { pid }` is followed right away by the one
/// `Exit { pid, .. }`, unless the stream ends first with that child still running; and every
/// `Exit { pid, .. }` answers the `Forked { pid }` right before it, or the child that ran when
/// the stream began.
pub proof fn lemma_forked_then_one_exit(running: Option<u32>, ms: Seq<MessageView>)
    requires
        track_all(running, ms) is Some,
    ensures
        forall|i: int, pid: u32|
            0 <= i < ms.len() && #[trigger] is_forked(ms[i], pid) ==> if i + 1 < ms.len() {
                is_exit(ms[i + 1], pid)
            } else {
                track_all(running, ms) == Some(Some(pid))
            },
        forall|j: int, pid: u32|
            0 <= j < ms.len() && #[trigger] is_exit(ms[j], pid) ==> if j == 0 {
                running == Some(pid)
            } else {
                is_forked(ms[j - 1], pid)
            },
    decreases ms.len(),
{
    if ms.len() > 0 {
        let r = track(running, ms[0]).unwrap();
        let tail = ms.subrange(1, ms.len() as int);
        lemma_forked_then_one_exit(r, tail);
        assert forall|i: int, pid: u32|
            0 <= i < ms.len() && #[trigger] is_forked(ms[i], pid) implies if i + 1 < ms.len() {
            is_exit(ms[i + 1], pid)
        } else {
            track_all(running, ms) == Some(Some(pid))
        } by {
            if i == 0 {
                if tail.len() > 0 {
                    assert(tail[0] == ms[1]);
                    assert(track(r, tail[0]) is Some);
                }
            } else {
                assert(ms[i] == tail[i - 1]);
                assert(is_forked(tail[i - 1], pid));
                if i + 1 < ms.len() {
                    assert(ms[i + 1] == tail[i]);
                }
            }
        }
        assert forall|j: int, pid: u32|
            0 <= j < ms.len() && #[trigger] is_exit(ms[j], pid) implies if j == 0 {
            running == Some(pid)
        } else {
            is_forked(ms[j - 1], pid)
        } by {
            if j > 0 {
                assert(ms[j] == tail[j - 1]);
                assert(is_exit(tail[j - 1], pid));
                if j == 1 {
                    assert(r == Some(pid));
                } else {
                    assert(ms[j - 1] == tail[j - 2]);
                }
            }
        }
    }
}

/// What init sends for the one application it runs, `Forked { pid }` then
/// `Exit { pid, exit_status }`, keeps the protocol and leaves no child running.
pub proof fn lemma_init_conversation(pid: u32, exit_status: crate::exit::ExitStatus)
    ensures
        track_all(
            None,
            seq![MessageView::Forked { pid }, MessageView::Exit { pid, exit_status }],
        ) == Some(None::<u32>),
{
    let ms = seq![MessageView::Forked { pid }, MessageView::Exit { pid, exit_status }];
    let t = ms.subrange(1, 2);
    assert(ms[0] == MessageView::Forked { pid });
    assert(t[0] == MessageView::Exit { pid, exit_status });
    let e = t.subrange(1, 1);
    assert(e =~= Seq::<MessageView>::empty());
    assert(track_all(None, e) == Some(None::<u32>));
    assert(track(Some(pid), t[0]) == Some(None::<u32>));
    assert(track_all(Some(pid), t) == track_all(None, e));
    assert(track(None, ms[0]) == Some(Some(pid)));
    assert(track_all(None, ms) == track_all(Some(pid), t));
}

} // verus!
