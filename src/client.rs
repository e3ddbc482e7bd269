//! The decisions of the control-plane client: a multiplexer that keeps at most one
//! request in flight on a connection, and the narrowing of responses.
//!
//! The task that owns the connection feeds each event to [`Mux::step`] and performs
//! the action it returns; waiters are named by numbers that the task hands out.

use vstd::prelude::*;

verus! {

/// Errors of the client.
#[derive(Debug)]
pub enum Error<E> {
    /// The transport failed.
    Io(std::io::Error),
    /// The connection could not be made in time.
    Timeout,
    /// The task behind the client has exited.
    Stopped,
    /// The peer sent a message that the protocol does not allow here.
    Protocol,
    /// A request is already in flight on this connection.
    PendingRequest,
    /// The runtime answered with this error.
    Api(E),
}

/// A response of the runtime.
#[derive(Debug)]
pub enum Response<C, R, E> {
    Success,
    Containers(C),
    Repositories(R),
    Failed(E),
}

/// What the multiplexer task observes.
#[derive(Clone, Copy, Debug, PartialEq, Eq, Structural)]
pub enum Event {
    /// A response arrived on the connection.
    Response,
    /// A notification arrived on the connection.
    Notification,
    /// A request arrived on the connection.
    Request,
    /// Reading the connection failed.
    ReadFailed,
    /// The connection was closed by the peer.
    Eof,
    /// Waiter `w` submitted a request.
    Submitted(u64),
    /// Sending the request of waiter `w` succeeded (`true`) or failed.
    Sent(u64, bool),
    /// The client side has dropped its request channel.
    Closed,
}

/// How the multiplexer task ends.
#[derive(Clone, Copy, Debug, PartialEq, Eq, Structural)]
pub enum Exit {
    /// Cleanly.
    Done,
    /// With a protocol error.
    Protocol,
    /// With a transport error.
    Io,
}

/// What the multiplexer task does next.
#[derive(Clone, Copy, Debug, PartialEq, Eq, Structural)]
pub enum Action {
    /// Hand the response to waiter `w`.
    Deliver(u64),
    /// Push the notification to the notification channel.
    Forward,
    /// Fail waiter `w` with [`Error::PendingRequest`].
    Reject(u64),
    /// Send the request of waiter `w` on the connection.
    Send(u64),
    /// Fail waiter `w` with the transport error of its send.
    FailSend(u64),
    /// Nothing to do.
    Idle,
    /// End the task.
    Stop(Exit),
}

/// One step of the multiplexer from the waiter in flight, if any: the next one and the action.
pub open spec fn spec_step(pending: Option<u64>, e: Event) -> (Option<u64>, Action) {
    match e {
        Event::Response => match pending {
            Some(w) => (None, Action::Deliver(w)),
            None => (None, Action::Stop(Exit::Protocol)),
        },
        Event::Notification => (pending, Action::Forward),
        Event::Request => (pending, Action::Stop(Exit::Protocol)),
        Event::ReadFailed => (pending, Action::Stop(Exit::Io)),
        Event::Eof => (pending, Action::Stop(Exit::Done)),
        Event::Submitted(w) => if pending is Some {
            (pending, Action::Reject(w))
        } else {
            (pending, Action::Send(w))
        },
        Event::Sent(w, ok) => if ok {
            (Some(w), Action::Idle)
        } else {
            (pending, Action::FailSend(w))
        },
        Event::Closed => (pending, Action::Stop(Exit::Done)),
    }
}

/// The multiplexer: the waiter whose request is in flight, if any.
pub struct Mux {
    pub pending: Option<u64>,
}

impl Mux {
    /// A multiplexer with no request in flight.
    pub fn new() -> (r: Mux)
        ensures
            r.pending is None,
    {
        Mux { pending: None }
    }

    /// Take `e` into account and say what to do.
    pub fn step(&mut self, e: Event) -> (r: Action)
        ensures
            (final(self).pending, r) == spec_step(old(self).pending, e),
    {
        match e {
            Event::Response => match self.pending.take() {
                Some(w) => Action::Deliver(w),
                None => Action::Stop(Exit::Protocol),
            },
            Event::Notification => Action::Forward,
            Event::Request => Action::Stop(Exit::Protocol),
            Event::ReadFailed => Action::Stop(Exit::Io),
            Event::Eof => Action::Stop(Exit::Done),
            Event::Submitted(w) => {
                if self.pending.is_some() {
                    Action::Reject(w)
                } else {
                    Action::Send(w)
                }
            },
            Event::Sent(w, ok) => {
                if ok {
                    self.pending = Some(w);
                    Action::Idle
                } else {
                    Action::FailSend(w)
                }
            },
            Event::Closed => Action::Stop(Exit::Done),
        }
    }
}

/// The multiplexer run over `events` from `pending`: the waiter in flight at the end, and
/// the actions, one per event, up to and including the first `Stop`.
pub open spec fn run_events(pending: Option<u64>, events: Seq<Event>) -> (Option<u64>, Seq<Action>)
    decreases events.len(),
{
    if events.len() == 0 {
        (pending, Seq::empty())
    } else {
        let (p, a) = spec_step(pending, events[0]);
        if a is Stop {
            (p, seq![a])
        } else {
            let (q, rest) = run_events(p, events.subrange(1, events.len() as int));
            (q, seq![a] + rest)
        }
    }
}

/// The waiter whose request was last sent with success in `events`, unless a response has
/// been handed out since.
pub open spec fn awaiting(pending: Option<u64>, events: Seq<Event>) -> Option<u64>
    decreases events.len(),
{
    if events.len() == 0 {
        pending
    } else {
        let p = awaiting(pending, events.drop_last());
        match events.last() {
            Event::Response => None,
            Event::Sent(w, true) => Some(w),
            _ => p,
        }
    }
}

/// A response goes to the waiter that issued the request in flight, and to no other: run
/// from the waiter `pending` over `events`, then a response arrives; it is handed to the
/// waiter whose request was last sent with success and not yet answered, and when there is
/// none the task ends with a protocol error instead of handing it to anybody.
pub proof fn lemma_response_to_issuer(pending: Option<u64>, events: Seq<Event>)
    requires
        !run_events(pending, events).1.contains(Action::Stop(Exit::Protocol)),
        !run_events(pending, events).1.contains(Action::Stop(Exit::Io)),
        !run_events(pending, events).1.contains(Action::Stop(Exit::Done)),
    ensures
        run_events(pending, events).0 == awaiting(pending, events),
        spec_step(run_events(pending, events).0, Event::Response).1 == match awaiting(pending, events) {
            Some(w) => Action::Deliver(w),
            None => Action::Stop(Exit::Protocol),
        },
{
    lemma_run_tracks_awaiting(pending, events);
}

/// Without a stop, the waiter in flight after a run is the one [`awaiting`] names.
proof fn lemma_run_tracks_awaiting(pending: Option<u64>, events: Seq<Event>)
    requires
        forall|i: int| 0 <= i < run_events(pending, events).1.len() ==> !(#[trigger] run_events(pending, events).1[i] is Stop),
    ensures
        run_events(pending, events).0 == awaiting(pending, events),
    decreases events.len(),
{
    if events.len() > 0 {
        let (p, a) = spec_step(pending, events[0]);
        assert(run_events(pending, events).1[0] == a);
        let tail = events.subrange(1, events.len() as int);
        let r = run_events(p, tail);
        assert(run_events(pending, events).1 == seq![a] + r.1);
        assert forall|i: int| 0 <= i < r.1.len() implies !(#[trigger] r.1[i] is Stop) by {
            assert(run_events(pending, events).1[i + 1] == r.1[i]);
        }
        lemma_run_tracks_awaiting(p, tail);
        lemma_awaiting_front(pending, events);
    }
}

/// [`awaiting`] may also be computed from the front.
proof fn lemma_awaiting_front(pending: Option<u64>, events: Seq<Event>)
    requires
        events.len() > 0,
    ensures
        awaiting(pending, events) == awaiting(
            spec_step(pending, events[0]).0,
            events.subrange(1, events.len() as int),
        ),
    decreases events.len(),
{
    let tail = events.subrange(1, events.len() as int);
    let p = spec_step(pending, events[0]).0;
    if events.len() == 1 {
        assert(events.drop_last() =~= Seq::<Event>::empty());
        assert(tail =~= Seq::<Event>::empty());
    } else {
        let init = events.drop_last();
        lemma_awaiting_front(pending, init);
        assert(init.subrange(1, init.len() as int) =~= tail.drop_last());
        assert(init[0] == events[0]);
        assert(tail.last() == events.last());
    }
}

/// Narrow a response to the answer of a `start` or `stop` request.
pub fn unit_response<C, R, E>(r: Response<C, R, E>) -> (o: Result<(), Error<E>>)
    ensures
        match r {
            Response::Success => o is Ok,
            Response::Failed(e) => o matches Err(Error::Api(x)) && x == e,
            _ => o matches Err(Error::Protocol),
        },
{
    match r {
        Response::Success => Ok(()),
        Response::Containers(_) => Err(Error::Protocol),
        Response::Repositories(_) => Err(Error::Protocol),
        Response::Failed(e) => Err(Error::Api(e)),
    }
}

/// Narrow a response to the answer of a `containers` request.
pub fn containers_response<C, R, E>(r: Response<C, R, E>) -> (o: Result<C, Error<E>>)
    ensures
        match r {
            Response::Containers(c) => o matches Ok(x) && x == c,
            Response::Failed(e) => o matches Err(Error::Api(x)) && x == e,
            _ => o matches Err(Error::Protocol),
        },
{
    match r {
        Response::Success => Err(Error::Protocol),
        Response::Containers(c) => Ok(c),
        Response::Repositories(_) => Err(Error::Protocol),
        Response::Failed(e) => Err(Error::Api(e)),
    }
}

/// Narrow a response to the answer of a `repositories` request.
pub fn repositories_response<C, R, E>(r: Response<C, R, E>) -> (o: Result<R, Error<E>>)
    ensures
        match r {
            Response::Repositories(x) => o matches Ok(y) && y == x,
            Response::Failed(e) => o matches Err(Error::Api(x)) && x == e,
            _ => o matches Err(Error::Protocol),
        },
{
    match r {
        Response::Success => Err(Error::Protocol),
        Response::Containers(_) => Err(Error::Protocol),
        Response::Repositories(x) => Ok(x),
        Response::Failed(e) => Err(Error::Api(e)),
    }
}

} // verus!
