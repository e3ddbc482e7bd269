//! Length-delimited framing of a byte stream: each frame is its payload's length in
//! eight little-endian bytes, then the payload. A reader that reaches the end of the
//! stream between two frames sees a clean close; inside a frame, a short frame.

use crate::nonnul::extend_bytes;
use crate::message::{enc_u64, parse_u64};
use vstd::bytes::*;
use vstd::prelude::*;

verus! {

/// The frame that carries `payload`.
pub open spec fn enc_frame(payload: Seq<u8>) -> Seq<u8> {
    enc_u64(payload.len() as int) + payload
}

/// The first whole frame of `s`: its payload and what follows it.
pub open spec fn parse_frame(s: Seq<u8>) -> Option<(Seq<u8>, Seq<u8>)> {
    match parse_u64(s) {
        Some((n, r)) => if n <= r.len() {
            Some((r.subrange(0, n as int), r.subrange(n as int, r.len() as int)))
        } else {
            None
        },
        None => None,
    }
}

/// The frames of `ps`, one after the other.
pub open spec fn enc_frames(ps: Seq<Seq<u8>>) -> Seq<u8>
    decreases ps.len(),
{
    if ps.len() == 0 {
        Seq::empty()
    } else {
        enc_frame(ps[0]) + enc_frames(ps.subrange(1, ps.len() as int))
    }
}

/// Frame `payload`.
pub fn frame(payload: &Vec<u8>) -> (r: Vec<u8>)
    ensures
        r@ == enc_frame(payload@),
{
    let mut r = u64_to_le_bytes(payload.len() as u64);
    extend_bytes(&mut r, payload);
    r
}

/// How a stream ended.
#[derive(Clone, Copy, Debug, PartialEq, Eq, Structural)]
pub enum StreamEnd {
    /// At a frame boundary: the peer closed.
    Closed,
    /// Inside a frame.
    ShortFrame,
}

/// The bytes received and not yet taken as frames.
pub struct Deframer {
    buf: Vec<u8>,
}

impl View for Deframer {
    type V = Seq<u8>;

    closed spec fn view(&self) -> Seq<u8> {
        self.buf@
    }
}

impl Deframer {
    /// Nothing received yet.
    pub fn new() -> (r: Deframer)
        ensures
            r@ == Seq::<u8>::empty(),
    {
        Deframer { buf: Vec::new() }
    }

    /// Take in bytes received from the stream.
    pub fn push(&mut self, bytes: &[u8])
        ensures
            final(self)@ == old(self)@ + bytes@,
    {
        let mut i: usize = 0;
        while i < bytes.len()
            invariant
                0 <= i <= bytes@.len(),
                self.buf@ == old(self)@ + bytes@.subrange(0, i as int),
            decreases bytes@.len() - i,
        {
            self.buf.push(bytes[i]);
            i = i + 1;
            assert(self.buf@ =~= old(self)@ + bytes@.subrange(0, i as int));
        }
        assert(bytes@.subrange(0, bytes@.len() as int) =~= bytes@);
    }

    /// The payload of the first whole frame, which leaves the buffer; `None` while the
    /// first frame is incomplete.
    pub fn next_frame(&mut self) -> (r: Option<Vec<u8>>)
        ensures
            match parse_frame(old(self)@) {
                Some((p, rest)) => r matches Some(v) && v@ == p && final(self)@ == rest,
                None => r is None && final(self)@ == old(self)@,
            },
    {
        if self.buf.len() < 8 {
            return None;
        }
        let ghost s = self.buf@;
        let n = u64_from_le_bytes(vstd::slice::slice_subrange(self.buf.as_slice(), 0, 8));
        assert(s.subrange(0, 8) =~= self.buf@.subrange(0, 8));
        if n > (self.buf.len() - 8) as u64 {
            return None;
        }
        let end = 8 + n as usize;
        let mut payload: Vec<u8> = Vec::new();
        let mut rest: Vec<u8> = Vec::new();
        let mut i: usize = 8;
        while i < self.buf.len()
            invariant
                self.buf@ == s,
                8 <= end <= s.len(),
                8 <= i <= s.len(),
                i <= end ==> payload@ == s.subrange(8, i as int) && rest@.len() == 0,
                i > end ==> payload@ == s.subrange(8, end as int) && rest@ == s.subrange(end as int, i as int),
            decreases s.len() - i,
        {
            if i < end {
                payload.push(self.buf[i]);
            } else {
                rest.push(self.buf[i]);
            }
            i = i + 1;
            assert(i <= end ==> payload@ =~= s.subrange(8, i as int));
            assert(i > end ==> payload@ =~= s.subrange(8, end as int));
            assert(i > end ==> rest@ =~= s.subrange(end as int, i as int));
        }
        proof {
            let r = s.subrange(8, s.len() as int);
            assert(r.subrange(0, n as int) =~= s.subrange(8, end as int));
            assert(r.subrange(n as int, r.len() as int) =~= s.subrange(end as int, s.len() as int));
            if end == s.len() {
                assert(rest@ =~= s.subrange(end as int, s.len() as int));
            }
        }
        self.buf = rest;
        Some(payload)
    }

    /// The stream ended: cleanly when no byte of a frame is pending, else a short frame.
    pub fn end(&self) -> (r: StreamEnd)
        ensures
            r == (if self@.len() == 0 {
                StreamEnd::Closed
            } else {
                StreamEnd::ShortFrame
            }),
    {
        if self.buf.len() == 0 {
            StreamEnd::Closed
        } else {
            StreamEnd::ShortFrame
        }
    }
}

/// Reading a frame off its encoding gives back the payload and what follows.
pub proof fn lemma_frame_round_trip(payload: Seq<u8>, rest: Seq<u8>)
    requires
        payload.len() <= u64::MAX,
    ensures
        parse_frame(enc_frame(payload) + rest) == Some((payload, rest)),
{
    lemma_auto_spec_u64_to_from_le_bytes();
    let s = enc_frame(payload) + rest;
    let b = spec_u64_to_le_bytes(payload.len() as u64);
    assert(s.subrange(0, 8) =~= b);
    let r = s.subrange(8, s.len() as int);
    assert(r =~= payload + rest);
    assert(r.subrange(0, payload.len() as int) =~= payload);
    assert(r.subrange(payload.len() as int, r.len() as int) =~= rest);
}

/// A stream of frames splits back into its payloads, in order, and leaves nothing behind.
pub proof fn lemma_frames_split(ps: Seq<Seq<u8>>)
    requires
        forall|i: int| 0 <= i < ps.len() ==> (#[trigger] ps[i]).len() <= u64::MAX,
    ensures
        ps.len() > 0 ==> parse_frame(enc_frames(ps)) == Some(
            (ps[0], enc_frames(ps.subrange(1, ps.len() as int))),
        ),
        ps.len() == 0 ==> enc_frames(ps).len() == 0,
{
    if ps.len() > 0 {
        lemma_frame_round_trip(ps[0], enc_frames(ps.subrange(1, ps.len() as int)));
    }
}

} // verus!
