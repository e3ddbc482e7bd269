//! The messages between the runtime and init, and their binary encoding.
//!
//! Every integer is little endian. A message starts with a tag byte: `0` for
//! `Forked`, `1` for `Exit`, `2` for `Exec`. A pid takes four bytes; a string
//! takes its length in eight bytes, then its bytes; a list of strings takes its
//! count in eight bytes, then each string. An exit status is `0` and the code in
//! four bytes, or `1` and the signal number in one byte.

use crate::exit::ExitStatus;
use crate::launch::strs;
use crate::nonnul::{extend_bytes, no_nul, NonNulString};
use vstd::bytes::*;
use vstd::prelude::*;
use vstd::slice::{slice_subrange, slice_to_vec};

verus! {

/// A message from the runtime to init or back.
pub enum Message {
    /// Init forked the application with `pid`.
    Forked { pid: u32 },
    /// The application `pid` ended with `exit_status`.
    Exit { pid: u32, exit_status: ExitStatus },
    /// Execute `path` with `args` and `env`.
    Exec { path: NonNulString, args: Vec<NonNulString>, env: Vec<NonNulString> },
}

/// The mathematical value of a message.
pub enum MessageView {
    Forked { pid: u32 },
    Exit { pid: u32, exit_status: ExitStatus },
    Exec { path: Seq<u8>, args: Seq<Seq<u8>>, env: Seq<Seq<u8>> },
}

impl View for Message {
    type V = MessageView;

    open spec fn view(&self) -> MessageView {
        match self {
            Message::Forked { pid } => MessageView::Forked { pid: *pid },
            Message::Exit { pid, exit_status } => MessageView::Exit {
                pid: *pid,
                exit_status: *exit_status,
            },
            Message::Exec { path, args, env } => MessageView::Exec {
                path: path@,
                args: strs(args@),
                env: strs(env@),
            },
        }
    }
}

/// Every string of the list is free of NUL bytes.
pub open spec fn all_no_nul(l: Seq<Seq<u8>>) -> bool {
    forall|i: int| 0 <= i < l.len() ==> no_nul(#[trigger] l[i])
}

impl MessageView {
    /// What a message can hold: strings without NUL, and no more of them than a count holds.
    pub open spec fn wf(self) -> bool {
        match self {
            MessageView::Exec { path, args, env } => no_nul(path) && all_no_nul(args)
                && all_no_nul(env) && path.len() <= u64::MAX && args.len() <= u64::MAX
                && env.len() <= u64::MAX && (forall|i: int|
                0 <= i < args.len() ==> (#[trigger] args[i]).len() <= u64::MAX) && (forall|i: int|
                0 <= i < env.len() ==> (#[trigger] env[i]).len() <= u64::MAX),
            _ => true,
        }
    }
}

pub open spec fn enc_u64(x: int) -> Seq<u8> {
    spec_u64_to_le_bytes(x as u64)
}

/// A string: its length, then its bytes.
pub open spec fn enc_str(s: Seq<u8>) -> Seq<u8> {
    enc_u64(s.len() as int) + s
}

/// The strings of a list, one after the other.
pub open spec fn enc_items(l: Seq<Seq<u8>>) -> Seq<u8>
    decreases l.len(),
{
    if l.len() == 0 {
        Seq::empty()
    } else {
        enc_str(l[0]) + enc_items(l.subrange(1, l.len() as int))
    }
}

/// A list of strings: its count, then the strings.
pub open spec fn enc_list(l: Seq<Seq<u8>>) -> Seq<u8> {
    enc_u64(l.len() as int) + enc_items(l)
}

pub open spec fn enc_status(s: ExitStatus) -> Seq<u8> {
    match s {
        ExitStatus::Exit(code) => seq![0u8] + spec_u32_to_le_bytes(code as u32),
        ExitStatus::Signalled(sig) => seq![1u8, sig],
    }
}

/// The encoding of a message.
pub open spec fn spec_encode(m: MessageView) -> Seq<u8> {
    match m {
        MessageView::Forked { pid } => seq![0u8] + spec_u32_to_le_bytes(pid),
        MessageView::Exit { pid, exit_status } => seq![1u8] + spec_u32_to_le_bytes(pid)
            + enc_status(exit_status),
        MessageView::Exec { path, args, env } => seq![2u8] + enc_str(path) + enc_list(args)
            + enc_list(env),
    }
}

/// Reads a four-byte integer off the front of `s`.
pub open spec fn parse_u32(s: Seq<u8>) -> Option<(u32, Seq<u8>)> {
    if s.len() >= 4 {
        Some((spec_u32_from_le_bytes(s.subrange(0, 4)), s.subrange(4, s.len() as int)))
    } else {
        None
    }
}

/// Reads an eight-byte integer off the front of `s`.
pub open spec fn parse_u64(s: Seq<u8>) -> Option<(u64, Seq<u8>)> {
    if s.len() >= 8 {
        Some((spec_u64_from_le_bytes(s.subrange(0, 8)), s.subrange(8, s.len() as int)))
    } else {
        None
    }
}

/// Reads a string without NUL off the front of `s`.
pub open spec fn parse_str(s: Seq<u8>) -> Option<(Seq<u8>, Seq<u8>)> {
    match parse_u64(s) {
        Some((n, r)) => if n <= r.len() && no_nul(r.subrange(0, n as int)) {
            Some((r.subrange(0, n as int), r.subrange(n as int, r.len() as int)))
        } else {
            None
        },
        None => None,
    }
}

/// Reads `k` strings off the front of `s`.
pub open spec fn parse_items(s: Seq<u8>, k: nat) -> Option<(Seq<Seq<u8>>, Seq<u8>)>
    decreases k,
{
    if k == 0 {
        Some((Seq::empty(), s))
    } else {
        match parse_str(s) {
            Some((x, r)) => match parse_items(r, (k - 1) as nat) {
                Some((xs, r2)) => Some((seq![x] + xs, r2)),
                None => None,
            },
            None => None,
        }
    }
}

/// Reads a counted list of strings off the front of `s`.
pub open spec fn parse_list(s: Seq<u8>) -> Option<(Seq<Seq<u8>>, Seq<u8>)> {
    match parse_u64(s) {
        Some((k, r)) => parse_items(r, k as nat),
        None => None,
    }
}

/// Reads an exit status off the front of `s`.
pub open spec fn parse_status(s: Seq<u8>) -> Option<(ExitStatus, Seq<u8>)> {
    if s.len() >= 1 && s[0] == 0 {
        match parse_u32(s.subrange(1, s.len() as int)) {
            Some((c, r)) => Some((ExitStatus::Exit(c as i32), r)),
            None => None,
        }
    } else if s.len() >= 2 && s[0] == 1 {
        Some((ExitStatus::Signalled(s[1]), s.subrange(2, s.len() as int)))
    } else {
        None
    }
}

/// The message that `s` holds, with no byte left over.
pub open spec fn parse_message(s: Seq<u8>) -> Option<MessageView> {
    if s.len() == 0 {
        None
    } else {
        let body = s.subrange(1, s.len() as int);
        if s[0] == 0 {
            match parse_u32(body) {
                Some((pid, r)) => if r.len() == 0 {
                    Some(MessageView::Forked { pid })
                } else {
                    None
                },
                None => None,
            }
        } else if s[0] == 1 {
            match parse_u32(body) {
                Some((pid, r)) => match parse_status(r) {
                    Some((st, r2)) => if r2.len() == 0 {
                        Some(MessageView::Exit { pid, exit_status: st })
                    } else {
                        None
                    },
                    None => None,
                },
                None => None,
            }
        } else if s[0] == 2 {
            match parse_str(body) {
                Some((path, r)) => match parse_list(r) {
                    Some((args, r2)) => match parse_list(r2) {
                        Some((env, r3)) => if r3.len() == 0 {
                            Some(MessageView::Exec { path, args, env })
                        } else {
                            None
                        },
                        None => None,
                    },
                    None => None,
                },
                None => None,
            }
        } else {
            None
        }
    }
}

proof fn lemma_enc_items_push(l: Seq<Seq<u8>>, x: Seq<u8>)
    ensures
        enc_items(l.push(x)) == enc_items(l) + enc_str(x),
    decreases l.len(),
{
    if l.len() == 0 {
        assert(l.push(x).subrange(1, 1) =~= Seq::<Seq<u8>>::empty());
        assert(enc_items(Seq::<Seq<u8>>::empty()) == Seq::<u8>::empty());
        assert(l.push(x)[0] == x);
        assert(enc_items(l.push(x)) =~= enc_str(x) + Seq::<u8>::empty());
    } else {
        let t = l.subrange(1, l.len() as int);
        lemma_enc_items_push(t, x);
        assert(l.push(x).subrange(1, l.len() as int + 1) =~= t.push(x));
        assert(l.push(x)[0] == l[0]);
        assert(enc_items(l.push(x)) =~= enc_items(l) + enc_str(x));
    }
}

/// Appends the encoding of a string.
fn put_str(out: &mut Vec<u8>, s: &NonNulString)
    ensures
        final(out)@ == old(out)@ + enc_str(s@),
{
    let n = u64_to_le_bytes(s.len() as u64);
    extend_bytes(out, &n);
    extend_bytes(out, s.as_bytes());
    assert(final(out)@ =~= old(out)@ + enc_str(s@));
}

/// Appends the encoding of a list of strings.
fn put_list(out: &mut Vec<u8>, l: &Vec<NonNulString>)
    ensures
        final(out)@ == old(out)@ + enc_list(strs(l@)),
{
    let n = u64_to_le_bytes(l.len() as u64);
    extend_bytes(out, &n);
    let ghost head = out@;
    assert(strs(l@).subrange(0, 0) =~= Seq::<Seq<u8>>::empty());
    let mut i: usize = 0;
    while i < l.len()
        invariant
            0 <= i <= l@.len(),
            head == old(out)@ + enc_u64(l@.len() as int),
            out@ == head + enc_items(strs(l@).subrange(0, i as int)),
        decreases l@.len() - i,
    {
        put_str(out, &l[i]);
        proof {
            let v = strs(l@);
            assert(v.subrange(0, i + 1) =~= v.subrange(0, i as int).push(v[i as int]));
            lemma_enc_items_push(v.subrange(0, i as int), v[i as int]);
        }
        i = i + 1;
        assert(out@ =~= head + enc_items(strs(l@).subrange(0, i as int)));
    }
    assert(strs(l@).subrange(0, l@.len() as int) =~= strs(l@));
    assert(final(out)@ =~= old(out)@ + enc_list(strs(l@)));
}

impl Message {
    /// Encode this message.
    pub fn encode(&self) -> (r: Vec<u8>)
        ensures
            r@ == spec_encode(self@),
    {
        let mut out: Vec<u8> = Vec::new();
        match self {
            Message::Forked { pid } => {
                out.push(0u8);
                extend_bytes(&mut out, &u32_to_le_bytes(*pid));
            },
            Message::Exit { pid, exit_status } => {
                out.push(1u8);
                extend_bytes(&mut out, &u32_to_le_bytes(*pid));
                match exit_status {
                    ExitStatus::Exit(code) => {
                        out.push(0u8);
                        extend_bytes(&mut out, &u32_to_le_bytes(*code as u32));
                    },
                    ExitStatus::Signalled(sig) => {
                        out.push(1u8);
                        out.push(*sig);
                    },
                }
            },
            Message::Exec { path, args, env } => {
                out.push(2u8);
                put_str(&mut out, path);
                put_list(&mut out, args);
                put_list(&mut out, env);
            },
        }
        assert(out@ =~= spec_encode(self@));
        out
    }

    /// Decode a message that fills `b` exactly.
    pub fn decode(b: &[u8]) -> (r: Option<Message>)
        ensures
            match r {
                Some(m) => parse_message(b@) == Some(m@),
                None => parse_message(b@) is None,
            },
    {
        if b.len() == 0 {
            return None;
        }
        let tag = b[0];
        assert(rest(b@, 1) =~= b@.subrange(1, b@.len() as int));
        if tag == 0 {
            match read_u32(b, 1) {
                Some((pid, p)) => if p == b.len() {
                    Some(Message::Forked { pid })
                } else {
                    None
                },
                None => None,
            }
        } else if tag == 1 {
            match read_u32(b, 1) {
                Some((pid, p)) => match read_status(b, p) {
                    Some((exit_status, p2)) => if p2 == b.len() {
                        Some(Message::Exit { pid, exit_status })
                    } else {
                        None
                    },
                    None => None,
                },
                None => None,
            }
        } else if tag == 2 {
            match read_str(b, 1) {
                Some((path, p)) => match read_list(b, p) {
                    Some((args, p2)) => match read_list(b, p2) {
                        Some((env, p3)) => if p3 == b.len() {
                            Some(Message::Exec { path, args, env })
                        } else {
                            None
                        },
                        None => None,
                    },
                    None => None,
                },
                None => None,
            }
        } else {
            None
        }
    }
}

/// What is left of `b` from `pos` on.
pub open spec fn rest(b: Seq<u8>, pos: int) -> Seq<u8> {
    b.subrange(pos, b.len() as int)
}

fn read_u32(b: &[u8], pos: usize) -> (r: Option<(u32, usize)>)
    requires
        pos <= b@.len(),
    ensures
        match r {
            Some((x, p)) => pos <= p <= b@.len() && parse_u32(rest(b@, pos as int)) == Some(
                (x, rest(b@, p as int)),
            ),
            None => parse_u32(rest(b@, pos as int)) is None,
        },
{
    if b.len() - pos < 4 {
        return None;
    }
    let x = u32_from_le_bytes(slice_subrange(b, pos, pos + 4));
    assert(rest(b@, pos as int).subrange(0, 4) =~= b@.subrange(pos as int, pos + 4));
    assert(rest(b@, pos as int).subrange(4, rest(b@, pos as int).len() as int) =~= rest(
        b@,
        pos + 4,
    ));
    Some((x, pos + 4))
}

fn read_u64(b: &[u8], pos: usize) -> (r: Option<(u64, usize)>)
    requires
        pos <= b@.len(),
    ensures
        match r {
            Some((x, p)) => pos <= p <= b@.len() && parse_u64(rest(b@, pos as int)) == Some(
                (x, rest(b@, p as int)),
            ),
            None => parse_u64(rest(b@, pos as int)) is None,
        },
{
    if b.len() - pos < 8 {
        return None;
    }
    let x = u64_from_le_bytes(slice_subrange(b, pos, pos + 8));
    assert(rest(b@, pos as int).subrange(0, 8) =~= b@.subrange(pos as int, pos + 8));
    assert(rest(b@, pos as int).subrange(8, rest(b@, pos as int).len() as int) =~= rest(
        b@,
        pos + 8,
    ));
    Some((x, pos + 8))
}

fn read_str(b: &[u8], pos: usize) -> (r: Option<(NonNulString, usize)>)
    requires
        pos <= b@.len(),
    ensures
        match r {
            Some((x, p)) => pos <= p <= b@.len() && parse_str(rest(b@, pos as int)) == Some(
                (x@, rest(b@, p as int)),
            ),
            None => parse_str(rest(b@, pos as int)) is None,
        },
{
    let (n, p) = match read_u64(b, pos) {
        Some(v) => v,
        None => {
            return None;
        },
    };
    if n > (b.len() - p) as u64 {
        return None;
    }
    let end = p + n as usize;
    let bytes = slice_to_vec(slice_subrange(b, p, end));
    let ghost r = rest(b@, p as int);
    assert(r.subrange(0, n as int) =~= bytes@);
    assert(r.subrange(n as int, r.len() as int) =~= rest(b@, end as int));
    match NonNulString::new(bytes) {
        Some(x) => Some((x, end)),
        None => None,
    }
}

/// Puts `front` before the strings that a parse returned.
pub open spec fn prepend(
    front: Seq<Seq<u8>>,
    o: Option<(Seq<Seq<u8>>, Seq<u8>)>,
) -> Option<(Seq<Seq<u8>>, Seq<u8>)> {
    match o {
        Some((xs, r)) => Some((front + xs, r)),
        None => None,
    }
}

fn read_list(b: &[u8], pos: usize) -> (r: Option<(Vec<NonNulString>, usize)>)
    requires
        pos <= b@.len(),
    ensures
        match r {
            Some((l, p)) => pos <= p <= b@.len() && parse_list(rest(b@, pos as int)) == Some(
                (strs(l@), rest(b@, p as int)),
            ),
            None => parse_list(rest(b@, pos as int)) is None,
        },
{
    let (k, p0) = match read_u64(b, pos) {
        Some(v) => v,
        None => {
            return None;
        },
    };
    let mut l: Vec<NonNulString> = Vec::new();
    let mut p = p0;
    let mut i: u64 = 0;
    assert(strs(l@) =~= Seq::<Seq<u8>>::empty());
    while i < k
        invariant
            pos <= p0 <= p <= b@.len(),
            i <= k,
            parse_list(rest(b@, pos as int)) == parse_items(rest(b@, p0 as int), k as nat),
            parse_items(rest(b@, p0 as int), k as nat) == prepend(
                strs(l@),
                parse_items(rest(b@, p as int), (k - i) as nat),
            ),
        decreases k - i,
    {
        match read_str(b, p) {
            Some((x, p2)) => {
                let ghost before = strs(l@);
                l.push(x);
                assert(strs(l@) =~= before + seq![x@]);
                proof {
                    let tail = parse_items(rest(b@, p2 as int), (k - i - 1) as nat);
                    match tail {
                        Some((xs, r2)) => {
                            assert(before + (seq![x@] + xs) =~= (before + seq![x@]) + xs);
                        },
                        None => {},
                    }
                }
                p = p2;
                i = i + 1;
            },
            None => {
                return None;
            },
        }
    }
    assert(strs(l@) + Seq::<Seq<u8>>::empty() =~= strs(l@));
    Some((l, p))
}

fn read_status(b: &[u8], pos: usize) -> (r: Option<(ExitStatus, usize)>)
    requires
        pos <= b@.len(),
    ensures
        match r {
            Some((x, p)) => pos <= p <= b@.len() && parse_status(rest(b@, pos as int)) == Some(
                (x, rest(b@, p as int)),
            ),
            None => parse_status(rest(b@, pos as int)) is None,
        },
{
    if pos >= b.len() {
        return None;
    }
    let ghost s = rest(b@, pos as int);
    assert(s.subrange(1, s.len() as int) =~= rest(b@, pos + 1));
    if b[pos] == 0 {
        match read_u32(b, pos + 1) {
            Some((c, p)) => Some((ExitStatus::Exit(c as i32), p)),
            None => None,
        }
    } else if b[pos] == 1 && pos + 1 < b.len() {
        assert(s.subrange(2, s.len() as int) =~= rest(b@, pos + 2));
        Some((ExitStatus::Signalled(b[pos + 1]), pos + 2))
    } else {
        None
    }
}

proof fn lemma_parse_u32(x: u32, rest: Seq<u8>)
    ensures
        parse_u32(spec_u32_to_le_bytes(x) + rest) == Some((x, rest)),
{
    lemma_auto_spec_u32_to_from_le_bytes();
    let b = spec_u32_to_le_bytes(x);
    let s = b + rest;
    assert(s.subrange(0, 4) =~= b);
    assert(s.subrange(4, s.len() as int) =~= rest);
}

proof fn lemma_parse_u64(x: u64, rest: Seq<u8>)
    ensures
        parse_u64(spec_u64_to_le_bytes(x) + rest) == Some((x, rest)),
{
    lemma_auto_spec_u64_to_from_le_bytes();
    let b = spec_u64_to_le_bytes(x);
    let s = b + rest;
    assert(s.subrange(0, 8) =~= b);
    assert(s.subrange(8, s.len() as int) =~= rest);
}

proof fn lemma_parse_str(x: Seq<u8>, rest: Seq<u8>)
    requires
        no_nul(x),
        x.len() <= u64::MAX,
    ensures
        parse_str(enc_str(x) + rest) == Some((x, rest)),
{
    let s = enc_str(x) + rest;
    assert(s =~= spec_u64_to_le_bytes(x.len() as u64) + (x + rest));
    lemma_parse_u64(x.len() as u64, x + rest);
    let r = x + rest;
    assert(r.subrange(0, x.len() as int) =~= x);
    assert(r.subrange(x.len() as int, r.len() as int) =~= rest);
}

proof fn lemma_parse_items(l: Seq<Seq<u8>>, rest: Seq<u8>)
    requires
        all_no_nul(l),
        forall|i: int| 0 <= i < l.len() ==> (#[trigger] l[i]).len() <= u64::MAX,
    ensures
        parse_items(enc_items(l) + rest, l.len()) == Some((l, rest)),
    decreases l.len(),
{
    if l.len() > 0 {
        let t = l.subrange(1, l.len() as int);
        assert forall|i: int| 0 <= i < t.len() implies (#[trigger] t[i]).len() <= u64::MAX && no_nul(t[i]) by {
            assert(t[i] == l[i + 1]);
        }
        lemma_parse_items(t, rest);
        assert(no_nul(l[0]));
        lemma_parse_str(l[0], enc_items(t) + rest);
        assert(enc_items(l) + rest =~= enc_str(l[0]) + (enc_items(t) + rest));
        assert(seq![l[0]] + t =~= l);
    }
}

proof fn lemma_parse_list(l: Seq<Seq<u8>>, rest: Seq<u8>)
    requires
        all_no_nul(l),
        l.len() <= u64::MAX,
        forall|i: int| 0 <= i < l.len() ==> (#[trigger] l[i]).len() <= u64::MAX,
    ensures
        parse_list(enc_list(l) + rest) == Some((l, rest)),
{
    assert(enc_list(l) + rest =~= spec_u64_to_le_bytes(l.len() as u64) + (enc_items(l) + rest));
    lemma_parse_u64(l.len() as u64, enc_items(l) + rest);
    lemma_parse_items(l, rest);
}

proof fn lemma_parse_status(st: ExitStatus, rest: Seq<u8>)
    ensures
        parse_status(enc_status(st) + rest) == Some((st, rest)),
{
    let s = enc_status(st) + rest;
    match st {
        ExitStatus::Exit(code) => {
            assert(s.subrange(1, s.len() as int) =~= spec_u32_to_le_bytes(code as u32) + rest);
            lemma_parse_u32(code as u32, rest);
            assert(((code as u32) as i32) == code) by (bit_vector);
        },
        ExitStatus::Signalled(sig) => {
            assert(s.subrange(2, s.len() as int) =~= rest);
        },
    }
}

/// Decoding the encoding of a message gives the message back.
pub proof fn lemma_round_trip(m: MessageView)
    requires
        m.wf(),
    ensures
        parse_message(spec_encode(m)) == Some(m),
{
    let s = spec_encode(m);
    let body = s.subrange(1, s.len() as int);
    match m {
        MessageView::Forked { pid } => {
            assert(body =~= spec_u32_to_le_bytes(pid) + Seq::<u8>::empty());
            lemma_parse_u32(pid, Seq::empty());
        },
        MessageView::Exit { pid, exit_status } => {
            assert(body =~= spec_u32_to_le_bytes(pid) + (enc_status(exit_status) + Seq::<
                u8,
            >::empty()));
            lemma_parse_u32(pid, enc_status(exit_status) + Seq::<u8>::empty());
            lemma_parse_status(exit_status, Seq::empty());
        },
        MessageView::Exec { path, args, env } => {
            let e = Seq::<u8>::empty();
            assert(body =~= enc_str(path) + (enc_list(args) + (enc_list(env) + e)));
            lemma_parse_str(path, enc_list(args) + (enc_list(env) + e));
            lemma_parse_list(args, enc_list(env) + e);
            lemma_parse_list(env, e);
        },
    }
}

} // verus!
