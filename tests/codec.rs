use northstar::exit::ExitStatus;
use northstar::init::{command, InitCommand};
use northstar::message::Message;
use northstar::nonnul::NonNulString;
use northstar::tracker::{ChildTracker, ProtocolError};

fn s(x: &str) -> NonNulString {
    NonNulString::from_str(x).unwrap()
}

#[test]
fn nonnul_rejects_nul() {
    assert!(NonNulString::new(vec![b'a', 0, b'b']).is_none());
    assert!(NonNulString::from_str("a\0b").is_none());
    let v = NonNulString::new(b"hello".to_vec()).unwrap();
    assert_eq!(v.as_bytes(), &b"hello".to_vec());
    assert_eq!(v.len(), 5);
    assert!(v.same(&s("hello")));
    assert!(!v.same(&s("hell")));
}

#[test]
fn forked_encoding_is_exact() {
    let m = Message::Forked { pid: 0x01020304 };
    assert_eq!(m.encode(), vec![0u8, 4, 3, 2, 1]);
}

#[test]
fn exit_encoding_is_exact() {
    let m = Message::Exit { pid: 7, exit_status: ExitStatus::Signalled(15) };
    assert_eq!(m.encode(), vec![1u8, 7, 0, 0, 0, 1, 15]);
    let m = Message::Exit { pid: 7, exit_status: ExitStatus::Exit(-1) };
    assert_eq!(m.encode(), vec![1u8, 7, 0, 0, 0, 0, 255, 255, 255, 255]);
}

#[test]
fn round_trip_forked_and_exit() {
    for m in [
        Message::Forked { pid: 42 },
        Message::Exit { pid: 42, exit_status: ExitStatus::Exit(0) },
        Message::Exit { pid: 42, exit_status: ExitStatus::Exit(-3) },
        Message::Exit { pid: u32::MAX, exit_status: ExitStatus::Signalled(64) },
    ] {
        let b = m.encode();
        let d = Message::decode(&b).unwrap();
        assert_eq!(d.encode(), b);
        match (&m, &d) {
            (Message::Forked { pid: a }, Message::Forked { pid: b }) => assert_eq!(a, b),
            (
                Message::Exit { pid: a, exit_status: x },
                Message::Exit { pid: b, exit_status: y },
            ) => {
                assert_eq!(a, b);
                assert_eq!(x, y);
            }
            _ => panic!("variant changed"),
        }
    }
}

#[test]
fn round_trip_exec() {
    let m = Message::Exec {
        path: s("/bin/hello"),
        args: vec![s("/bin/hello"), s("--verbose"), s("")],
        env: vec![s("NORTHSTAR_NAME=hello"), s("A=b")],
    };
    let b = m.encode();
    match Message::decode(&b).unwrap() {
        Message::Exec { path, args, env } => {
            assert_eq!(path.as_bytes(), &b"/bin/hello".to_vec());
            assert_eq!(args.len(), 3);
            assert_eq!(args[1].as_bytes(), &b"--verbose".to_vec());
            assert_eq!(args[2].len(), 0);
            assert_eq!(env.len(), 2);
            assert_eq!(env[1].as_bytes(), &b"A=b".to_vec());
        }
        _ => panic!("not an exec"),
    }
}

#[test]
fn decode_rejects_malformed() {
    assert!(Message::decode(&[]).is_none());
    assert!(Message::decode(&[3u8]).is_none());
    assert!(Message::decode(&[0u8, 1, 2, 3]).is_none());
    assert!(Message::decode(&[0u8, 1, 2, 3, 4, 5]).is_none());
    assert!(Message::decode(&[1u8, 1, 0, 0, 0, 2, 9]).is_none());
    // A string that carries a NUL byte.
    let mut b = vec![2u8];
    b.extend_from_slice(&1u64.to_le_bytes());
    b.push(0);
    b.extend_from_slice(&0u64.to_le_bytes());
    b.extend_from_slice(&0u64.to_le_bytes());
    assert!(Message::decode(&b).is_none());
    b[9] = b'x';
    assert!(Message::decode(&b).is_some());
    // A count larger than what follows.
    let mut c = vec![2u8];
    c.extend_from_slice(&0u64.to_le_bytes());
    c.extend_from_slice(&5u64.to_le_bytes());
    assert!(Message::decode(&c).is_none());
}

#[test]
fn tracker_pairs_forked_with_exit() {
    let mut t = ChildTracker::new();
    assert_eq!(t.observe(&Message::Forked { pid: 3 }), Ok(()));
    assert_eq!(t.observe(&Message::Forked { pid: 4 }), Err(ProtocolError::ForkedTwice));
    assert_eq!(
        t.observe(&Message::Exit { pid: 4, exit_status: ExitStatus::Exit(0) }),
        Err(ProtocolError::StrayExit)
    );
    assert_eq!(t.observe(&Message::Exit { pid: 3, exit_status: ExitStatus::Exit(0) }), Ok(()));
    assert_eq!(
        t.observe(&Message::Exit { pid: 3, exit_status: ExitStatus::Exit(0) }),
        Err(ProtocolError::StrayExit)
    );
    let exec = Message::Exec { path: s("/x"), args: vec![], env: vec![] };
    assert_eq!(t.observe(&exec), Err(ProtocolError::Exec));
    assert_eq!(t.running, None);
}

#[test]
fn init_commands() {
    assert!(matches!(command(None, Some(3)), InitCommand::Quit));
    assert!(matches!(command(Some(Message::Forked { pid: 1 }), None), InitCommand::Unexpected));
    let exec = Message::Exec { path: s("/bin/app"), args: vec![s("/bin/app")], env: vec![s("A=b")] };
    match command(Some(exec), Some(3)) {
        InitCommand::Exec { path, args, env } => {
            assert_eq!(path.as_bytes(), &b"/bin/app".to_vec());
            assert_eq!(args.len(), 1);
            assert_eq!(env.len(), 2);
            assert_eq!(env[1].as_bytes(), &b"NORTHSTAR_CONSOLE=3".to_vec());
        }
        _ => panic!("not an exec"),
    }
}

#[test]
fn frames_split_back_into_payloads() {
    let a = vec![1u8, 2, 3];
    let b: Vec<u8> = vec![];
    let fa = northstar::frame::frame(&a);
    assert_eq!(fa, vec![3u8, 0, 0, 0, 0, 0, 0, 0, 1, 2, 3]);
    let mut stream = fa.clone();
    stream.extend(northstar::frame::frame(&b));
    let mut d = northstar::frame::Deframer::new();
    d.push(&stream[..5]);
    assert_eq!(d.next_frame(), None);
    assert_eq!(d.end(), northstar::frame::StreamEnd::ShortFrame);
    d.push(&stream[5..]);
    assert_eq!(d.next_frame(), Some(a));
    assert_eq!(d.next_frame(), Some(b));
    assert_eq!(d.next_frame(), None);
    assert_eq!(d.end(), northstar::frame::StreamEnd::Closed);
}
