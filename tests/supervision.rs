use northstar::checkpoint::checkpoints;
use northstar::client::{
    containers_response, repositories_response, unit_response, Action, Error, Event, Exit, Mux,
    Response,
};
use northstar::exit::{
    child_exit_status, exit_code, exit_status, ExitStatus, WaitError, WaitOutcome, ECHILD, EINTR,
};
use northstar::process::{kill_result, KillError, Process, SpawnAction, SPAWN_TIMEOUT_SECS};
use nix::errno::Errno;

#[test]
fn signal_encoded_exit_code_is_a_signal() {
    assert_eq!(exit_status(WaitOutcome::Exited(143)), Ok(Some(ExitStatus::Signalled(15))));
    assert_eq!(exit_status(WaitOutcome::Exited(0)), Ok(Some(ExitStatus::Exit(0))));
    assert_eq!(exit_status(WaitOutcome::Exited(127)), Ok(Some(ExitStatus::Exit(127))));
    assert_eq!(exit_status(WaitOutcome::Exited(128)), Err(WaitError::InvalidSignal(128)));
    assert_eq!(exit_status(WaitOutcome::Signaled(9)), Ok(Some(ExitStatus::Signalled(9))));
    assert_eq!(exit_status(WaitOutcome::StillAlive), Ok(None));
    assert_eq!(exit_status(WaitOutcome::Stopped), Ok(None));
    assert_eq!(exit_status(WaitOutcome::Failed(EINTR)), Ok(None));
    assert_eq!(exit_status(WaitOutcome::Failed(ECHILD)), Err(WaitError::NoChild));
    assert_eq!(exit_status(WaitOutcome::Failed(1)), Err(WaitError::Os(1)));
}

#[test]
fn init_reads_child_status() {
    assert_eq!(child_exit_status(WaitOutcome::Signaled(15)), Ok(Some(ExitStatus::Signalled(15))));
    assert_eq!(child_exit_status(WaitOutcome::Exited(143)), Ok(Some(ExitStatus::Exit(143))));
    assert_eq!(child_exit_status(WaitOutcome::Continued), Ok(None));
    assert_eq!(child_exit_status(WaitOutcome::Failed(EINTR)), Ok(None));
    assert_eq!(child_exit_status(WaitOutcome::StillAlive), Err(WaitError::Unexpected));
    assert_eq!(child_exit_status(WaitOutcome::Signaled(0)), Err(WaitError::InvalidSignal(0)));
}

#[test]
fn exit_code_carries_status() {
    assert_eq!(exit_code(ExitStatus::Signalled(15)), 143);
    assert_eq!(exit_code(ExitStatus::Exit(3)), 3);
    for s in [ExitStatus::Exit(0), ExitStatus::Exit(100), ExitStatus::Signalled(1)] {
        assert_eq!(exit_status(WaitOutcome::Exited(exit_code(s))), Ok(Some(s)));
    }
}

#[test]
fn second_request_is_rejected_while_one_is_pending() {
    let mut mux = Mux::new();
    assert_eq!(mux.step(Event::Submitted(1)), Action::Send(1));
    assert_eq!(mux.step(Event::Sent(1, true)), Action::Idle);
    assert_eq!(mux.step(Event::Submitted(2)), Action::Reject(2));
    assert_eq!(mux.step(Event::Notification), Action::Forward);
    assert_eq!(mux.step(Event::Response), Action::Deliver(1));
    assert_eq!(mux.pending, None);
    assert_eq!(mux.step(Event::Submitted(3)), Action::Send(3));
    assert_eq!(mux.step(Event::Sent(3, false)), Action::FailSend(3));
    assert_eq!(mux.step(Event::Response), Action::Stop(Exit::Protocol));
}

#[test]
fn mux_stops_on_connection_events() {
    let mut mux = Mux::new();
    assert_eq!(mux.step(Event::Request), Action::Stop(Exit::Protocol));
    assert_eq!(mux.step(Event::ReadFailed), Action::Stop(Exit::Io));
    assert_eq!(mux.step(Event::Eof), Action::Stop(Exit::Done));
    assert_eq!(mux.step(Event::Closed), Action::Stop(Exit::Done));
}

#[test]
fn responses_are_narrowed() {
    let ok: Response<Vec<u8>, u8, String> = Response::Success;
    assert!(matches!(unit_response(ok), Ok(())));
    let c: Response<Vec<u8>, u8, String> = Response::Containers(vec![1]);
    assert!(matches!(unit_response(c), Err(Error::Protocol)));
    let e: Response<Vec<u8>, u8, String> = Response::Failed("no".to_string());
    assert!(matches!(unit_response(e), Err(Error::Api(ref m)) if m == "no"));
    let c: Response<Vec<u8>, u8, String> = Response::Containers(vec![1, 2]);
    assert!(matches!(containers_response(c), Ok(ref v) if v == &vec![1, 2]));
    let r: Response<Vec<u8>, u8, String> = Response::Repositories(9);
    assert!(matches!(containers_response(r), Err(Error::Protocol)));
    let r: Response<Vec<u8>, u8, String> = Response::Repositories(9);
    assert!(matches!(repositories_response(r), Ok(9)));
    let ok: Response<Vec<u8>, u8, String> = Response::Success;
    assert!(matches!(repositories_response(ok), Err(Error::Protocol)));
}

#[test]
fn kill_of_reaped_group_succeeds() {
    assert!(kill_result(Err(Errno::ESRCH)).is_ok());
    assert!(kill_result(Ok(())).is_ok());
    assert!(matches!(kill_result(Err(Errno::EPERM)), Err(KillError::Os(Errno::EPERM))));
}

#[test]
fn silent_init_is_killed_as_a_group() {
    assert_eq!(SPAWN_TIMEOUT_SECS, 5);
    let (rt, _init) = checkpoints().unwrap();
    assert!(Process::new(0, checkpoints().unwrap().0).is_none());
    let p = Process::new(1234, rt).unwrap();
    assert_eq!(p.pid(), 1234);
    assert_eq!(p.process_group(), -1234);
    assert_eq!(p.spawn_action(false), SpawnAction::KillGroup(-1234));
    assert_eq!(p.spawn_action(true), SpawnAction::Started);
}

#[test]
fn checkpoint_rendezvous() {
    let (rt, init) = checkpoints().unwrap();
    let rt_wait = rt.notify();
    let init_notify = init.wait().unwrap();
    init_notify.notify();
    rt_wait.wait().unwrap();
}

#[test]
fn checkpoint_released_by_close() {
    let (rt, init) = checkpoints().unwrap();
    drop(rt);
    assert!(init.wait().is_ok());
}

#[test]
fn process_start_releases_init() {
    let (rt, init) = checkpoints().unwrap();
    let mut p = Process::new(77, rt).unwrap();
    let ack = p.start();
    let answer = init.wait().unwrap();
    answer.notify();
    ack.wait().unwrap();
}
