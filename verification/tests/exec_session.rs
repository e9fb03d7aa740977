use korasi_cli::error::SessionError;
use korasi_cli::exec_session::{
    term_or_default, ExecAction, ExecEvent, ExecSession, ExecState, PtyRequest,
};

fn running(command: &str) -> ExecSession {
    let mut session = ExecSession::new(command.to_string(), None);
    assert_eq!(session.begin(), ExecAction::SendCommand(command.to_string()));
    session
}

/// Reports `events` one by one and gives what was written to the local
/// standard output and standard error.
fn deliver(session: &mut ExecSession, events: Vec<ExecEvent>) -> (Vec<u8>, Vec<u8>, Vec<ExecAction>) {
    let mut out = Vec::new();
    let mut err = Vec::new();
    let mut others = Vec::new();
    for event in events {
        match session.step(event) {
            ExecAction::WriteStdout(bytes) => out.extend(bytes),
            ExecAction::WriteStderr(bytes) => err.extend(bytes),
            other => others.push(other),
        }
    }
    (out, err, others)
}

#[test]
fn new_session_is_opened() {
    let session = ExecSession::new("ls".to_string(), None);
    assert_eq!(session.current_state(), ExecState::Opened);
    assert!(!session.wants_stdin());
    assert!(!session.wants_remote());
    assert_eq!(session.exit_code(), None);
    assert_eq!(session.result(), None);
}

#[test]
fn events_before_the_start_change_nothing() {
    let mut session = ExecSession::new("ls".to_string(), None);
    assert_eq!(session.step(ExecEvent::RemoteData(vec![1])), ExecAction::Nothing);
    assert_eq!(session.step(ExecEvent::RemoteExit(0)), ExecAction::Nothing);
    assert_eq!(session.current_state(), ExecState::Opened);
}

#[test]
fn without_a_terminal_the_command_is_sent_at_once() {
    let mut session = ExecSession::new("uname -a".to_string(), None);
    assert_eq!(session.begin(), ExecAction::SendCommand("uname -a".to_string()));
    assert_eq!(session.current_state(), ExecState::Executing);
    assert!(session.wants_stdin());
    assert!(session.wants_remote());
}

#[test]
fn command_is_sent_once() {
    let mut session = running("ls");
    assert_eq!(session.begin(), ExecAction::Nothing);
    assert_eq!(session.current_state(), ExecState::Executing);
}

#[test]
fn terminal_is_asked_for_before_the_command() {
    let pty = PtyRequest { term: "xterm-256color".to_string(), cols: 120, rows: 40 };
    let mut session = ExecSession::new("top".to_string(), Some(pty.clone()));
    assert_eq!(session.begin(), ExecAction::RequestPty(pty));
    assert_eq!(session.current_state(), ExecState::PtyRequested);
    assert!(!session.wants_stdin());
    assert!(session.wants_remote());
    assert_eq!(session.step(ExecEvent::PtyGranted), ExecAction::SendCommand("top".to_string()));
    assert_eq!(session.current_state(), ExecState::Executing);
}

#[test]
fn refused_terminal_does_not_end_the_session() {
    let pty = PtyRequest { term: "xterm".to_string(), cols: 80, rows: 24 };
    let mut session = ExecSession::new("top".to_string(), Some(pty));
    session.begin();
    assert_eq!(session.step(ExecEvent::PtyDenied), ExecAction::SendCommand("top".to_string()));
    assert_eq!(session.current_state(), ExecState::Executing);
}

#[test]
fn failure_while_asking_for_the_terminal_ends_the_session() {
    let pty = PtyRequest { term: "xterm".to_string(), cols: 80, rows: 24 };
    let mut session = ExecSession::new("top".to_string(), Some(pty));
    session.begin();
    assert_eq!(session.step(ExecEvent::StdinRead(vec![1])), ExecAction::Nothing);
    assert_eq!(session.step(ExecEvent::IoFailure), ExecAction::Abort);
    assert_eq!(session.result(), Some(Err(SessionError::ExecIoError)));
}

#[test]
fn terminal_type_defaults_to_xterm() {
    assert_eq!(term_or_default(None), "xterm");
    assert_eq!(term_or_default(Some("screen".to_string())), "screen");
}

#[test]
fn local_input_is_forwarded() {
    let mut session = running("cat");
    assert_eq!(session.step(ExecEvent::StdinRead(vec![104, 105])), ExecAction::SendData(vec![104, 105]));
    assert_eq!(session.current_state(), ExecState::Executing);
}

#[test]
fn all_output_is_delivered_and_the_exit_code_returned() {
    let mut session = running("build");
    let (out, err, others) = deliver(
        &mut session,
        vec![
            ExecEvent::RemoteData(b"compiling\n".to_vec()),
            ExecEvent::RemoteExtendedData(b"warning: x\n".to_vec()),
            ExecEvent::RemoteOther,
            ExecEvent::RemoteData(b"done\n".to_vec()),
            ExecEvent::RemoteExtendedData(b"warning: y\n".to_vec()),
            ExecEvent::RemoteExit(3),
        ],
    );
    assert_eq!(out, b"compiling\ndone\n".to_vec());
    assert_eq!(err, b"warning: x\nwarning: y\n".to_vec());
    assert_eq!(others, vec![ExecAction::Nothing, ExecAction::Finish { code: 3, send_eof: true }]);
    assert_eq!(session.current_state(), ExecState::Exited(3));
    assert_eq!(session.exit_code(), Some(3));
    assert_eq!(session.result(), Some(Ok(3)));
}

#[test]
fn nonzero_exit_is_no_error() {
    let mut session = running("false");
    assert_eq!(session.step(ExecEvent::RemoteExit(1)), ExecAction::Finish { code: 1, send_eof: true });
    assert_eq!(session.result(), Some(Ok(1)));
}

#[test]
fn output_after_local_eof_is_still_delivered() {
    let mut session = running("sort");
    assert_eq!(session.step(ExecEvent::StdinRead(b"b\na\n".to_vec())), ExecAction::SendData(b"b\na\n".to_vec()));
    assert_eq!(session.step(ExecEvent::RemoteData(b"early\n".to_vec())), ExecAction::WriteStdout(b"early\n".to_vec()));
    assert_eq!(session.step(ExecEvent::StdinRead(Vec::new())), ExecAction::SendEof);
    assert_eq!(session.current_state(), ExecState::Draining);
    assert!(!session.wants_stdin());
    assert!(session.wants_remote());
    assert_eq!(session.exit_code(), None);
    let (out, err, others) = deliver(
        &mut session,
        vec![
            ExecEvent::RemoteData(b"a\n".to_vec()),
            ExecEvent::RemoteExtendedData(b"late\n".to_vec()),
            ExecEvent::RemoteData(b"b\n".to_vec()),
            ExecEvent::RemoteExit(0),
        ],
    );
    assert_eq!(out, b"a\nb\n".to_vec());
    assert_eq!(err, b"late\n".to_vec());
    assert_eq!(others, vec![ExecAction::Finish { code: 0, send_eof: false }]);
    assert_eq!(session.current_state(), ExecState::Exited(0));
}

#[test]
fn end_of_input_is_signalled_once() {
    let mut session = running("cat");
    assert_eq!(session.step(ExecEvent::StdinRead(Vec::new())), ExecAction::SendEof);
    assert_eq!(session.step(ExecEvent::StdinRead(Vec::new())), ExecAction::Nothing);
    assert_eq!(session.step(ExecEvent::StdinRead(vec![1])), ExecAction::Nothing);
    assert_eq!(session.step(ExecEvent::RemoteExit(0)), ExecAction::Finish { code: 0, send_eof: false });
}

#[test]
fn exit_before_local_eof_signals_the_end_of_input() {
    let mut session = running("true");
    assert_eq!(session.step(ExecEvent::RemoteExit(0)), ExecAction::Finish { code: 0, send_eof: true });
}

#[test]
fn io_failure_ends_the_session() {
    let mut session = running("cat");
    assert_eq!(session.step(ExecEvent::IoFailure), ExecAction::Abort);
    assert_eq!(session.current_state(), ExecState::Failed);
    assert_eq!(session.result(), Some(Err(SessionError::ExecIoError)));
    assert_eq!(session.exit_code(), None);
    assert!(!session.wants_stdin());
    assert!(!session.wants_remote());
}

#[test]
fn io_failure_while_draining_ends_the_session() {
    let mut session = running("cat");
    session.step(ExecEvent::StdinRead(Vec::new()));
    assert_eq!(session.step(ExecEvent::IoFailure), ExecAction::Abort);
    assert_eq!(session.current_state(), ExecState::Failed);
}

#[test]
fn channel_that_ends_without_a_status_ends_the_session() {
    let mut session = running("cat");
    assert_eq!(session.step(ExecEvent::RemoteClosed), ExecAction::Abort);
    assert_eq!(session.result(), Some(Err(SessionError::ExecIoError)));
}

#[test]
fn remote_end_of_output_does_not_end_the_session() {
    let mut session = running("cat");
    assert_eq!(session.step(ExecEvent::RemoteEof), ExecAction::Nothing);
    assert_eq!(session.current_state(), ExecState::Executing);
    assert_eq!(session.step(ExecEvent::RemoteExit(0)), ExecAction::Finish { code: 0, send_eof: true });
}

#[test]
fn exited_session_is_terminal() {
    let mut session = running("true");
    session.step(ExecEvent::RemoteExit(7));
    assert_eq!(session.step(ExecEvent::RemoteData(vec![1])), ExecAction::Nothing);
    assert_eq!(session.step(ExecEvent::RemoteExit(8)), ExecAction::Nothing);
    assert_eq!(session.step(ExecEvent::IoFailure), ExecAction::Nothing);
    assert_eq!(session.current_state(), ExecState::Exited(7));
}

#[test]
fn failed_session_is_terminal() {
    let mut session = running("true");
    session.step(ExecEvent::IoFailure);
    assert_eq!(session.step(ExecEvent::RemoteExit(0)), ExecAction::Nothing);
    assert_eq!(session.current_state(), ExecState::Failed);
}
