//! The decisions of an interactive remote execution: a state machine that is
//! told what happened (bytes read from the local standard input, messages
//! from the remote process) and answers with what to do next. The caller owns
//! the channel and the local descriptors and runs the loop; nothing here
//! waits or performs I/O.
//!
//! The machine moves from `Opened`, optionally through `PtyRequested`, to
//! `Executing`; to `Draining` once the local input has ended; and to
//! `Exited` when the remote process reports its exit status. An I/O failure
//! or a channel that ends without an exit status moves it to `Failed`.

use crate::error::SessionError;
use vstd::prelude::*;

verus! {

/// The terminal type that is asked for when the caller names none.
pub const DEFAULT_TERM: &'static str = "xterm";

/// Where an execution stands.
#[derive(Clone, Copy, Debug, PartialEq, Eq, Structural)]
pub enum ExecState {
    /// The channel is open and nothing has been sent.
    Opened,
    /// A pseudo-terminal was asked for and the answer is awaited.
    PtyRequested,
    /// The command was sent; local input is forwarded.
    Executing,
    /// The local input has ended and the remote process was told so; its
    /// output is still delivered.
    Draining,
    /// The remote process has exited with this status.
    Exited(u32),
    /// The execution was given up after an I/O failure.
    Failed,
}

/// The pseudo-terminal to ask for before the command is sent.
#[derive(Debug, PartialEq, Eq)]
pub struct PtyRequest {
    /// The terminal type, such as `xterm`.
    pub term: String,
    /// The width of the local terminal, in columns.
    pub cols: u32,
    /// The height of the local terminal, in rows.
    pub rows: u32,
}

/// A `PtyRequest` as a mathematical value.
pub struct PtyView {
    pub term: Seq<char>,
    pub cols: u32,
    pub rows: u32,
}

impl View for PtyRequest {
    type V = PtyView;

    open spec fn view(&self) -> PtyView {
        PtyView { term: self.term@, cols: self.cols, rows: self.rows }
    }
}

impl Clone for PtyRequest {
    fn clone(&self) -> (copy: PtyRequest)
        ensures
            copy@ == self@,
    {
        PtyRequest { term: self.term.clone(), cols: self.cols, rows: self.rows }
    }
}

/// What happened, as the caller reports it.
#[derive(Debug, PartialEq, Eq)]
pub enum ExecEvent {
    /// The remote side granted the pseudo-terminal.
    PtyGranted,
    /// The remote side refused the pseudo-terminal, or asking for it failed.
    PtyDenied,
    /// A read of the local standard input returned these bytes. No bytes
    /// means that the input has ended.
    StdinRead(Vec<u8>),
    /// The remote process wrote these bytes to its standard output.
    RemoteData(Vec<u8>),
    /// The remote process wrote these bytes to its standard error.
    RemoteExtendedData(Vec<u8>),
    /// The remote process exited with this status.
    RemoteExit(u32),
    /// The remote process has closed its output. Its exit status is still to
    /// come.
    RemoteEof,
    /// Any other message on the channel.
    RemoteOther,
    /// The channel ended without an exit status.
    RemoteClosed,
    /// Reading or writing a local descriptor, or the channel, failed.
    IoFailure,
}

/// An `ExecEvent` as a mathematical value.
pub enum EventView {
    PtyGranted,
    PtyDenied,
    StdinRead(Seq<u8>),
    RemoteData(Seq<u8>),
    RemoteExtendedData(Seq<u8>),
    RemoteExit(u32),
    RemoteEof,
    RemoteOther,
    RemoteClosed,
    IoFailure,
}

impl View for ExecEvent {
    type V = EventView;

    open spec fn view(&self) -> EventView {
        match self {
            ExecEvent::PtyGranted => EventView::PtyGranted,
            ExecEvent::PtyDenied => EventView::PtyDenied,
            ExecEvent::StdinRead(bytes) => EventView::StdinRead(bytes@),
            ExecEvent::RemoteData(bytes) => EventView::RemoteData(bytes@),
            ExecEvent::RemoteExtendedData(bytes) => EventView::RemoteExtendedData(bytes@),
            ExecEvent::RemoteExit(code) => EventView::RemoteExit(*code),
            ExecEvent::RemoteEof => EventView::RemoteEof,
            ExecEvent::RemoteOther => EventView::RemoteOther,
            ExecEvent::RemoteClosed => EventView::RemoteClosed,
            ExecEvent::IoFailure => EventView::IoFailure,
        }
    }
}

/// What the caller is to do next.
#[derive(Debug, PartialEq, Eq)]
pub enum ExecAction {
    /// Nothing: go on waiting.
    Nothing,
    /// Ask the remote side for a pseudo-terminal.
    RequestPty(PtyRequest),
    /// Send the command line for execution.
    SendCommand(String),
    /// Send these bytes to the remote process's standard input.
    SendData(Vec<u8>),
    /// Tell the remote process that its input has ended, and stop reading
    /// the local standard input.
    SendEof,
    /// Write these bytes to the local standard output and flush it.
    WriteStdout(Vec<u8>),
    /// Write these bytes to the local standard error and flush it.
    WriteStderr(Vec<u8>),
    /// The remote process has exited: tell it that its input has ended if
    /// `send_eof` is set, stop, and hand `code` to the caller.
    Finish { code: u32, send_eof: bool },
    /// Give the execution up and report an I/O error.
    Abort,
}

/// An `ExecAction` as a mathematical value.
pub enum ActionView {
    Nothing,
    RequestPty(PtyView),
    SendCommand(Seq<char>),
    SendData(Seq<u8>),
    SendEof,
    WriteStdout(Seq<u8>),
    WriteStderr(Seq<u8>),
    Finish { code: u32, send_eof: bool },
    Abort,
}

impl View for ExecAction {
    type V = ActionView;

    open spec fn view(&self) -> ActionView {
        match self {
            ExecAction::Nothing => ActionView::Nothing,
            ExecAction::RequestPty(pty) => ActionView::RequestPty(pty@),
            ExecAction::SendCommand(line) => ActionView::SendCommand(line@),
            ExecAction::SendData(bytes) => ActionView::SendData(bytes@),
            ExecAction::SendEof => ActionView::SendEof,
            ExecAction::WriteStdout(bytes) => ActionView::WriteStdout(bytes@),
            ExecAction::WriteStderr(bytes) => ActionView::WriteStderr(bytes@),
            ExecAction::Finish { code, send_eof } => ActionView::Finish {
                code: *code,
                send_eof: *send_eof,
            },
            ExecAction::Abort => ActionView::Abort,
        }
    }
}

/// The state that follows `state` when `event` is reported.
pub open spec fn next_state(state: ExecState, event: EventView) -> ExecState {
    match state {
        ExecState::Opened => ExecState::Opened,
        ExecState::PtyRequested => match event {
            EventView::PtyGranted | EventView::PtyDenied => ExecState::Executing,
            EventView::IoFailure | EventView::RemoteClosed => ExecState::Failed,
            _ => ExecState::PtyRequested,
        },
        ExecState::Executing => match event {
            EventView::StdinRead(bytes) => if bytes.len() == 0 {
                ExecState::Draining
            } else {
                ExecState::Executing
            },
            EventView::RemoteExit(code) => ExecState::Exited(code),
            EventView::IoFailure | EventView::RemoteClosed => ExecState::Failed,
            _ => ExecState::Executing,
        },
        ExecState::Draining => match event {
            EventView::RemoteExit(code) => ExecState::Exited(code),
            EventView::IoFailure | EventView::RemoteClosed => ExecState::Failed,
            _ => ExecState::Draining,
        },
        ExecState::Exited(code) => ExecState::Exited(code),
        ExecState::Failed => ExecState::Failed,
    }
}

/// What is to be done when `event` is reported in `state`, the command line
/// being `command`.
pub open spec fn action_for(state: ExecState, command: Seq<char>, event: EventView) -> ActionView {
    match state {
        ExecState::Opened | ExecState::Exited(_) | ExecState::Failed => ActionView::Nothing,
        ExecState::PtyRequested => match event {
            EventView::PtyGranted | EventView::PtyDenied => ActionView::SendCommand(command),
            EventView::IoFailure | EventView::RemoteClosed => ActionView::Abort,
            _ => ActionView::Nothing,
        },
        ExecState::Executing => match event {
            EventView::StdinRead(bytes) => if bytes.len() == 0 {
                ActionView::SendEof
            } else {
                ActionView::SendData(bytes)
            },
            EventView::RemoteData(bytes) => ActionView::WriteStdout(bytes),
            EventView::RemoteExtendedData(bytes) => ActionView::WriteStderr(bytes),
            EventView::RemoteExit(code) => ActionView::Finish { code, send_eof: true },
            EventView::IoFailure | EventView::RemoteClosed => ActionView::Abort,
            _ => ActionView::Nothing,
        },
        ExecState::Draining => match event {
            EventView::RemoteData(bytes) => ActionView::WriteStdout(bytes),
            EventView::RemoteExtendedData(bytes) => ActionView::WriteStderr(bytes),
            EventView::RemoteExit(code) => ActionView::Finish { code, send_eof: false },
            EventView::IoFailure | EventView::RemoteClosed => ActionView::Abort,
            _ => ActionView::Nothing,
        },
    }
}

/// The terminal type to ask for: the caller's, or `xterm` when the caller
/// names none.
pub fn term_or_default(term: Option<String>) -> (chosen: String)
    ensures
        chosen@ == match term {
            Some(t) => t@,
            None => DEFAULT_TERM@,
        },
{
    match term {
        Some(t) => t,
        None => DEFAULT_TERM.to_owned(),
    }
}

/// One remote execution.
pub struct ExecSession {
    state: ExecState,
    command: String,
    pty: Option<PtyRequest>,
}

impl ExecSession {
    /// Where the execution stands.
    pub closed spec fn state(&self) -> ExecState {
        self.state
    }

    /// The command line of the execution.
    pub closed spec fn command(&self) -> Seq<char> {
        self.command@
    }

    /// The pseudo-terminal that the execution asks for, if any.
    pub closed spec fn pty(&self) -> Option<PtyView> {
        match self.pty {
            Some(p) => Some(p@),
            None => None,
        }
    }

    /// An execution of `command` on a channel that was just opened. With a
    /// `pty` the execution is interactive.
    pub fn new(command: String, pty: Option<PtyRequest>) -> (session: ExecSession)
        ensures
            session.state() == ExecState::Opened,
            session.command() == command@,
            session.pty() == match pty {
                Some(p) => Some(p@),
                None => None,
            },
    {
        ExecSession { state: ExecState::Opened, command, pty }
    }

    /// Where the execution stands.
    pub fn current_state(&self) -> (state: ExecState)
        ensures
            state == self.state(),
    {
        self.state
    }

    /// Whether the caller is to read the local standard input: only while
    /// the command runs and the input has not ended.
    pub fn wants_stdin(&self) -> (wanted: bool)
        ensures
            wanted == (self.state() == ExecState::Executing),
    {
        matches!(self.state, ExecState::Executing)
    }

    /// Whether the caller is to wait for messages from the remote side.
    pub fn wants_remote(&self) -> (wanted: bool)
        ensures
            wanted == (self.state() == ExecState::PtyRequested || self.state()
                == ExecState::Executing || self.state() == ExecState::Draining),
    {
        matches!(self.state, ExecState::PtyRequested | ExecState::Executing | ExecState::Draining)
    }

    /// The exit status of the remote process, once it has exited.
    pub fn exit_code(&self) -> (code: Option<u32>)
        ensures
            code == match self.state() {
                ExecState::Exited(c) => Some(c),
                _ => None,
            },
    {
        match self.state {
            ExecState::Exited(c) => Some(c),
            _ => None,
        }
    }

    /// How the execution ended, once it has: with the exit status of the
    /// remote process, whatever it is, or with an `ExecIoError`.
    pub fn result(&self) -> (result: Option<Result<u32, SessionError>>)
        ensures
            result == match self.state() {
                ExecState::Exited(c) => Some(Ok::<u32, SessionError>(c)),
                ExecState::Failed => Some(Err::<u32, SessionError>(SessionError::ExecIoError)),
                _ => None::<Result<u32, SessionError>>,
            },
    {
        match self.state {
            ExecState::Exited(c) => Some(Ok(c)),
            ExecState::Failed => Some(Err(SessionError::ExecIoError)),
            _ => None,
        }
    }

    /// Starts the execution: asks for the pseudo-terminal if one is wanted,
    /// and sends the command otherwise. An execution that was started before
    /// is left alone.
    pub fn begin(&mut self) -> (action: ExecAction)
        ensures
            final(self).command() == old(self).command(),
            final(self).pty() == old(self).pty(),
            final(self).state() == match old(self).state() {
                ExecState::Opened => if old(self).pty() is Some {
                    ExecState::PtyRequested
                } else {
                    ExecState::Executing
                },
                other => other,
            },
            action@ == match old(self).state() {
                ExecState::Opened => match old(self).pty() {
                    Some(p) => ActionView::RequestPty(p),
                    None => ActionView::SendCommand(old(self).command()),
                },
                _ => ActionView::Nothing,
            },
    {
        match self.state {
            ExecState::Opened => match &self.pty {
                Some(p) => {
                    self.state = ExecState::PtyRequested;
                    ExecAction::RequestPty(p.clone())
                },
                None => {
                    self.state = ExecState::Executing;
                    ExecAction::SendCommand(self.command.clone())
                },
            },
            _ => ExecAction::Nothing,
        }
    }

    /// Takes note of `event` and says what to do about it.
    pub fn step(&mut self, event: ExecEvent) -> (action: ExecAction)
        ensures
            final(self).command() == old(self).command(),
            final(self).pty() == old(self).pty(),
            final(self).state() == next_state(old(self).state(), event@),
            action@ == action_for(old(self).state(), old(self).command(), event@),
    {
        match self.state {
            ExecState::Opened | ExecState::Exited(_) | ExecState::Failed => ExecAction::Nothing,
            ExecState::PtyRequested => match event {
                ExecEvent::PtyGranted | ExecEvent::PtyDenied => {
                    self.state = ExecState::Executing;
                    ExecAction::SendCommand(self.command.clone())
                },
                ExecEvent::IoFailure | ExecEvent::RemoteClosed => {
                    self.state = ExecState::Failed;
                    ExecAction::Abort
                },
                _ => ExecAction::Nothing,
            },
            ExecState::Executing => match event {
                ExecEvent::StdinRead(bytes) => {
                    if bytes.len() == 0 {
                        self.state = ExecState::Draining;
                        ExecAction::SendEof
                    } else {
                        ExecAction::SendData(bytes)
                    }
                },
                ExecEvent::RemoteData(bytes) => ExecAction::WriteStdout(bytes),
                ExecEvent::RemoteExtendedData(bytes) => ExecAction::WriteStderr(bytes),
                ExecEvent::RemoteExit(code) => {
                    self.state = ExecState::Exited(code);
                    ExecAction::Finish { code, send_eof: true }
                },
                ExecEvent::IoFailure | ExecEvent::RemoteClosed => {
                    self.state = ExecState::Failed;
                    ExecAction::Abort
                },
                _ => ExecAction::Nothing,
            },
            ExecState::Draining => match event {
                ExecEvent::RemoteData(bytes) => ExecAction::WriteStdout(bytes),
                ExecEvent::RemoteExtendedData(bytes) => ExecAction::WriteStderr(bytes),
                ExecEvent::RemoteExit(code) => {
                    self.state = ExecState::Exited(code);
                    ExecAction::Finish { code, send_eof: false }
                },
                ExecEvent::IoFailure | ExecEvent::RemoteClosed => {
                    self.state = ExecState::Failed;
                    ExecAction::Abort
                },
                _ => ExecAction::Nothing,
            },
        }
    }
}

// ---------------------------------------------------------------------------
// Whole executions
// ---------------------------------------------------------------------------

/// The state after `events` have been reported one by one, starting in
/// `state`.
pub open spec fn state_after(state: ExecState, events: Seq<EventView>) -> ExecState
    decreases events.len(),
{
    if events.len() == 0 {
        state
    } else {
        next_state(state_after(state, events.drop_last()), events.last())
    }
}

/// The answers to `events`, one for each, starting in `state`.
pub open spec fn actions_for(state: ExecState, command: Seq<char>, events: Seq<EventView>) -> Seq<
    ActionView,
>
    decreases events.len(),
{
    if events.len() == 0 {
        Seq::empty()
    } else {
        actions_for(state, command, events.drop_last()).push(
            action_for(state_after(state, events.drop_last()), command, events.last()),
        )
    }
}

/// An event that does not end the execution.
pub open spec fn is_quiet(event: EventView) -> bool {
    !(event is RemoteExit) && !(event is RemoteClosed) && !(event is IoFailure)
}

/// No event of `events` ends the execution.
pub open spec fn all_quiet(events: Seq<EventView>) -> bool {
    forall|i: int| 0 <= i < events.len() ==> is_quiet(#[trigger] events[i])
}

/// The command runs: it was sent, and the remote process has neither exited
/// nor been given up.
pub open spec fn is_live(state: ExecState) -> bool {
    state == ExecState::Executing || state == ExecState::Draining
}

/// The bytes that `event` brings from the remote standard output.
pub open spec fn stdout_in(event: EventView) -> Seq<u8> {
    match event {
        EventView::RemoteData(bytes) => bytes,
        _ => Seq::empty(),
    }
}

/// The bytes that `event` brings from the remote standard error.
pub open spec fn stderr_in(event: EventView) -> Seq<u8> {
    match event {
        EventView::RemoteExtendedData(bytes) => bytes,
        _ => Seq::empty(),
    }
}

/// The bytes that `action` writes to the local standard output.
pub open spec fn stdout_out(action: ActionView) -> Seq<u8> {
    match action {
        ActionView::WriteStdout(bytes) => bytes,
        _ => Seq::empty(),
    }
}

/// The bytes that `action` writes to the local standard error.
pub open spec fn stderr_out(action: ActionView) -> Seq<u8> {
    match action {
        ActionView::WriteStderr(bytes) => bytes,
        _ => Seq::empty(),
    }
}

/// Everything that the remote process wrote to its standard output during
/// `events`, in order.
pub open spec fn remote_stdout(events: Seq<EventView>) -> Seq<u8>
    decreases events.len(),
{
    if events.len() == 0 {
        Seq::empty()
    } else {
        remote_stdout(events.drop_last()) + stdout_in(events.last())
    }
}

/// Everything that the remote process wrote to its standard error during
/// `events`, in order.
pub open spec fn remote_stderr(events: Seq<EventView>) -> Seq<u8>
    decreases events.len(),
{
    if events.len() == 0 {
        Seq::empty()
    } else {
        remote_stderr(events.drop_last()) + stderr_in(events.last())
    }
}

/// Everything that `actions` write to the local standard output, in order.
pub open spec fn local_stdout(actions: Seq<ActionView>) -> Seq<u8>
    decreases actions.len(),
{
    if actions.len() == 0 {
        Seq::empty()
    } else {
        local_stdout(actions.drop_last()) + stdout_out(actions.last())
    }
}

/// Everything that `actions` write to the local standard error, in order.
pub open spec fn local_stderr(actions: Seq<ActionView>) -> Seq<u8>
    decreases actions.len(),
{
    if actions.len() == 0 {
        Seq::empty()
    } else {
        local_stderr(actions.drop_last()) + stderr_out(actions.last())
    }
}

/// How often `actions` tell the remote process that its input has ended.
pub open spec fn eof_signals(actions: Seq<ActionView>) -> nat
    decreases actions.len(),
{
    if actions.len() == 0 {
        0
    } else {
        let here: nat = match actions.last() {
            ActionView::SendEof => 1,
            ActionView::Finish { send_eof, .. } => if send_eof {
                1
            } else {
                0
            },
            _ => 0,
        };
        eof_signals(actions.drop_last()) + here
    }
}

/// While the command runs and nothing ends the execution, every byte that
/// arrives from the remote side is written out in the order of its own
/// stream as it arrives, and the command keeps running. The remote process
/// has been told of the end of its input exactly if the execution is
/// draining without having started so.
pub proof fn lemma_running(state: ExecState, command: Seq<char>, events: Seq<EventView>)
    requires
        is_live(state),
        all_quiet(events),
    ensures
        is_live(state_after(state, events)),
        state == ExecState::Draining ==> state_after(state, events) == ExecState::Draining,
        local_stdout(actions_for(state, command, events)) == remote_stdout(events),
        local_stderr(actions_for(state, command, events)) == remote_stderr(events),
        eof_signals(actions_for(state, command, events)) == if state == ExecState::Executing
            && state_after(state, events) == ExecState::Draining {
            1nat
        } else {
            0nat
        },
    decreases events.len(),
{
    if events.len() > 0 {
        let init = events.drop_last();
        assert(all_quiet(init)) by {
            assert forall|i: int| 0 <= i < init.len() implies is_quiet(#[trigger] init[i]) by {
                assert(init[i] == events[i]);
            }
        }
        lemma_running(state, command, init);
        assert(is_quiet(events.last()));
        let actions = actions_for(state, command, events);
        assert(actions.drop_last() == actions_for(state, command, init));
    }
}

/// The running part of two stretches of events, one after the other.
pub proof fn lemma_streams_concat(first: Seq<EventView>, second: Seq<EventView>)
    ensures
        remote_stdout(first + second) == remote_stdout(first) + remote_stdout(second),
        remote_stderr(first + second) == remote_stderr(first) + remote_stderr(second),
        all_quiet(first) && all_quiet(second) ==> all_quiet(first + second),
    decreases second.len(),
{
    let both = first + second;
    if second.len() == 0 {
        assert(both == first);
        assert(remote_stdout(first) + Seq::<u8>::empty() == remote_stdout(first));
        assert(remote_stderr(first) + Seq::<u8>::empty() == remote_stderr(first));
    } else {
        assert(both.drop_last() == first + second.drop_last());
        assert(both.last() == second.last());
        lemma_streams_concat(first, second.drop_last());
        assert((remote_stdout(first) + remote_stdout(second.drop_last())) + stdout_in(
            second.last(),
        ) == remote_stdout(first) + (remote_stdout(second.drop_last()) + stdout_in(
            second.last(),
        )));
        assert((remote_stderr(first) + remote_stderr(second.drop_last())) + stderr_in(
            second.last(),
        ) == remote_stderr(first) + (remote_stderr(second.drop_last()) + stderr_in(
            second.last(),
        )));
    }
    if all_quiet(first) && all_quiet(second) {
        assert forall|i: int| 0 <= i < both.len() implies is_quiet(#[trigger] both[i]) by {
            if i < first.len() {
                assert(both[i] == first[i]);
            } else {
                assert(both[i] == second[i - first.len()]);
            }
        }
    }
}

/// An execution that ends with the remote process's exit status has by then
/// written out everything that the process wrote, each stream in its own
/// order, and ends in `Exited` with exactly that status: the last answer is
/// the one that hands the status to the caller.
pub proof fn theorem_output_is_delivered_before_exit(
    state: ExecState,
    command: Seq<char>,
    events: Seq<EventView>,
    code: u32,
)
    requires
        is_live(state),
        all_quiet(events),
    ensures
        state_after(state, events.push(EventView::RemoteExit(code))) == ExecState::Exited(code),
        local_stdout(actions_for(state, command, events.push(EventView::RemoteExit(code))))
            == remote_stdout(events),
        local_stderr(actions_for(state, command, events.push(EventView::RemoteExit(code))))
            == remote_stderr(events),
        actions_for(state, command, events.push(EventView::RemoteExit(code))).last() matches ActionView::Finish {
            code: c,
            ..
        } && c == code,
{
    let whole = events.push(EventView::RemoteExit(code));
    assert(whole.drop_last() == events);
    lemma_running(state, command, events);
    let actions = actions_for(state, command, whole);
    assert(actions.drop_last() == actions_for(state, command, events));
    assert(remote_stdout(events) + Seq::<u8>::empty() == remote_stdout(events));
    assert(remote_stderr(events) + Seq::<u8>::empty() == remote_stderr(events));
}

/// The end of the local input does not cut the remote output short. When
/// the input ends while the command runs, the execution drains: it stays
/// alive until the exit status arrives, and what the remote process writes
/// after the end of the input is written out like what it wrote before.
pub proof fn theorem_output_after_local_eof_is_delivered(
    command: Seq<char>,
    before: Seq<EventView>,
    after: Seq<EventView>,
    code: u32,
)
    requires
        all_quiet(before),
        all_quiet(after),
    ensures
        state_after(
            ExecState::Executing,
            before.push(EventView::StdinRead(Seq::empty())),
        ) == ExecState::Draining,
        state_after(
            ExecState::Executing,
            before.push(EventView::StdinRead(Seq::empty())) + after,
        ) == ExecState::Draining,
        local_stdout(
            actions_for(
                ExecState::Executing,
                command,
                (before.push(EventView::StdinRead(Seq::empty())) + after).push(
                    EventView::RemoteExit(code),
                ),
            ),
        ) == remote_stdout(before) + remote_stdout(after),
        local_stderr(
            actions_for(
                ExecState::Executing,
                command,
                (before.push(EventView::StdinRead(Seq::empty())) + after).push(
                    EventView::RemoteExit(code),
                ),
            ),
        ) == remote_stderr(before) + remote_stderr(after),
        state_after(
            ExecState::Executing,
            (before.push(EventView::StdinRead(Seq::empty())) + after).push(
                EventView::RemoteExit(code),
            ),
        ) == ExecState::Exited(code),
{
    let eof = EventView::StdinRead(Seq::empty());
    let until_eof = before.push(eof);
    assert(until_eof.drop_last() == before);
    assert(until_eof == before + seq![eof]);
    assert(all_quiet(seq![eof])) by {
        assert(is_quiet(eof));
    }
    lemma_running(ExecState::Executing, command, before);
    lemma_streams_concat(before, seq![eof]);
    lemma_streams_concat(until_eof, after);
    // the end of the input itself brings no output
    assert(seq![eof].drop_last() == Seq::<EventView>::empty());
    assert(remote_stdout(seq![eof]) == Seq::<u8>::empty());
    assert(remote_stderr(seq![eof]) == Seq::<u8>::empty());
    assert(remote_stdout(before) + Seq::<u8>::empty() == remote_stdout(before));
    assert(remote_stderr(before) + Seq::<u8>::empty() == remote_stderr(before));
    lemma_state_concat(ExecState::Executing, until_eof, after);
    lemma_running(ExecState::Draining, command, after);
    theorem_output_is_delivered_before_exit(ExecState::Executing, command, until_eof + after, code);
}

/// Reporting two stretches of events one after the other is reporting the
/// second in the state that the first leaves.
pub proof fn lemma_state_concat(state: ExecState, first: Seq<EventView>, second: Seq<EventView>)
    ensures
        state_after(state, first + second) == state_after(state_after(state, first), second),
    decreases second.len(),
{
    let both = first + second;
    if second.len() == 0 {
        assert(both == first);
    } else {
        assert(both.drop_last() == first + second.drop_last());
        assert(both.last() == second.last());
        lemma_state_concat(state, first, second.drop_last());
    }
}

/// From the moment the command runs until the remote process exits, the
/// process is told of the end of its input exactly once: when the local
/// input ends, or, if it has not ended by then, at the exit.
pub proof fn theorem_eof_is_signalled_once(command: Seq<char>, events: Seq<EventView>, code: u32)
    requires
        all_quiet(events),
    ensures
        eof_signals(
            actions_for(ExecState::Executing, command, events.push(EventView::RemoteExit(code))),
        ) == 1,
{
    let whole = events.push(EventView::RemoteExit(code));
    assert(whole.drop_last() == events);
    lemma_running(ExecState::Executing, command, events);
    let actions = actions_for(ExecState::Executing, command, whole);
    assert(actions.drop_last() == actions_for(ExecState::Executing, command, events));
}

/// How often `actions` send the command line.
pub open spec fn commands_sent(actions: Seq<ActionView>) -> nat
    decreases actions.len(),
{
    if actions.len() == 0 {
        0
    } else {
        let here: nat = if actions.last() is SendCommand {
            1
        } else {
            0
        };
        commands_sent(actions.drop_last()) + here
    }
}

/// The command line is sent once. Whatever is reported, an execution that
/// awaits the answer about the pseudo-terminal sends the command at most
/// once, namely when it leaves that state for `Executing`; and an execution
/// in any other state, where the command was sent or will never be, does not
/// send it.
pub proof fn theorem_command_is_sent_once(
    state: ExecState,
    command: Seq<char>,
    events: Seq<EventView>,
)
    requires
        state != ExecState::Opened,
    ensures
        commands_sent(actions_for(state, command, events)) <= 1,
        state != ExecState::PtyRequested ==> commands_sent(actions_for(state, command, events))
            == 0,
        state_after(state, events) == ExecState::PtyRequested ==> commands_sent(
            actions_for(state, command, events),
        ) == 0,
        state == ExecState::PtyRequested && (is_live(state_after(state, events)) || state_after(
            state,
            events,
        ) is Exited) ==> commands_sent(actions_for(state, command, events)) == 1,
    decreases events.len(),
{
    if events.len() > 0 {
        let init = events.drop_last();
        theorem_command_is_sent_once(state, command, init);
        let actions = actions_for(state, command, events);
        assert(actions.drop_last() == actions_for(state, command, init));
        lemma_never_back_to_waiting(state, init);
    }
}

/// An execution does not return to the states before the command was sent:
/// once it has left `PtyRequested` it stays out of it.
pub proof fn lemma_never_back_to_waiting(state: ExecState, events: Seq<EventView>)
    requires
        state != ExecState::Opened,
    ensures
        state_after(state, events) != ExecState::Opened,
        state != ExecState::PtyRequested ==> state_after(state, events) != ExecState::PtyRequested,
        state_after(state, events) == ExecState::PtyRequested ==> state == ExecState::PtyRequested,
    decreases events.len(),
{
    if events.len() > 0 {
        lemma_never_back_to_waiting(state, events.drop_last());
    }
}

} // verus!
