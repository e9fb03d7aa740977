//! The decisions of a synchronisation: a state machine that is told what
//! happened (a path was resolved, the tree was walked, a remote operation
//! ended) and answers with what to do next. The caller owns the transfer
//! channel and the local files and runs the loop; nothing here waits or
//! performs I/O.
//!
//! A pass resolves the source, checks and resolves the destination, walks
//! the source, and then takes the entries of the walk one at a time in the
//! order of the walk: a directory is created, a file is written, a position
//! that gave no entry is reported. What fails for one entry is recorded as
//! a warning and the pass goes on. Only a source that cannot be resolved, a
//! destination that is not a directory, and a failure of the channel itself
//! end the pass with an error.

use crate::error::SessionError;
use crate::path::parent_of;
use crate::util::{
    biject_paths, bijected_all, calc_prefix, entries_view, entry_view, items_view, PathEntry,
    PathEntryView, WalkError, WalkErrorView, WalkItem, WalkItemView,
};
use vstd::prelude::*;

verus! {

/// The path that stands for "here" where the caller names none.
pub const HERE: &'static str = ".";

/// Where a synchronisation stands.
#[derive(Clone, Copy, Debug, PartialEq, Eq, Structural)]
pub enum SyncState {
    /// Nothing has been asked yet.
    Created,
    /// The canonical form of the source is awaited.
    ResolvingSource,
    /// The kind of the destination is awaited.
    CheckingDestination,
    /// The canonical form of the destination is awaited.
    ResolvingDestination,
    /// The walk of the source is awaited.
    Walking,
    /// The outcome of the operation for the current entry is awaited.
    Transferring,
    /// The closing of the channel is awaited.
    Closing,
    /// The pass is complete.
    Done,
    /// The pass was given up.
    Failed(SessionError),
}

/// How a remote operation ended.
#[derive(Clone, Copy, Debug, PartialEq, Eq, Structural)]
pub enum OpOutcome {
    /// It was carried out.
    Done,
    /// It was refused because its target exists already.
    AlreadyExists,
    /// It failed for any other reason.
    Failed,
}

/// What happened, as the caller reports it.
#[derive(Debug, PartialEq, Eq)]
pub enum SyncEvent {
    /// The source resolved to this canonical absolute path.
    SourceResolved(String),
    /// The source could not be resolved.
    SourceUnresolved,
    /// The destination exists, as a directory or as something else.
    DestinationFound { is_dir: bool },
    /// The destination does not exist.
    DestinationNotFound,
    /// The destination could not be looked up, for another reason than that
    /// it does not exist.
    DestinationLookupFailed,
    /// The destination resolved to this canonical absolute path.
    DestinationResolved(String),
    /// The destination could not be resolved.
    DestinationUnresolved,
    /// The walk of the source found these positions, in this order.
    Walked(Vec<Result<WalkItem, String>>),
    /// The operation for the current entry ended.
    Finished(OpOutcome),
    /// The channel was closed.
    Closed,
    /// The channel could not be closed.
    CloseFailed,
}

/// A `SyncEvent` as a mathematical value.
pub enum SyncEventView {
    SourceResolved(Seq<char>),
    SourceUnresolved,
    DestinationFound { is_dir: bool },
    DestinationNotFound,
    DestinationLookupFailed,
    DestinationResolved(Seq<char>),
    DestinationUnresolved,
    Walked(Seq<Result<WalkItemView, Seq<char>>>),
    Finished(OpOutcome),
    Closed,
    CloseFailed,
}

impl View for SyncEvent {
    type V = SyncEventView;

    open spec fn view(&self) -> SyncEventView {
        match self {
            SyncEvent::SourceResolved(path) => SyncEventView::SourceResolved(path@),
            SyncEvent::SourceUnresolved => SyncEventView::SourceUnresolved,
            SyncEvent::DestinationFound { is_dir } => SyncEventView::DestinationFound {
                is_dir: *is_dir,
            },
            SyncEvent::DestinationNotFound => SyncEventView::DestinationNotFound,
            SyncEvent::DestinationLookupFailed => SyncEventView::DestinationLookupFailed,
            SyncEvent::DestinationResolved(path) => SyncEventView::DestinationResolved(path@),
            SyncEvent::DestinationUnresolved => SyncEventView::DestinationUnresolved,
            SyncEvent::Walked(items) => SyncEventView::Walked(items_view(items@)),
            SyncEvent::Finished(outcome) => SyncEventView::Finished(*outcome),
            SyncEvent::Closed => SyncEventView::Closed,
            SyncEvent::CloseFailed => SyncEventView::CloseFailed,
        }
    }
}

/// What the caller is to do next.
#[derive(Debug, PartialEq, Eq)]
pub enum SyncAction {
    /// Nothing: go on waiting.
    Nothing,
    /// Resolve this local path to its canonical absolute form.
    ResolveSource(String),
    /// Look up what this remote path is.
    StatDestination(String),
    /// Resolve this remote path to its canonical absolute form.
    ResolveDestination(String),
    /// Walk the local tree rooted at this path.
    Walk(String),
    /// Create this remote directory.
    CreateDir(String),
    /// Write the contents of the local file over the remote file, which is
    /// created if it is missing, and make sure they reach the disk.
    WriteFile { local: String, remote: String },
    /// Tell the user that this position of the walk is skipped.
    Report(WalkError),
    /// Close the channel.
    Close,
    /// The pass is complete.
    Finish,
    /// The pass is given up with this error.
    Fail(SessionError),
}

/// A `SyncAction` as a mathematical value.
pub enum SyncActionView {
    Nothing,
    ResolveSource(Seq<char>),
    StatDestination(Seq<char>),
    ResolveDestination(Seq<char>),
    Walk(Seq<char>),
    CreateDir(Seq<char>),
    WriteFile { local: Seq<char>, remote: Seq<char> },
    Report(WalkErrorView),
    Close,
    Finish,
    Fail(SessionError),
}

impl View for SyncAction {
    type V = SyncActionView;

    open spec fn view(&self) -> SyncActionView {
        match self {
            SyncAction::Nothing => SyncActionView::Nothing,
            SyncAction::ResolveSource(path) => SyncActionView::ResolveSource(path@),
            SyncAction::StatDestination(path) => SyncActionView::StatDestination(path@),
            SyncAction::ResolveDestination(path) => SyncActionView::ResolveDestination(path@),
            SyncAction::Walk(path) => SyncActionView::Walk(path@),
            SyncAction::CreateDir(path) => SyncActionView::CreateDir(path@),
            SyncAction::WriteFile { local, remote } => SyncActionView::WriteFile {
                local: local@,
                remote: remote@,
            },
            SyncAction::Report(error) => SyncActionView::Report(error@),
            SyncAction::Close => SyncActionView::Close,
            SyncAction::Finish => SyncActionView::Finish,
            SyncAction::Fail(error) => SyncActionView::Fail(*error),
        }
    }
}

/// What went wrong for one entry without ending the pass: a position of
/// the walk that gave no entry, or a remote I/O error.
#[derive(Debug, PartialEq, Eq)]
pub enum SyncWarning {
    /// The position of the walk gave no entry.
    Skipped(WalkError),
    /// The remote directory could not be created, and not because it exists.
    DirectoryNotCreated(String),
    /// The remote file could not be written.
    FileNotWritten(String),
}

/// A `SyncWarning` as a mathematical value.
pub enum WarningView {
    Skipped(WalkErrorView),
    DirectoryNotCreated(Seq<char>),
    FileNotWritten(Seq<char>),
}

impl View for SyncWarning {
    type V = WarningView;

    open spec fn view(&self) -> WarningView {
        match self {
            SyncWarning::Skipped(error) => WarningView::Skipped(error@),
            SyncWarning::DirectoryNotCreated(path) => WarningView::DirectoryNotCreated(path@),
            SyncWarning::FileNotWritten(path) => WarningView::FileNotWritten(path@),
        }
    }
}

/// A list of warnings as mathematical values.
pub open spec fn warnings_view(warnings: Seq<SyncWarning>) -> Seq<WarningView> {
    Seq::new(warnings.len(), |i: int| warnings[i]@)
}

/// A synchronisation as a mathematical value.
pub struct SyncView {
    /// Where the pass stands.
    pub state: SyncState,
    /// The source as the caller named it.
    pub source: Option<Seq<char>>,
    /// The destination as the caller named it.
    pub destination: Option<Seq<char>>,
    /// The canonical source, once resolved.
    pub root: Seq<char>,
    /// The canonical destination, once resolved.
    pub remote_root: Seq<char>,
    /// What became of the positions of the walk, once walked.
    pub entries: Seq<Result<PathEntryView, WalkErrorView>>,
    /// The position of the current entry.
    pub next: nat,
    /// The warnings so far, oldest first.
    pub warnings: Seq<WarningView>,
}

/// The current entry exists while an outcome is awaited.
pub open spec fn consistent(v: SyncView) -> bool {
    &&& v.next <= v.entries.len()
    &&& v.state == SyncState::Transferring ==> v.next < v.entries.len()
}

/// What is asked for one entry: a directory is created, a file is written,
/// a position without an entry is reported.
pub open spec fn entry_action(entry: Result<PathEntryView, WalkErrorView>) -> SyncActionView {
    match entry {
        Ok(e) => if e.is_dir {
            SyncActionView::CreateDir(e.remote)
        } else {
            SyncActionView::WriteFile { local: e.local, remote: e.remote }
        },
        Err(e) => SyncActionView::Report(e),
    }
}

/// The warning that one entry leaves behind, if any. A position without an
/// entry always leaves one. An operation leaves one when it failed; that a
/// directory exists already is no failure.
pub open spec fn warning_for(
    entry: Result<PathEntryView, WalkErrorView>,
    outcome: OpOutcome,
) -> Seq<WarningView> {
    match entry {
        Err(e) => seq![WarningView::Skipped(e)],
        Ok(e) => if outcome == OpOutcome::Failed {
            if e.is_dir {
                seq![WarningView::DirectoryNotCreated(e.remote)]
            } else {
                seq![WarningView::FileNotWritten(e.remote)]
            }
        } else {
            Seq::empty()
        },
    }
}

/// The pass is given up with `error`.
pub open spec fn failed(v: SyncView, error: SessionError) -> (SyncView, SyncActionView) {
    (SyncView { state: SyncState::Failed(error), ..v }, SyncActionView::Fail(error))
}

/// The pass turns to the entry at `v.next`, or closes the channel when no
/// entry is left.
pub open spec fn turned(v: SyncView) -> (SyncView, SyncActionView) {
    if v.next < v.entries.len() {
        (SyncView { state: SyncState::Transferring, ..v }, entry_action(v.entries[v.next as int]))
    } else {
        (SyncView { state: SyncState::Closing, ..v }, SyncActionView::Close)
    }
}

/// The pass and the answer that follow when `event` is reported to `v`. An
/// event that the state does not await changes nothing.
pub open spec fn sync_step(v: SyncView, event: SyncEventView) -> (SyncView, SyncActionView) {
    match v.state {
        SyncState::Created | SyncState::Done | SyncState::Failed(_) => (
            v,
            SyncActionView::Nothing,
        ),
        SyncState::ResolvingSource => match event {
            SyncEventView::SourceResolved(path) => match v.destination {
                Some(d) => (
                    SyncView { state: SyncState::CheckingDestination, root: path, ..v },
                    SyncActionView::StatDestination(d),
                ),
                None => (
                    SyncView { state: SyncState::ResolvingDestination, root: path, ..v },
                    SyncActionView::ResolveDestination(HERE@),
                ),
            },
            SyncEventView::SourceUnresolved => failed(v, SessionError::SourceError),
            _ => (v, SyncActionView::Nothing),
        },
        SyncState::CheckingDestination => match event {
            SyncEventView::DestinationFound { is_dir } => if is_dir {
                (
                    SyncView { state: SyncState::ResolvingDestination, ..v },
                    SyncActionView::ResolveDestination(destination_or_here(v.destination)),
                )
            } else {
                failed(v, SessionError::DestinationNotDirectory)
            },
            SyncEventView::DestinationNotFound => (
                SyncView { state: SyncState::ResolvingDestination, ..v },
                SyncActionView::ResolveDestination(destination_or_here(v.destination)),
            ),
            SyncEventView::DestinationLookupFailed => failed(v, SessionError::ChannelError),
            _ => (v, SyncActionView::Nothing),
        },
        SyncState::ResolvingDestination => match event {
            SyncEventView::DestinationResolved(path) => (
                SyncView { state: SyncState::Walking, remote_root: path, ..v },
                SyncActionView::Walk(v.root),
            ),
            SyncEventView::DestinationUnresolved => failed(v, SessionError::ChannelError),
            _ => (v, SyncActionView::Nothing),
        },
        SyncState::Walking => match event {
            SyncEventView::Walked(items) => turned(
                SyncView {
                    entries: bijected_all(items, parent_of(v.root), v.remote_root),
                    next: 0,
                    ..v
                },
            ),
            _ => (v, SyncActionView::Nothing),
        },
        SyncState::Transferring => match event {
            SyncEventView::Finished(outcome) => turned(
                SyncView {
                    warnings: v.warnings + warning_for(v.entries[v.next as int], outcome),
                    next: v.next + 1,
                    ..v
                },
            ),
            _ => (v, SyncActionView::Nothing),
        },
        SyncState::Closing => match event {
            SyncEventView::Closed => (
                SyncView { state: SyncState::Done, ..v },
                SyncActionView::Finish,
            ),
            SyncEventView::CloseFailed => failed(v, SessionError::ChannelError),
            _ => (v, SyncActionView::Nothing),
        },
    }
}

/// The destination that the caller named, or "here".
pub open spec fn destination_or_here(destination: Option<Seq<char>>) -> Seq<char> {
    match destination {
        Some(d) => d,
        None => HERE@,
    }
}

/// The source that the caller named, or "here".
pub open spec fn source_or_here(source: Option<Seq<char>>) -> Seq<char> {
    match source {
        Some(s) => s,
        None => HERE@,
    }
}

/// The pass and the answer that follow when `v` is started. A pass that was
/// started before is left alone.
pub open spec fn sync_begin(v: SyncView) -> (SyncView, SyncActionView) {
    if v.state == SyncState::Created {
        (
            SyncView { state: SyncState::ResolvingSource, ..v },
            SyncActionView::ResolveSource(source_or_here(v.source)),
        )
    } else {
        (v, SyncActionView::Nothing)
    }
}

/// How far a pass has come through the entries of the walk.
struct Progress {
    state: SyncState,
    entries: Vec<Result<PathEntry, WalkError>>,
    next: usize,
}

impl Progress {
    #[verifier::type_invariant]
    spec fn current_entry_exists(self) -> bool {
        &&& self.next <= self.entries.len()
        &&& self.state == SyncState::Transferring ==> self.next < self.entries.len()
    }
}

/// One synchronisation of a local tree onto a remote directory.
pub struct SyncSession {
    progress: Progress,
    source: Option<String>,
    destination: Option<String>,
    root: String,
    remote_root: String,
    warnings: Vec<SyncWarning>,
}

/// The text of an optional string.
pub open spec fn text_of(s: Option<String>) -> Option<Seq<char>> {
    match s {
        Some(s) => Some(s@),
        None => None,
    }
}

impl View for SyncSession {
    type V = SyncView;

    closed spec fn view(&self) -> SyncView {
        SyncView {
            state: self.progress.state,
            source: text_of(self.source),
            destination: text_of(self.destination),
            root: self.root@,
            remote_root: self.remote_root@,
            entries: entries_view(self.progress.entries@),
            next: self.progress.next as nat,
            warnings: warnings_view(self.warnings@),
        }
    }
}

impl SyncSession {
    /// A synchronisation of `source` onto `destination` that has asked for
    /// nothing yet. A side that is not named is "here": the current
    /// directory on this side, the directory that the remote side starts in
    /// on the other.
    pub fn new(source: Option<String>, destination: Option<String>) -> (session: SyncSession)
        ensures
            session@ == (SyncView {
                state: SyncState::Created,
                source: text_of(source),
                destination: text_of(destination),
                root: Seq::empty(),
                remote_root: Seq::empty(),
                entries: Seq::empty(),
                next: 0,
                warnings: Seq::empty(),
            }),
            consistent(session@),
    {
        let session = SyncSession {
            progress: Progress { state: SyncState::Created, entries: Vec::new(), next: 0 },
            source,
            destination,
            root: String::new(),
            remote_root: String::new(),
            warnings: Vec::new(),
        };
        assert(session@.entries =~= Seq::empty());
        assert(session@.warnings =~= Seq::empty());
        session
    }

    /// Where the pass stands.
    pub fn state(&self) -> (state: SyncState)
        ensures
            state == self@.state,
    {
        self.progress.state
    }

    /// The warnings so far, oldest first.
    pub fn warnings(&self) -> (warnings: &Vec<SyncWarning>)
        ensures
            warnings_view(warnings@) == self@.warnings,
    {
        &self.warnings
    }

    /// How the pass ended, once it has: with success, also where warnings
    /// were recorded, or with the error that ended it.
    pub fn result(&self) -> (result: Option<Result<(), SessionError>>)
        ensures
            result == match self@.state {
                SyncState::Done => Some(Ok::<(), SessionError>(())),
                SyncState::Failed(error) => Some(Err::<(), SessionError>(error)),
                _ => None::<Result<(), SessionError>>,
            },
    {
        match self.progress.state {
            SyncState::Done => Some(Ok(())),
            SyncState::Failed(error) => Some(Err(error)),
            _ => None,
        }
    }

    /// Starts the pass: asks for the canonical form of the source.
    pub fn begin(&mut self) -> (action: SyncAction)
        ensures
            (final(self)@, action@) == sync_begin(old(self)@),
            consistent(final(self)@),
    {
        proof {
            use_type_invariant(&self.progress);
        }
        match self.progress.state {
            SyncState::Created => {
                self.progress.state = SyncState::ResolvingSource;
                match &self.source {
                    Some(s) => SyncAction::ResolveSource(s.clone()),
                    None => SyncAction::ResolveSource(HERE.to_owned()),
                }
            },
            _ => SyncAction::Nothing,
        }
    }

    /// The answer for the entry at `self.progress.next`, which exists.
    fn current_action(&self) -> (action: SyncAction)
        requires
            self.progress.next < self.progress.entries.len(),
        ensures
            action@ == entry_action(self@.entries[self@.next as int]),
    {
        match &self.progress.entries[self.progress.next] {
            Ok(e) => if e.is_dir {
                SyncAction::CreateDir(e.remote.clone())
            } else {
                SyncAction::WriteFile { local: e.local.clone(), remote: e.remote.clone() }
            },
            Err(WalkError::Unreadable { reason }) => SyncAction::Report(
                WalkError::Unreadable { reason: reason.clone() },
            ),
            Err(WalkError::OutsideSource { path }) => SyncAction::Report(
                WalkError::OutsideSource { path: path.clone() },
            ),
        }
    }

    /// Records what the entry at `self.progress.next` leaves behind after `outcome`.
    fn record(&mut self, outcome: OpOutcome)
        requires
            old(self).progress.next < old(self).progress.entries.len(),
        ensures
            final(self)@ == (SyncView {
                warnings: old(self)@.warnings + warning_for(
                    old(self)@.entries[old(self)@.next as int],
                    outcome,
                ),
                ..old(self)@
            }),
    {
        proof {
            use_type_invariant(&self.progress);
        }
        let ghost before = warnings_view(self.warnings@);
        let failed = matches!(outcome, OpOutcome::Failed);
        let warning = match &self.progress.entries[self.progress.next] {
            Err(WalkError::Unreadable { reason }) => Some(
                SyncWarning::Skipped(WalkError::Unreadable { reason: reason.clone() }),
            ),
            Err(WalkError::OutsideSource { path }) => Some(
                SyncWarning::Skipped(WalkError::OutsideSource { path: path.clone() }),
            ),
            Ok(e) => if failed {
                if e.is_dir {
                    Some(SyncWarning::DirectoryNotCreated(e.remote.clone()))
                } else {
                    Some(SyncWarning::FileNotWritten(e.remote.clone()))
                }
            } else {
                None
            },
        };
        match warning {
            Some(w) => {
                self.warnings.push(w);
                assert(warnings_view(self.warnings@) =~= before + seq![w@]);
            },
            None => {
                assert(before + Seq::<WarningView>::empty() =~= before);
            },
        }
    }

    /// Takes note of `event` and says what to do about it.
    pub fn step(&mut self, event: SyncEvent) -> (action: SyncAction)
        ensures
            (final(self)@, action@) == sync_step(old(self)@, event@),
            consistent(final(self)@),
    {
        proof {
            use_type_invariant(&self.progress);
        }
        match self.progress.state {
            SyncState::Created | SyncState::Done | SyncState::Failed(_) => SyncAction::Nothing,
            SyncState::ResolvingSource => match event {
                SyncEvent::SourceResolved(path) => {
                    self.root = path;
                    match &self.destination {
                        Some(d) => {
                            self.progress.state = SyncState::CheckingDestination;
                            SyncAction::StatDestination(d.clone())
                        },
                        None => {
                            self.progress.state = SyncState::ResolvingDestination;
                            SyncAction::ResolveDestination(HERE.to_owned())
                        },
                    }
                },
                SyncEvent::SourceUnresolved => self.fail(SessionError::SourceError),
                _ => SyncAction::Nothing,
            },
            SyncState::CheckingDestination => match event {
                SyncEvent::DestinationFound { is_dir } => {
                    if is_dir {
                        self.progress.state = SyncState::ResolvingDestination;
                        SyncAction::ResolveDestination(self.destination_or_here())
                    } else {
                        self.fail(SessionError::DestinationNotDirectory)
                    }
                },
                SyncEvent::DestinationNotFound => {
                    self.progress.state = SyncState::ResolvingDestination;
                    SyncAction::ResolveDestination(self.destination_or_here())
                },
                SyncEvent::DestinationLookupFailed => self.fail(SessionError::ChannelError),
                _ => SyncAction::Nothing,
            },
            SyncState::ResolvingDestination => match event {
                SyncEvent::DestinationResolved(path) => {
                    self.remote_root = path;
                    self.progress.state = SyncState::Walking;
                    SyncAction::Walk(self.root.clone())
                },
                SyncEvent::DestinationUnresolved => self.fail(SessionError::ChannelError),
                _ => SyncAction::Nothing,
            },
            SyncState::Walking => match event {
                SyncEvent::Walked(items) => {
                    let prefix = calc_prefix(self.root.as_str());
                    let entries = biject_paths(&items, prefix.as_str(), self.remote_root.as_str());
                    self.progress.next = 0;
                    self.progress.entries = entries;
                    self.turn()
                },
                _ => SyncAction::Nothing,
            },
            SyncState::Transferring => match event {
                SyncEvent::Finished(outcome) => {
                    self.record(outcome);
                    proof {
                        use_type_invariant(&self.progress);
                    }
                    if self.progress.next + 1 == self.progress.entries.len() {
                        self.progress.state = SyncState::Closing;
                    }
                    self.progress.next = self.progress.next + 1;
                    self.turn()
                },
                _ => SyncAction::Nothing,
            },
            SyncState::Closing => match event {
                SyncEvent::Closed => {
                    self.progress.state = SyncState::Done;
                    SyncAction::Finish
                },
                SyncEvent::CloseFailed => self.fail(SessionError::ChannelError),
                _ => SyncAction::Nothing,
            },
        }
    }

    /// Gives the pass up with `error`.
    fn fail(&mut self, error: SessionError) -> (action: SyncAction)
        ensures
            (final(self)@, action@) == failed(old(self)@, error),
    {
        proof {
            use_type_invariant(&self.progress);
        }
        self.progress.state = SyncState::Failed(error);
        SyncAction::Fail(error)
    }

    /// Turns to the entry at `self.progress.next`, or closes the channel when no
    /// entry is left.
    fn turn(&mut self) -> (action: SyncAction)
        requires
            old(self).progress.state != SyncState::Transferring || old(self).progress.next < old(self).progress.entries.len(),
        ensures
            (final(self)@, action@) == turned(old(self)@),
    {
        proof {
            use_type_invariant(&self.progress);
        }
        if self.progress.next < self.progress.entries.len() {
            self.progress.state = SyncState::Transferring;
            self.current_action()
        } else {
            self.progress.state = SyncState::Closing;
            SyncAction::Close
        }
    }

    /// The destination that the caller named, or "here".
    fn destination_or_here(&self) -> (path: String)
        ensures
            path@ == destination_or_here(self@.destination),
    {
        match &self.destination {
            Some(d) => d.clone(),
            None => HERE.to_owned(),
        }
    }
}

// ---------------------------------------------------------------------------
// Whole passes
// ---------------------------------------------------------------------------

/// The pass after `events` have been reported one by one, and the answers
/// to them, one for each.
pub open spec fn sync_run(v: SyncView, events: Seq<SyncEventView>) -> (
    SyncView,
    Seq<SyncActionView>,
)
    decreases events.len(),
{
    if events.len() == 0 {
        (v, Seq::empty())
    } else {
        let (mid, actions) = sync_run(v, events.drop_last());
        let (end, action) = sync_step(mid, events.last());
        (end, actions.push(action))
    }
}

/// The events that report `outcomes`, one for each.
pub open spec fn outcome_events(outcomes: Seq<OpOutcome>) -> Seq<SyncEventView> {
    Seq::new(outcomes.len(), |i: int| SyncEventView::Finished(outcomes[i]))
}

/// The warnings that the first entries leave behind, one outcome for each,
/// oldest first.
pub open spec fn warnings_of(
    entries: Seq<Result<PathEntryView, WalkErrorView>>,
    outcomes: Seq<OpOutcome>,
) -> Seq<WarningView>
    decreases outcomes.len(),
{
    if outcomes.len() == 0 {
        Seq::empty()
    } else {
        warnings_of(entries, outcomes.drop_last()) + warning_for(
            entries[outcomes.len() - 1],
            outcomes.last(),
        )
    }
}

/// The events of a transfer: the walk, then the outcomes.
pub open spec fn transfer_events(
    items: Seq<Result<WalkItemView, Seq<char>>>,
    outcomes: Seq<OpOutcome>,
) -> Seq<SyncEventView> {
    seq![SyncEventView::Walked(items)] + outcome_events(outcomes)
}

/// Where a transfer stands after the walk and the outcomes of the first
/// entries: every entry so far was asked for in the order of the walk,
/// whatever the outcomes before it, and the next one is being asked for.
pub proof fn lemma_transfer(
    v: SyncView,
    items: Seq<Result<WalkItemView, Seq<char>>>,
    outcomes: Seq<OpOutcome>,
)
    requires
        v.state == SyncState::Walking,
        outcomes.len() <= items.len(),
    ensures
        ({
            let entries = bijected_all(items, parent_of(v.root), v.remote_root);
            let (end, actions) = sync_run(v, transfer_events(items, outcomes));
            &&& end == (SyncView {
                state: if outcomes.len() < entries.len() {
                    SyncState::Transferring
                } else {
                    SyncState::Closing
                },
                entries: entries,
                next: outcomes.len(),
                warnings: v.warnings + warnings_of(entries, outcomes),
                ..v
            })
            &&& actions.len() == outcomes.len() + 1
            &&& forall|i: int|
                0 <= i < actions.len() && i < entries.len() ==> actions[i] == entry_action(
                    entries[i],
                )
            &&& outcomes.len() == entries.len() ==> actions.last() == SyncActionView::Close
        }),
    decreases outcomes.len(),
{
    let entries = bijected_all(items, parent_of(v.root), v.remote_root);
    let events = transfer_events(items, outcomes);
    let walked = SyncEventView::Walked(items);
    if outcomes.len() == 0 {
        assert(events == seq![walked]);
        assert(events.drop_last() == Seq::<SyncEventView>::empty());
        assert(sync_run(v, events.drop_last()) == (v, Seq::<SyncActionView>::empty()));
        assert(v.warnings + Seq::<WarningView>::empty() == v.warnings);
    } else {
        let earlier = outcomes.drop_last();
        assert(events.drop_last() == transfer_events(items, earlier));
        assert(events.last() == SyncEventView::Finished(outcomes.last()));
        lemma_transfer(v, items, earlier);
        let (mid, before) = sync_run(v, transfer_events(items, earlier));
        let (end, action) = sync_step(mid, events.last());
        assert(mid.state == SyncState::Transferring);
        assert(mid.warnings + warning_for(entries[earlier.len() as int], outcomes.last())
            == v.warnings + warnings_of(entries, outcomes));
        let actions = before.push(action);
        assert forall|i: int|
            0 <= i < actions.len() && i < entries.len() implies actions[i] == entry_action(
            entries[i],
        ) by {
            if i < before.len() {
                assert(actions[i] == before[i]);
            }
        }
    }
}

/// Every entry of the walk gets its turn, in the order of the walk, and a
/// failure for one entry neither ends the pass nor changes what is asked
/// for the others. Whatever the outcomes, the pass asks for one operation
/// for each position of the walk, then for the closing of the channel, and
/// ends in success once the channel is closed; it has then recorded the
/// warnings of the positions that gave no entry and of the operations that
/// failed, and nothing else.
pub proof fn theorem_failures_do_not_end_the_pass(
    v: SyncView,
    items: Seq<Result<WalkItemView, Seq<char>>>,
    outcomes: Seq<OpOutcome>,
)
    requires
        v.state == SyncState::Walking,
        outcomes.len() == items.len(),
    ensures
        ({
            let entries = bijected_all(items, parent_of(v.root), v.remote_root);
            let (end, actions) = sync_run(
                v,
                transfer_events(items, outcomes).push(SyncEventView::Closed),
            );
            &&& actions.len() == entries.len() + 2
            &&& forall|i: int| 0 <= i < entries.len() ==> actions[i] == entry_action(entries[i])
            &&& actions[entries.len() as int] == SyncActionView::Close
            &&& actions.last() == SyncActionView::Finish
            &&& end.state == SyncState::Done
            &&& end.warnings == v.warnings + warnings_of(entries, outcomes)
        }),
{
    let events = transfer_events(items, outcomes);
    let whole = events.push(SyncEventView::Closed);
    assert(whole.drop_last() == events);
    lemma_transfer(v, items, outcomes);
    let entries = bijected_all(items, parent_of(v.root), v.remote_root);
    let (mid, before) = sync_run(v, events);
    let (end, actions) = sync_run(v, whole);
    assert(actions == before.push(SyncActionView::Finish));
    assert forall|i: int| 0 <= i < entries.len() implies actions[i] == entry_action(
        entries[i],
    ) by {
        assert(actions[i] == before[i]);
    }
    assert(actions[entries.len() as int] == before.last());
}

/// No position of the walk is without an entry.
pub open spec fn all_entries(entries: Seq<Result<PathEntryView, WalkErrorView>>) -> bool {
    forall|i: int| 0 <= i < entries.len() ==> (#[trigger] entries[i]) is Ok
}

/// No operation failed; that a target exists already is no failure.
pub open spec fn none_failed(outcomes: Seq<OpOutcome>) -> bool {
    forall|i: int| 0 <= i < outcomes.len() ==> #[trigger] outcomes[i] != OpOutcome::Failed
}

/// A pass in which every position gives an entry and no operation fails
/// leaves no warning. So does, in particular, a second pass over a source
/// that has not changed: its directories are refused as existing already,
/// which is no failure, and its files are written over.
pub proof fn theorem_settled_pass_is_clean(
    entries: Seq<Result<PathEntryView, WalkErrorView>>,
    outcomes: Seq<OpOutcome>,
)
    requires
        outcomes.len() <= entries.len(),
        all_entries(entries),
        none_failed(outcomes),
    ensures
        warnings_of(entries, outcomes) == Seq::<WarningView>::empty(),
    decreases outcomes.len(),
{
    if outcomes.len() > 0 {
        let earlier = outcomes.drop_last();
        assert(none_failed(earlier)) by {
            assert forall|i: int| 0 <= i < earlier.len() implies #[trigger] earlier[i]
                != OpOutcome::Failed by {
                assert(earlier[i] == outcomes[i]);
            }
        }
        theorem_settled_pass_is_clean(entries, earlier);
        assert(entries[outcomes.len() - 1] is Ok);
        assert(outcomes.last() != OpOutcome::Failed);
        assert(Seq::<WarningView>::empty() + Seq::<WarningView>::empty() == Seq::<
            WarningView,
        >::empty());
    }
}

} // verus!
