use korasi_cli::error::SessionError;
use korasi_cli::sync_session::{
    OpOutcome, SyncAction, SyncEvent, SyncSession, SyncState, SyncWarning,
};
use korasi_cli::util::{WalkError, WalkItem};

fn item(path: &str, is_dir: bool) -> Result<WalkItem, String> {
    Ok(WalkItem { path: path.to_string(), is_dir })
}

fn project_tree() -> Vec<Result<WalkItem, String>> {
    vec![
        item("/home/me/proj", true),
        item("/home/me/proj/a.txt", false),
        item("/home/me/proj/sub", true),
        item("/home/me/proj/sub/b.txt", false),
    ]
}

fn create_dir(remote: &str) -> SyncAction {
    SyncAction::CreateDir(remote.to_string())
}

fn write_file(local: &str, remote: &str) -> SyncAction {
    SyncAction::WriteFile { local: local.to_string(), remote: remote.to_string() }
}

/// A pass of `proj` onto `/home/user/work` that has resolved both sides and
/// awaits the walk.
fn walking() -> SyncSession {
    let mut pass = SyncSession::new(Some("proj".to_string()), Some("/home/user/work".to_string()));
    assert_eq!(pass.begin(), SyncAction::ResolveSource("proj".to_string()));
    assert_eq!(
        pass.step(SyncEvent::SourceResolved("/home/me/proj".to_string())),
        SyncAction::StatDestination("/home/user/work".to_string())
    );
    assert_eq!(
        pass.step(SyncEvent::DestinationFound { is_dir: true }),
        SyncAction::ResolveDestination("/home/user/work".to_string())
    );
    assert_eq!(
        pass.step(SyncEvent::DestinationResolved("/home/user/work".to_string())),
        SyncAction::Walk("/home/me/proj".to_string())
    );
    assert_eq!(pass.state(), SyncState::Walking);
    pass
}

/// Reports the walk and then `outcomes`, one for each operation asked, and
/// gives the operations in the order in which they were asked.
fn transfer(pass: &mut SyncSession, items: Vec<Result<WalkItem, String>>, outcomes: &[OpOutcome]) -> Vec<SyncAction> {
    let mut asked = vec![pass.step(SyncEvent::Walked(items))];
    for outcome in outcomes {
        asked.push(pass.step(SyncEvent::Finished(*outcome)));
    }
    asked
}

#[test]
fn new_pass_has_asked_for_nothing() {
    let pass = SyncSession::new(None, None);
    assert_eq!(pass.state(), SyncState::Created);
    assert_eq!(pass.result(), None);
    assert!(pass.warnings().is_empty());
}

#[test]
fn events_before_the_pass_starts_change_nothing() {
    let mut pass = SyncSession::new(None, None);
    assert_eq!(pass.step(SyncEvent::SourceResolved("/x".to_string())), SyncAction::Nothing);
    assert_eq!(pass.state(), SyncState::Created);
}

#[test]
fn pass_is_started_once() {
    let mut pass = SyncSession::new(Some("proj".to_string()), None);
    assert_eq!(pass.begin(), SyncAction::ResolveSource("proj".to_string()));
    assert_eq!(pass.begin(), SyncAction::Nothing);
    assert_eq!(pass.state(), SyncState::ResolvingSource);
}

#[test]
fn source_defaults_to_the_current_directory() {
    let mut pass = SyncSession::new(None, Some("/dst".to_string()));
    assert_eq!(pass.begin(), SyncAction::ResolveSource(".".to_string()));
}

#[test]
fn destination_that_is_not_named_is_resolved_without_a_lookup() {
    let mut pass = SyncSession::new(Some("proj".to_string()), None);
    pass.begin();
    assert_eq!(
        pass.step(SyncEvent::SourceResolved("/home/me/proj".to_string())),
        SyncAction::ResolveDestination(".".to_string())
    );
    assert_eq!(pass.state(), SyncState::ResolvingDestination);
    assert_eq!(
        pass.step(SyncEvent::DestinationResolved("/home/ec2-user".to_string())),
        SyncAction::Walk("/home/me/proj".to_string())
    );
    let asked = transfer(&mut pass, vec![item("/home/me/proj", true)], &[OpOutcome::Done]);
    assert_eq!(asked, vec![create_dir("/home/ec2-user/proj"), SyncAction::Close]);
}

#[test]
fn source_that_cannot_be_resolved_ends_the_pass() {
    let mut pass = SyncSession::new(Some("missing".to_string()), None);
    pass.begin();
    assert_eq!(pass.step(SyncEvent::SourceUnresolved), SyncAction::Fail(SessionError::SourceError));
    assert_eq!(pass.state(), SyncState::Failed(SessionError::SourceError));
    assert_eq!(pass.result(), Some(Err(SessionError::SourceError)));
    assert_eq!(pass.step(SyncEvent::SourceResolved("/x".to_string())), SyncAction::Nothing);
}

#[test]
fn destination_that_is_not_a_directory_ends_the_pass() {
    let mut pass = SyncSession::new(Some("proj".to_string()), Some("/etc/passwd".to_string()));
    pass.begin();
    pass.step(SyncEvent::SourceResolved("/home/me/proj".to_string()));
    assert_eq!(
        pass.step(SyncEvent::DestinationFound { is_dir: false }),
        SyncAction::Fail(SessionError::DestinationNotDirectory)
    );
    assert_eq!(pass.result(), Some(Err(SessionError::DestinationNotDirectory)));
}

#[test]
fn destination_that_does_not_exist_is_resolved_all_the_same() {
    let mut pass = SyncSession::new(Some("proj".to_string()), Some("new".to_string()));
    pass.begin();
    pass.step(SyncEvent::SourceResolved("/home/me/proj".to_string()));
    assert_eq!(
        pass.step(SyncEvent::DestinationNotFound),
        SyncAction::ResolveDestination("new".to_string())
    );
    assert_eq!(pass.state(), SyncState::ResolvingDestination);
}

#[test]
fn failed_lookup_of_the_destination_ends_the_pass() {
    let mut pass = SyncSession::new(Some("proj".to_string()), Some("/dst".to_string()));
    pass.begin();
    pass.step(SyncEvent::SourceResolved("/home/me/proj".to_string()));
    assert_eq!(
        pass.step(SyncEvent::DestinationLookupFailed),
        SyncAction::Fail(SessionError::ChannelError)
    );
    assert_eq!(pass.result(), Some(Err(SessionError::ChannelError)));
}

#[test]
fn destination_that_cannot_be_resolved_ends_the_pass() {
    let mut pass = SyncSession::new(Some("proj".to_string()), None);
    pass.begin();
    pass.step(SyncEvent::SourceResolved("/home/me/proj".to_string()));
    assert_eq!(
        pass.step(SyncEvent::DestinationUnresolved),
        SyncAction::Fail(SessionError::ChannelError)
    );
}

#[test]
fn project_tree_is_mirrored_below_the_work_directory() {
    let mut pass = walking();
    let asked = transfer(
        &mut pass,
        project_tree(),
        &[OpOutcome::Done, OpOutcome::Done, OpOutcome::Done, OpOutcome::Done],
    );
    assert_eq!(
        asked,
        vec![
            create_dir("/home/user/work/proj"),
            write_file("/home/me/proj/a.txt", "/home/user/work/proj/a.txt"),
            create_dir("/home/user/work/proj/sub"),
            write_file("/home/me/proj/sub/b.txt", "/home/user/work/proj/sub/b.txt"),
            SyncAction::Close,
        ]
    );
    assert_eq!(pass.state(), SyncState::Closing);
    assert_eq!(pass.step(SyncEvent::Closed), SyncAction::Finish);
    assert_eq!(pass.state(), SyncState::Done);
    assert_eq!(pass.result(), Some(Ok(())));
    assert!(pass.warnings().is_empty());
}

#[test]
fn second_pass_over_an_unchanged_source_is_clean() {
    let mut first = walking();
    let asked_first = transfer(
        &mut first,
        project_tree(),
        &[OpOutcome::Done, OpOutcome::Done, OpOutcome::Done, OpOutcome::Done],
    );
    first.step(SyncEvent::Closed);

    let mut second = walking();
    let asked_second = transfer(
        &mut second,
        project_tree(),
        &[OpOutcome::AlreadyExists, OpOutcome::Done, OpOutcome::AlreadyExists, OpOutcome::Done],
    );
    assert_eq!(asked_first, asked_second);
    assert_eq!(second.step(SyncEvent::Closed), SyncAction::Finish);
    assert_eq!(second.result(), Some(Ok(())));
    assert!(second.warnings().is_empty());
}

#[test]
fn failed_write_does_not_stop_the_other_files() {
    let mut pass = walking();
    let asked = transfer(
        &mut pass,
        project_tree(),
        &[OpOutcome::Done, OpOutcome::Failed, OpOutcome::Done, OpOutcome::Done],
    );
    assert_eq!(
        asked,
        vec![
            create_dir("/home/user/work/proj"),
            write_file("/home/me/proj/a.txt", "/home/user/work/proj/a.txt"),
            create_dir("/home/user/work/proj/sub"),
            write_file("/home/me/proj/sub/b.txt", "/home/user/work/proj/sub/b.txt"),
            SyncAction::Close,
        ]
    );
    assert_eq!(pass.step(SyncEvent::Closed), SyncAction::Finish);
    assert_eq!(pass.result(), Some(Ok(())));
    assert_eq!(
        pass.warnings(),
        &vec![SyncWarning::FileNotWritten("/home/user/work/proj/a.txt".to_string())]
    );
}

#[test]
fn failed_directory_does_not_stop_the_files_below_it() {
    let mut pass = walking();
    let asked = transfer(
        &mut pass,
        project_tree(),
        &[OpOutcome::Done, OpOutcome::Done, OpOutcome::Failed, OpOutcome::Failed],
    );
    assert_eq!(asked.len(), 5);
    assert_eq!(asked[3], write_file("/home/me/proj/sub/b.txt", "/home/user/work/proj/sub/b.txt"));
    assert_eq!(asked[4], SyncAction::Close);
    assert_eq!(pass.step(SyncEvent::Closed), SyncAction::Finish);
    assert_eq!(pass.result(), Some(Ok(())));
    assert_eq!(
        pass.warnings(),
        &vec![
            SyncWarning::DirectoryNotCreated("/home/user/work/proj/sub".to_string()),
            SyncWarning::FileNotWritten("/home/user/work/proj/sub/b.txt".to_string()),
        ]
    );
}

#[test]
fn position_that_could_not_be_read_is_reported_and_skipped() {
    let mut pass = walking();
    let items = vec![
        item("/home/me/proj", true),
        Err("permission denied".to_string()),
        item("/elsewhere/x", false),
        item("/home/me/proj/c.txt", false),
    ];
    let unreadable = WalkError::Unreadable { reason: "permission denied".to_string() };
    let outside = WalkError::OutsideSource { path: "/elsewhere/x".to_string() };
    let asked = transfer(
        &mut pass,
        items,
        &[OpOutcome::Done, OpOutcome::Done, OpOutcome::Done, OpOutcome::Done],
    );
    assert_eq!(
        asked,
        vec![
            create_dir("/home/user/work/proj"),
            SyncAction::Report(WalkError::Unreadable { reason: "permission denied".to_string() }),
            SyncAction::Report(WalkError::OutsideSource { path: "/elsewhere/x".to_string() }),
            write_file("/home/me/proj/c.txt", "/home/user/work/proj/c.txt"),
            SyncAction::Close,
        ]
    );
    assert_eq!(pass.step(SyncEvent::Closed), SyncAction::Finish);
    assert_eq!(pass.result(), Some(Ok(())));
    assert_eq!(
        pass.warnings(),
        &vec![SyncWarning::Skipped(unreadable), SyncWarning::Skipped(outside)]
    );
}

#[test]
fn empty_walk_closes_the_channel() {
    let mut pass = walking();
    assert_eq!(pass.step(SyncEvent::Walked(Vec::new())), SyncAction::Close);
    assert_eq!(pass.state(), SyncState::Closing);
    assert_eq!(pass.step(SyncEvent::Closed), SyncAction::Finish);
    assert_eq!(pass.result(), Some(Ok(())));
}

#[test]
fn channel_that_cannot_be_closed_ends_the_pass() {
    let mut pass = walking();
    pass.step(SyncEvent::Walked(Vec::new()));
    assert_eq!(pass.step(SyncEvent::CloseFailed), SyncAction::Fail(SessionError::ChannelError));
    assert_eq!(pass.result(), Some(Err(SessionError::ChannelError)));
}

#[test]
fn event_that_is_not_awaited_changes_nothing() {
    let mut pass = walking();
    assert_eq!(pass.step(SyncEvent::Finished(OpOutcome::Done)), SyncAction::Nothing);
    assert_eq!(pass.step(SyncEvent::Closed), SyncAction::Nothing);
    assert_eq!(pass.state(), SyncState::Walking);
    pass.step(SyncEvent::Walked(project_tree()));
    assert_eq!(pass.step(SyncEvent::Closed), SyncAction::Nothing);
    assert_eq!(pass.step(SyncEvent::Walked(Vec::new())), SyncAction::Nothing);
    assert_eq!(pass.state(), SyncState::Transferring);
    assert_eq!(
        pass.step(SyncEvent::Finished(OpOutcome::Done)),
        write_file("/home/me/proj/a.txt", "/home/user/work/proj/a.txt")
    );
}

#[test]
fn finished_pass_is_terminal() {
    let mut pass = walking();
    pass.step(SyncEvent::Walked(Vec::new()));
    pass.step(SyncEvent::Closed);
    assert_eq!(pass.step(SyncEvent::Walked(project_tree())), SyncAction::Nothing);
    assert_eq!(pass.begin(), SyncAction::Nothing);
    assert_eq!(pass.state(), SyncState::Done);
}
