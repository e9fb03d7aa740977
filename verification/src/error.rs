//! The ways in which a session can fail.

use vstd::prelude::*;

verus! {

/// Why a connection, an execution or a synchronisation was given up.
///
/// A remote process that exits with a status other than zero is no error:
/// the status is handed to the caller. Neither is a file that could not be
/// written during a synchronisation: it is recorded as a warning and the
/// pass goes on.
#[derive(Clone, Copy, Debug, PartialEq, Eq, Structural)]
pub enum SessionError {
    /// The remote host could not be reached, or not in time.
    TransportError,
    /// The remote host rejected the identity.
    AuthError,
    /// A channel was asked of a connection that is not authenticated or has
    /// been closed, or the channel failed while in use.
    ChannelError,
    /// The local source path cannot be resolved.
    SourceError,
    /// The remote destination exists and is not a directory.
    DestinationNotDirectory,
    /// Reading or writing failed during an interactive execution.
    ExecIoError,
}

impl SessionError {
    /// A sentence for the user.
    pub fn message(&self) -> (text: &'static str)
        ensures
            text@ == match *self {
                SessionError::TransportError => "could not reach the remote host"@,
                SessionError::AuthError => "the remote host rejected the key"@,
                SessionError::ChannelError => "the connection cannot carry the channel"@,
                SessionError::SourceError => "the source path cannot be resolved"@,
                SessionError::DestinationNotDirectory => "the destination is not a directory"@,
                SessionError::ExecIoError => "reading or writing failed during the execution"@,
            },
    {
        match self {
            SessionError::TransportError => "could not reach the remote host",
            SessionError::AuthError => "the remote host rejected the key",
            SessionError::ChannelError => "the connection cannot carry the channel",
            SessionError::SourceError => "the source path cannot be resolved",
            SessionError::DestinationNotDirectory => "the destination is not a directory",
            SessionError::ExecIoError => "reading or writing failed during the execution",
        }
    }
}

} // verus!
