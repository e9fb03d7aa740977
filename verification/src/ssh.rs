//! The life of one connection to a remote host: who is connected to, what
//! the host's key is held against, and when channels may be opened.
//!
//! The transport itself belongs to the caller. The caller reports how the
//! connection attempt and the authentication ended; the `Session` keeps
//! count, and refuses a channel on a connection that is not authenticated or
//! has been closed.

use crate::ec2::SSH_KEY_NAME;
use crate::error::SessionError;
use crate::exec_session::{ExecSession, ExecState, PtyRequest, PtyView};
use crate::sync_session::{consistent, text_of, SyncSession, SyncState, SyncView};
use vstd::prelude::*;

verus! {

/// The port that a secure shell listens on unless told otherwise.
pub const SSH_PORT: u16 = 22;

/// How long the host may take to answer a connection attempt, in seconds.
pub const CONNECT_TIMEOUT_SECS: u64 = 30;

/// How long a connection may stay silent before it is given up, in seconds.
pub const INACTIVITY_TIMEOUT_SECS: u64 = 1200;

/// Where to connect to, and as whom.
#[derive(Debug, PartialEq, Eq)]
pub struct Endpoint {
    /// The address of the host.
    pub host: String,
    /// The port on the host.
    pub port: u16,
    /// The login name on the host.
    pub user: String,
}

impl Endpoint {
    /// The endpoint for `user` at `host` on the usual port.
    pub fn new(user: String, host: String) -> (endpoint: Endpoint)
        ensures
            endpoint.user == user,
            endpoint.host == host,
            endpoint.port == SSH_PORT,
    {
        Endpoint { host, port: SSH_PORT, user }
    }
}

/// The key pair that the caller authenticates with.
#[derive(Debug, PartialEq, Eq)]
pub struct Identity {
    /// The file that holds the private key, PEM-encoded.
    pub key_path: String,
    /// The password that protects the key at rest, if any.
    pub password: Option<String>,
}

/// Where the private key lies for someone whose home directory is `home`
/// and who has named no other place.
pub open spec fn default_key_path(home: Seq<char>) -> Seq<char> {
    home + "/.ssh/"@ + SSH_KEY_NAME@ + ".pem"@
}

impl Identity {
    /// The identity of someone whose home directory is `home`: the key in
    /// the file `ssh_key`, or in the usual file below `home` where none is
    /// named, and no password.
    pub fn locate(home: &str, ssh_key: Option<String>) -> (identity: Identity)
        ensures
            identity.key_path@ == match ssh_key {
                Some(path) => path@,
                None => default_key_path(home@),
            },
            identity.password is None,
    {
        let key_path = match ssh_key {
            Some(path) => path,
            None => {
                let mut path = home.to_owned();
                path.append("/.ssh/");
                path.append(SSH_KEY_NAME);
                path.append(".pem");
                path
            },
        };
        Identity { key_path, password: None }
    }
}

/// What a host's key is held against before the connection goes on.
#[derive(Clone, Copy, Debug, PartialEq, Eq, Structural)]
#[non_exhaustive]
pub enum HostKeyPolicy {
    /// Any key is accepted. This is for hosts that were created a moment
    /// ago and for which nothing is known to hold their key against; it
    /// gives no protection against a host that pretends to be another.
    AcceptAny,
}

/// The client's side of the key exchange: it answers whether the key that
/// the host presents is accepted.
#[derive(Clone, Copy, Debug, PartialEq, Eq, Structural)]
pub struct ClientSSH {
    /// The policy that the caller has chosen.
    pub policy: HostKeyPolicy,
}

impl ClientSSH {
    /// A client that holds host keys against `policy`.
    pub fn new(policy: HostKeyPolicy) -> (client: ClientSSH)
        ensures
            client.policy == policy,
    {
        ClientSSH { policy }
    }

    /// Whether the host's public key is accepted.
    pub fn check_server_key(&self, server_public_key: &[u8]) -> (accepted: bool)
        ensures
            accepted == match self.policy {
                HostKeyPolicy::AcceptAny => true,
            },
    {
        match self.policy {
            HostKeyPolicy::AcceptAny => true,
        }
    }
}

/// A decoded key pair of the secure shell library. Nothing of its contents
/// is known here: it is handed through to the authentication.
#[verifier::external_type_specification]
#[verifier::external_body]
pub struct ExKeyPair(russh::keys::key::KeyPair);

/// The error of the secure shell library's key decoding.
#[verifier::external_type_specification]
#[verifier::external_body]
pub struct ExKeyError(russh::keys::Error);

/// Whether `secret`, the text of a PEM file, holds a private key that can
/// be read with `password`: whether `russh::keys::decode_secret_key`
/// succeeds on them.
pub uninterp spec fn key_decodes(secret: Seq<char>, password: Option<Seq<char>>) -> bool;

/// The text of an optional password.
pub open spec fn password_text(password: Option<&str>) -> Option<Seq<char>> {
    match password {
        Some(p) => Some(p@),
        None => None,
    }
}

/// `russh::keys::decode_secret_key`: reads a private key from the text of a
/// PEM file, deciphering it with `password` where the key is protected.
/// Whether it succeeds depends on the text and the password alone, and is
/// named `key_decodes`; nothing is claimed of the key pair or of the error.
#[verifier::external_body]
fn decode_secret_key(secret: &str, password: Option<&str>) -> (decoded: Result<
    russh::keys::key::KeyPair,
    russh::keys::Error,
>)
    ensures
        decoded is Ok == key_decodes(secret@, password_text(password)),
{
    russh::keys::decode_secret_key(secret, password)
}

/// The identity that a decoding leaves: the decoded key pair, or an
/// `AuthError` where the text could not be decoded.
pub fn identity_of(decoded: Result<russh::keys::key::KeyPair, russh::keys::Error>) -> (identity:
    Result<russh::keys::key::KeyPair, SessionError>)
    ensures
        identity == match decoded {
            Ok(key_pair) => Ok::<russh::keys::key::KeyPair, SessionError>(key_pair),
            Err(_) => Err::<russh::keys::key::KeyPair, SessionError>(SessionError::AuthError),
        },
{
    match decoded {
        Ok(key_pair) => Ok(key_pair),
        Err(_) => Err(SessionError::AuthError),
    }
}

/// How an attempt to reach the host ended.
#[derive(Clone, Copy, Debug, PartialEq, Eq, Structural)]
pub enum TransportOutcome {
    /// The host answered and its key was accepted.
    Established,
    /// The host could not be reached.
    Unreachable,
    /// The host did not answer in time.
    TimedOut,
    /// The host's key was not accepted.
    HostKeyRefused,
}

/// Where a connection stands.
#[derive(Clone, Copy, Debug, PartialEq, Eq, Structural)]
pub enum ConnState {
    /// The host was reached; the identity has not been accepted yet.
    Connected,
    /// The host has accepted the identity.
    Authenticated,
    /// The connection was closed.
    Closed,
}

/// The number of a channel on its connection.
#[derive(Clone, Copy, Debug, PartialEq, Eq, Structural)]
pub struct ChannelId(pub u32);

/// One connection to a remote host.
pub struct Session {
    endpoint: Endpoint,
    state: ConnState,
    opened: u32,
}

impl Session {
    /// Where the connection stands.
    pub closed spec fn state(&self) -> ConnState {
        self.state
    }

    /// How many channels were opened on the connection so far.
    pub closed spec fn channels_opened(&self) -> nat {
        self.opened as nat
    }

    /// The host that the connection goes to.
    pub closed spec fn host(&self) -> Seq<char> {
        self.endpoint.host@
    }

    /// The port that the connection goes to.
    pub closed spec fn port(&self) -> u16 {
        self.endpoint.port
    }

    /// The login name of the connection.
    pub closed spec fn user(&self) -> Seq<char> {
        self.endpoint.user@
    }

    /// A channel can be opened: the connection is authenticated and not
    /// closed, and has a number left for the channel.
    pub open spec fn can_open(&self) -> bool {
        self.state() == ConnState::Authenticated && self.channels_opened() < u32::MAX
    }

    /// The connection that an attempt to reach `endpoint` leaves. Only an
    /// established transport gives one, not yet authenticated; every other
    /// outcome is a `TransportError`.
    pub fn connect(endpoint: Endpoint, transport: TransportOutcome) -> (result: Result<
        Session,
        SessionError,
    >)
        ensures
            match result {
                Ok(session) => {
                    &&& transport == TransportOutcome::Established
                    &&& session.state() == ConnState::Connected
                    &&& session.channels_opened() == 0
                    &&& session.host() == endpoint.host@
                    &&& session.port() == endpoint.port
                    &&& session.user() == endpoint.user@
                },
                Err(error) => {
                    &&& transport != TransportOutcome::Established
                    &&& error == SessionError::TransportError
                },
            },
    {
        match transport {
            TransportOutcome::Established => Ok(
                Session { endpoint, state: ConnState::Connected, opened: 0 },
            ),
            _ => Err(SessionError::TransportError),
        }
    }

    /// The key pair in `secret`, the text of a PEM file, deciphered with
    /// `password` where the key is protected. A text that cannot be decoded
    /// with the password is an `AuthError`; no other error comes out.
    pub fn load_secret_key(secret: &str, password: Option<&str>) -> (identity: Result<
        russh::keys::key::KeyPair,
        SessionError,
    >)
        ensures
            identity is Ok == key_decodes(secret@, password_text(password)),
            identity matches Err(error) ==> error == SessionError::AuthError,
    {
        identity_of(decode_secret_key(secret, password))
    }

    /// Takes note of the host's answer to the identity. A connection that
    /// awaits the answer becomes authenticated if the host accepted, and is
    /// closed with an `AuthError` if it did not. On any other connection
    /// there is nothing to answer: it is left as it is, with a
    /// `ChannelError`.
    pub fn authenticate(&mut self, accepted: bool) -> (result: Result<(), SessionError>)
        ensures
            final(self).channels_opened() == old(self).channels_opened(),
            final(self).host() == old(self).host(),
            final(self).port() == old(self).port(),
            final(self).user() == old(self).user(),
            final(self).state() == match old(self).state() {
                ConnState::Connected => if accepted {
                    ConnState::Authenticated
                } else {
                    ConnState::Closed
                },
                other => other,
            },
            result == match old(self).state() {
                ConnState::Connected => if accepted {
                    Ok::<(), SessionError>(())
                } else {
                    Err::<(), SessionError>(SessionError::AuthError)
                },
                _ => Err::<(), SessionError>(SessionError::ChannelError),
            },
    {
        match self.state {
            ConnState::Connected => if accepted {
                self.state = ConnState::Authenticated;
                Ok(())
            } else {
                self.state = ConnState::Closed;
                Err(SessionError::AuthError)
            },
            _ => Err(SessionError::ChannelError),
        }
    }

    /// Where the connection stands.
    pub fn current_state(&self) -> (state: ConnState)
        ensures
            state == self.state(),
    {
        self.state
    }

    /// The endpoint of the connection.
    pub fn endpoint(&self) -> (endpoint: &Endpoint)
        ensures
            endpoint.host@ == self.host(),
            endpoint.port == self.port(),
            endpoint.user@ == self.user(),
    {
        &self.endpoint
    }

    /// Opens a channel: gives it the next number of the connection. On a
    /// connection that is not authenticated or has been closed, or that has
    /// no number left, this is a `ChannelError` and nothing changes.
    pub fn channel_open_session(&mut self) -> (result: Result<ChannelId, SessionError>)
        ensures
            final(self).state() == old(self).state(),
            final(self).host() == old(self).host(),
            final(self).port() == old(self).port(),
            final(self).user() == old(self).user(),
            match result {
                Ok(id) => {
                    &&& old(self).can_open()
                    &&& id.0 == old(self).channels_opened()
                    &&& final(self).channels_opened() == old(self).channels_opened() + 1
                },
                Err(error) => {
                    &&& !old(self).can_open()
                    &&& error == SessionError::ChannelError
                    &&& final(self).channels_opened() == old(self).channels_opened()
                },
            },
    {
        match self.state {
            ConnState::Authenticated => {
                if self.opened < u32::MAX {
                    let id = ChannelId(self.opened);
                    self.opened = self.opened + 1;
                    Ok(id)
                } else {
                    Err(SessionError::ChannelError)
                }
            },
            _ => Err(SessionError::ChannelError),
        }
    }

    /// Opens a channel for the execution of `command`, interactive if a
    /// `pty` is given, and hands out the execution, which has sent nothing
    /// yet.
    pub fn exec(&mut self, command: String, pty: Option<PtyRequest>) -> (result: Result<
        (ChannelId, ExecSession),
        SessionError,
    >)
        ensures
            final(self).state() == old(self).state(),
            match result {
                Ok((id, execution)) => {
                    &&& old(self).can_open()
                    &&& id.0 == old(self).channels_opened()
                    &&& final(self).channels_opened() == old(self).channels_opened() + 1
                    &&& execution.state() == ExecState::Opened
                    &&& execution.command() == command@
                    &&& execution.pty() == match pty {
                        Some(p) => Some(p@),
                        None => None::<PtyView>,
                    }
                },
                Err(error) => {
                    &&& !old(self).can_open()
                    &&& error == SessionError::ChannelError
                    &&& final(self).channels_opened() == old(self).channels_opened()
                },
            },
    {
        match self.channel_open_session() {
            Ok(id) => Ok((id, ExecSession::new(command, pty))),
            Err(error) => Err(error),
        }
    }

    /// Opens a channel for the transfer of `src` onto `dst` and hands out
    /// the synchronisation, which has asked for nothing yet.
    pub fn upload(&mut self, src: Option<String>, dst: Option<String>) -> (result: Result<
        (ChannelId, SyncSession),
        SessionError,
    >)
        ensures
            final(self).state() == old(self).state(),
            match result {
                Ok((id, pass)) => {
                    &&& old(self).can_open()
                    &&& id.0 == old(self).channels_opened()
                    &&& final(self).channels_opened() == old(self).channels_opened() + 1
                    &&& consistent(pass@)
                    &&& pass@ == (SyncView {
                        state: SyncState::Created,
                        source: text_of(src),
                        destination: text_of(dst),
                        root: Seq::empty(),
                        remote_root: Seq::empty(),
                        entries: Seq::empty(),
                        next: 0,
                        warnings: Seq::empty(),
                    })
                },
                Err(error) => {
                    &&& !old(self).can_open()
                    &&& error == SessionError::ChannelError
                    &&& final(self).channels_opened() == old(self).channels_opened()
                },
            },
    {
        match self.channel_open_session() {
            Ok(id) => Ok((id, SyncSession::new(src, dst))),
            Err(error) => Err(error),
        }
    }

    /// Closes the connection, and says whether the host is to be told: it
    /// is, unless the connection was closed before. Closing twice is
    /// closing once.
    pub fn close(&mut self) -> (disconnect: bool)
        ensures
            final(self).state() == ConnState::Closed,
            final(self).channels_opened() == old(self).channels_opened(),
            final(self).host() == old(self).host(),
            final(self).port() == old(self).port(),
            final(self).user() == old(self).user(),
            disconnect == (old(self).state() != ConnState::Closed),
    {
        let open = !matches!(self.state, ConnState::Closed);
        self.state = ConnState::Closed;
        open
    }
}

} // verus!
