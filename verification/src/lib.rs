//! The deciding half of a tool that provisions remote instances and works on
//! them over a secure shell: how local paths map to remote paths, how a
//! command line is quoted for the remote shell, and, as state machines that
//! perform no I/O themselves, how a connection lives, how an interactive
//! execution forwards input and output until the remote process exits, and
//! how a local tree is mirrored onto a remote directory. The program around
//! this library owns the sockets, the files and the terminal, reports what
//! happens, and does what it is told.

pub mod ec2;
pub mod error;
pub mod exec_session;
pub mod path;
pub mod path_proofs;
pub mod shell;
pub mod ssh;
pub mod sync_session;
pub mod util;
