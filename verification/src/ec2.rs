//! The error that the calls to the compute service report.

use vstd::prelude::*;

verus! {

/// The tag that marks the resources of this tool.
pub const GLOBAL_TAG_FILTER: &'static str = "hpc-launcher";

/// The name of the key pair that instances are created with.
pub const SSH_KEY_NAME: &'static str = "ec2-ssh-key";

/// The name of the security group that lets the secure shell in.
pub const SSH_SECURITY_GROUP: &'static str = "allow-ssh";

/// The code that is reported where the service gave none.
pub const UNKNOWN_CODE: &'static str = "unknown code";

/// The reason that is reported where the service gave none.
pub const MISSING_REASON: &'static str =
    "missing reason (most likely profile credentials not set)";

/// What stands between a context and the message that it is put before.
pub open spec fn colon() -> Seq<char> {
    seq![':', ' ']
}

/// An error of the compute service, as a message for the user.
#[derive(Debug)]
pub struct EC2Error(String);

impl View for EC2Error {
    type V = Seq<char>;

    closed spec fn view(&self) -> Seq<char> {
        self.0@
    }
}

impl EC2Error {
    /// The error with the message `value`.
    pub fn new(value: &str) -> (error: EC2Error)
        ensures
            error@ == value@,
    {
        EC2Error(value.to_owned())
    }

    /// The error with `message` put before its own message, a colon and a
    /// space in between.
    pub fn _add_message(self, message: &str) -> (error: EC2Error)
        ensures
            error@ == message@ + colon() + self@,
    {
        let mut text = message.to_owned();
        proof {
            reveal_strlit(": ");
            assert(": "@ == colon());
        }
        text.append(": ");
        text.append(self.0.as_str());
        EC2Error(text)
    }

    /// The error for what the service reported: its code, a colon and a
    /// space, and its message. Where the service gave no code or no
    /// message, a fixed text stands in.
    pub fn from_metadata(code: Option<&str>, message: Option<&str>) -> (error: EC2Error)
        ensures
            error@ == (match code {
                Some(c) => c@,
                None => UNKNOWN_CODE@,
            }) + colon() + (match message {
                Some(m) => m@,
                None => MISSING_REASON@,
            }),
    {
        let reason = match message {
            Some(m) => EC2Error::new(m),
            None => EC2Error::new(MISSING_REASON),
        };
        match code {
            Some(c) => reason._add_message(c),
            None => reason._add_message(UNKNOWN_CODE),
        }
    }

    /// The message of the error.
    pub fn to_string(&self) -> (text: String)
        ensures
            text@ == self@,
    {
        self.0.clone()
    }
}

} // verus!
