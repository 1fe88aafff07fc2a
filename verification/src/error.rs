//! The errors that end a request.

use vstd::prelude::*;

verus! {

/// A violation of the wire format. It is fatal to the connection: there is no resynchronisation.
#[derive(Clone, Copy, Debug, PartialEq, Eq, Structural)]
pub enum ProtocolError {
    /// The stream ended, or the buffer ran out, before the announced number of bytes.
    Truncated,
    /// A text payload that is not valid UTF-8.
    InvalidUtf8,
    /// A tag that names no variant.
    UnknownTag,
    /// A payload too long for its length prefix.
    Oversize,
}

/// A refusal that the server states in its first reply.
#[derive(Clone, Copy, Debug, PartialEq, Eq, Structural)]
pub enum ProtocolRejection {
    UnauthorizedAccess,
    IndexOutOfBounds,
}

/// Why a request did not complete.
#[derive(Clone, Copy, Debug, PartialEq, Eq, Structural)]
pub enum Error {
    /// The peer broke the wire format.
    Protocol(ProtocolError),
    /// The file system or the socket failed.
    Io,
    /// The server refused the request.
    Rejected(ProtocolRejection),
}

impl ProtocolRejection {
    /// The words in which the refusal is reported.
    pub fn message(&self) -> (text: &'static str)
        ensures
            text@ == match *self {
                ProtocolRejection::UnauthorizedAccess => "Unauthorized access"@,
                ProtocolRejection::IndexOutOfBounds => "Index out of bounds"@,
            },
    {
        match self {
            ProtocolRejection::UnauthorizedAccess => "Unauthorized access",
            ProtocolRejection::IndexOutOfBounds => "Index out of bounds",
        }
    }
}

} // verus!
