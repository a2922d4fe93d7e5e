//! The headers that tell a proxy where to relay to.

pub mod stream;
pub mod udp;

use vstd::prelude::*;
use vstd::string::*;
use crate::io::IoError;

verus! {

/// Why a header could not be read or written.
#[derive(Debug, PartialEq, Eq)]
pub enum CodecError {
    /// The bytes could not be had, or are too few.
    Io(IoError),
    /// The bytes are there, but not a header that this side accepts.
    Rejected(String),
}

/// Why a proxy did not relay.
#[derive(Debug, Clone, Copy, PartialEq, Eq, Hash, Structural)]
pub enum RouteErrorKind {
    /// The upstream could not be reached.
    Io,
    /// The upstream is the proxy's own host.
    Loopback,
}

/// What a proxy answers when it does not relay.
#[derive(Debug, Clone, Copy, PartialEq, Eq, Hash, Structural)]
pub struct RouteError {
    pub kind: RouteErrorKind,
}

/// What a proxy answers to a request.
#[derive(Debug, Clone, Copy, PartialEq, Eq)]
pub struct RouteResponse {
    pub result: Result<(), RouteError>,
}

impl CodecError {
    /// What the error says.
    pub open spec fn spec_text(self) -> Seq<char> {
        match self {
            CodecError::Io(e) => "IO error: "@ + e.message@,
            CodecError::Rejected(message) => message@,
        }
    }

    pub fn to_text(&self) -> (text: String)
        ensures
            text@ == self.spec_text(),
    {
        match self {
            CodecError::Io(e) => "IO error: ".to_owned().concat(e.message.as_str()),
            CodecError::Rejected(message) => message.clone(),
        }
    }
}

} // verus!
