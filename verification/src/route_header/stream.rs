//! The start of a stream on a proxy's side: who asks, and for what.
//!
//! First the client upgrades the connection from idle, then it sends a request
//! header. A request without an upstream is an echo: it is answered at once,
//! and that is all. Any other is answered once it is known whether the upstream
//! can be had.

use vstd::prelude::*;
use vstd::string::*;
use crate::addr::{RouteAddr, SocketAddr};
use crate::route::conn_chain::RouteRequest;
use crate::route_header::{CodecError, RouteResponse};

verus! {

/// The connection was not upgraded.
#[derive(Debug, PartialEq, Eq)]
pub struct PreambleError {
    pub message: String,
}

/// Why a stream got no further than its start.
#[derive(Debug)]
pub enum SteerError {
    ReadHeartbeatUpgrade { source: PreambleError, downstream_addr: Option<SocketAddr> },
    ReadStreamRequestHeader { codec: CodecError, downstream_addr: Option<SocketAddr> },
    WriteEchoResponse { codec: CodecError, downstream_addr: Option<SocketAddr> },
}

impl SteerError {
    /// The message before the address.
    pub open spec fn spec_message(self) -> Seq<char> {
        match self {
            SteerError::ReadHeartbeatUpgrade { source, .. } => {
                "Failed to read heartbeat header from downstream: "@ + source.message@
            },
            SteerError::ReadStreamRequestHeader { codec, .. } => {
                "Failed to read stream request header from downstream: "@ + codec.spec_text()
            },
            SteerError::WriteEchoResponse { codec, .. } => {
                "Failed to write echo response to downstream: "@ + codec.spec_text()
            },
        }
    }

    pub open spec fn spec_downstream_addr(self) -> Option<SocketAddr> {
        match self {
            SteerError::ReadHeartbeatUpgrade { downstream_addr, .. } => downstream_addr,
            SteerError::ReadStreamRequestHeader { downstream_addr, .. } => downstream_addr,
            SteerError::WriteEchoResponse { downstream_addr, .. } => downstream_addr,
        }
    }

    /// The message, with the downstream's address behind it if it is known.
    /// `render` writes the address.
    pub fn to_text<F: Fn(&SocketAddr) -> String>(&self, render: &F) -> (text: String)
        requires
            forall|addr: &SocketAddr| call_requires(*render, (addr,)),
        ensures
            match self.spec_downstream_addr() {
                None => text@ == self.spec_message(),
                Some(addr) => exists|written: String| #[trigger]
                    call_ensures(*render, (&addr,), written) && text@ == self.spec_message()
                        + ", "@ + written@,
            },
    {
        let (mut text, addr): (String, &Option<SocketAddr>) = match self {
            SteerError::ReadHeartbeatUpgrade { source, downstream_addr } => (
                "Failed to read heartbeat header from downstream: ".to_owned().concat(
                    source.message.as_str(),
                ),
                downstream_addr,
            ),
            SteerError::ReadStreamRequestHeader { codec, downstream_addr } => {
                let said: String = codec.to_text();
                (
                    "Failed to read stream request header from downstream: ".to_owned().concat(
                        said.as_str(),
                    ),
                    downstream_addr,
                )
            },
            SteerError::WriteEchoResponse { codec, downstream_addr } => {
                let said: String = codec.to_text();
                (
                    "Failed to write echo response to downstream: ".to_owned().concat(
                        said.as_str(),
                    ),
                    downstream_addr,
                )
            },
        };
        if let Some(addr) = addr {
            text.append(", ");
            let written: String = render(addr);
            text.append(written.as_str());
        }
        text
    }
}

/// A stream that is still to be upgraded.
#[derive(Debug)]
pub struct AwaitUpgrade;

/// A stream whose request header is still to be read.
#[derive(Debug)]
pub struct AwaitRequest;

/// A stream that asked for an echo, and is still to be answered with `response`
/// and flushed.
#[derive(Debug)]
pub struct AwaitEcho {
    pub response: RouteResponse,
}

/// What a stream asks for.
#[derive(Debug)]
pub enum Steered {
    /// To be relayed to the address.
    Relay(RouteAddr),
    Echo(AwaitEcho),
}

impl AwaitUpgrade {
    /// Goes on once the stream was upgraded, or not.
    pub fn upgraded(
        self,
        outcome: Result<(), PreambleError>,
        downstream_addr: Option<SocketAddr>,
    ) -> (r: Result<AwaitRequest, SteerError>)
        ensures
            match outcome {
                Ok(()) => r is Ok,
                Err(source) => r == Err::<AwaitRequest, _>(
                    SteerError::ReadHeartbeatUpgrade { source, downstream_addr },
                ),
            },
    {
        match outcome {
            Ok(()) => Ok(AwaitRequest),
            Err(source) => Err(SteerError::ReadHeartbeatUpgrade { source, downstream_addr }),
        }
    }
}

impl AwaitRequest {
    /// Goes on once the request header was read, or not.
    pub fn requested(
        self,
        outcome: Result<RouteRequest, CodecError>,
        downstream_addr: Option<SocketAddr>,
    ) -> (r: Result<Steered, SteerError>)
        ensures
            match outcome {
                Err(codec) => r == Err::<Steered, _>(
                    SteerError::ReadStreamRequestHeader { codec, downstream_addr },
                ),
                Ok(request) => match request.upstream {
                    Some(upstream) => r == Ok::<_, SteerError>(Steered::Relay(upstream)),
                    None => r matches Ok(Steered::Echo(echo)) && echo.response.result is Ok,
                },
            },
    {
        match outcome {
            Err(codec) => Err(SteerError::ReadStreamRequestHeader { codec, downstream_addr }),
            Ok(request) => match request.upstream {
                Some(upstream) => Ok(Steered::Relay(upstream)),
                None => Ok(Steered::Echo(AwaitEcho { response: RouteResponse { result: Ok(()) } })),
            },
        }
    }
}

impl AwaitEcho {
    /// How an echo ends, once the response was written or not. Nothing is to
    /// be relayed.
    pub fn responded(
        self,
        outcome: Result<(), CodecError>,
        downstream_addr: Option<SocketAddr>,
    ) -> (r: Result<Option<RouteAddr>, SteerError>)
        ensures
            match outcome {
                Ok(()) => r == Ok::<_, SteerError>(None::<RouteAddr>),
                Err(codec) => r == Err::<Option<RouteAddr>, _>(
                    SteerError::WriteEchoResponse { codec, downstream_addr },
                ),
            },
    {
        match outcome {
            Ok(()) => Ok(None),
            Err(codec) => Err(SteerError::WriteEchoResponse { codec, downstream_addr }),
        }
    }
}

/// An error of a stream's start says which step failed and why, and keeps the
/// downstream's address.
pub proof fn a_steer_error_says_which_step_failed(
    source: PreambleError,
    codec: CodecError,
    downstream_addr: Option<SocketAddr>,
)
    ensures
        (SteerError::ReadHeartbeatUpgrade { source, downstream_addr }).spec_message()
            == "Failed to read heartbeat header from downstream: "@ + source.message@,
        (SteerError::ReadStreamRequestHeader { codec, downstream_addr }).spec_message()
            == "Failed to read stream request header from downstream: "@ + codec.spec_text(),
        (SteerError::WriteEchoResponse { codec, downstream_addr }).spec_message()
            == "Failed to write echo response to downstream: "@ + codec.spec_text(),
        (SteerError::ReadHeartbeatUpgrade { source, downstream_addr }).spec_downstream_addr()
            == downstream_addr,
        (SteerError::ReadStreamRequestHeader { codec, downstream_addr }).spec_downstream_addr()
            == downstream_addr,
        (SteerError::WriteEchoResponse { codec, downstream_addr }).spec_downstream_addr()
            == downstream_addr,
        codec matches CodecError::Io(e) ==> codec.spec_text() == "IO error: "@ + e.message@,
        codec matches CodecError::Rejected(message) ==> codec.spec_text() == message@,
{
}

} // verus!
