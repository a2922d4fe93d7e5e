//! Handling streams on a proxy.

use vstd::prelude::*;
use vstd::string::*;
use crate::addr::{ParseInternetAddrError, RouteAddr, SocketAddr};
use crate::client::stream::ConnectError;
use crate::conn_handler::udp::BeforeConnect;
use crate::crypto::CryptoConfig;
use crate::io::IoError;
use crate::route_header::stream::SteerError;
use crate::route_header::{CodecError, RouteError, RouteErrorKind, RouteResponse};

verus! {

/// How a stream was served.
#[derive(Debug, Clone, Copy, PartialEq, Eq, Structural)]
pub enum ProxyResult {
    Echo,
    IoCopy,
}

/// The end of a relayed stream: how the relay went, and where to.
#[derive(Debug)]
pub struct StreamProxyFinished {
    pub io: String,
    pub up: RouteAddr,
}

impl StreamProxyFinished {
    /// The record of the relay and the upstream behind it. `render` writes the
    /// upstream.
    pub fn to_text<F: Fn(&RouteAddr) -> String>(&self, render: &F) -> (text: String)
        requires
            call_requires(*render, (&self.up,)),
        ensures
            exists|up: String| #[trigger]
                call_ensures(*render, (&self.up,), up) && text@ == self.io@ + ",upstream:"@ + up@,
    {
        let mut text: String = self.io.clone();
        text.append(",upstream:");
        let up: String = render(&self.up);
        text.append(up.as_str());
        text
    }
}

/// A handler as it is configured. `K` is what a key is given as.
#[derive(Debug)]
pub struct StreamProxyConnHandlerConfig<K> {
    pub header_key: K,
    pub payload_key: Option<K>,
    pub allow_loopback: bool,
}

/// A handler as it is configured, with its surroundings. `C` is what handlers
/// of a process share.
#[derive(Debug)]
pub struct StreamProxyConnHandlerBuilder<K, C> {
    pub header_key: K,
    pub payload_key: Option<K>,
    pub allow_loopback: bool,
    pub stream_context: C,
    pub listen_addr: String,
}

/// Which key of a handler is not one, or that the pool of connections names
/// what is no address. Of a key it carries the reason, never the key.
#[derive(Debug)]
pub enum StreamProxyServerBuildError {
    HeaderCrypto(String),
    PayloadCrypto(String),
    StreamPool(ParseInternetAddrError),
}

/// A handler of streams.
#[derive(Debug)]
pub struct StreamProxyConnHandler<C> {
    pub crypto: CryptoConfig,
    pub payload_crypto: Option<CryptoConfig>,
    pub allow_loopback: bool,
    pub stream_context: C,
    pub listen_addr: String,
}

impl<K> StreamProxyConnHandlerConfig<K> {
    pub fn into_builder<C>(self, stream_context: C, listen_addr: String) -> (r:
        StreamProxyConnHandlerBuilder<K, C>)
        ensures
            r == (StreamProxyConnHandlerBuilder {
                header_key: self.header_key,
                payload_key: self.payload_key,
                allow_loopback: self.allow_loopback,
                stream_context,
                listen_addr,
            }),
    {
        StreamProxyConnHandlerBuilder {
            header_key: self.header_key,
            payload_key: self.payload_key,
            allow_loopback: self.allow_loopback,
            stream_context,
            listen_addr,
        }
    }
}

impl<K, C> StreamProxyConnHandlerBuilder<K, C> {
    /// Makes the handler. `read_key` reads a key; the header key is read
    /// first.
    pub fn build<F: Fn(K) -> Result<CryptoConfig, String>>(self, read_key: &F) -> (r: Result<
        StreamProxyConnHandler<C>,
        StreamProxyServerBuildError,
    >)
        requires
            forall|key: K| call_requires(*read_key, (key,)),
        ensures
            match r {
                Err(StreamProxyServerBuildError::HeaderCrypto(reason)) => call_ensures(
                    *read_key,
                    (self.header_key,),
                    Err(reason),
                ),
                Err(StreamProxyServerBuildError::PayloadCrypto(reason)) => {
                    &&& key_accepted(*read_key, self.header_key)
                    &&& self.payload_key matches Some(key)
                    &&& call_ensures(*read_key, (key,), Err(reason))
                },
                Err(StreamProxyServerBuildError::StreamPool(_)) => false,
                Ok(handler) => {
                    &&& call_ensures(*read_key, (self.header_key,), Ok(handler.crypto))
                    &&& match (self.payload_key, handler.payload_crypto) {
                        (Some(key), Some(crypto)) => call_ensures(*read_key, (key,), Ok(crypto)),
                        (None, None) => true,
                        _ => false,
                    }
                    &&& handler.allow_loopback == self.allow_loopback
                    &&& handler.stream_context == self.stream_context
                    &&& handler.listen_addr == self.listen_addr
                },
            },
    {
        let header = read_key(self.header_key);
        let crypto = match header {
            Ok(crypto) => crypto,
            Err(reason) => {
                return Err(StreamProxyServerBuildError::HeaderCrypto(reason));
            },
        };
        assert(key_accepted(*read_key, self.header_key));
        let payload_crypto = match self.payload_key {
            Some(key) => match read_key(key) {
                Ok(crypto) => Some(crypto),
                Err(reason) => {
                    return Err(StreamProxyServerBuildError::PayloadCrypto(reason));
                },
            },
            None => None,
        };
        Ok(
            StreamProxyConnHandler {
                crypto,
                payload_crypto,
                allow_loopback: self.allow_loopback,
                stream_context: self.stream_context,
                listen_addr: self.listen_addr,
            },
        )
    }
}

/// Whether a key may be read.
pub open spec fn key_accepted<K, F: Fn(K) -> Result<CryptoConfig, String>>(
    read_key: F,
    key: K,
) -> bool {
    exists|crypto: CryptoConfig| #[trigger] call_ensures(read_key, (key,), Ok(crypto))
}

/// Why a stream got no upstream.
#[derive(Debug)]
pub enum StreamProxyAcceptorError {
    Steer(SteerError),
    ConnectUpstream {
        connect: ConnectError,
        downstream_addr: Option<SocketAddr>,
        upstream_addr: RouteAddr,
    },
    WriteResponse {
        codec: CodecError,
        downstream_addr: Option<SocketAddr>,
        upstream_addr: RouteAddr,
    },
}

/// Why a stream was not served.
#[derive(Debug)]
pub enum StreamProxyServerError {
    DownstreamAddr(IoError),
    EstablishProxyChain(StreamProxyAcceptorError),
}

impl StreamProxyAcceptorError {
    /// The upstream that the stream asked for, if it came that far.
    pub open spec fn spec_upstream_addr(self) -> Option<RouteAddr> {
        match self {
            StreamProxyAcceptorError::ConnectUpstream { upstream_addr, .. } => Some(upstream_addr),
            StreamProxyAcceptorError::WriteResponse { upstream_addr, .. } => Some(upstream_addr),
            StreamProxyAcceptorError::Steer(_) => None,
        }
    }

    pub fn upstream_addr(&self) -> (r: Option<&RouteAddr>)
        ensures
            match self.spec_upstream_addr() {
                Some(addr) => r == Some(&addr),
                None => r is None,
            },
    {
        match self {
            StreamProxyAcceptorError::ConnectUpstream { upstream_addr, .. } => Some(upstream_addr),
            StreamProxyAcceptorError::WriteResponse { upstream_addr, .. } => Some(upstream_addr),
            StreamProxyAcceptorError::Steer(_) => None,
        }
    }
}

impl StreamProxyServerError {
    pub fn upstream_addr(&self) -> (r: Option<&RouteAddr>)
        ensures
            match *self {
                StreamProxyServerError::EstablishProxyChain(
                    error,
                ) => match error.spec_upstream_addr() {
                    Some(addr) => r == Some(&addr),
                    None => r is None,
                },
                StreamProxyServerError::DownstreamAddr(_) => r is None,
            },
    {
        match self {
            StreamProxyServerError::EstablishProxyChain(error) => error.upstream_addr(),
            StreamProxyServerError::DownstreamAddr(_) => None,
        }
    }
}

/// A stream that asked to be relayed.
#[derive(Debug)]
pub struct StreamRelayRequest {
    pub addr: RouteAddr,
}

/// What a stream's start leads to: an upstream to connect, or, with `None`, an
/// echo that is over.
pub fn steered(outcome: Result<Option<RouteAddr>, SteerError>) -> (r: Result<
    Option<StreamRelayRequest>,
    StreamProxyAcceptorError,
>)
    ensures
        match outcome {
            Ok(Some(addr)) => r == Ok::<_, StreamProxyAcceptorError>(
                Some(StreamRelayRequest { addr }),
            ),
            Ok(None) => r == Ok::<Option<StreamRelayRequest>, StreamProxyAcceptorError>(None),
            Err(e) => r == Err::<Option<StreamRelayRequest>, _>(StreamProxyAcceptorError::Steer(e)),
        },
{
    match outcome {
        Ok(Some(addr)) => Ok(Some(StreamRelayRequest { addr })),
        Ok(None) => Ok(None),
        Err(e) => Err(StreamProxyAcceptorError::Steer(e)),
    }
}

/// A stream whose client is still to be answered with `response`: whether it
/// will be relayed.
#[derive(Debug)]
pub struct AwaitRelay<S> {
    pub response: RouteResponse,
    pub addr: RouteAddr,
    pub upstream: Result<(S, SocketAddr), ConnectError>,
}

impl StreamRelayRequest {
    /// What comes before connecting to the upstream.
    pub fn before_connect(&self) -> (r: BeforeConnect)
        ensures
            r == (if self.addr@.reverse_tunnel() is Some {
                BeforeConnect::Nothing
            } else {
                BeforeConnect::Resolve
            }),
    {
        match self.addr.reverse_tunnel() {
            Some(_) => BeforeConnect::Nothing,
            None => BeforeConnect::Resolve,
        }
    }

    /// Goes on once the upstream was looked up. One that leads back to this
    /// host is refused, before it is connected, unless that is allowed.
    pub fn resolved(&self, reaches_loopback: bool, allow_loopback: bool) -> (r: Result<
        (),
        ConnectError,
    >)
        ensures
            match r {
                Ok(()) => !reaches_loopback || allow_loopback,
                Err(connect) => {
                    &&& reaches_loopback && !allow_loopback
                    &&& connect.kind == RouteErrorKind::Loopback
                    &&& connect.message@ == "refused to connect to a loopback address"@
                },
            },
    {
        if reaches_loopback && !allow_loopback {
            return Err(
                ConnectError {
                    kind: RouteErrorKind::Loopback,
                    message: "refused to connect to a loopback address".to_owned(),
                },
            );
        }
        Ok(())
    }

    /// Goes on once the upstream was connected, or not: the client is told
    /// which. An upstream on the proxy's own host, which `loopback` tells, is
    /// given up unless it is allowed.
    pub fn connected<S>(
        self,
        outcome: Result<(S, SocketAddr), ConnectError>,
        loopback: bool,
        allow_loopback: bool,
    ) -> (r: AwaitRelay<S>)
        ensures
            r.addr == self.addr,
            if outcome is Ok && loopback && !allow_loopback {
                r.upstream matches Err(connect) && connect.kind == RouteErrorKind::Loopback
                    && connect.message@ == "refused to connect to a loopback address"@
            } else {
                r.upstream == outcome
            },
            r.response.result == (match r.upstream {
                Ok(_) => Ok::<(), RouteError>(()),
                Err(connect) => Err(RouteError { kind: connect.kind }),
            }),
    {
        let upstream = match outcome {
            Ok(conn) => match self.resolved(loopback, allow_loopback) {
                Ok(()) => Ok(conn),
                Err(connect) => Err(connect),
            },
            Err(connect) => Err(connect),
        };
        let result = match &upstream {
            Ok(_) => Ok(()),
            Err(connect) => Err(RouteError { kind: connect.kind }),
        };
        AwaitRelay { response: RouteResponse { result }, addr: self.addr, upstream }
    }
}

impl<S> AwaitRelay<S> {
    /// Goes on once the response was written, or not. An upstream that was not
    /// connected is the error, whatever became of the response.
    pub fn responded(
        self,
        outcome: Result<(), CodecError>,
        downstream_addr: Option<SocketAddr>,
    ) -> (r: Result<ConnAndAddr<S>, StreamProxyAcceptorError>)
        ensures
            match (self.upstream, outcome) {
                (Err(connect), _) => r == Err::<ConnAndAddr<S>, _>(
                    StreamProxyAcceptorError::ConnectUpstream {
                        connect,
                        downstream_addr,
                        upstream_addr: self.addr,
                    },
                ),
                (Ok(_), Err(codec)) => r == Err::<ConnAndAddr<S>, _>(
                    StreamProxyAcceptorError::WriteResponse {
                        codec,
                        downstream_addr,
                        upstream_addr: self.addr,
                    },
                ),
                (Ok((stream, sock_addr)), Ok(())) => r == Ok::<_, StreamProxyAcceptorError>(
                    ConnAndAddr { stream, addr: self.addr, sock_addr },
                ),
            },
    {
        match self.upstream {
            Err(connect) => Err(
                StreamProxyAcceptorError::ConnectUpstream {
                    connect,
                    downstream_addr,
                    upstream_addr: self.addr,
                },
            ),
            Ok((stream, sock_addr)) => match outcome {
                Ok(()) => Ok(ConnAndAddr { stream, addr: self.addr, sock_addr }),
                Err(codec) => Err(
                    StreamProxyAcceptorError::WriteResponse {
                        codec,
                        downstream_addr,
                        upstream_addr: self.addr,
                    },
                ),
            },
        }
    }
}

/// A connected stream and where it leads.
#[derive(Debug)]
pub struct ConnAndAddr<S> {
    pub stream: S,
    pub addr: RouteAddr,
    pub sock_addr: SocketAddr,
}

/// How serving a stream starts: relay it, end an echo, or give up.
#[derive(Debug)]
pub enum ProxyStart<S> {
    Relay(ConnAndAddr<S>),
    Finished(ProxyResult),
}

/// Decides how serving a stream goes on, once its upstream was established or
/// not.
pub fn proxy_start<S>(outcome: Result<Option<ConnAndAddr<S>>, StreamProxyAcceptorError>) -> (r:
    Result<ProxyStart<S>, StreamProxyServerError>)
    ensures
        match outcome {
            Ok(Some(upstream)) => r == Ok::<_, StreamProxyServerError>(
                ProxyStart::Relay(upstream),
            ),
            Ok(None) => r == Ok::<ProxyStart<S>, StreamProxyServerError>(
                ProxyStart::Finished(ProxyResult::Echo),
            ),
            Err(e) => r == Err::<ProxyStart<S>, _>(StreamProxyServerError::EstablishProxyChain(e)),
        },
{
    match outcome {
        Ok(Some(upstream)) => Ok(ProxyStart::Relay(upstream)),
        Ok(None) => Ok(ProxyStart::Finished(ProxyResult::Echo)),
        Err(e) => Err(StreamProxyServerError::EstablishProxyChain(e)),
    }
}

/// An error tells the upstream as soon as the stream asked for one, and only
/// then.
pub proof fn an_error_tells_the_upstream_once_it_is_known(error: StreamProxyAcceptorError)
    ensures
        match error {
            StreamProxyAcceptorError::Steer(_) => error.spec_upstream_addr() is None,
            StreamProxyAcceptorError::ConnectUpstream { upstream_addr, .. } =>
                error.spec_upstream_addr() == Some(upstream_addr),
            StreamProxyAcceptorError::WriteResponse { upstream_addr, .. } =>
                error.spec_upstream_addr() == Some(upstream_addr),
        },
{
}

/// A key that cannot be read is not accepted.
pub proof fn an_unreadable_key_is_not_accepted<K, F: Fn(K) -> Result<CryptoConfig, String>>(
    read_key: F,
    key: K,
)
    requires
        forall|crypto: CryptoConfig| !(#[trigger] call_ensures(read_key, (key,), Ok(crypto))),
    ensures
        !key_accepted(read_key, key),
{
}

} // verus!
