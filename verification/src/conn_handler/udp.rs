//! Handling datagram flows on a proxy.
//!
//! A flow comes in on a datagram socket, keyed by its sender and its flow
//! identifier, or alone on a multiplexed stream. Either way its first datagram
//! must name the route; what follows must keep to it.

use vstd::prelude::*;
use vstd::slice::slice_subrange;
use vstd::string::*;
use crate::addr::{RouteAddr, SocketAddr};
use crate::conn::{
    clone_upstream, same_upstream, upstream_view, DownstreamAddr, Flow, FlowKey, UdpFlowId,
    UpstreamAddr,
};
use crate::io::{ErrorKind, IoError};
use crate::relay::udp::{is_udp_eof, AnyError, CopyBiError};
use crate::route_header::udp::{
    compact_request_round_trip, decode_request_route, decodes_to, reads_request_header,
    request_prefix, routed_request_round_trip, UdpRequestRoute, COMPACT_REQUEST, ROUTED_REQUEST,
};
use crate::route_header::{CodecError, RouteErrorKind};

verus! {

/// What the end of an echo flow says that its peer left alone.
pub const ECHO_FLOW_IDLE: &'static str = "UDP echo flow idle";

/// Why a flow was not served to its end.
#[derive(Debug)]
pub enum UdpProxyError {
    Resolve { source: IoError, addr: RouteAddr },
    Loopback { addr: RouteAddr, sock_addr: SocketAddr },
    ConnectUpstream { source: IoError, addr: RouteAddr },
    Tunnel(AnyError),
    Copy(CopyBiError),
    InvalidFlowKey,
    InitialPacket(IoError),
    RouteUnavailable,
}

/// What the client is told of an error.
pub open spec fn error_kind(e: UdpProxyError) -> RouteErrorKind {
    if e is Loopback {
        RouteErrorKind::Loopback
    } else {
        RouteErrorKind::Io
    }
}

pub fn error_kind_from_proxy_error(e: &UdpProxyError) -> (r: RouteErrorKind)
    ensures
        r == error_kind(*e),
{
    match e {
        UdpProxyError::Resolve { .. } | UdpProxyError::ConnectUpstream { .. } => RouteErrorKind::Io,
        UdpProxyError::Loopback { .. } => RouteErrorKind::Loopback,
        UdpProxyError::Tunnel(_) | UdpProxyError::Copy(_) | UdpProxyError::InvalidFlowKey
        | UdpProxyError::InitialPacket(_) | UdpProxyError::RouteUnavailable => RouteErrorKind::Io,
    }
}

/// The error response that a flow's end calls for, if any. A flow that never
/// had a route is dropped without a word, so that its client names the route
/// again.
pub open spec fn response_for(res: Result<(), UdpProxyError>) -> Option<RouteErrorKind> {
    match res {
        Ok(()) => None,
        Err(UdpProxyError::RouteUnavailable) => None,
        Err(e) => Some(error_kind(e)),
    }
}

pub fn handle_proxy_result(res: &Result<(), UdpProxyError>) -> (r: Option<RouteErrorKind>)
    ensures
        r == response_for(*res),
{
    match res {
        Ok(()) => None,
        Err(UdpProxyError::RouteUnavailable) => None,
        Err(e) => Some(error_kind_from_proxy_error(e)),
    }
}

/// Whether the error is the end of an echo flow that its peer left alone.
pub fn is_echo_flow_idle(error: &AnyError) -> (r: bool)
    ensures
        r == error.is_io(ErrorKind::TimedOut, ECHO_FLOW_IDLE@),
{
    let timed_out = match error.io_kind {
        Some(kind) => kind == ErrorKind::TimedOut,
        None => false,
    };
    timed_out && error.message == ECHO_FLOW_IDLE.to_owned()
}

/// Whether a tunnel flow ended because its peer stalled, saying that.
pub open spec fn timed_out(e: UdpProxyError, what: &str) -> bool {
    e matches UdpProxyError::Tunnel(error) && error.is_io(ErrorKind::TimedOut, what@)
}

fn flow_timed_out(what: &str) -> (e: UdpProxyError)
    ensures
        timed_out(e, what),
{
    UdpProxyError::Tunnel(AnyError::from_io(IoError::new(ErrorKind::TimedOut, what)))
}

/// What a datagram says of its route.
#[derive(Debug)]
pub enum PacketRoute {
    /// It names the upstream, or asks for an echo.
    Routed(Option<UpstreamAddr>),
    /// It relies on an earlier one.
    Compact,
}

/// A datagram of a flow, with its front taken off.
#[derive(Debug)]
pub struct Packet {
    pub route: PacketRoute,
    pub payload: Vec<u8>,
}

/// What the listener makes of a datagram's front.
#[derive(Debug)]
pub enum UdpPacketRoute {
    Routed { flow_id: Option<UdpFlowId>, upstream: Option<UpstreamAddr> },
    Compact { flow_id: UdpFlowId },
}

/// Reads the front of a datagram for the listener, and tells how long it is. A
/// datagram whose front is not right is of no flow.
pub fn parse_packet_route<H: Fn(&[u8]) -> Result<(Option<UpstreamAddr>, usize), CodecError>>(
    buf: &[u8],
    read_header: &H,
) -> (r: Option<(UdpPacketRoute, usize)>)
    requires
        forall|b: &[u8]| call_requires(*read_header, (b,)),
        forall|b: &[u8], upstream: Option<UpstreamAddr>, n: usize| #[trigger]
            call_ensures(*read_header, (b,), Ok((upstream, n))) ==> n <= b@.len(),
    ensures
        exists|decoded: Result<(UdpRequestRoute, usize), CodecError>| #[trigger]
            decodes_to(*read_header, buf@, decoded) && match decoded {
                Err(_) => r is None,
                Ok((UdpRequestRoute::Routed { flow_id, upstream }, n)) => r == Some(
                    (UdpPacketRoute::Routed { flow_id: Some(flow_id), upstream }, n),
                ),
                Ok((UdpRequestRoute::Compact { flow_id }, n)) => r == Some(
                    (UdpPacketRoute::Compact { flow_id }, n),
                ),
            },
{
    match decode_request_route(buf, read_header) {
        Err(_) => None,
        Ok((UdpRequestRoute::Routed { flow_id, upstream }, n)) => Some(
            (UdpPacketRoute::Routed { flow_id: Some(flow_id), upstream }, n),
        ),
        Ok((UdpRequestRoute::Compact { flow_id }, n)) => Some(
            (UdpPacketRoute::Compact { flow_id }, n),
        ),
    }
}

/// What a new flow on a datagram socket asks for.
#[derive(Debug)]
pub enum ProxyPlan {
    /// Send the payload back behind a response header, and that is all.
    Echo(Vec<u8>),
    /// Relay the flow; the reader yields its datagrams, the first one
    /// included.
    Relay { flow: Flow, dn_read: RouteBoundRecv },
}

/// Whether a new flow, with this key and this first datagram, may be planned
/// as `r`.
pub open spec fn plans_to(
    key: FlowKey,
    first: Result<Packet, String>,
    r: Result<ProxyPlan, UdpProxyError>,
) -> bool {
    match (key, first) {
        (FlowKey::Routed(_), _) => r matches Err(UdpProxyError::InvalidFlowKey),
        (FlowKey::Identified { .. }, Err(message)) => r == Err::<ProxyPlan, _>(
            UdpProxyError::InitialPacket(IoError { kind: ErrorKind::Other, message }),
        ),
        (FlowKey::Identified { downstream, .. }, Ok(packet)) => match packet.route {
            PacketRoute::Compact => r matches Err(UdpProxyError::RouteUnavailable),
            PacketRoute::Routed(None) => r == Ok::<_, UdpProxyError>(
                ProxyPlan::Echo(packet.payload),
            ),
            PacketRoute::Routed(Some(upstream)) => {
                &&& r matches Ok(ProxyPlan::Relay { flow, dn_read })
                &&& flow@.upstream == Some(upstream@)
                &&& flow@.downstream == downstream.0
                &&& upstream_view(dn_read.expected_upstream) == Some(upstream@)
                &&& dn_read.first == Some(packet)
            },
        },
    }
}

/// Decides about a new flow. The key of a flow on a datagram socket holds its
/// identifier; its first datagram must name the route.
pub fn plan_proxy(key: &FlowKey, first: Result<Packet, String>) -> (r: Result<
    ProxyPlan,
    UdpProxyError,
>)
    ensures
        plans_to(*key, first, r),
{
    let downstream = match key {
        FlowKey::Identified { downstream, .. } => *downstream,
        FlowKey::Routed(_) => {
            return Err(UdpProxyError::InvalidFlowKey);
        },
    };
    let first = match first {
        Ok(first) => first,
        Err(message) => {
            return Err(UdpProxyError::InitialPacket(IoError::other(message)));
        },
    };
    let upstream = match &first.route {
        PacketRoute::Routed(upstream) => clone_upstream(upstream),
        PacketRoute::Compact => {
            return Err(UdpProxyError::RouteUnavailable);
        },
    };
    if upstream.is_none() {
        return Ok(ProxyPlan::Echo(first.payload));
    }
    let flow = Flow { upstream: clone_upstream(&upstream), downstream };
    Ok(
        ProxyPlan::Relay {
            flow,
            dn_read: RouteBoundRecv { expected_upstream: upstream, first: Some(first) },
        },
    )
}

/// A compact datagram cannot create a flow: one that comes alone is dropped,
/// and its sender is not even told.
pub proof fn compact_datagram_cannot_create_a_flow(
    downstream: DownstreamAddr,
    flow_id: UdpFlowId,
    payload: Vec<u8>,
    r: Result<ProxyPlan, UdpProxyError>,
)
    requires
        plans_to(
            FlowKey::Identified { downstream, flow_id },
            Ok(Packet { route: PacketRoute::Compact, payload }),
            r,
        ),
    ensures
        r is Err,
        response_for(Err(r->Err_0)) is None,
{
}

/// Yields the datagrams of a flow, and holds them to the route that the first
/// one named.
#[derive(Debug)]
pub struct RouteBoundRecv {
    pub expected_upstream: Option<UpstreamAddr>,
    pub first: Option<Packet>,
}

/// Bytes as they arrive in a buffer of that length.
pub open spec fn cut(payload: Seq<u8>, buf_len: usize) -> Seq<u8> {
    if payload.len() <= buf_len {
        payload
    } else {
        payload.take(buf_len as int)
    }
}

impl RouteBoundRecv {
    /// The first datagram, once.
    pub fn take_first(&mut self) -> (r: Option<Packet>)
        ensures
            r == old(self).first,
            final(self).first is None,
            final(self).expected_upstream == old(self).expected_upstream,
    {
        self.first.take()
    }

    /// Delivers a datagram, or, with none, the end of the flow. A datagram
    /// that names another route is an error; one that names none is not.
    pub fn deliver(&self, packet: Option<Packet>, buf_len: usize) -> (r: Result<Vec<u8>, AnyError>)
        ensures
            match packet {
                None => r matches Err(e) && e.is_io(ErrorKind::UnexpectedEof, "UDP flow closed"@),
                Some(packet) => if packet.route matches PacketRoute::Routed(upstream)
                    && upstream_view(upstream) != upstream_view(self.expected_upstream) {
                    r matches Err(e) && e.is_io(
                        ErrorKind::InvalidData,
                        "UDP flow changed its upstream route"@,
                    )
                } else {
                    r matches Ok(bytes) && bytes@ == cut(packet.payload@, buf_len)
                },
            },
    {
        let packet = match packet {
            Some(packet) => packet,
            None => {
                return Err(
                    AnyError::from_io(IoError::new(ErrorKind::UnexpectedEof, "UDP flow closed")),
                );
            },
        };
        if let PacketRoute::Routed(upstream) = &packet.route {
            if !same_upstream(upstream, &self.expected_upstream) {
                return Err(
                    AnyError::from_io(
                        IoError::new(
                            ErrorKind::InvalidData,
                            "UDP flow changed its upstream route",
                        ),
                    ),
                );
            }
        }
        let mut payload: Vec<u8> = packet.payload;
        payload.truncate(buf_len);
        Ok(payload)
    }
}

/// A flow to be relayed, on the way to its upstream.
#[derive(Debug)]
pub struct RelayRequest {
    pub flow: Flow,
    pub upstream: UpstreamAddr,
    pub allow_loopback: bool,
}

/// What comes before connecting.
#[derive(Debug, Clone, Copy, PartialEq, Eq, Structural)]
pub enum BeforeConnect {
    /// Look up the upstream and see that it is not this host.
    Resolve,
    /// Nothing: a reverse tunnel goes by name.
    Nothing,
}

impl RelayRequest {
    /// The upstream is the flow's.
    pub open spec fn wf(self) -> bool {
        self.flow@.upstream == Some(self.upstream@)
    }

    pub fn new(flow: Flow, allow_loopback: bool) -> (r: Option<Self>)
        ensures
            match r {
                Some(request) => request.wf() && request.flow == flow && request.allow_loopback
                    == allow_loopback,
                None => flow.upstream is None,
            },
    {
        let upstream = match &flow.upstream {
            Some(upstream) => upstream.clone(),
            None => {
                return None;
            },
        };
        Some(RelayRequest { flow, upstream, allow_loopback })
    }

    /// What comes before connecting to the upstream.
    pub fn before_connect(&self) -> (r: BeforeConnect)
        ensures
            r == (if self.upstream@.reverse_tunnel() is Some {
                BeforeConnect::Nothing
            } else {
                BeforeConnect::Resolve
            }),
    {
        match self.upstream.0.reverse_tunnel() {
            Some(_) => BeforeConnect::Nothing,
            None => BeforeConnect::Resolve,
        }
    }

    /// Goes on once the upstream was looked up, or not. An upstream that leads
    /// back to this host is refused unless that is allowed.
    pub fn resolved(&self, outcome: Result<(SocketAddr, bool), IoError>) -> (r: Result<
        (),
        UdpProxyError,
    >)
        ensures
            match outcome {
                Err(e) => r matches Err(UdpProxyError::Resolve { source, addr }) && source == e
                    && addr@ == self.upstream@,
                Ok((resolved, reaches_loopback)) => if reaches_loopback && !self.allow_loopback {
                    r matches Err(UdpProxyError::Loopback { addr, sock_addr }) && addr@
                        == self.upstream@ && sock_addr == resolved
                } else {
                    r is Ok
                },
            },
    {
        match outcome {
            Err(source) => Err(
                UdpProxyError::Resolve { source, addr: self.upstream.0.clone() },
            ),
            Ok((sock_addr, reaches_loopback)) => {
                if !self.allow_loopback && reaches_loopback {
                    return Err(
                        UdpProxyError::Loopback { addr: self.upstream.0.clone(), sock_addr },
                    );
                }
                Ok(())
            },
        }
    }

    /// Goes on once the upstream was connected, or not.
    pub fn connected<C>(self, outcome: Result<C, IoError>) -> (r: Result<(Flow, C), UdpProxyError>)
        ensures
            match outcome {
                Ok(conn) => r == Ok::<_, UdpProxyError>((self.flow, conn)),
                Err(e) => r == Err::<(Flow, C), _>(
                    UdpProxyError::ConnectUpstream { source: e, addr: self.upstream.0 },
                ),
            },
    {
        match outcome {
            Ok(conn) => Ok((self.flow, conn)),
            Err(source) => Err(UdpProxyError::ConnectUpstream { source, addr: self.upstream.0 }),
        }
    }
}

/// Reads the datagrams of a tunnel flow, and holds them to the identifier and
/// the route that the first one had.
#[derive(Debug)]
pub struct FlowRecv {
    pub flow_id: UdpFlowId,
    pub upstream: Option<UpstreamAddr>,
}

/// A header error, as an error of any layer.
pub open spec fn is_codec_error(error: AnyError, e: CodecError) -> bool {
    error.io_kind is None && error.message@ == e.spec_text()
}

fn any_error_from_codec(e: CodecError) -> (error: AnyError)
    ensures
        is_codec_error(error, e),
{
    AnyError { io_kind: None, message: e.to_text() }
}

impl FlowRecv {
    /// Whether a datagram's front belongs to the flow.
    pub open spec fn accepts(self, route: UdpRequestRoute) -> bool {
        match route {
            UdpRequestRoute::Compact { flow_id } => flow_id@ == self.flow_id@,
            UdpRequestRoute::Routed { flow_id, upstream } => flow_id@ == self.flow_id@
                && upstream_view(upstream) == upstream_view(self.upstream),
        }
    }

    /// Whether decoding the datagram may end in `r`.
    pub open spec fn recv_to<H: Fn(&[u8]) -> Result<(Option<UpstreamAddr>, usize), CodecError>>(
        self,
        read_header: H,
        packet: Seq<u8>,
        r: Result<Seq<u8>, AnyError>,
    ) -> bool {
        exists|decoded: Result<(UdpRequestRoute, usize), CodecError>| #[trigger]
            decodes_to(read_header, packet, decoded) && match decoded {
                Err(e) => r matches Err(error) && is_codec_error(error, e),
                Ok((route, n)) => if self.accepts(route) {
                    r == Ok::<Seq<u8>, AnyError>(packet.subrange(n as int, packet.len() as int))
                } else {
                    r matches Err(error) && error.is_io(
                        ErrorKind::InvalidData,
                        "UDP mux flow changed its flow ID or upstream route"@,
                    )
                },
            }
    }

    /// The payload of a datagram of the flow.
    pub fn recv_decoded<H: Fn(&[u8]) -> Result<(Option<UpstreamAddr>, usize), CodecError>>(
        &self,
        packet: &[u8],
        read_header: &H,
    ) -> (r: Result<Vec<u8>, AnyError>)
        requires
            forall|b: &[u8]| call_requires(*read_header, (b,)),
            forall|b: &[u8], upstream: Option<UpstreamAddr>, n: usize| #[trigger]
                call_ensures(*read_header, (b,), Ok((upstream, n))) ==> n <= b@.len(),
        ensures
            self.recv_to(
                *read_header,
                packet@,
                match r {
                    Ok(bytes) => Ok(bytes@),
                    Err(e) => Err(e),
                },
            ),
    {
        let decoded = decode_request_route(packet, read_header);
        assert(decodes_to(*read_header, packet@, decoded));
        let (route, n) = match decoded {
            Ok(decoded) => decoded,
            Err(e) => {
                return Err(any_error_from_codec(e));
            },
        };
        let matched = match &route {
            UdpRequestRoute::Compact { flow_id } => flow_id.same(&self.flow_id),
            UdpRequestRoute::Routed { flow_id, upstream } => flow_id.same(&self.flow_id)
                && same_upstream(upstream, &self.upstream),
        };
        if !matched {
            return Err(
                AnyError::from_io(
                    IoError::new(
                        ErrorKind::InvalidData,
                        "UDP mux flow changed its flow ID or upstream route",
                    ),
                ),
            );
        }
        let mut payload: Vec<u8> = Vec::new();
        payload.extend_from_slice(slice_subrange(packet, n, packet.len()));
        assert(payload@ =~= packet@.subrange(n as int, packet@.len() as int));
        Ok(payload)
    }
}

/// A tunnel flow without an upstream: every datagram is sent back.
#[derive(Debug)]
pub struct EchoFlow {
    pub decoder: FlowRecv,
    /// The payload of the first datagram.
    pub first: Vec<u8>,
}

/// A tunnel flow with an upstream.
#[derive(Debug)]
pub struct RelayFlow {
    pub decoder: FlowRecv,
    /// The payload of the first datagram.
    pub first: Vec<u8>,
    pub upstream: UpstreamAddr,
}

/// A tunnel flow whose first datagram came.
#[derive(Debug)]
pub enum EstablishedTunnel {
    Echo(EchoFlow),
    Relay(RelayFlow),
}

/// Whether a tunnel flow may be established as `r` from what its first read
/// brought: `None` if nothing came in time.
pub open spec fn establishes_to<H: Fn(&[u8]) -> Result<(Option<UpstreamAddr>, usize), CodecError>>(
    read_header: H,
    received: Option<Result<Vec<u8>, AnyError>>,
    r: Result<EstablishedTunnel, UdpProxyError>,
) -> bool {
    match received {
        None => r matches Err(e) && timed_out(e, "timed out waiting for the first routed datagram"),
        Some(Err(error)) => r == Err::<EstablishedTunnel, _>(UdpProxyError::Tunnel(error)),
        Some(Ok(packet)) => exists|decoded: Result<(UdpRequestRoute, usize), CodecError>| #[trigger]
            decodes_to(read_header, packet@, decoded) && match decoded {
                Err(e) => r matches Err(UdpProxyError::Tunnel(error)) && is_codec_error(error, e),
                Ok((UdpRequestRoute::Compact { .. }, _)) => {
                    r matches Err(UdpProxyError::Tunnel(error)) && error.is_io(
                        ErrorKind::InvalidData,
                        "UDP mux flow used compact form before establishing its route"@,
                    )
                },
                Ok((UdpRequestRoute::Routed { flow_id, upstream }, n)) => {
                    let payload = packet@.subrange(n as int, packet@.len() as int);
                    match upstream {
                        None => {
                            &&& r matches Ok(EstablishedTunnel::Echo(flow))
                            &&& flow.first@ == payload
                            &&& flow.decoder.flow_id@ == flow_id@
                            &&& flow.decoder.upstream is None
                        },
                        Some(upstream) => {
                            &&& r matches Ok(EstablishedTunnel::Relay(flow))
                            &&& flow.first@ == payload
                            &&& flow.upstream@ == upstream@
                            &&& flow.decoder.flow_id@ == flow_id@
                            &&& upstream_view(flow.decoder.upstream) == Some(upstream@)
                        },
                    }
                },
            },
    }
}

/// Establishes a tunnel flow from its first datagram, which must name the
/// route.
pub fn establish_tunnel<H: Fn(&[u8]) -> Result<(Option<UpstreamAddr>, usize), CodecError>>(
    received: Option<Result<Vec<u8>, AnyError>>,
    read_header: &H,
) -> (r: Result<EstablishedTunnel, UdpProxyError>)
    requires
        forall|b: &[u8]| call_requires(*read_header, (b,)),
        forall|b: &[u8], upstream: Option<UpstreamAddr>, n: usize| #[trigger]
            call_ensures(*read_header, (b,), Ok((upstream, n))) ==> n <= b@.len(),
    ensures
        establishes_to(*read_header, received, r),
{
    let packet = match received {
        Some(Ok(packet)) => packet,
        Some(Err(error)) => {
            return Err(UdpProxyError::Tunnel(error));
        },
        None => {
            return Err(flow_timed_out("timed out waiting for the first routed datagram"));
        },
    };
    let decoded = decode_request_route(packet.as_slice(), read_header);
    assert(decodes_to(*read_header, packet@, decoded));
    let (flow_id, upstream, n) = match decoded {
        Err(e) => {
            return Err(UdpProxyError::Tunnel(any_error_from_codec(e)));
        },
        Ok((UdpRequestRoute::Compact { .. }, _)) => {
            return Err(
                UdpProxyError::Tunnel(
                    AnyError::from_io(
                        IoError::new(
                            ErrorKind::InvalidData,
                            "UDP mux flow used compact form before establishing its route",
                        ),
                    ),
                ),
            );
        },
        Ok((UdpRequestRoute::Routed { flow_id, upstream }, n)) => (flow_id, upstream, n),
    };
    let mut first: Vec<u8> = Vec::new();
    first.extend_from_slice(slice_subrange(packet.as_slice(), n, packet.len()));
    assert(first@ =~= packet@.subrange(n as int, packet@.len() as int));
    let decoder = FlowRecv { flow_id, upstream: clone_upstream(&upstream) };
    match upstream {
        None => Ok(EstablishedTunnel::Echo(EchoFlow { decoder, first })),
        Some(upstream) => Ok(EstablishedTunnel::Relay(RelayFlow { decoder, first, upstream })),
    }
}

/// What is left of a tunnel flow after the attempt to establish it. A flow
/// that its client closed before the first datagram is over, and no error.
pub fn tunnel_opened(established: Result<EstablishedTunnel, UdpProxyError>) -> (r: Result<
    Option<EstablishedTunnel>,
    UdpProxyError,
>)
    ensures
        match established {
            Ok(tunnel) => r == Ok::<_, UdpProxyError>(Some(tunnel)),
            Err(UdpProxyError::Tunnel(error)) => if error.spec_is_udp_eof() {
                r == Ok::<Option<EstablishedTunnel>, UdpProxyError>(None)
            } else {
                r == Err::<Option<EstablishedTunnel>, _>(UdpProxyError::Tunnel(error))
            },
            Err(e) => r == Err::<Option<EstablishedTunnel>, _>(e),
        },
{
    match established {
        Ok(tunnel) => Ok(Some(tunnel)),
        Err(UdpProxyError::Tunnel(error)) => if is_udp_eof(&error) {
            Ok(None)
        } else {
            Err(UdpProxyError::Tunnel(error))
        },
        Err(e) => Err(e),
    }
}

/// The first datagram of a tunnel flow must be routed: a compact one
/// establishes nothing.
pub proof fn compact_datagram_cannot_establish_a_tunnel<
    H: Fn(&[u8]) -> Result<(Option<UpstreamAddr>, usize), CodecError>,
>(read_header: H, packet: Vec<u8>, r: Result<EstablishedTunnel, UdpProxyError>)
    requires
        packet@.len() > 0,
        packet@[0] == crate::route_header::udp::COMPACT_REQUEST,
        establishes_to(read_header, Some(Ok(packet)), r),
    ensures
        r is Err,
{
}

impl RelayFlow {
    /// The reader of the flow, and its route.
    pub fn into_parts(self) -> (r: (RelayRead, UpstreamAddr))
        ensures
            r.0.decoder == self.decoder,
            r.0.pending == Some(self.first),
            r.1 == self.upstream,
    {
        (RelayRead { decoder: self.decoder, pending: Some(self.first) }, self.upstream)
    }
}

/// Yields the payloads of a relayed tunnel flow: that of the first datagram
/// once, then those that follow.
#[derive(Debug)]
pub struct RelayRead {
    pub decoder: FlowRecv,
    pub pending: Option<Vec<u8>>,
}

impl RelayRead {
    /// The payload of the first datagram, once, cut to the buffer.
    pub fn take_pending(&mut self, buf_len: usize) -> (r: Option<Vec<u8>>)
        ensures
            final(self).pending is None,
            final(self).decoder == old(self).decoder,
            match old(self).pending {
                Some(payload) => r matches Some(bytes) && bytes@ == cut(payload@, buf_len),
                None => r is None,
            },
    {
        match self.pending.take() {
            Some(payload) => {
                let mut payload: Vec<u8> = payload;
                payload.truncate(buf_len);
                Some(payload)
            },
            None => None,
        }
    }
}

impl EchoFlow {
    /// The datagram that echoes a payload: the response header, then the
    /// payload.
    pub fn response(header: Result<Vec<u8>, CodecError>, payload: &[u8]) -> (r: Result<
        Vec<u8>,
        UdpProxyError,
    >)
        ensures
            match header {
                Ok(header) => r matches Ok(bytes) && bytes@ == header@ + payload@,
                Err(e) => r matches Err(UdpProxyError::Tunnel(error)) && is_codec_error(error, e),
            },
    {
        match header {
            Ok(header) => {
                let mut response: Vec<u8> = header;
                let ghost front = response@;
                response.extend_from_slice(payload);
                assert(response@ =~= front + payload@);
                Ok(response)
            },
            Err(e) => Err(UdpProxyError::Tunnel(any_error_from_codec(e))),
        }
    }

    /// What sending an echo comes to: `None` if it took too long, as with a
    /// peer that stopped reading.
    pub fn responded(outcome: Option<Result<usize, AnyError>>) -> (r: Result<(), UdpProxyError>)
        ensures
            match outcome {
                Some(Ok(_)) => r is Ok,
                Some(Err(error)) => r == Err::<(), _>(UdpProxyError::Tunnel(error)),
                None => r matches Err(e) && timed_out(e, "UDP echo flow stalled on response write"),
            },
    {
        match outcome {
            Some(Ok(_)) => Ok(()),
            Some(Err(error)) => Err(UdpProxyError::Tunnel(error)),
            None => Err(flow_timed_out("UDP echo flow stalled on response write")),
        }
    }

    /// What the next read comes to: a payload to echo, or, with `None`, the
    /// clean end of the flow. An outcome of `None` means that nothing came in
    /// time.
    pub fn received(outcome: Option<Result<Vec<u8>, AnyError>>) -> (r: Result<
        Option<Vec<u8>>,
        UdpProxyError,
    >)
        ensures
            match outcome {
                Some(Ok(payload)) => r == Ok::<_, UdpProxyError>(Some(payload)),
                Some(Err(error)) => if error.spec_is_udp_eof() {
                    r == Ok::<Option<Vec<u8>>, UdpProxyError>(None)
                } else {
                    r == Err::<Option<Vec<u8>>, _>(UdpProxyError::Tunnel(error))
                },
                None => r matches Err(e) && timed_out(e, ECHO_FLOW_IDLE),
            },
    {
        match outcome {
            Some(Ok(payload)) => Ok(Some(payload)),
            Some(Err(error)) => if is_udp_eof(&error) {
                Ok(None)
            } else {
                Err(UdpProxyError::Tunnel(error))
            },
            None => Err(flow_timed_out(ECHO_FLOW_IDLE)),
        }
    }

    /// How an echo flow ends for its handler: one that its peer left alone has
    /// run its term, which is no error. Tells whether that happened.
    pub fn ended(result: Result<(), UdpProxyError>) -> (r: (Result<(), UdpProxyError>, bool))
        ensures
            match result {
                Err(UdpProxyError::Tunnel(error)) => if error.is_io(
                    ErrorKind::TimedOut,
                    ECHO_FLOW_IDLE@,
                ) {
                    r.0 is Ok && r.1
                } else {
                    r == (result, false)
                },
                _ => r == (result, false),
            },
    {
        match result {
            Err(UdpProxyError::Tunnel(error)) => if is_echo_flow_idle(&error) {
                (Ok(()), true)
            } else {
                (Err(UdpProxyError::Tunnel(error)), false)
            },
            other => (other, false),
        }
    }
}

/// A client is told of every error but one, and that its upstream is the
/// proxy's own host exactly if it is. A flow that ended well, and one whose
/// route the proxy does not know, are ended without a word.
pub proof fn a_client_is_told_of_errors(res: Result<(), UdpProxyError>)
    ensures
        match res {
            Ok(()) | Err(UdpProxyError::RouteUnavailable) => response_for(res) is None,
            Err(UdpProxyError::Loopback { .. }) => response_for(res) == Some(
                RouteErrorKind::Loopback,
            ),
            Err(UdpProxyError::Resolve { .. })
            | Err(UdpProxyError::ConnectUpstream { .. })
            | Err(UdpProxyError::Tunnel(_))
            | Err(UdpProxyError::Copy(_))
            | Err(UdpProxyError::InvalidFlowKey)
            | Err(UdpProxyError::InitialPacket(_)) => response_for(res) == Some(RouteErrorKind::Io),
        },
        res matches Err(e) ==> (error_kind(e) is Loopback <==> e is Loopback),
{
}

/// A first datagram that names an upstream starts a flow from its sender to
/// that upstream, of which it is the first packet. One that names none is
/// echoed, payload for payload.
pub proof fn a_routed_datagram_creates_its_flow(
    downstream: DownstreamAddr,
    flow_id: UdpFlowId,
    packet: Packet,
    r: Result<ProxyPlan, UdpProxyError>,
)
    requires
        plans_to(FlowKey::Identified { downstream, flow_id }, Ok(packet), r),
    ensures
        packet.route matches PacketRoute::Routed(None) ==> (r matches Ok(ProxyPlan::Echo(payload))
            && payload == packet.payload),
        packet.route matches PacketRoute::Routed(Some(upstream)) ==> {
            &&& r matches Ok(ProxyPlan::Relay { flow, dn_read })
            &&& flow.upstream matches Some(to)
            &&& to@ == upstream@
            &&& flow.downstream == downstream
            &&& dn_read.expected_upstream matches Some(expected)
            &&& expected@ == upstream@
            &&& dn_read.first == Some(packet)
        },
        packet.route is Compact ==> (r matches Err(UdpProxyError::RouteUnavailable)),
{
}

/// A flow whose key holds its route, or whose first datagram cannot be had, is
/// not served.
pub proof fn a_flow_without_a_first_datagram_is_not_served(
    key: FlowKey,
    first: Result<Packet, String>,
    r: Result<ProxyPlan, UdpProxyError>,
)
    requires
        key is Routed || first is Err,
        plans_to(key, first, r),
    ensures
        key is Routed ==> (r matches Err(UdpProxyError::InvalidFlowKey)),
        !(key is Routed) ==> (r matches Err(UdpProxyError::InitialPacket(e)) && Err::<Packet, _>(
            e.message,
        ) == first && e.kind is Other),
{
}

/// Bytes that are cut to a buffer are the first of them, as many as fit.
pub proof fn a_cut_keeps_the_front(payload: Seq<u8>, buf_len: usize)
    ensures
        exists|rest: Seq<u8>|
            {
                &&& payload == #[trigger] (cut(payload, buf_len) + rest)
                &&& cut(payload, buf_len).len() <= buf_len
                &&& rest.len() > 0 ==> cut(payload, buf_len).len() == buf_len
            },
{
    let kept = cut(payload, buf_len).len() as int;
    assert(payload =~= cut(payload, buf_len) + payload.skip(kept));
}

/// A datagram is of a tunnel flow exactly if it bears the flow's identifier and,
/// where it names a route, the flow's own.
pub proof fn a_tunnel_flow_keeps_to_its_identifier_and_route(
    recv: FlowRecv,
    flow_id: UdpFlowId,
    upstream: Option<UpstreamAddr>,
)
    ensures
        recv.accepts(UdpRequestRoute::Compact { flow_id }) <==> flow_id@ == recv.flow_id@,
        recv.accepts(UdpRequestRoute::Routed { flow_id, upstream }) <==> flow_id@ == recv.flow_id@
            && match (upstream, recv.upstream) {
            (Some(a), Some(b)) => a@ == b@,
            (None, None) => true,
            _ => false,
        },
{
}

/// Behind the front of a compact datagram of the flow is the payload, and it is
/// all that the flow yields; a compact datagram of another flow is refused.
pub proof fn a_compact_datagram_yields_its_payload<
    H: Fn(&[u8]) -> Result<(Option<UpstreamAddr>, usize), CodecError>,
>(
    read_header: H,
    recv: FlowRecv,
    flow_id: UdpFlowId,
    payload: Seq<u8>,
    r: Result<Seq<u8>, AnyError>,
)
    requires
        flow_id@.len() == 16,
        recv.recv_to(read_header, seq![1u8] + flow_id@ + payload, r),
    ensures
        flow_id@ == recv.flow_id@ ==> r == Ok::<Seq<u8>, AnyError>(payload),
        flow_id@ != recv.flow_id@ ==> (r matches Err(e) && e.io_kind == Some(
            ErrorKind::InvalidData,
        )),
{
    let packet = seq![1u8] + flow_id@ + payload;
    let decoded = choose|decoded: Result<(UdpRequestRoute, usize), CodecError>| #[trigger]
        decodes_to(read_header, packet, decoded) && match decoded {
            Err(e) => r matches Err(error) && is_codec_error(error, e),
            Ok((route, n)) => if recv.accepts(route) {
                r == Ok::<Seq<u8>, AnyError>(packet.subrange(n as int, packet.len() as int))
            } else {
                r matches Err(error) && error.is_io(
                    ErrorKind::InvalidData,
                    "UDP mux flow changed its flow ID or upstream route"@,
                )
            },
        };
    assert(packet == request_prefix(COMPACT_REQUEST, flow_id@) + payload);
    compact_request_round_trip(read_header, flow_id, payload, decoded);
}

/// Behind the front and the header of a routed datagram of the flow is the
/// payload; a routed datagram of another flow, or with another route, is
/// refused.
pub proof fn a_routed_datagram_yields_its_payload<
    H: Fn(&[u8]) -> Result<(Option<UpstreamAddr>, usize), CodecError>,
>(
    read_header: H,
    recv: FlowRecv,
    flow_id: UdpFlowId,
    header: Seq<u8>,
    upstream: Option<UpstreamAddr>,
    payload: Seq<u8>,
    r: Result<Seq<u8>, AnyError>,
)
    requires
        flow_id@.len() == 16,
        forall|out: Result<(Option<UpstreamAddr>, usize), CodecError>| #[trigger]
            reads_request_header(read_header, header + payload, out) ==> (out matches Ok((u, n))
                && upstream_view(u) == upstream_view(upstream) && n == header.len()),
        recv.recv_to(read_header, seq![0u8] + flow_id@ + header + payload, r),
    ensures
        flow_id@ == recv.flow_id@ && upstream_view(upstream) == upstream_view(recv.upstream) ==> r
            == Ok::<Seq<u8>, AnyError>(payload),
        flow_id@ != recv.flow_id@ || upstream_view(upstream) != upstream_view(recv.upstream) ==> (
        r matches Err(e) && e.io_kind == Some(ErrorKind::InvalidData)),
{
    let packet = seq![0u8] + flow_id@ + header + payload;
    let decoded = choose|decoded: Result<(UdpRequestRoute, usize), CodecError>| #[trigger]
        decodes_to(read_header, packet, decoded) && match decoded {
            Err(e) => r matches Err(error) && is_codec_error(error, e),
            Ok((route, n)) => if recv.accepts(route) {
                r == Ok::<Seq<u8>, AnyError>(packet.subrange(n as int, packet.len() as int))
            } else {
                r matches Err(error) && error.is_io(
                    ErrorKind::InvalidData,
                    "UDP mux flow changed its flow ID or upstream route"@,
                )
            },
        };
    assert(packet == request_prefix(ROUTED_REQUEST, flow_id@) + header + payload);
    routed_request_round_trip(read_header, flow_id, header, upstream, payload, decoded);
}

/// A tunnel flow is what its first datagram says: an echo if it names no
/// upstream, and otherwise a relay to the one that it names. It keeps the
/// identifier and the route, and the payload comes first.
pub proof fn a_first_datagram_establishes_its_flow<
    H: Fn(&[u8]) -> Result<(Option<UpstreamAddr>, usize), CodecError>,
>(
    read_header: H,
    flow_id: UdpFlowId,
    header: Seq<u8>,
    upstream: Option<UpstreamAddr>,
    payload: Seq<u8>,
    packet: Vec<u8>,
    r: Result<EstablishedTunnel, UdpProxyError>,
)
    requires
        flow_id@.len() == 16,
        packet@ == seq![0u8] + flow_id@ + header + payload,
        forall|out: Result<(Option<UpstreamAddr>, usize), CodecError>| #[trigger]
            reads_request_header(read_header, header + payload, out) ==> (out matches Ok((u, n))
                && upstream_view(u) == upstream_view(upstream) && n == header.len()),
        establishes_to(read_header, Some(Ok(packet)), r),
    ensures
        match upstream {
            None => {
                &&& r matches Ok(EstablishedTunnel::Echo(flow))
                &&& flow.first@ == payload
                &&& flow.decoder.flow_id@ == flow_id@
                &&& flow.decoder.upstream is None
            },
            Some(to) => {
                &&& r matches Ok(EstablishedTunnel::Relay(flow))
                &&& flow.first@ == payload
                &&& flow.upstream@ == to@
                &&& flow.decoder.flow_id@ == flow_id@
                &&& flow.decoder.upstream matches Some(kept)
                &&& kept@ == to@
            },
        },
{
    assert(packet@ == request_prefix(ROUTED_REQUEST, flow_id@) + header + payload);
    assert forall|decoded: Result<(UdpRequestRoute, usize), CodecError>| #[trigger]
        decodes_to(read_header, packet@, decoded) implies ({
        &&& decoded matches Ok((UdpRequestRoute::Routed { flow_id: id, upstream: u }, n))
        &&& id@ == flow_id@
        &&& upstream_view(u) == upstream_view(upstream)
        &&& packet@.subrange(n as int, packet@.len() as int) == payload
    }) by {
        routed_request_round_trip(read_header, flow_id, header, upstream, payload, decoded);
    }
}

/// A tunnel flow of which nothing came in time, or whose first read failed, is
/// not established, and the error says so.
pub proof fn a_flow_that_sent_nothing_is_not_established<
    H: Fn(&[u8]) -> Result<(Option<UpstreamAddr>, usize), CodecError>,
>(
    read_header: H,
    received: Option<Result<Vec<u8>, AnyError>>,
    r: Result<EstablishedTunnel, UdpProxyError>,
)
    requires
        !(received matches Some(Ok(_))),
        establishes_to(read_header, received, r),
    ensures
        r matches Err(UdpProxyError::Tunnel(error)) && match received {
            Some(Err(e)) => error == e,
            _ => error.io_kind == Some(ErrorKind::TimedOut) && error.message@
                == "timed out waiting for the first routed datagram"@,
        },
{
}

/// An error of input or output is known by its kind and its words; an error of a
/// header is none, and says what the header's error says.
pub proof fn errors_are_known_by_kind_and_words(
    error: AnyError,
    kind: ErrorKind,
    message: Seq<char>,
    what: &str,
    codec: CodecError,
)
    ensures
        error.is_io(kind, message) <==> error.io_kind == Some(kind) && error.message@ == message,
        timed_out(UdpProxyError::Tunnel(error), what) <==> error.io_kind == Some(
            ErrorKind::TimedOut,
        ) && error.message@ == what@,
        is_codec_error(error, codec) <==> error.io_kind is None && error.message@
            == codec.spec_text(),
{
}

/// A flow that is to be relayed goes where its request says.
pub proof fn a_relay_request_goes_to_its_flows_upstream(request: RelayRequest)
    ensures
        request.wf() <==> (request.flow.upstream matches Some(upstream) && upstream@
            == request.upstream@),
{
}

} // verus!
