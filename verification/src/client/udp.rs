//! The client's end of a datagram flow through a chain of proxies.

use vstd::prelude::*;
use crate::addr::{InternetAddr, RouteAddr, RouteAddrView, SocketAddr, UDP_PROTOCOL};
use crate::client::layers::{
    a_layer_is_its_front_and_what_the_cipher_wrote, encode_layers, encodes_to, layers_view, outermost_layer_is_the_first_proxys, peel_response,
    peels_to, seals_to, wraps_to, PeelError, RequestLayer, RequestLayerView,
};
use crate::conn::{UdpFlowId, UpstreamAddr, UDP_FLOW_ID_LEN};
use crate::crypto::{
    direction_yields, packet_round_trips_exactly_if_it_fits, reads_back, transforms_to, CryptoConfig,
    Encrypted, EncryptionDirection,
};
use crate::io::{ErrorKind, IoError};
use crate::route::hop_config::HopConfig;
use crate::route::conn_chain::{chain_requests, requests_lead_to, HopRequest};
use crate::route_header::udp::{
    decodes_to, reads_request_header, request_prefix, UdpRequestRoute, COMPACT_REQUEST,
    REQUEST_PREFIX_LEN, ROUTED_REQUEST,
};
use crate::route_header::{CodecError, RouteError, RouteResponse};
use crate::time::{Duration, Instant, SystemTime};

verus! {

/// When the client last decoded every layer of a response, by both clocks.
#[derive(Debug, Clone, Copy)]
pub struct ConfirmationTime {
    pub monotonic: Instant,
    pub wall: SystemTime,
}

/// Whether the proxies on the way know the flow, so that requests need not
/// name their route again.
#[derive(Debug, Clone, Copy)]
pub struct RouteConfirmation {
    pub last_response: Option<ConfirmationTime>,
}

impl RouteConfirmation {
    /// Whether the flow is still known to the proxies: neither clock has seen
    /// the flow timeout pass since the last response, and the wall clock was
    /// not set back.
    pub open spec fn fresh(self, now: Instant, wall_now: SystemTime, flow_timeout: Duration) -> bool {
        self.last_response matches Some(confirmed) && {
            &&& now.nanos - confirmed.monotonic.nanos < flow_timeout.nanos
            &&& now.nanos < confirmed.monotonic.nanos ==> 0 < flow_timeout.nanos
            &&& 0 <= wall_now.nanos - confirmed.wall.nanos < flow_timeout.nanos
        }
    }

    /// No response yet.
    pub fn new() -> (r: Self)
        ensures
            r.last_response is None,
    {
        RouteConfirmation { last_response: None }
    }

    /// Takes note of a response.
    pub fn confirm(&mut self, now: Instant, wall_now: SystemTime)
        ensures
            *final(self) == (RouteConfirmation {
                last_response: Some(ConfirmationTime { monotonic: now, wall: wall_now }),
            }),
    {
        self.last_response = Some(ConfirmationTime { monotonic: now, wall: wall_now });
    }

    pub fn is_fresh(&self, now: Instant, wall_now: SystemTime, flow_timeout: Duration) -> (r: bool)
        ensures
            r == self.fresh(now, wall_now, flow_timeout),
    {
        match &self.last_response {
            None => false,
            Some(confirmed) => {
                if now.duration_since(confirmed.monotonic).nanos >= flow_timeout.nanos {
                    return false;
                }
                match wall_now.duration_since(confirmed.wall) {
                    None => false,
                    Some(elapsed) => elapsed.nanos < flow_timeout.nanos,
                }
            },
        }
    }
}

/// A flow that no response confirmed is not fresh, whatever the clocks say.
pub proof fn unconfirmed_route_is_not_fresh(
    now: Instant,
    wall_now: SystemTime,
    flow_timeout: Duration,
)
    ensures
        !(RouteConfirmation { last_response: None }).fresh(now, wall_now, flow_timeout),
{
}

/// Either clock alone ends the freshness of a route: the monotonic clock by
/// reaching the timeout, the wall clock by reaching it or by being set back.
pub proof fn either_clock_expires_a_route(
    confirmed: ConfirmationTime,
    now: Instant,
    wall_now: SystemTime,
    flow_timeout: Duration,
)
    requires
        ({
            ||| now.nanos - confirmed.monotonic.nanos >= flow_timeout.nanos
            ||| wall_now.nanos - confirmed.wall.nanos >= flow_timeout.nanos
            ||| wall_now.nanos < confirmed.wall.nanos
        }),
    ensures
        !(RouteConfirmation { last_response: Some(confirmed) }).fresh(now, wall_now, flow_timeout),
{
}

/// Sending to the upstream failed.
#[derive(Debug)]
pub struct SendError {
    pub source: IoError,
    pub sock_addr: Option<SocketAddr>,
}

/// The half that sends.
#[derive(Debug)]
pub struct UdpProxyClientWriteHalf {
    pub peer_addr: Option<SocketAddr>,
    pub request_layers: Vec<HopRequest>,
    pub flow_id: UdpFlowId,
}

/// The front of one layer: compact, or routed with the encrypted header.
pub open spec fn layer_prefix(flow_id: Seq<u8>, use_compact: bool, header: Seq<u8>) -> Seq<u8> {
    if use_compact {
        request_prefix(COMPACT_REQUEST, flow_id)
    } else {
        request_prefix(ROUTED_REQUEST, flow_id) + header
    }
}

/// The layers of a request, first proxy first.
pub open spec fn request_layers(
    layers: Seq<HopRequest>,
    headers: Seq<Vec<u8>>,
    flow_id: Seq<u8>,
    use_compact: bool,
) -> Seq<RequestLayerView> {
    Seq::new(
        layers.len(),
        |i: int|
            RequestLayerView {
                prefix: layer_prefix(flow_id, use_compact, headers[i]@),
                payload_crypto: layers[i].payload_crypto,
            },
    )
}

impl UdpProxyClientWriteHalf {
    /// The datagram that carries the payload through the chain. `headers` are
    /// the encrypted route headers, one per proxy; they are left out, and the
    /// compact form used, while the route is confirmed. `capacity` bounds the
    /// length of every layer.
    pub fn encode<E: Fn(&[u8], &CryptoConfig) -> Result<Encrypted, IoError>>(
        &self,
        buf: &[u8],
        headers: &[Vec<u8>],
        confirmation: &RouteConfirmation,
        now: Instant,
        wall_now: SystemTime,
        flow_timeout: Duration,
        capacity: usize,
        cipher: &E,
    ) -> (r: Result<Vec<u8>, SendError>)
        requires
            headers@.len() == self.request_layers@.len(),
            forall|p: &[u8], k: &CryptoConfig| call_requires(*cipher, (p, k)),
        ensures
            encodes_to(
                *cipher,
                request_layers(
                    self.request_layers@,
                    headers@,
                    self.flow_id@,
                    confirmation.fresh(now, wall_now, flow_timeout),
                ),
                capacity,
                "encoded UDP proxy packet is too large"@,
                buf@,
                match r {
                    Ok(packet) => Ok(packet@),
                    Err(e) => Err(e.source),
                },
            ),
            r matches Err(e) ==> e.sock_addr == self.peer_addr,
    {
        let use_compact = confirmation.is_fresh(now, wall_now, flow_timeout);
        let mut layers: Vec<RequestLayer> = Vec::new();
        let ghost expected = request_layers(
            self.request_layers@,
            headers@,
            self.flow_id@,
            use_compact,
        );
        let mut i: usize = 0;
        while i < self.request_layers.len()
            invariant
                i <= self.request_layers@.len(),
                headers@.len() == self.request_layers@.len(),
                layers@.len() == i,
                expected == request_layers(
                    self.request_layers@,
                    headers@,
                    self.flow_id@,
                    use_compact,
                ),
                forall|j: int| 0 <= j < i ==> (#[trigger] layers@[j])@ == expected[j],
            decreases self.request_layers@.len() - i,
        {
            let mut prefix: Vec<u8> = Vec::new();
            if use_compact {
                self.flow_id.write_compact(&mut prefix);
            } else {
                self.flow_id.write_routed(&mut prefix);
                prefix.extend_from_slice(headers[i].as_slice());
            }
            assert(prefix@ =~= layer_prefix(self.flow_id@, use_compact, headers@[i as int]@));
            layers.push(
                RequestLayer { prefix, payload_crypto: self.request_layers[i].payload_crypto },
            );
            i += 1;
        }
        assert(layers_view(layers@) =~= expected);
        match encode_layers(
            buf,
            layers.as_slice(),
            capacity,
            "encoded UDP proxy packet is too large",
            cipher,
        ) {
            Ok(packet) => Ok(packet),
            Err(source) => Err(SendError { source, sock_addr: self.peer_addr }),
        }
    }

    /// What sending the payload comes to, once the upstream took the datagram
    /// or refused it: the payload counts as a whole.
    pub fn sent(&self, buf_len: usize, outcome: Result<usize, String>) -> (r: Result<
        usize,
        SendError,
    >)
        ensures
            match outcome {
                Ok(_) => r == Ok::<usize, SendError>(buf_len),
                Err(message) => r == Err::<usize, SendError>(
                    SendError {
                        source: IoError { kind: ErrorKind::Other, message },
                        sock_addr: self.peer_addr,
                    },
                ),
            },
    {
        match outcome {
            Ok(_) => Ok(buf_len),
            Err(message) => Err(
                SendError { source: IoError::other(message), sock_addr: self.peer_addr },
            ),
        }
    }
}

/// Whether `body` is what the first proxy relays of the packet, and is what
/// the rest of the chain would be sent, sealed by the first proxy's key.
pub open spec fn strips_to<E: Fn(&[u8], &CryptoConfig) -> Result<Encrypted, IoError>>(
    cipher: E,
    layers: Seq<HopRequest>,
    headers: Seq<Vec<u8>>,
    flow_id: Seq<u8>,
    use_compact: bool,
    capacity: usize,
    too_large: Seq<char>,
    payload: Seq<u8>,
    packet: Seq<u8>,
    inner: Seq<u8>,
    body: Seq<u8>,
) -> bool {
    &&& packet == layer_prefix(flow_id, use_compact, headers[0]@) + body
    &&& seals_to(cipher, layers[0].payload_crypto, capacity, inner, Ok(body))
    &&& encodes_to(
        cipher,
        request_layers(layers.drop_first(), headers.drop_first(), flow_id, use_compact),
        capacity,
        too_large,
        payload,
        Ok(inner),
    )
}

/// A chain of proxies nests as many layers, all with the same flow identifier,
/// and each proxy strips one: behind the first front, and under the first
/// payload key, is the request that the rest of the chain would be sent.
pub proof fn each_proxy_strips_one_layer<
    E: Fn(&[u8], &CryptoConfig) -> Result<Encrypted, IoError>,
>(
    cipher: E,
    layers: Seq<HopRequest>,
    headers: Seq<Vec<u8>>,
    flow_id: Seq<u8>,
    use_compact: bool,
    capacity: usize,
    too_large: Seq<char>,
    payload: Seq<u8>,
    packet: Seq<u8>,
)
    requires
        layers.len() > 0,
        headers.len() == layers.len(),
        encodes_to(
            cipher,
            request_layers(layers, headers, flow_id, use_compact),
            capacity,
            too_large,
            payload,
            Ok(packet),
        ),
    ensures
        exists|inner: Seq<u8>, body: Seq<u8>| #[trigger]
            strips_to(
                cipher,
                layers,
                headers,
                flow_id,
                use_compact,
                capacity,
                too_large,
                payload,
                packet,
                inner,
                body,
            ),
{
    let all = request_layers(layers, headers, flow_id, use_compact);
    outermost_layer_is_the_first_proxys(cipher, all, capacity, too_large, payload, packet);
    let inner = choose|inner: Seq<u8>|
        {
            &&& #[trigger] encodes_to(
                cipher,
                all.drop_first(),
                capacity,
                too_large,
                payload,
                Ok(inner),
            )
            &&& wraps_to(cipher, all.first(), capacity, too_large, inner, Ok(packet))
        };
    assert(all.drop_first() =~= request_layers(
        layers.drop_first(),
        headers.drop_first(),
        flow_id,
        use_compact,
    ));
    let sealed = choose|sealed: Result<Seq<u8>, IoError>| #[trigger]
        seals_to(cipher, all.first().payload_crypto, capacity, inner, sealed) && match sealed {
            Err(e) => Ok::<Seq<u8>, IoError>(packet) == Err::<Seq<u8>, IoError>(e),
            Ok(body) => packet == all.first().prefix + body,
        };
    let body = sealed->Ok_0;
    assert(strips_to(
        cipher,
        layers,
        headers,
        flow_id,
        use_compact,
        capacity,
        too_large,
        payload,
        packet,
        inner,
        body,
    ));
}

/// The flow identifier in the front of a datagram.
pub open spec fn flow_of(route: UdpRequestRoute) -> Seq<u8> {
    match route {
        UdpRequestRoute::Routed { flow_id, .. } => flow_id@,
        UdpRequestRoute::Compact { flow_id } => flow_id@,
    }
}

/// Decoding the front of a request takes off exactly the front: as long as the
/// header reader takes the whole header.
pub proof fn front_comes_off_whole<
    H: Fn(&[u8]) -> Result<(Option<UpstreamAddr>, usize), CodecError>,
>(
    read_header: H,
    header: Seq<u8>,
    flow_id: UdpFlowId,
    use_compact: bool,
    body: Seq<u8>,
    packet: Seq<u8>,
    decoded: Result<(UdpRequestRoute, usize), CodecError>,
)
    requires
        flow_id@.len() == UDP_FLOW_ID_LEN,
        packet == layer_prefix(flow_id@, use_compact, header) + body,
        forall|out: Result<(Option<UpstreamAddr>, usize), CodecError>| #[trigger]
            reads_request_header(read_header, header + body, out) ==> (out matches Ok((_, n)) && n
                == header.len()),
        decodes_to(read_header, packet, decoded),
    ensures
        ({
            &&& decoded matches Ok((route, n))
            &&& flow_of(route) == flow_id@
            &&& packet.subrange(n as int, packet.len() as int) == body
        }),
{
    if use_compact {
        crate::route_header::udp::compact_request_round_trip(read_header, flow_id, body, decoded);
    } else {
        let prefix = request_prefix(ROUTED_REQUEST, flow_id@);
        assert(packet =~= prefix + header + body);
        assert(packet.subrange(1, REQUEST_PREFIX_LEN as int) =~= flow_id@);
        assert(packet.subrange(REQUEST_PREFIX_LEN as int, packet.len() as int) =~= header
            + body);
        assert(packet.subrange(
            REQUEST_PREFIX_LEN + header.len(),
            packet.len() as int,
        ) =~= body);
    }
}

/// A proxy that takes the front off a request, and its own payload key if it
/// has one, is left with exactly what the rest of the chain would be sent: as
/// long as its header reader takes the whole header, and the cipher reads back
/// what it wrote.
pub proof fn proxy_recovers_the_next_request<
    E: Fn(&[u8], &CryptoConfig) -> Result<Encrypted, IoError>,
    D: Fn(&[u8], &CryptoConfig, usize) -> Result<Vec<u8>, IoError>,
    H: Fn(&[u8]) -> Result<(Option<UpstreamAddr>, usize), CodecError>,
>(
    cipher: E,
    decipher: D,
    read_header: H,
    layers: Seq<HopRequest>,
    headers: Seq<Vec<u8>>,
    flow_id: UdpFlowId,
    use_compact: bool,
    capacity: usize,
    too_large: Seq<char>,
    payload: Seq<u8>,
    packet: Seq<u8>,
    inner: Seq<u8>,
    body: Seq<u8>,
    decoded: Result<(UdpRequestRoute, usize), CodecError>,
    opened: Option<Seq<u8>>,
)
    requires
        flow_id@.len() == UDP_FLOW_ID_LEN,
        strips_to(
            cipher,
            layers,
            headers,
            flow_id@,
            use_compact,
            capacity,
            too_large,
            payload,
            packet,
            inner,
            body,
        ),
        forall|out: Result<(Option<UpstreamAddr>, usize), CodecError>| #[trigger]
            reads_request_header(read_header, headers[0]@ + body, out) ==> (out matches Ok((_, n))
                && n == headers[0]@.len()),
        decodes_to(read_header, packet, decoded),
        layers[0].payload_crypto matches Some(crypto) ==> reads_back(
            cipher,
            decipher,
            inner,
            crypto,
        ) && transforms_to(
            cipher,
            decipher,
            body,
            capacity,
            crypto,
            EncryptionDirection::Decrypt,
            opened,
        ),
    ensures
        ({
            &&& decoded matches Ok((route, n))
            &&& flow_of(route) == flow_id@
            &&& packet.subrange(n as int, packet.len() as int) == body
        }),
        match layers[0].payload_crypto {
            Some(_) => opened == Some(inner),
            None => body == inner,
        },
{
    front_comes_off_whole(
        read_header,
        headers[0]@,
        flow_id,
        use_compact,
        body,
        packet,
        decoded,
    );
    if layers[0].payload_crypto is Some {
        let crypto = layers[0].payload_crypto->0;
        assert(direction_yields(
            cipher,
            decipher,
            inner,
            capacity,
            crypto,
            EncryptionDirection::Encrypt,
            Ok(body),
        ));
        packet_round_trips_exactly_if_it_fits(
            cipher,
            decipher,
            inner,
            capacity,
            crypto,
            Some(body),
            opened,
        );
    }
}

/// Whether a proxy may take `step` out of a packet: what is behind the front,
/// opened with the proxy's payload key if it has one. Without a step the packet
/// is not relayed.
pub open spec fn proxy_takes_out<
    E: Fn(&[u8], &CryptoConfig) -> Result<Encrypted, IoError>,
    D: Fn(&[u8], &CryptoConfig, usize) -> Result<Vec<u8>, IoError>,
    H: Fn(&[u8]) -> Result<(Option<UpstreamAddr>, usize), CodecError>,
>(
    cipher: E,
    decipher: D,
    read_header: H,
    payload_crypto: Option<CryptoConfig>,
    capacity: usize,
    packet: Seq<u8>,
    decoded: Result<(UdpRequestRoute, usize), CodecError>,
    step: Option<Seq<u8>>,
) -> bool {
    &&& decodes_to(read_header, packet, decoded)
    &&& match decoded {
        Err(_) => step is None,
        Ok((_, n)) => {
            let body = packet.subrange(n as int, packet.len() as int);
            match payload_crypto {
                None => step == Some(body),
                Some(crypto) => transforms_to(
                    cipher,
                    decipher,
                    body,
                    capacity,
                    crypto,
                    EncryptionDirection::Decrypt,
                    step,
                ),
            }
        },
    }
}

/// Whether the destination may get `delivered` of a packet that the proxies
/// relay in turn. `read_headers` are their header readers.
pub open spec fn chain_delivers<
    E: Fn(&[u8], &CryptoConfig) -> Result<Encrypted, IoError>,
    D: Fn(&[u8], &CryptoConfig, usize) -> Result<Vec<u8>, IoError>,
    H: Fn(&[u8]) -> Result<(Option<UpstreamAddr>, usize), CodecError>,
>(
    cipher: E,
    decipher: D,
    read_headers: Seq<H>,
    layers: Seq<HopRequest>,
    capacity: usize,
    packet: Seq<u8>,
    delivered: Option<Seq<u8>>,
) -> bool
    decreases layers.len(),
{
    if layers.len() == 0 {
        delivered == Some(packet)
    } else {
        exists|decoded: Result<(UdpRequestRoute, usize), CodecError>, step: Option<Seq<u8>>|
            {
                &&& #[trigger] proxy_takes_out(
                    cipher,
                    decipher,
                    read_headers[0],
                    layers[0].payload_crypto,
                    capacity,
                    packet,
                    decoded,
                    step,
                )
                &&& match step {
                    None => delivered is None,
                    Some(inner) => chain_delivers(
                        cipher,
                        decipher,
                        read_headers.drop_first(),
                        layers.drop_first(),
                        capacity,
                        inner,
                        delivered,
                    ),
                }
            }
    }
}

/// Whether the reader takes exactly the header off, whatever follows it.
pub open spec fn reads_whole_header<
    H: Fn(&[u8]) -> Result<(Option<UpstreamAddr>, usize), CodecError>,
>(read_header: H, header: Seq<u8>) -> bool {
    forall|rest: Seq<u8>, out: Result<(Option<UpstreamAddr>, usize), CodecError>| #[trigger]
        reads_request_header(read_header, header + rest, out) ==> (out matches Ok((_, n)) && n
            == header.len())
}

/// However long the chain, the proxies hand the payload of a request to the
/// destination, each having removed exactly its own layer: as long as every
/// proxy's header reader takes the whole header, and the cipher reads back what
/// it wrote.
pub proof fn request_reaches_the_destination<
    E: Fn(&[u8], &CryptoConfig) -> Result<Encrypted, IoError>,
    D: Fn(&[u8], &CryptoConfig, usize) -> Result<Vec<u8>, IoError>,
    H: Fn(&[u8]) -> Result<(Option<UpstreamAddr>, usize), CodecError>,
>(
    cipher: E,
    decipher: D,
    read_headers: Seq<H>,
    layers: Seq<HopRequest>,
    headers: Seq<Vec<u8>>,
    flow_id: UdpFlowId,
    use_compact: bool,
    capacity: usize,
    too_large: Seq<char>,
    payload: Seq<u8>,
    packet: Seq<u8>,
    delivered: Option<Seq<u8>>,
)
    requires
        flow_id@.len() == UDP_FLOW_ID_LEN,
        headers.len() == layers.len(),
        read_headers.len() == layers.len(),
        encodes_to(
            cipher,
            request_layers(layers, headers, flow_id@, use_compact),
            capacity,
            too_large,
            payload,
            Ok(packet),
        ),
        forall|i: int|
            0 <= i < layers.len() ==> reads_whole_header(
                #[trigger] read_headers[i],
                headers[i]@,
            ),
        forall|p: Seq<u8>, crypto: CryptoConfig| #[trigger]
            reads_back(cipher, decipher, p, crypto),
        chain_delivers(
            cipher,
            decipher,
            read_headers,
            layers,
            capacity,
            packet,
            delivered,
        ),
    ensures
        delivered == Some(payload),
    decreases layers.len(),
{
    if layers.len() > 0 {
        each_proxy_strips_one_layer(
            cipher,
            layers,
            headers,
            flow_id@,
            use_compact,
            capacity,
            too_large,
            payload,
            packet,
        );
        let (inner, body) = choose|inner: Seq<u8>, body: Seq<u8>| #[trigger]
            strips_to(
                cipher,
                layers,
                headers,
                flow_id@,
                use_compact,
                capacity,
                too_large,
                payload,
                packet,
                inner,
                body,
            );
        let (decoded, step) = choose|
            decoded: Result<(UdpRequestRoute, usize), CodecError>,
            step: Option<Seq<u8>>,
        |
            {
                &&& #[trigger] proxy_takes_out(
                    cipher,
                    decipher,
                    read_headers[0],
                    layers[0].payload_crypto,
                    capacity,
                    packet,
                    decoded,
                    step,
                )
                &&& match step {
                    None => delivered is None,
                    Some(inner) => chain_delivers(
                        cipher,
                        decipher,
                        read_headers.drop_first(),
                        layers.drop_first(),
                        capacity,
                        inner,
                        delivered,
                    ),
                }
            };
        assert(reads_whole_header(read_headers[0], headers[0]@));
        lemma_proxy_takes_out_the_inner_request(
            cipher,
            decipher,
            read_headers[0],
            layers,
            headers,
            flow_id,
            use_compact,
            capacity,
            too_large,
            payload,
            packet,
            inner,
            body,
            decoded,
            step,
        );
        assert forall|i: int| 0 <= i < layers.drop_first().len() implies reads_whole_header(
            #[trigger] read_headers.drop_first()[i],
            headers.drop_first()[i]@,
        ) by {
            assert(reads_whole_header(read_headers[i + 1], headers[i + 1]@));
        }
        request_reaches_the_destination(
            cipher,
            decipher,
            read_headers.drop_first(),
            layers.drop_first(),
            headers.drop_first(),
            flow_id,
            use_compact,
            capacity,
            too_large,
            payload,
            inner,
            delivered,
        );
    }
}

proof fn lemma_proxy_takes_out_the_inner_request<
    E: Fn(&[u8], &CryptoConfig) -> Result<Encrypted, IoError>,
    D: Fn(&[u8], &CryptoConfig, usize) -> Result<Vec<u8>, IoError>,
    H: Fn(&[u8]) -> Result<(Option<UpstreamAddr>, usize), CodecError>,
>(
    cipher: E,
    decipher: D,
    read_header: H,
    layers: Seq<HopRequest>,
    headers: Seq<Vec<u8>>,
    flow_id: UdpFlowId,
    use_compact: bool,
    capacity: usize,
    too_large: Seq<char>,
    payload: Seq<u8>,
    packet: Seq<u8>,
    inner: Seq<u8>,
    body: Seq<u8>,
    decoded: Result<(UdpRequestRoute, usize), CodecError>,
    step: Option<Seq<u8>>,
)
    requires
        flow_id@.len() == UDP_FLOW_ID_LEN,
        strips_to(
            cipher,
            layers,
            headers,
            flow_id@,
            use_compact,
            capacity,
            too_large,
            payload,
            packet,
            inner,
            body,
        ),
        reads_whole_header(read_header, headers[0]@),
        forall|p: Seq<u8>, crypto: CryptoConfig| #[trigger]
            reads_back(cipher, decipher, p, crypto),
        proxy_takes_out(
            cipher,
            decipher,
            read_header,
            layers[0].payload_crypto,
            capacity,
            packet,
            decoded,
            step,
        ),
    ensures
        step == Some(inner),
{
    front_comes_off_whole(
        read_header,
        headers[0]@,
        flow_id,
        use_compact,
        body,
        packet,
        decoded,
    );
    proxy_recovers_the_next_request(
        cipher,
        decipher,
        read_header,
        layers,
        headers,
        flow_id,
        use_compact,
        capacity,
        too_large,
        payload,
        packet,
        inner,
        body,
        decoded,
        step,
    );
}

/// Receiving from the upstream failed.
#[derive(Debug)]
pub enum RecvError {
    RecvUpstream { source: IoError, sock_addr: Option<SocketAddr> },
    Header(CodecError),
    PayloadCrypto { source: IoError, addr: InternetAddr },
    Response { err: RouteError, addr: InternetAddr },
}

/// The half that receives.
#[derive(Debug)]
pub struct UdpProxyClientReadHalf {
    pub local_addr: Option<SocketAddr>,
    pub peer_addr: Option<SocketAddr>,
    pub proxies: Vec<HopConfig>,
}

/// The error that a caller sees for a response that could not be peeled.
pub open spec fn recv_error_of(nodes: Seq<HopConfig>, error: PeelError, r: RecvError) -> bool {
    match error {
        PeelError::Header(e) => r == RecvError::Header(e),
        PeelError::Payload { source, hop } => r matches RecvError::PayloadCrypto { source: s, addr }
            && s == source && addr@ == nodes[hop as int].address@.address,
        PeelError::Response { err, hop } => r matches RecvError::Response { err: e, addr } && e
            == err && addr@ == nodes[hop as int].address@.address,
    }
}

impl UdpProxyClientReadHalf {
    /// The payload of a response, cut to the caller's buffer. Decoding every
    /// layer confirms the route.
    pub fn decode<
        R: Fn(&[u8], &CryptoConfig) -> Result<(RouteResponse, usize), CodecError>,
        D: Fn(&[u8], &CryptoConfig, usize) -> Result<Vec<u8>, IoError>,
    >(
        &self,
        packet: &[u8],
        buf_len: usize,
        capacity: usize,
        read: &R,
        decipher: &D,
        confirmation: &mut RouteConfirmation,
        now: Instant,
        wall_now: SystemTime,
    ) -> (r: Result<Vec<u8>, RecvError>)
        requires
            forall|b: &[u8], k: &CryptoConfig| call_requires(*read, (b, k)),
            forall|b: &[u8], k: &CryptoConfig, response: RouteResponse, n: usize| #[trigger]
                call_ensures(*read, (b, k), Ok((response, n))) ==> n <= b@.len(),
            forall|p: &[u8], k: &CryptoConfig, len: usize| call_requires(*decipher, (p, k, len)),
        ensures
            exists|peeled: Result<Seq<u8>, PeelError>| #[trigger]
                peels_to(
                    *read,
                    *decipher,
                    self.proxies@,
                    true,
                    capacity,
                    0,
                    packet@,
                    peeled,
                ) && match peeled {
                    Ok(payload) => r matches Ok(bytes) && bytes@ == (if payload.len() <= buf_len {
                        payload
                    } else {
                        payload.take(buf_len as int)
                    }),
                    Err(error) => r matches Err(e) && recv_error_of(self.proxies@, error, e),
                },
            r is Ok && self.proxies@.len() > 0 ==> final(confirmation).last_response == Some(
                ConfirmationTime { monotonic: now, wall: wall_now },
            ),
            r is Err || self.proxies@.len() == 0 ==> *final(confirmation) == *old(confirmation),
    {
        let peeled = peel_response(
            packet,
            self.proxies.as_slice(),
            true,
            capacity,
            read,
            decipher,
        );
        match peeled {
            Err(PeelError::Header(e)) => Err(RecvError::Header(e)),
            Err(PeelError::Payload { source, hop }) => {
                let addr = self.proxies[hop].address.address.clone();
                Err(RecvError::PayloadCrypto { source, addr })
            },
            Err(PeelError::Response { err, hop }) => {
                let addr = self.proxies[hop].address.address.clone();
                Err(RecvError::Response { err, addr })
            },
            Ok(payload) => {
                let mut payload: Vec<u8> = payload;
                payload.truncate(buf_len);
                if self.proxies.len() > 0 {
                    confirmation.confirm(now, wall_now);
                }
                Ok(payload)
            },
        }
    }

    /// The error of a receive that brought no datagram.
    pub fn recv_failed(&self, message: String) -> (r: RecvError)
        ensures
            r == (RecvError::RecvUpstream {
                source: IoError { kind: ErrorKind::Other, message },
                sock_addr: self.peer_addr,
            }),
    {
        RecvError::RecvUpstream { source: IoError::other(message), sock_addr: self.peer_addr }
    }

    pub fn local_addr(&self) -> (r: Option<SocketAddr>)
        ensures
            r == self.local_addr,
    {
        self.local_addr
    }
}

/// The local and the remote end of a connection, as far as it has socket
/// addresses.
#[derive(Debug, Clone, Copy)]
pub struct ConnectionEnds {
    pub local_addr: Option<SocketAddr>,
    pub peer_addr: Option<SocketAddr>,
}

/// Why a flow could not be set up.
#[derive(Debug)]
pub enum EstablishError {
    ResolveDestination { source: IoError, addr: InternetAddr },
    ConnectDestination { source: IoError, addr: InternetAddr, sock_addr: SocketAddr },
    ConnectFirstProxy { source: IoError, proxy: RouteAddr },
}

/// Both halves of a flow, and the host that its datagrams go to first.
#[derive(Debug)]
pub struct UdpProxyClient {
    pub write: UdpProxyClientWriteHalf,
    pub read: UdpProxyClientReadHalf,
    pub upstream_addr: InternetAddr,
}

/// How to set up a flow: straight to the destination if there is no proxy, to
/// the first proxy otherwise.
#[derive(Debug)]
pub enum UdpEstablish {
    ResolveDestination(DirectFlow),
    ConnectFirstProxy(ProxiedFlow),
}

/// A flow without proxies, whose destination is still to be looked up.
#[derive(Debug)]
pub struct DirectFlow {
    pub destination: InternetAddr,
    pub flow_id: UdpFlowId,
}

/// A flow without proxies, still to be connected.
#[derive(Debug)]
pub struct ResolvedFlow {
    pub destination: InternetAddr,
    pub sock_addr: SocketAddr,
    pub flow_id: UdpFlowId,
}

/// A flow through proxies, still to be connected to the first of them.
#[derive(Debug)]
pub struct ProxiedFlow {
    pub proxies: Vec<HopConfig>,
    pub destination: InternetAddr,
    pub flow_id: UdpFlowId,
}

impl ProxiedFlow {
    pub open spec fn wf(self) -> bool {
        self.proxies@.len() > 0
    }
}

impl UdpEstablish {
    /// Starts a flow with a fresh identifier.
    pub fn start(proxies: Vec<HopConfig>, destination: InternetAddr) -> (r: Self)
        ensures
            match r {
                UdpEstablish::ResolveDestination(flow) => proxies@.len() == 0 && flow.destination
                    == destination,
                UdpEstablish::ConnectFirstProxy(flow) => flow.wf() && flow.proxies == proxies
                    && flow.destination == destination,
            },
    {
        let flow_id = UdpFlowId::random();
        if proxies.len() == 0 {
            UdpEstablish::ResolveDestination(DirectFlow { destination, flow_id })
        } else {
            UdpEstablish::ConnectFirstProxy(ProxiedFlow { proxies, destination, flow_id })
        }
    }
}

impl DirectFlow {
    /// Goes on with the first address that the destination resolved to.
    pub fn resolved(self, outcome: Result<SocketAddr, IoError>) -> (r: Result<
        ResolvedFlow,
        EstablishError,
    >)
        ensures
            match outcome {
                Ok(sock_addr) => r == Ok::<_, EstablishError>(
                    ResolvedFlow {
                        destination: self.destination,
                        sock_addr,
                        flow_id: self.flow_id,
                    },
                ),
                Err(source) => r == Err::<ResolvedFlow, _>(
                    EstablishError::ResolveDestination { source, addr: self.destination },
                ),
            },
    {
        match outcome {
            Ok(sock_addr) => Ok(
                ResolvedFlow { destination: self.destination, sock_addr, flow_id: self.flow_id },
            ),
            Err(source) => Err(
                EstablishError::ResolveDestination { source, addr: self.destination },
            ),
        }
    }
}

impl ResolvedFlow {
    /// The flow itself, once the socket is connected: its datagrams carry the
    /// bare payload.
    pub fn connected(self, outcome: Result<ConnectionEnds, IoError>) -> (r: Result<
        UdpProxyClient,
        EstablishError,
    >)
        ensures
            match outcome {
                Ok(ends) => {
                    &&& r matches Ok(client)
                    &&& client.write.request_layers@.len() == 0
                    &&& client.write.flow_id == self.flow_id
                    &&& client.write.peer_addr == ends.peer_addr
                    &&& client.read.proxies@.len() == 0
                    &&& client.read.local_addr == ends.local_addr
                    &&& client.read.peer_addr == ends.peer_addr
                    &&& client.upstream_addr == self.destination
                },
                Err(source) => r == Err::<UdpProxyClient, _>(
                    EstablishError::ConnectDestination {
                        source,
                        addr: self.destination,
                        sock_addr: self.sock_addr,
                    },
                ),
            },
    {
        match outcome {
            Ok(ends) => Ok(
                UdpProxyClient {
                    write: UdpProxyClientWriteHalf {
                        peer_addr: ends.peer_addr,
                        request_layers: Vec::new(),
                        flow_id: self.flow_id,
                    },
                    read: UdpProxyClientReadHalf {
                        local_addr: ends.local_addr,
                        peer_addr: ends.peer_addr,
                        proxies: Vec::new(),
                    },
                    upstream_addr: self.destination,
                },
            ),
            Err(source) => Err(
                EstablishError::ConnectDestination {
                    source,
                    addr: self.destination,
                    sock_addr: self.sock_addr,
                },
            ),
        }
    }
}

impl ProxiedFlow {
    /// The route to the first proxy.
    pub fn first_proxy(&self) -> (r: &RouteAddr)
        requires
            self.wf(),
        ensures
            *r == self.proxies@[0].address,
    {
        &self.proxies[0].address
    }

    /// The flow itself, once the first proxy is connected.
    pub fn connected(self, outcome: Result<ConnectionEnds, IoError>) -> (r: Result<
        UdpProxyClient,
        EstablishError,
    >)
        requires
            self.wf(),
        ensures
            match outcome {
                Ok(ends) => {
                    &&& r matches Ok(client)
                    &&& requests_lead_to(
                        client.write.request_layers@,
                        self.proxies@,
                        Some(
                            RouteAddrView {
                                address: self.destination@,
                                protocol: UDP_PROTOCOL@,
                            },
                        ),
                    )
                    &&& client.write.flow_id == self.flow_id
                    &&& client.write.peer_addr == ends.peer_addr
                    &&& client.read.proxies == self.proxies
                    &&& client.read.local_addr == ends.local_addr
                    &&& client.read.peer_addr == ends.peer_addr
                    &&& client.upstream_addr@ == self.proxies@[0].address@.address
                },
                Err(source) => r matches Err(EstablishError::ConnectFirstProxy { source: s, proxy })
                    && s == source && proxy@ == self.proxies@[0].address@,
            },
    {
        let proxy_addr = self.proxies[0].address.clone();
        let ends = match outcome {
            Ok(ends) => ends,
            Err(source) => {
                return Err(EstablishError::ConnectFirstProxy { source, proxy: proxy_addr });
            },
        };
        let request_layers = chain_requests(
            self.proxies.as_slice(),
            Some(RouteAddr::udp(self.destination)),
        );
        Ok(
            UdpProxyClient {
                write: UdpProxyClientWriteHalf {
                    peer_addr: ends.peer_addr,
                    request_layers,
                    flow_id: self.flow_id,
                },
                read: UdpProxyClientReadHalf {
                    local_addr: ends.local_addr,
                    peer_addr: ends.peer_addr,
                    proxies: self.proxies,
                },
                upstream_addr: proxy_addr.address,
            },
        )
    }
}

impl UdpProxyClient {
    pub fn into_split(self) -> (r: (UdpProxyClientReadHalf, UdpProxyClientWriteHalf))
        ensures
            r == (self.read, self.write),
    {
        (self.read, self.write)
    }

    pub fn remote_addr(&self) -> (r: &InternetAddr)
        ensures
            *r == self.upstream_addr,
    {
        &self.upstream_addr
    }
}

/// A route is fresh exactly while less than the flow timeout has passed since
/// its confirmation by either clock, and the wall clock was not set back. The
/// monotonic clock does not go back: if it seems to, no time has passed.
pub proof fn a_route_is_fresh_while_both_clocks_say_so(
    confirmed: ConfirmationTime,
    now: Instant,
    wall_now: SystemTime,
    flow_timeout: Duration,
    passed: int,
)
    requires
        passed == (if now.nanos >= confirmed.monotonic.nanos {
            now.nanos - confirmed.monotonic.nanos
        } else {
            0
        }),
    ensures
        (RouteConfirmation { last_response: Some(confirmed) }).fresh(now, wall_now, flow_timeout)
            <==> passed < flow_timeout.nanos && confirmed.wall.nanos <= wall_now.nanos
            && wall_now.nanos - confirmed.wall.nanos < flow_timeout.nanos,
{
}

/// What goes to the first proxy is laid out in the open: a byte that tells the
/// kind, one for compact and zero for routed, the flow's identifier, the header
/// if it is routed, and behind these what goes to the rest of the chain, as it
/// is or, if the proxy has a payload key, as the cipher writes it under the key.
pub proof fn a_request_is_kind_flow_header_and_the_rest<
    E: Fn(&[u8], &CryptoConfig) -> Result<Encrypted, IoError>,
>(
    cipher: E,
    layers: Seq<HopRequest>,
    headers: Seq<Vec<u8>>,
    flow_id: Seq<u8>,
    use_compact: bool,
    capacity: usize,
    too_large: Seq<char>,
    payload: Seq<u8>,
    packet: Seq<u8>,
    front: Seq<u8>,
)
    requires
        headers.len() == layers.len(),
        front == (if use_compact {
            seq![1u8] + flow_id
        } else {
            seq![0u8] + flow_id + headers[0]@
        }),
        encodes_to(
            cipher,
            request_layers(layers, headers, flow_id, use_compact),
            capacity,
            too_large,
            payload,
            Ok(packet),
        ),
    ensures
        layers.len() == 0 ==> packet == payload,
        layers.len() > 0 ==> exists|inner: Seq<u8>, body: Seq<u8>|
            {
                &&& #[trigger] encodes_to(
                    cipher,
                    request_layers(layers.skip(1), headers.skip(1), flow_id, use_compact),
                    capacity,
                    too_large,
                    payload,
                    Ok(inner),
                )
                &&& packet == #[trigger] (front + body)
                &&& match layers[0].payload_crypto {
                    None => body == inner,
                    Some(crypto) => exists|p: &[u8], done: Encrypted|
                        {
                            &&& #[trigger] call_ensures(cipher, (p, &crypto), Ok(done))
                            &&& p@ == inner
                            &&& done.consumed == inner.len()
                            &&& done.output@ == body
                        },
                }
            },
{
    let all = request_layers(layers, headers, flow_id, use_compact);
    a_layer_is_its_front_and_what_the_cipher_wrote(
        cipher,
        all,
        capacity,
        too_large,
        payload,
        packet,
    );
    if layers.len() > 0 {
        let (inner, body) = choose|inner: Seq<u8>, body: Seq<u8>|
            {
                &&& #[trigger] encodes_to(
                    cipher,
                    all.skip(1),
                    capacity,
                    too_large,
                    payload,
                    Ok(inner),
                )
                &&& packet == #[trigger] (all[0].prefix + body)
                &&& match all[0].payload_crypto {
                    None => body == inner,
                    Some(crypto) => exists|p: &[u8], done: Encrypted|
                        {
                            &&& #[trigger] call_ensures(cipher, (p, &crypto), Ok(done))
                            &&& p@ == inner
                            &&& done.consumed == inner.len()
                            &&& done.output@ == body
                        },
                }
            };
        assert(all.skip(1) =~= request_layers(
            layers.skip(1),
            headers.skip(1),
            flow_id,
            use_compact,
        ));
        assert(all[0].prefix =~= front);
        assert(packet == front + body);
    }
}

/// After some of the proxies have each taken out their layer, what is handed on
/// is what the rest of the chain would be sent: as long as the header readers
/// of these proxies take the whole header, and the cipher reads back what it
/// wrote.
pub proof fn the_proxies_on_the_way_hand_on_the_rest<
    E: Fn(&[u8], &CryptoConfig) -> Result<Encrypted, IoError>,
    D: Fn(&[u8], &CryptoConfig, usize) -> Result<Vec<u8>, IoError>,
    H: Fn(&[u8]) -> Result<(Option<UpstreamAddr>, usize), CodecError>,
>(
    cipher: E,
    decipher: D,
    read_headers: Seq<H>,
    layers: Seq<HopRequest>,
    headers: Seq<Vec<u8>>,
    flow_id: UdpFlowId,
    use_compact: bool,
    capacity: usize,
    too_large: Seq<char>,
    payload: Seq<u8>,
    packet: Seq<u8>,
    m: int,
    delivered: Option<Seq<u8>>,
)
    requires
        flow_id@.len() == UDP_FLOW_ID_LEN,
        headers.len() == layers.len(),
        0 <= m <= layers.len(),
        read_headers.len() == m,
        encodes_to(
            cipher,
            request_layers(layers, headers, flow_id@, use_compact),
            capacity,
            too_large,
            payload,
            Ok(packet),
        ),
        forall|i: int|
            0 <= i < m ==> reads_whole_header(#[trigger] read_headers[i], headers[i]@),
        forall|p: Seq<u8>, crypto: CryptoConfig| #[trigger]
            reads_back(cipher, decipher, p, crypto),
        chain_delivers(
            cipher,
            decipher,
            read_headers,
            layers.take(m),
            capacity,
            packet,
            delivered,
        ),
    ensures
        delivered matches Some(rest) && encodes_to(
            cipher,
            request_layers(layers.skip(m), headers.skip(m), flow_id@, use_compact),
            capacity,
            too_large,
            payload,
            Ok(rest),
        ),
    decreases m,
{
    let on_the_way = layers.take(m);
    if m == 0 {
        assert(layers.skip(0) =~= layers);
        assert(headers.skip(0) =~= headers);
    } else {
        assert(on_the_way[0] == layers[0]);
        each_proxy_strips_one_layer(
            cipher,
            layers,
            headers,
            flow_id@,
            use_compact,
            capacity,
            too_large,
            payload,
            packet,
        );
        let (inner, body) = choose|inner: Seq<u8>, body: Seq<u8>| #[trigger]
            strips_to(
                cipher,
                layers,
                headers,
                flow_id@,
                use_compact,
                capacity,
                too_large,
                payload,
                packet,
                inner,
                body,
            );
        let (decoded, step) = choose|
            decoded: Result<(UdpRequestRoute, usize), CodecError>,
            step: Option<Seq<u8>>,
        |
            {
                &&& #[trigger] proxy_takes_out(
                    cipher,
                    decipher,
                    read_headers[0],
                    on_the_way[0].payload_crypto,
                    capacity,
                    packet,
                    decoded,
                    step,
                )
                &&& match step {
                    None => delivered is None,
                    Some(inner) => chain_delivers(
                        cipher,
                        decipher,
                        read_headers.drop_first(),
                        on_the_way.drop_first(),
                        capacity,
                        inner,
                        delivered,
                    ),
                }
            };
        assert(reads_whole_header(read_headers[0], headers[0]@));
        lemma_proxy_takes_out_the_inner_request(
            cipher,
            decipher,
            read_headers[0],
            layers,
            headers,
            flow_id,
            use_compact,
            capacity,
            too_large,
            payload,
            packet,
            inner,
            body,
            decoded,
            step,
        );
        let later = layers.drop_first();
        let later_headers = headers.drop_first();
        assert(on_the_way.drop_first() =~= later.take(m - 1));
        assert forall|i: int| 0 <= i < m - 1 implies reads_whole_header(
            #[trigger] read_headers.drop_first()[i],
            later_headers[i]@,
        ) by {
            assert(reads_whole_header(read_headers[i + 1], headers[i + 1]@));
        }
        the_proxies_on_the_way_hand_on_the_rest(
            cipher,
            decipher,
            read_headers.drop_first(),
            later,
            later_headers,
            flow_id,
            use_compact,
            capacity,
            too_large,
            payload,
            inner,
            m - 1,
            delivered,
        );
        assert(later.skip(m - 1) =~= layers.skip(m));
        assert(later_headers.skip(m - 1) =~= headers.skip(m));
    }
}

/// The error of a response that a proxy spoiled names the address of that very
/// proxy, and says why.
pub proof fn a_receive_error_names_the_proxy(
    nodes: Seq<HopConfig>,
    hop: usize,
    source: IoError,
    err: RouteError,
    codec: CodecError,
    r: RecvError,
)
    ensures
        recv_error_of(nodes, PeelError::Payload { source, hop }, r) <==> exists|addr: InternetAddr|
            r == (RecvError::PayloadCrypto { source, addr }) && #[trigger] addr@
                == nodes[hop as int].address@.address,
        recv_error_of(nodes, PeelError::Response { err, hop }, r) <==> exists|addr: InternetAddr|
            r == (RecvError::Response { err, addr }) && #[trigger] addr@
                == nodes[hop as int].address@.address,
        recv_error_of(nodes, PeelError::Header(codec), r) <==> r == RecvError::Header(codec),
{
    if let RecvError::PayloadCrypto { addr, .. } = r {
        let view = addr@;
    }
    if let RecvError::Response { addr, .. } = r {
        let view = addr@;
    }
}

/// A flow through proxies has a proxy to go through.
pub proof fn a_proxied_flow_has_a_proxy(flow: ProxiedFlow)
    ensures
        flow.wf() <==> flow.proxies@.len() != 0,
{
}

} // verus!
