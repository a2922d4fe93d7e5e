//! Measuring the round trip of a datagram through a chain of proxies.
//!
//! A probe is an echo request: no destination stands behind the last proxy,
//! which answers itself. After the response the probe closes its flow.

use vstd::prelude::*;
use crate::addr::{InternetAddr, RouteAddr};
use crate::client::layers::{
    encode_layers, encodes_to, layers_view, payload_key, peel_response, peels_to, PeelError,
    RequestLayer, RequestLayerView,
};
use crate::client::udp::{
    a_request_is_kind_flow_header_and_the_rest, chain_delivers, each_proxy_strips_one_layer,
    reads_whole_header, request_layers, strips_to, the_proxies_on_the_way_hand_on_the_rest,
};
use crate::conn::{UdpFlowId, UpstreamAddr, UDP_FLOW_ID_LEN};
use crate::crypto::{reads_back, CryptoConfig, Encrypted};
use crate::io::{ErrorKind, IoError};
use crate::relay::udp::{is_udp_eof, AnyError, ShutdownOutcome};
use crate::route::conn_chain::{
    chain_requests, each_proxy_is_told_the_next, requests_lead_to, HopRequest,
};
use crate::route::hop_config::HopConfig;
use crate::route_header::udp::{request_prefix, ROUTED_REQUEST};
use crate::route_header::{CodecError, RouteError, RouteResponse};
use crate::time::{Duration, Instant};

verus! {

/// How long a probe waits for its flow's end: the time after which an idle
/// relay is given up, and a margin.
pub const FLOW_END_TIMEOUT_SECS: u64 = 15;

/// How the flow of a probe ended.
#[derive(Debug, Clone, Copy, PartialEq, Eq, Structural)]
pub enum ProbeFlowEnd {
    /// The flow is still being closed.
    Pending,
    /// No flow was opened: the chain is empty.
    NoFlow,
    /// The first hop cannot be told that nothing more comes, so no end can be
    /// seen; the flow is kept until its timeout.
    ShutdownUnsupported,
    /// The peer closed the flow at a datagram boundary.
    Eof,
    /// The end was waited for in vain.
    TimedOut,
}

/// Why a probe brought no round trip time.
#[derive(Debug)]
pub enum TraceError {
    Io(IoError),
    Header(CodecError),
    Response { err: RouteError, addr: InternetAddr },
}

/// What a probe has to do first.
#[derive(Debug)]
pub enum ProbeStart {
    /// There is no proxy to probe.
    Done(ProbeReport),
    /// Connect the first proxy.
    Connect(ProbeRequest),
}

/// The measured time, and how the flow stands.
#[derive(Debug, Clone, Copy, PartialEq, Eq, Structural)]
pub struct ProbeReport {
    pub rtt: Duration,
    pub end: ProbeFlowEnd,
    /// Whether the end of the flow is still to be waited for.
    pub observe: bool,
}

/// A probe that is about to send. The layers of its datagram bear one flow
/// identifier, as those of any flow do.
#[derive(Debug)]
pub struct ProbeRequest {
    pub proxies: Vec<HopConfig>,
    pub layers: Vec<HopRequest>,
    pub flow_id: UdpFlowId,
}

/// A probe that waits for its response.
#[derive(Debug)]
pub struct ProbeResponse {
    pub proxies: Vec<HopConfig>,
    pub start: Instant,
}

/// A probe that has its response and closes its flow.
#[derive(Debug)]
pub struct ProbeClose {
    pub rtt: Duration,
}

/// The layers of a probe, first proxy first. The last proxy's payload key is
/// left aside: it answers the probe itself.
pub open spec fn probe_layers(
    proxies: Seq<HopConfig>,
    headers: Seq<Vec<u8>>,
    flow_id: Seq<u8>,
) -> Seq<RequestLayerView> {
    Seq::new(
        proxies.len(),
        |i: int|
            RequestLayerView {
                prefix: request_prefix(ROUTED_REQUEST, flow_id) + headers[i]@,
                payload_crypto: payload_key(proxies, false, i),
            },
    )
}

impl ProbeRequest {
    /// One layer per proxy, leading to no destination.
    pub open spec fn wf(self) -> bool {
        &&& self.proxies@.len() > 0
        &&& requests_lead_to(self.layers@, self.proxies@, None)
    }
}

impl ProbeStart {
    /// Starts a probe of the chain.
    pub fn new(proxies: Vec<HopConfig>) -> (r: Self)
        ensures
            match r {
                ProbeStart::Done(report) => proxies@.len() == 0 && report == (ProbeReport {
                    rtt: Duration { nanos: 0 },
                    end: ProbeFlowEnd::NoFlow,
                    observe: false,
                }),
                ProbeStart::Connect(request) => request.wf() && request.proxies == proxies,
            },
    {
        if proxies.len() == 0 {
            return ProbeStart::Done(
                ProbeReport { rtt: Duration::zero(), end: ProbeFlowEnd::NoFlow, observe: false },
            );
        }
        let layers = chain_requests(proxies.as_slice(), None);
        ProbeStart::Connect(ProbeRequest { proxies, layers, flow_id: UdpFlowId::random() })
    }
}

impl ProbeRequest {
    /// The route to the first proxy.
    pub fn first_proxy(&self) -> (r: &RouteAddr)
        requires
            self.wf(),
        ensures
            *r == self.proxies@[0].address,
    {
        &self.proxies[0].address
    }

    /// The datagram of the probe. `headers` are the encrypted route headers,
    /// one per proxy.
    pub fn encode<E: Fn(&[u8], &CryptoConfig) -> Result<Encrypted, IoError>>(
        &self,
        headers: &[Vec<u8>],
        capacity: usize,
        cipher: &E,
    ) -> (r: Result<Vec<u8>, TraceError>)
        requires
            self.wf(),
            headers@.len() == self.proxies@.len(),
            forall|p: &[u8], k: &CryptoConfig| call_requires(*cipher, (p, k)),
        ensures
            match r {
                Ok(packet) => encodes_to(
                    *cipher,
                    probe_layers(self.proxies@, headers@, self.flow_id@),
                    capacity,
                    "encoded UDP probe packet is too large"@,
                    Seq::empty(),
                    Ok(packet@),
                ),
                Err(TraceError::Io(e)) => encodes_to(
                    *cipher,
                    probe_layers(self.proxies@, headers@, self.flow_id@),
                    capacity,
                    "encoded UDP probe packet is too large"@,
                    Seq::empty(),
                    Err(e),
                ),
                Err(_) => false,
            },
    {
        let ghost expected = probe_layers(self.proxies@, headers@, self.flow_id@);
        let mut layers: Vec<RequestLayer> = Vec::new();
        let mut i: usize = 0;
        while i < self.proxies.len()
            invariant
                i <= self.proxies@.len(),
                headers@.len() == self.proxies@.len(),
                layers@.len() == i,
                expected == probe_layers(self.proxies@, headers@, self.flow_id@),
                forall|j: int| 0 <= j < i ==> (#[trigger] layers@[j])@ == expected[j],
            decreases self.proxies@.len() - i,
        {
            let mut prefix: Vec<u8> = Vec::new();
            self.flow_id.write_routed(&mut prefix);
            prefix.extend_from_slice(headers[i].as_slice());
            assert(prefix@ =~= request_prefix(ROUTED_REQUEST, self.flow_id@)
                + headers@[i as int]@);
            let payload_crypto = if i + 1 < self.proxies.len() {
                self.proxies[i].payload_crypto
            } else {
                None
            };
            layers.push(RequestLayer { prefix, payload_crypto });
            i += 1;
        }
        assert(layers_view(layers@) =~= expected);
        let empty: Vec<u8> = Vec::new();
        assert(empty@ =~= Seq::<u8>::empty());
        match encode_layers(
            empty.as_slice(),
            layers.as_slice(),
            capacity,
            "encoded UDP probe packet is too large",
            cipher,
        ) {
            Ok(packet) => Ok(packet),
            Err(e) => Err(TraceError::Io(e)),
        }
    }

    /// Goes on once the datagram was sent, or not. `start` is the time just
    /// before it was.
    pub fn sent(self, start: Instant, outcome: Result<usize, String>) -> (r: Result<
        ProbeResponse,
        TraceError,
    >)
        ensures
            match outcome {
                Ok(_) => r == Ok::<_, TraceError>(ProbeResponse { proxies: self.proxies, start }),
                Err(message) => r == Err::<ProbeResponse, _>(
                    TraceError::Io(IoError { kind: ErrorKind::Other, message }),
                ),
            },
    {
        match outcome {
            Ok(_) => Ok(ProbeResponse { proxies: self.proxies, start }),
            Err(message) => Err(TraceError::Io(IoError::other(message))),
        }
    }
}

/// The error that a probe reports for a response that could not be peeled.
pub open spec fn trace_error_of(nodes: Seq<HopConfig>, error: PeelError, r: TraceError) -> bool {
    match error {
        PeelError::Header(e) => r == TraceError::Header(e),
        PeelError::Payload { source, .. } => r == TraceError::Io(source),
        PeelError::Response { err, hop } => r matches TraceError::Response { err: e, addr } && e
            == err && addr@ == nodes[hop as int].address@.address,
    }
}

/// The requests of a probe, the last proxy's payload key left aside.
pub open spec fn probe_requests(layers: Seq<HopRequest>) -> Seq<HopRequest> {
    layers.update(
        layers.len() - 1,
        HopRequest { payload_crypto: None, ..layers.last() },
    )
}

/// A probe nests a layer for each proxy as a routed request does, all with the
/// same flow identifier, and each proxy strips one.
pub proof fn each_proxy_strips_one_layer_of_a_probe<
    E: Fn(&[u8], &CryptoConfig) -> Result<Encrypted, IoError>,
>(
    cipher: E,
    request: ProbeRequest,
    headers: Seq<Vec<u8>>,
    capacity: usize,
    too_large: Seq<char>,
    packet: Seq<u8>,
)
    requires
        request.wf(),
        headers.len() == request.proxies@.len(),
        encodes_to(
            cipher,
            probe_layers(request.proxies@, headers, request.flow_id@),
            capacity,
            too_large,
            Seq::empty(),
            Ok(packet),
        ),
    ensures
        exists|inner: Seq<u8>, body: Seq<u8>| #[trigger]
            strips_to(
                cipher,
                probe_requests(request.layers@),
                headers,
                request.flow_id@,
                false,
                capacity,
                too_large,
                Seq::empty(),
                packet,
                inner,
                body,
            ),
{
    let sent = probe_requests(request.layers@);
    assert(probe_layers(request.proxies@, headers, request.flow_id@) =~= request_layers(
        sent,
        headers,
        request.flow_id@,
        false,
    ));
    each_proxy_strips_one_layer(
        cipher,
        sent,
        headers,
        request.flow_id@,
        false,
        capacity,
        too_large,
        Seq::empty(),
        packet,
    );
}

impl ProbeResponse {
    /// Goes on once the response came at `end`, or did not come. Every proxy
    /// must have answered that it relays; the payload is of no interest.
    pub fn received<
        R: Fn(&[u8], &CryptoConfig) -> Result<(RouteResponse, usize), CodecError>,
        D: Fn(&[u8], &CryptoConfig, usize) -> Result<Vec<u8>, IoError>,
    >(
        self,
        outcome: Result<Vec<u8>, String>,
        end: Instant,
        capacity: usize,
        read: &R,
        decipher: &D,
    ) -> (r: Result<ProbeClose, TraceError>)
        requires
            forall|b: &[u8], k: &CryptoConfig| call_requires(*read, (b, k)),
            forall|b: &[u8], k: &CryptoConfig, response: RouteResponse, n: usize| #[trigger]
                call_ensures(*read, (b, k), Ok((response, n))) ==> n <= b@.len(),
            forall|p: &[u8], k: &CryptoConfig, len: usize| call_requires(*decipher, (p, k, len)),
        ensures
            match outcome {
                Err(message) => r == Err::<ProbeClose, _>(
                    TraceError::Io(IoError { kind: ErrorKind::Other, message }),
                ),
                Ok(packet) => exists|peeled: Result<Seq<u8>, PeelError>| #[trigger]
                    peels_to(
                        *read,
                        *decipher,
                        self.proxies@,
                        false,
                        capacity,
                        0,
                        packet@,
                        peeled,
                    ) && match peeled {
                        Ok(_) => r matches Ok(close) && close.rtt.nanos == (if end.nanos
                            >= self.start.nanos {
                            end.nanos - self.start.nanos
                        } else {
                            0
                        }),
                        Err(error) => r matches Err(e) && trace_error_of(self.proxies@, error, e),
                    },
            },
    {
        let packet = match outcome {
            Ok(packet) => packet,
            Err(message) => {
                return Err(TraceError::Io(IoError::other(message)));
            },
        };
        match peel_response(
            packet.as_slice(),
            self.proxies.as_slice(),
            false,
            capacity,
            read,
            decipher,
        ) {
            Ok(_) => Ok(ProbeClose { rtt: end.duration_since(self.start) }),
            Err(PeelError::Header(e)) => Err(TraceError::Header(e)),
            Err(PeelError::Payload { source, .. }) => Err(TraceError::Io(source)),
            Err(PeelError::Response { err, hop }) => {
                let addr = self.proxies[hop].address.address.clone();
                Err(TraceError::Response { err, addr })
            },
        }
    }
}

impl ProbeClose {
    /// The report, once the probe shut down its write half or failed to. The
    /// end of the flow is waited for only where it can be seen.
    pub fn shut_down(self, outcome: Result<ShutdownOutcome, String>) -> (r: Result<
        ProbeReport,
        TraceError,
    >)
        ensures
            match outcome {
                Err(message) => r == Err::<ProbeReport, _>(
                    TraceError::Io(IoError { kind: ErrorKind::Other, message }),
                ),
                Ok(ShutdownOutcome::Propagated) => r == Ok::<_, TraceError>(
                    ProbeReport { rtt: self.rtt, end: ProbeFlowEnd::Pending, observe: true },
                ),
                Ok(ShutdownOutcome::Unsupported) => r == Ok::<_, TraceError>(
                    ProbeReport {
                        rtt: self.rtt,
                        end: ProbeFlowEnd::ShutdownUnsupported,
                        observe: false,
                    },
                ),
            },
    {
        match outcome {
            Err(message) => Err(TraceError::Io(IoError::other(message))),
            Ok(ShutdownOutcome::Propagated) => Ok(
                ProbeReport { rtt: self.rtt, end: ProbeFlowEnd::Pending, observe: true },
            ),
            Ok(ShutdownOutcome::Unsupported) => Ok(
                ProbeReport {
                    rtt: self.rtt,
                    end: ProbeFlowEnd::ShutdownUnsupported,
                    observe: false,
                },
            ),
        }
    }
}

/// Reads on until the flow's end: `None` for a datagram that came before it,
/// and otherwise whether the end was clean.
pub fn await_probe_flow_end(received: Result<usize, AnyError>) -> (r: Option<bool>)
    ensures
        match received {
            Ok(n) => r == (if n == 0 {
                Some(true)
            } else {
                None
            }),
            Err(error) => r == Some(error.spec_is_udp_eof()),
        },
{
    match received {
        Ok(n) => if n == 0 {
            Some(true)
        } else {
            None
        },
        Err(error) => Some(is_udp_eof(&error)),
    }
}

/// What the wait for a flow's end comes to: `None` if it took too long.
pub fn probe_flow_end(seen: Option<bool>) -> (r: ProbeFlowEnd)
    ensures
        r == (if seen == Some(true) {
            ProbeFlowEnd::Eof
        } else {
            ProbeFlowEnd::TimedOut
        }),
{
    match seen {
        Some(true) => ProbeFlowEnd::Eof,
        _ => ProbeFlowEnd::TimedOut,
    }
}

/// Makes tracers that share one context.
#[derive(Debug)]
pub struct UdpTracerBuilder<C> {
    pub context: C,
}

impl<C> UdpTracerBuilder<C> {
    pub fn new(context: C) -> (r: Self)
        ensures
            r.context == context,
    {
        UdpTracerBuilder { context }
    }
}

/// A probe reaches the last proxy of its chain: what the proxies before it hand
/// on, each having taken out its own layer under its own key, is a routed
/// datagram of the probe's flow with the last proxy's header, and nothing
/// behind it.
pub proof fn a_probe_reaches_the_last_proxy<
    E: Fn(&[u8], &CryptoConfig) -> Result<Encrypted, IoError>,
    D: Fn(&[u8], &CryptoConfig, usize) -> Result<Vec<u8>, IoError>,
    H: Fn(&[u8]) -> Result<(Option<UpstreamAddr>, usize), CodecError>,
>(
    cipher: E,
    decipher: D,
    read_headers: Seq<H>,
    request: ProbeRequest,
    headers: Seq<Vec<u8>>,
    capacity: usize,
    too_large: Seq<char>,
    packet: Seq<u8>,
    delivered: Option<Seq<u8>>,
)
    requires
        request.wf(),
        request.flow_id@.len() == UDP_FLOW_ID_LEN,
        headers.len() == request.proxies@.len(),
        read_headers.len() == headers.len() - 1,
        encodes_to(
            cipher,
            probe_layers(request.proxies@, headers, request.flow_id@),
            capacity,
            too_large,
            Seq::empty(),
            Ok(packet),
        ),
        forall|i: int|
            0 <= i < read_headers.len() ==> reads_whole_header(
                #[trigger] read_headers[i],
                headers[i]@,
            ),
        forall|p: Seq<u8>, crypto: CryptoConfig| #[trigger]
            reads_back(cipher, decipher, p, crypto),
        chain_delivers(
            cipher,
            decipher,
            read_headers,
            request.layers@.drop_last(),
            capacity,
            packet,
            delivered,
        ),
    ensures
        delivered == Some(seq![0u8] + request.flow_id@ + headers.last()@),
{
    let sent = probe_requests(request.layers@);
    let m = sent.len() - 1;
    assert(probe_layers(request.proxies@, headers, request.flow_id@) =~= request_layers(
        sent,
        headers,
        request.flow_id@,
        false,
    ));
    assert(sent.take(m) =~= request.layers@.drop_last());
    the_proxies_on_the_way_hand_on_the_rest(
        cipher,
        decipher,
        read_headers,
        sent,
        headers,
        request.flow_id,
        false,
        capacity,
        too_large,
        Seq::empty(),
        packet,
        m,
        delivered,
    );
    let last = sent.skip(m);
    let last_header = headers.skip(m);
    let front = seq![0u8] + request.flow_id@ + last_header[0]@;
    a_request_is_kind_flow_header_and_the_rest(
        cipher,
        last,
        last_header,
        request.flow_id@,
        false,
        capacity,
        too_large,
        Seq::empty(),
        delivered->0,
        front,
    );
    let (inner, body) = choose|inner: Seq<u8>, body: Seq<u8>|
        {
            &&& #[trigger] encodes_to(
                cipher,
                request_layers(last.skip(1), last_header.skip(1), request.flow_id@, false),
                capacity,
                too_large,
                Seq::empty(),
                Ok(inner),
            )
            &&& delivered->0 == #[trigger] (front + body)
            &&& body == inner
        };
    a_request_is_kind_flow_header_and_the_rest(
        cipher,
        last.skip(1),
        last_header.skip(1),
        request.flow_id@,
        false,
        capacity,
        too_large,
        Seq::empty(),
        inner,
        seq![0u8] + request.flow_id@ + last_header.skip(1)[0]@,
    );
    assert(delivered->0 =~= seq![0u8] + request.flow_id@ + headers.last()@);
}

/// A probe's error for a proxy that refused names the address of that proxy.
pub proof fn a_trace_error_names_the_proxy(
    nodes: Seq<HopConfig>,
    hop: usize,
    source: IoError,
    err: RouteError,
    codec: CodecError,
    r: TraceError,
)
    ensures
        trace_error_of(nodes, PeelError::Payload { source, hop }, r) <==> r == TraceError::Io(source),
        trace_error_of(nodes, PeelError::Response { err, hop }, r) <==> exists|addr: InternetAddr|
            r == (TraceError::Response { err, addr }) && #[trigger] addr@
                == nodes[hop as int].address@.address,
        trace_error_of(nodes, PeelError::Header(codec), r) <==> r == TraceError::Header(codec),
{
    if let TraceError::Response { addr, .. } = r {
        let view = addr@;
    }
}

/// A probe has a proxy to go through, tells each of them the next, and tells the
/// last of none.
pub proof fn a_probe_leads_to_no_destination(request: ProbeRequest, i: int)
    requires
        request.wf(),
        0 <= i < request.proxies@.len(),
    ensures
        request.proxies@.len() > 0,
        request.layers@.len() == request.proxies@.len(),
        i == request.proxies@.len() - 1 ==> request.layers@[i].request.upstream is None,
        i < request.proxies@.len() - 1 ==> (
        request.layers@[i].request.upstream matches Some(upstream) && upstream@
            == request.proxies@[i + 1].address@),
        request.layers@[i].header_crypto == request.proxies@[i].header_crypto,
{
    each_proxy_is_told_the_next(request.layers@, request.proxies@, None, i);
}

} // verus!
