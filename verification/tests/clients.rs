use proxy_common::addr::{InternetAddr, RouteAddr, SocketAddr};
use proxy_common::client::layers::{encode_layers, peel_response, PeelError, RequestLayer};
use proxy_common::client::stream::{
    first_hop, ConnectError, FirstHop, HandshakeAction, StreamEstablish, StreamEstablishError,
    StreamHandshake, StreamProbe, StreamProbeStart, TraceError as StreamTraceError,
};
use proxy_common::client::udp::{
    ConfirmationTime, ConnectionEnds, EstablishError, RecvError, RouteConfirmation, UdpEstablish,
    UdpProxyClientReadHalf, UdpProxyClientWriteHalf,
};
use proxy_common::client::udp_probe::{
    await_probe_flow_end, probe_flow_end, ProbeFlowEnd, ProbeReport, ProbeStart, TraceError,
};
use proxy_common::conn::{UdpFlowId, UpstreamAddr, UDP_FLOW_ID_LEN};
use proxy_common::crypto::{
    send_dyn, CryptoConfig, Encrypted, EncryptionDirection, X_NONCE_BYTES,
};
use proxy_common::io::{ErrorKind, IoError};
use proxy_common::relay::udp::{AnyError, ShutdownOutcome};
use proxy_common::route::conn_chain::{HopRequest, RouteRequest};
use proxy_common::route::hop_config::HopConfig;
use proxy_common::route_header::stream::PreambleError;
use proxy_common::route_header::udp::{decode_request_route, UdpRequestRoute};
use proxy_common::route_header::{CodecError, RouteError, RouteErrorKind, RouteResponse};
use proxy_common::time::{Duration, Instant, SystemTime};

const CAPACITY: usize = 2048;
const REQUEST_HEADER: &[u8] = b"<req>";

fn flow_timeout() -> Duration {
    Duration::from_secs(60)
}

fn sock(port: u16) -> SocketAddr {
    SocketAddr::V4 { ip: 0x7f00_0001, port }
}

fn internet(port: u16) -> InternetAddr {
    InternetAddr::SocketAddr(sock(port))
}

fn key(n: u8) -> CryptoConfig {
    CryptoConfig { key: [n; 32] }
}

fn hop(port: u16, payload_crypto: Option<CryptoConfig>) -> HopConfig {
    HopConfig {
        address: RouteAddr::udp(internet(port)),
        header_crypto: key(port as u8),
        payload_crypto,
    }
}

fn cipher(packet: &[u8], crypto: &CryptoConfig) -> Result<Encrypted, IoError> {
    let mut output = vec![0; X_NONCE_BYTES];
    output.extend(packet.iter().map(|b| b ^ crypto.key[0]));
    Ok(Encrypted { output, consumed: packet.len() })
}

fn decipher(packet: &[u8], crypto: &CryptoConfig, len: usize) -> Result<Vec<u8>, IoError> {
    Ok(packet[X_NONCE_BYTES..X_NONCE_BYTES + len].iter().map(|b| b ^ crypto.key[0]).collect())
}

fn read_request(buf: &[u8]) -> Result<(Option<UpstreamAddr>, usize), CodecError> {
    if buf.starts_with(REQUEST_HEADER) {
        return Ok((Some(UpstreamAddr(RouteAddr::udp(internet(9)))), REQUEST_HEADER.len()));
    }
    Err(CodecError::Rejected("not a request".to_owned()))
}

// A response header is the key's first byte and a verdict.
fn read_response(buf: &[u8], crypto: &CryptoConfig) -> Result<(RouteResponse, usize), CodecError> {
    if buf.len() < 2 || buf[0] != crypto.key[0] {
        return Err(CodecError::Rejected("not a response".to_owned()));
    }
    let result = match buf[1] {
        0 => Ok(()),
        1 => Err(RouteError { kind: RouteErrorKind::Io }),
        _ => Err(RouteError { kind: RouteErrorKind::Loopback }),
    };
    Ok((RouteResponse { result }, 2))
}

fn read_half(proxies: Vec<HopConfig>) -> UdpProxyClientReadHalf {
    UdpProxyClientReadHalf { local_addr: Some(sock(100)), peer_addr: Some(sock(200)), proxies }
}

fn now() -> Instant {
    Instant { nanos: 500_000_000_000 }
}

fn wall() -> SystemTime {
    SystemTime { nanos: 1_700_000_000_000_000_000 }
}

#[test]
fn a_response_longer_than_the_callers_buffer_is_capped_not_a_panic() {
    let read = read_half(vec![]);
    let mut confirmation = RouteConfirmation::new();
    let packet = vec![0xab; 65];
    let payload = read
        .decode(&packet, 64, CAPACITY, &read_response, &decipher, &mut confirmation, now(), wall())
        .unwrap();
    assert_eq!(payload.len(), 64, "a payload that does not fit must be capped");
    assert_eq!(payload, [0xab; 64]);
    assert!(confirmation.last_response.is_none(), "there is no route to confirm");
}

#[test]
fn a_valid_response_switches_later_requests_to_compact_form() {
    let flow_id = UdpFlowId::from_bytes([5; UDP_FLOW_ID_LEN]);
    let write = UdpProxyClientWriteHalf {
        peer_addr: Some(sock(200)),
        request_layers: vec![HopRequest {
            request: RouteRequest { upstream: Some(RouteAddr::udp(internet(9))) },
            header_crypto: key(7),
            payload_crypto: None,
        }],
        flow_id,
    };
    let read = read_half(vec![hop(7, None)]);
    let mut confirmation = RouteConfirmation::new();
    let headers = [REQUEST_HEADER.to_vec()];
    let send = |buf: &[u8], confirmation: &RouteConfirmation| -> (UdpRequestRoute, Vec<u8>) {
        let packet = write
            .encode(buf, &headers, confirmation, now(), wall(), flow_timeout(), CAPACITY, &cipher)
            .unwrap();
        let (route, position) = decode_request_route(&packet, &read_request).unwrap();
        (route, packet[position..].to_vec())
    };

    // (a) Before any response, requests are routed with the full header.
    let (route, payload) = send(b"first", &confirmation);
    match route {
        UdpRequestRoute::Routed { flow_id: id, .. } => assert_eq!(id, flow_id),
        other => panic!("expected a routed request, got {other:?}"),
    }
    assert_eq!(payload, b"first");

    // (b) A valid layered response confirms the route.
    let pong = read
        .decode(
            b"\x07\x00pong",
            64,
            CAPACITY,
            &read_response,
            &decipher,
            &mut confirmation,
            now(),
            wall(),
        )
        .unwrap();
    assert_eq!(pong, b"pong");

    // (c) Later requests switch to compact form on the same flow id.
    let (route, payload) = send(b"second", &confirmation);
    match route {
        UdpRequestRoute::Compact { flow_id: id } => assert_eq!(id, flow_id),
        other => panic!("expected a compact request, got {other:?}"),
    }
    assert_eq!(payload, b"second");

    // (d) Aging only the monotonic clock forces routed form again.
    let aged = Instant { nanos: now().nanos - flow_timeout().nanos };
    confirmation.last_response = Some(ConfirmationTime { monotonic: aged, wall: wall() });
    assert!(!confirmation.is_fresh(now(), wall(), flow_timeout()));
    let (route, payload) = send(b"third", &confirmation);
    match route {
        UdpRequestRoute::Routed { flow_id: id, .. } => assert_eq!(id, flow_id),
        other => panic!("expected a routed request after monotonic aging, got {other:?}"),
    }
    assert_eq!(payload, b"third");

    // (e) Aging only the wall clock also forces routed form again.
    let aged = SystemTime { nanos: wall().nanos - flow_timeout().nanos as i128 };
    confirmation.last_response = Some(ConfirmationTime { monotonic: now(), wall: aged });
    assert!(!confirmation.is_fresh(now(), wall(), flow_timeout()));
    let (route, payload) = send(b"fourth", &confirmation);
    match route {
        UdpRequestRoute::Routed { flow_id: id, .. } => assert_eq!(id, flow_id),
        other => panic!("expected a routed request after wall-clock aging, got {other:?}"),
    }
    assert_eq!(payload, b"fourth");
}

#[test]
fn a_wall_clock_that_was_set_back_ends_the_confirmation() {
    let mut confirmation = RouteConfirmation::new();
    assert!(!confirmation.is_fresh(now(), wall(), flow_timeout()));
    confirmation.confirm(now(), wall());
    assert!(confirmation.is_fresh(now(), wall(), flow_timeout()));
    let set_back = SystemTime { nanos: wall().nanos - 1 };
    assert!(!confirmation.is_fresh(now(), set_back, flow_timeout()));
}

#[test]
fn each_layer_is_the_next_proxys() {
    let layer = |prefix: &[u8], payload_crypto| RequestLayer {
        prefix: prefix.to_vec(),
        payload_crypto,
    };
    let plain = [layer(b"one", None), layer(b"two", None)];
    let packet = encode_layers(b"payload", &plain, CAPACITY, "too large", &cipher).unwrap();
    assert_eq!(packet, b"onetwopayload");

    let sealed = [layer(b"one", Some(key(3))), layer(b"two", None)];
    let packet = encode_layers(b"payload", &sealed, CAPACITY, "too large", &cipher).unwrap();
    assert_eq!(&packet[..3], b"one");
    let inner = decipher(&packet[3..], &key(3), packet.len() - 3 - X_NONCE_BYTES).unwrap();
    assert_eq!(inner, b"twopayload");

    let e = encode_layers(b"payload", &plain, 12, "too large", &cipher).unwrap_err();
    assert_eq!(e.message, "too large");
    assert_eq!(encode_layers(b"payload", &[], 0, "too large", &cipher).unwrap(), b"payload");
}

#[test]
fn a_request_that_is_too_large_names_its_peer() {
    let write = UdpProxyClientWriteHalf {
        peer_addr: Some(sock(200)),
        request_layers: vec![HopRequest {
            request: RouteRequest { upstream: None },
            header_crypto: key(7),
            payload_crypto: None,
        }],
        flow_id: UdpFlowId::from_bytes([5; UDP_FLOW_ID_LEN]),
    };
    let error = write
        .encode(
            &[0; 64],
            &[vec![0; 4]],
            &RouteConfirmation::new(),
            now(),
            wall(),
            flow_timeout(),
            64,
            &cipher,
        )
        .unwrap_err();
    assert_eq!(error.sock_addr, Some(sock(200)));
    assert_eq!(error.source.message, "encoded UDP proxy packet is too large");
    assert_eq!(write.sent(12, Ok(99)).unwrap(), 12);
    assert_eq!(write.sent(12, Err("gone".to_owned())).unwrap_err().source.message, "gone");
}

#[test]
fn a_response_is_peeled_hop_by_hop() {
    let hops = [hop(1, Some(key(40))), hop(2, None)];
    let mut inner = vec![2, 0];
    inner.extend_from_slice(b"pong");
    let mut packet = vec![1, 0];
    packet.extend(cipher(&inner, &key(40)).unwrap().output);
    let payload = peel_response(&packet, &hops, true, CAPACITY, &read_response, &decipher).unwrap();
    assert_eq!(payload, b"pong");

    let refused = peel_response(&[1, 2], &hops, true, CAPACITY, &read_response, &decipher);
    match refused {
        Err(PeelError::Response { err, hop }) => {
            assert_eq!(err.kind, RouteErrorKind::Loopback);
            assert_eq!(hop, 0);
        }
        other => panic!("expected a refusal, got {other:?}"),
    }
    let garbled = peel_response(&[1, 0, 9], &hops, true, CAPACITY, &read_response, &decipher);
    assert!(matches!(garbled, Err(PeelError::Payload { hop: 0, .. })), "{garbled:?}");
    let alien = peel_response(&[9, 0], &hops, true, CAPACITY, &read_response, &decipher);
    assert!(matches!(alien, Err(PeelError::Header(CodecError::Rejected(_)))));
}

#[test]
fn a_refused_response_names_the_proxy_and_confirms_nothing() {
    let read = read_half(vec![hop(7, None)]);
    let mut confirmation = RouteConfirmation::new();
    let mut decode = |packet: &[u8]| {
        read.decode(packet, 64, CAPACITY, &read_response, &decipher, &mut confirmation, now(), wall())
    };
    match decode(&[7, 1]) {
        Err(RecvError::Response { err, addr }) => {
            assert_eq!(err.kind, RouteErrorKind::Io);
            assert_eq!(addr, internet(7));
        }
        other => panic!("expected a refusal, got {other:?}"),
    }
    assert!(matches!(decode(&[1]), Err(RecvError::Header(_))));
    assert!(confirmation.last_response.is_none());
    match read.recv_failed("gone".to_owned()) {
        RecvError::RecvUpstream { source, sock_addr } => {
            assert_eq!(source.message, "gone");
            assert_eq!(sock_addr, Some(sock(200)));
        }
        other => panic!("expected a failed read, got {other:?}"),
    }
    assert_eq!(read.local_addr(), Some(sock(100)));
}

#[test]
fn a_flow_is_set_up_directly_or_through_its_first_proxy() {
    let ends = || ConnectionEnds { local_addr: Some(sock(100)), peer_addr: Some(sock(200)) };
    match UdpEstablish::start(vec![], internet(9)) {
        UdpEstablish::ResolveDestination(flow) => {
            let client = flow.resolved(Ok(sock(9))).unwrap().connected(Ok(ends())).unwrap();
            assert_eq!(client.remote_addr(), &internet(9));
            let (read, write) = client.into_split();
            assert_eq!(read.local_addr(), Some(sock(100)));
            assert!(write.request_layers.is_empty());
        }
        other => panic!("expected a direct flow, got {other:?}"),
    }
    match UdpEstablish::start(vec![hop(1, None), hop(2, None)], internet(9)) {
        UdpEstablish::ConnectFirstProxy(flow) => {
            assert_eq!(flow.first_proxy(), &RouteAddr::udp(internet(1)));
            let client = flow.connected(Ok(ends())).unwrap();
            let (read, write) = client.into_split();
            assert_eq!(read.proxies.len(), 2);
            assert_eq!(write.request_layers[0].request.upstream, Some(RouteAddr::udp(internet(2))));
            assert_eq!(write.request_layers[1].request.upstream, Some(RouteAddr::udp(internet(9))));
        }
        other => panic!("expected a proxied flow, got {other:?}"),
    }
}

#[test]
fn a_flow_that_cannot_be_set_up_says_where_it_stopped() {
    let lost = || IoError::new(ErrorKind::Other, "lost");
    let direct = || match UdpEstablish::start(vec![], internet(9)) {
        UdpEstablish::ResolveDestination(flow) => flow,
        other => panic!("expected a direct flow, got {other:?}"),
    };
    let e = direct().resolved(Err(lost())).unwrap_err();
    assert!(matches!(e, EstablishError::ResolveDestination { addr, .. } if addr == internet(9)));
    let e = direct().resolved(Ok(sock(9))).unwrap().connected(Err(lost())).unwrap_err();
    assert!(
        matches!(e, EstablishError::ConnectDestination { sock_addr, .. } if sock_addr == sock(9))
    );
    let e = match UdpEstablish::start(vec![hop(1, None)], internet(9)) {
        UdpEstablish::ConnectFirstProxy(flow) => flow.connected(Err(lost())).unwrap_err(),
        other => panic!("expected a proxied flow, got {other:?}"),
    };
    assert!(
        matches!(e, EstablishError::ConnectFirstProxy { proxy, .. } if proxy == RouteAddr::udp(internet(1)))
    );
}

#[test]
fn a_probe_of_no_proxy_takes_no_time() {
    match ProbeStart::new(vec![]) {
        ProbeStart::Done(report) => assert_eq!(
            report,
            ProbeReport { rtt: Duration::zero(), end: ProbeFlowEnd::NoFlow, observe: false }
        ),
        other => panic!("expected a report, got {other:?}"),
    }
    assert!(matches!(StreamProbe::start(&[]), StreamProbeStart::Done(rtt) if rtt == Duration::zero()));
}

#[test]
fn a_probe_measures_the_round_trip() {
    let request = match ProbeStart::new(vec![hop(1, Some(key(40))), hop(2, Some(key(41)))]) {
        ProbeStart::Connect(request) => request,
        other => panic!("expected a request, got {other:?}"),
    };
    assert_eq!(request.first_proxy(), &RouteAddr::udp(internet(1)));
    let headers = [REQUEST_HEADER.to_vec(), REQUEST_HEADER.to_vec()];
    let packet = request.encode(&headers, CAPACITY, &cipher).unwrap();
    let (outer_route, n) = decode_request_route(&packet, &read_request).unwrap();
    let inner = decipher(&packet[n..], &key(40), packet.len() - n - X_NONCE_BYTES).unwrap();
    let (route, n) = decode_request_route(&inner, &read_request).unwrap();
    match (outer_route, route) {
        (
            UdpRequestRoute::Routed { flow_id: outer, .. },
            UdpRequestRoute::Routed { flow_id: inner, .. },
        ) => assert!(outer.same(&inner), "all layers bear the flow's one identifier"),
        other => panic!("expected two routed layers, got {other:?}"),
    }
    assert_eq!(n, inner.len(), "the last proxy answers itself: no key, no payload");
    assert!(matches!(request.encode(&headers, 8, &cipher), Err(TraceError::Io(_))));

    let mut response = vec![1, 0];
    response.extend(cipher(&[2, 0], &key(40)).unwrap().output);
    let waiting = request.sent(now(), Ok(packet.len())).unwrap();
    let end = now().after(Duration::from_millis(30));
    let close = waiting.received(Ok(response), end, CAPACITY, &read_response, &decipher).unwrap();
    let report = close.shut_down(Ok(ShutdownOutcome::Propagated)).unwrap();
    assert_eq!(
        report,
        ProbeReport { rtt: Duration::from_millis(30), end: ProbeFlowEnd::Pending, observe: true }
    );
}

#[test]
fn a_probe_fails_as_its_steps_do() {
    let request = || match ProbeStart::new(vec![hop(1, None)]) {
        ProbeStart::Connect(request) => request,
        other => panic!("expected a request, got {other:?}"),
    };
    assert!(matches!(request().sent(now(), Err("gone".to_owned())), Err(TraceError::Io(_))));
    let receive = |outcome| {
        request().sent(now(), Ok(1)).unwrap().received(
            outcome,
            now(),
            CAPACITY,
            &read_response,
            &decipher,
        )
    };
    assert!(matches!(receive(Err("gone".to_owned())), Err(TraceError::Io(_))));
    assert!(matches!(receive(Ok(vec![9])), Err(TraceError::Header(_))));
    match receive(Ok(vec![1, 1])) {
        Err(TraceError::Response { addr, .. }) => assert_eq!(addr, internet(1)),
        other => panic!("expected a refusal, got {other:?}"),
    }
    let close = receive(Ok(vec![1, 0])).unwrap();
    let report = close.shut_down(Ok(ShutdownOutcome::Unsupported)).unwrap();
    assert_eq!(report.end, ProbeFlowEnd::ShutdownUnsupported);
    assert!(!report.observe);
}

#[test]
fn a_flow_ends_when_its_peer_says_so() {
    assert_eq!(await_probe_flow_end(Ok(0)), Some(true));
    assert_eq!(await_probe_flow_end(Ok(5)), None);
    let eof = AnyError::from_io(IoError::new(ErrorKind::UnexpectedEof, "eof"));
    assert_eq!(await_probe_flow_end(Err(eof)), Some(true));
    let reset = AnyError::from_io(IoError::new(ErrorKind::ConnectionReset, "reset"));
    assert_eq!(await_probe_flow_end(Err(reset)), Some(false));
    assert_eq!(probe_flow_end(Some(true)), ProbeFlowEnd::Eof);
    assert_eq!(probe_flow_end(Some(false)), ProbeFlowEnd::TimedOut);
    assert_eq!(probe_flow_end(None), ProbeFlowEnd::TimedOut);
}

fn refused() -> ConnectError {
    ConnectError { kind: RouteErrorKind::Io, message: "refused".to_owned() }
}

#[test]
fn establish_reports_a_destination_connect_failure() {
    let e = match StreamEstablish::start(vec![], RouteAddr::udp(internet(9))) {
        StreamEstablish::ConnectDestination(stream) => stream.connected(Err(refused())).unwrap_err(),
        other => panic!("expected a direct stream, got {other:?}"),
    };
    assert!(matches!(e, StreamEstablishError::ConnectDestination { .. }), "{e:?}");
}

fn proxied(hops: Vec<HopConfig>) -> proxy_common::client::stream::ProxiedStream {
    match StreamEstablish::start(hops, RouteAddr::udp(internet(9))) {
        StreamEstablish::ConnectFirstProxy(stream) => stream,
        other => panic!("expected a proxied stream, got {other:?}"),
    }
}

#[test]
fn establish_reports_a_first_proxy_connect_failure() {
    let e = proxied(vec![hop(1, None)]).connected(Err(refused())).unwrap_err();
    assert!(matches!(e, StreamEstablishError::ConnectFirstProxyServer { .. }), "{e:?}");
}

#[test]
fn establish_reports_a_refused_heartbeat_upgrade() {
    let mut stream = proxied(vec![hop(1, None)]).connected(Ok(())).unwrap();
    let e = stream.upgrade_sent(Err(PreambleError { message: "broken".to_owned() })).unwrap_err();
    assert!(matches!(e, StreamEstablishError::WriteHeartbeatUpgrade { .. }), "{e:?}");
}

#[test]
fn establish_reports_a_refused_request_header_write() {
    let mut stream = proxied(vec![hop(1, None)]).connected(Ok(())).unwrap();
    stream.upgrade_sent(Ok(())).unwrap();
    let e = stream.header_written(Err(CodecError::Rejected("broken".to_owned()))).unwrap_err();
    assert!(matches!(e, StreamEstablishError::WriteStreamRequestHeader { .. }), "{e:?}");
}

#[test]
fn a_stream_tells_every_proxy_where_to_go() {
    let proxied = proxied(vec![hop(1, Some(key(40))), hop(2, Some(key(41)))]);
    assert_eq!(proxied.first_proxy().0, &RouteAddr::udp(internet(1)));
    let mut stream = proxied.connected(Ok(())).unwrap();
    let expected = [(key(1), internet(2), key(40)), (key(2), internet(9), key(41))];
    for (header_key, next, payload_key) in expected {
        match stream.handshake.action() {
            HandshakeAction::SendUpgrade(crypto) => assert_eq!(*crypto, header_key),
            other => panic!("expected an upgrade, got {other:?}"),
        }
        stream.upgrade_sent(Ok(())).unwrap();
        match stream.handshake.action() {
            HandshakeAction::WriteHeader(request, crypto) => {
                assert_eq!(request.upstream, Some(RouteAddr::udp(next)));
                assert_eq!(*crypto, header_key);
            }
            other => panic!("expected a header, got {other:?}"),
        }
        assert_eq!(stream.header_written(Ok(())).unwrap(), Some(payload_key));
    }
    for (header_key, payload_key) in [(key(1), key(40)), (key(2), key(41))] {
        match stream.handshake.action() {
            HandshakeAction::ReadResponse(crypto) => assert_eq!(*crypto, header_key),
            other => panic!("expected a response, got {other:?}"),
        }
        assert_eq!(stream.response_read(Ok(relays())).unwrap(), Some(payload_key));
    }
    assert!(matches!(stream.handshake.action(), HandshakeAction::Done));
}

fn relays() -> RouteResponse {
    RouteResponse { result: Ok(()) }
}

fn told(hops: Vec<HopConfig>) -> StreamHandshake {
    let n = hops.len();
    let mut stream = proxied(hops).connected(Ok(())).unwrap();
    for _ in 0..n {
        stream.upgrade_sent(Ok(())).unwrap();
        stream.header_written(Ok(())).unwrap();
    }
    stream
}

#[test]
fn a_stream_hears_from_every_proxy_before_the_payload() {
    let mut stream = told(vec![hop(1, None), hop(2, None), hop(3, None)]);
    for answered in 0..3 {
        assert_eq!(stream.handshake.answered, answered);
        assert!(matches!(stream.handshake.action(), HandshakeAction::ReadResponse(_)));
        stream.response_read(Ok(relays())).unwrap();
    }
    assert!(matches!(stream.handshake.action(), HandshakeAction::Done));
}

#[test]
fn establish_reports_the_proxy_that_does_not_relay() {
    let mut stream = told(vec![hop(1, None), hop(2, None)]);
    stream.response_read(Ok(relays())).unwrap();
    let refusal = RouteResponse { result: Err(RouteError { kind: RouteErrorKind::Loopback }) };
    match stream.response_read(Ok(refusal)) {
        Err(StreamEstablishError::Response { err, hop, upstream_addr }) => {
            assert_eq!(err, RouteError { kind: RouteErrorKind::Loopback });
            assert_eq!(hop, 1);
            assert_eq!(upstream_addr, RouteAddr::udp(internet(1)));
        }
        other => panic!("expected a refusal, got {other:?}"),
    }
    assert_eq!(stream.handshake.answered, 1);
    match stream.response_read(Err(CodecError::Rejected("late".to_owned()))) {
        Err(StreamEstablishError::ReadStreamResponseHeader { codec, hop, .. }) => {
            assert_eq!(codec.to_text(), "late");
            assert_eq!(hop, 1);
        }
        other => panic!("expected an unreadable response, got {other:?}"),
    }
}

#[test]
fn a_stream_probe_is_answered_by_the_last_proxy() {
    let mut probe = match StreamProbe::start(&[hop(1, Some(key(40))), hop(2, Some(key(41)))]) {
        StreamProbeStart::Connect(probe) => probe,
        other => panic!("expected a probe, got {other:?}"),
    };
    probe.handshake.upgrade_sent();
    assert_eq!(probe.handshake.header_written(), Some(key(40)));
    probe.handshake.upgrade_sent();
    assert_eq!(probe.handshake.header_written(), None, "what follows is the answer");
    assert_eq!(probe.response_read(Ok(relays())).unwrap(), Some(key(40)));
    match probe.handshake.action() {
        HandshakeAction::ReadResponse(crypto) => assert_eq!(*crypto, key(2)),
        other => panic!("expected the last response, got {other:?}"),
    }
    let refusal = RouteResponse { result: Err(RouteError { kind: RouteErrorKind::Io }) };
    assert!(matches!(probe.response_read(Ok(refusal)), Err(StreamTraceError::Response { .. })));
    assert!(matches!(
        probe.response_read(Err(CodecError::Rejected("late".to_owned()))),
        Err(StreamTraceError::Header(_))
    ));
    assert_eq!(probe.response_read(Ok(relays())).unwrap(), None);
    assert!(matches!(probe.handshake.action(), HandshakeAction::Done));
    let end = now().after(Duration::from_millis(12));
    assert_eq!(probe.rtt(now(), end), Duration::from_millis(12));
}

#[test]
fn the_first_hop_is_a_tunnel_or_an_address() {
    assert!(matches!(first_hop(&[]), FirstHop::Missing));
    let plain = [hop(1, None)];
    match first_hop(&plain) {
        FirstHop::Address { protocol, address } => {
            assert_eq!(protocol, "udp");
            assert_eq!(*address, internet(1));
        }
        other => panic!("expected an address, got {other:?}"),
    }
    let tunnel = [HopConfig {
        address: RouteAddr {
            address: InternetAddr::DomainName { addr: "private-a".to_owned(), port: 0 },
            protocol: "revtunrtp".to_owned(),
        },
        ..hop(1, None)
    }];
    match first_hop(&tunnel) {
        FirstHop::Tunnel { protocol, name } => {
            assert_eq!(protocol, "revtunrtp");
            assert_eq!(name, "private-a");
        }
        other => panic!("expected a tunnel, got {other:?}"),
    }
}

#[test]
fn a_request_reaches_the_destination_through_every_proxy() {
    let proxies = vec![hop(1, Some(key(11))), hop(2, None), hop(3, Some(key(13)))];
    let flow = match UdpEstablish::start(proxies, internet(9)) {
        UdpEstablish::ConnectFirstProxy(flow) => flow,
        other => panic!("expected a proxied flow, got {other:?}"),
    };
    let ends = ConnectionEnds { local_addr: None, peer_addr: None };
    let (_, write) = flow.connected(Ok(ends)).unwrap().into_split();
    let headers = vec![REQUEST_HEADER.to_vec(); 3];
    let mut confirmed = RouteConfirmation::new();
    confirmed.confirm(now(), wall());
    for confirmation in [RouteConfirmation::new(), confirmed] {
        let mut packet = write
            .encode(
                b"payload",
                &headers,
                &confirmation,
                now(),
                wall(),
                flow_timeout(),
                CAPACITY,
                &cipher,
            )
            .unwrap();
        for layer in &write.request_layers {
            let (route, n) = decode_request_route(&packet, &read_request).unwrap();
            let flow_id = match route {
                UdpRequestRoute::Routed { flow_id, .. } => flow_id,
                UdpRequestRoute::Compact { flow_id } => flow_id,
            };
            assert_eq!(flow_id, write.flow_id);
            let body = packet[n..].to_vec();
            packet = match &layer.payload_crypto {
                None => body,
                Some(crypto) => send_dyn(
                    &body,
                    CAPACITY,
                    crypto,
                    EncryptionDirection::Decrypt,
                    &cipher,
                    &decipher,
                )
                .unwrap(),
            };
        }
        assert_eq!(packet, b"payload");
    }
}
