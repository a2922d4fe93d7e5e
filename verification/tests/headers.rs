use proxy_common::addr::{InternetAddr, RouteAddr, SocketAddr};
use proxy_common::conn::{UdpFlowId, UpstreamAddr, UDP_FLOW_ID_LEN};
use proxy_common::conn_handler::stream::{
    proxy_start, steered, ProxyResult, ProxyStart, StreamProxyAcceptorError,
    StreamProxyConnHandlerConfig, StreamProxyFinished, StreamProxyServerBuildError,
    StreamProxyServerError,
};
use proxy_common::client::stream::ConnectError;
use proxy_common::conn_handler::udp::BeforeConnect;
use proxy_common::crypto::CryptoConfig;
use proxy_common::io::{ErrorKind, IoError};
use proxy_common::route::conn_chain::RouteRequest;
use proxy_common::route_header::stream::{AwaitUpgrade, PreambleError, SteerError, Steered};
use proxy_common::route_header::udp::{decode_request_route, UdpRequestRoute};
use proxy_common::route_header::{CodecError, RouteError, RouteErrorKind};

const HEADER: &[u8] = b"<127.0.0.1:9>";

fn upstream() -> UpstreamAddr {
    UpstreamAddr(RouteAddr::udp(InternetAddr::SocketAddr(SocketAddr::V4 {
        ip: 0x7f00_0001,
        port: 9,
    })))
}

fn read_header(buf: &[u8]) -> Result<(Option<UpstreamAddr>, usize), CodecError> {
    if buf.starts_with(HEADER) {
        return Ok((Some(upstream()), HEADER.len()));
    }
    Err(CodecError::Rejected("replayed".to_owned()))
}

#[test]
fn routed_and_compact_requests_share_the_same_flow_id() {
    let id = UdpFlowId::from_bytes([9; UDP_FLOW_ID_LEN]);
    let mut buf = Vec::new();
    id.write_routed(&mut buf);
    buf.extend_from_slice(HEADER);
    buf.extend_from_slice(b"first");

    let (route, position) = decode_request_route(&buf, &read_header).unwrap();
    match route {
        UdpRequestRoute::Routed { flow_id, upstream } => {
            assert_eq!(flow_id, id);
            assert!(upstream.is_some());
        }
        other => panic!("expected a routed request, got {other:?}"),
    }
    assert_eq!(&buf[position..], b"first");

    let mut buf = Vec::new();
    id.write_compact(&mut buf);
    buf.extend_from_slice(b"later");

    let (route, position) = decode_request_route(&buf, &read_header).unwrap();
    match route {
        UdpRequestRoute::Compact { flow_id } => assert_eq!(flow_id, id),
        other => panic!("expected a compact request, got {other:?}"),
    }
    assert_eq!(&buf[position..], b"later");
}

#[test]
fn unknown_request_kind_is_rejected() {
    let mut buf = vec![0x7f];
    buf.extend_from_slice(&[0; UDP_FLOW_ID_LEN]);
    match decode_request_route(&buf, &read_header) {
        Err(CodecError::Io(e)) => {
            assert_eq!(e.kind, ErrorKind::InvalidData);
            assert_eq!(e.message, "unsupported UDP request kind 127");
        }
        other => panic!("expected a rejection, got {other:?}"),
    }
}

#[test]
fn a_datagram_that_is_cut_short_is_no_request() {
    for len in 0..17 {
        let buf = vec![1; len];
        match decode_request_route(&buf, &read_header) {
            Err(CodecError::Io(e)) => assert_eq!(e.kind, ErrorKind::UnexpectedEof),
            other => panic!("expected an end of data at {len} bytes, got {other:?}"),
        }
    }
    assert!(decode_request_route(&[1; 17], &read_header).is_ok());
}

#[test]
fn a_header_that_is_refused_refuses_the_datagram() {
    let mut buf = Vec::new();
    UdpFlowId::from_bytes([1; UDP_FLOW_ID_LEN]).write_routed(&mut buf);
    buf.extend_from_slice(b"garbage");
    match decode_request_route(&buf, &read_header) {
        Err(CodecError::Rejected(reason)) => assert_eq!(reason, "replayed"),
        other => panic!("expected a rejection, got {other:?}"),
    }
}

fn peer() -> SocketAddr {
    SocketAddr::V4 { ip: 0x0a00_0001, port: 5000 }
}

fn render(addr: &SocketAddr) -> String {
    match addr {
        SocketAddr::V4 { ip, port } => {
            let o = ip.to_be_bytes();
            format!("{}.{}.{}.{}:{}", o[0], o[1], o[2], o[3], port)
        }
        SocketAddr::V6 { ip6, port, .. } => format!("[{ip6:x}]:{port}"),
    }
}

#[test]
fn every_steer_error_variant_renders_its_documented_message() {
    let cases = [
        (
            SteerError::ReadHeartbeatUpgrade {
                source: PreambleError { message: "Timeout: 1s".to_owned() },
                downstream_addr: Some(peer()),
            },
            "Failed to read heartbeat header from downstream: Timeout: 1s, 10.0.0.1:5000",
        ),
        (
            SteerError::ReadStreamRequestHeader {
                codec: CodecError::Io(IoError::new(ErrorKind::InvalidData, "bad")),
                downstream_addr: None,
            },
            "Failed to read stream request header from downstream: IO error: bad",
        ),
        (
            SteerError::WriteEchoResponse {
                codec: CodecError::Io(IoError::new(ErrorKind::BrokenPipe, "gone")),
                downstream_addr: Some(peer()),
            },
            "Failed to write echo response to downstream: IO error: gone, 10.0.0.1:5000",
        ),
    ];
    for (err, expected) in cases {
        assert_eq!(err.to_text(&render), expected);
    }
}

#[test]
fn a_downstream_that_closes_before_the_upgrade_reports_a_heartbeat_error() {
    let eof = PreambleError { message: "early eof".to_owned() };
    let err = AwaitUpgrade.upgraded(Err(eof), Some(peer())).unwrap_err();
    assert!(
        matches!(err, SteerError::ReadHeartbeatUpgrade { .. }),
        "expected ReadHeartbeatUpgrade, got {err:?}"
    );
    let rendered = err.to_text(&render);
    assert!(
        rendered.starts_with("Failed to read heartbeat header from downstream: "),
        "{rendered}"
    );
    assert!(rendered.ends_with(", 10.0.0.1:5000"), "{rendered}");
}

#[test]
fn a_stream_is_relayed_or_echoed() {
    let request = RouteRequest { upstream: Some(upstream().0) };
    let waiting = AwaitUpgrade.upgraded(Ok(()), Some(peer())).unwrap();
    match waiting.requested(Ok(request), Some(peer())).unwrap() {
        Steered::Relay(addr) => assert_eq!(addr, upstream().0),
        other => panic!("expected a relay, got {other:?}"),
    }

    let waiting = AwaitUpgrade.upgraded(Ok(()), None).unwrap();
    match waiting.requested(Ok(RouteRequest { upstream: None }), None).unwrap() {
        Steered::Echo(echo) => {
            assert!(echo.response.result.is_ok());
            assert!(echo.responded(Ok(()), None).unwrap().is_none());
        }
        other => panic!("expected an echo, got {other:?}"),
    }

    let waiting = AwaitUpgrade.upgraded(Ok(()), None).unwrap();
    let refused = waiting.requested(Err(CodecError::Rejected("replayed".to_owned())), None);
    assert!(matches!(refused, Err(SteerError::ReadStreamRequestHeader { .. })));
}

#[test]
fn serving_a_stream_starts_as_its_upstream_went() {
    let relay = steered(Ok(Some(upstream().0))).unwrap().unwrap();
    let relay = relay.connected(Ok(("conn", peer())), false, false);
    assert!(relay.response.result.is_ok(), "the client is told that it is relayed");
    let connected = relay.responded(Ok(()), Some(peer()));
    match proxy_start(connected.map(Some)).unwrap() {
        ProxyStart::Relay(up) => {
            assert_eq!(up.stream, "conn");
            assert_eq!(up.addr, upstream().0);
            assert_eq!(up.sock_addr, peer());
        }
        other => panic!("expected a relay, got {other:?}"),
    }

    assert!(steered(Ok(None)).unwrap().is_none());
    let echo = proxy_start::<&str>(Ok(None)).unwrap();
    assert!(matches!(echo, ProxyStart::Finished(ProxyResult::Echo)));

    let relay = steered(Ok(Some(upstream().0))).unwrap().unwrap();
    let refused = ConnectError { kind: RouteErrorKind::Io, message: "refused".to_owned() };
    let relay = relay.connected::<&str>(Err(refused), false, false);
    assert_eq!(relay.response.result, Err(RouteError { kind: RouteErrorKind::Io }));
    let refused = relay.responded(Ok(()), Some(peer())).unwrap_err();
    assert!(matches!(refused, StreamProxyAcceptorError::ConnectUpstream { .. }));
    let error = proxy_start::<&str>(Err(refused)).unwrap_err();
    assert_eq!(error.upstream_addr(), Some(&upstream().0));

    let steer = SteerError::ReadHeartbeatUpgrade {
        source: PreambleError { message: "eof".to_owned() },
        downstream_addr: None,
    };
    let error = steered(Err(steer)).unwrap_err();
    assert!(matches!(error, StreamProxyAcceptorError::Steer(_)));
    assert!(error.upstream_addr().is_none());
    let io = StreamProxyServerError::DownstreamAddr(IoError::new(ErrorKind::Other, "gone"));
    assert!(io.upstream_addr().is_none());
}

#[test]
fn a_stream_to_the_own_host_is_refused_unless_allowed() {
    let connect = |loopback: bool, allow_loopback: bool| {
        let relay = steered(Ok(Some(upstream().0))).unwrap().unwrap();
        relay.connected(Ok(("conn", peer())), loopback, allow_loopback)
    };
    let refused = connect(true, false);
    assert_eq!(refused.response.result, Err(RouteError { kind: RouteErrorKind::Loopback }));
    match refused.responded(Ok(()), None) {
        Err(StreamProxyAcceptorError::ConnectUpstream { connect, .. }) => {
            assert_eq!(connect.message, "refused to connect to a loopback address")
        }
        other => panic!("expected a refusal, got {other:?}"),
    }
    assert!(connect(true, true).responded(Ok(()), None).is_ok());
    assert!(connect(false, false).responded(Ok(()), None).is_ok());
}

#[test]
fn a_loopback_upstream_is_refused_before_it_is_connected() {
    let relay = steered(Ok(Some(upstream().0))).unwrap().unwrap();
    assert_eq!(relay.before_connect(), BeforeConnect::Resolve);
    let refused = relay.resolved(true, false).unwrap_err();
    assert_eq!(refused.kind, RouteErrorKind::Loopback);
    assert_eq!(refused.message, "refused to connect to a loopback address");
    for (reaches, allowed) in [(true, true), (false, false), (false, true)] {
        assert!(relay.resolved(reaches, allowed).is_ok());
    }
    let tunnel = RouteAddr {
        address: InternetAddr::DomainName { addr: "private-a".to_owned(), port: 0 },
        protocol: "revtunrtp".to_owned(),
    };
    let relay = steered(Ok(Some(tunnel))).unwrap().unwrap();
    assert_eq!(relay.before_connect(), BeforeConnect::Nothing);
}

#[test]
fn a_client_that_cannot_be_answered_is_not_relayed() {
    let relay = steered(Ok(Some(upstream().0))).unwrap().unwrap();
    let gone = CodecError::Io(IoError::new(ErrorKind::BrokenPipe, "gone"));
    let error = relay
        .connected(Ok(("conn", peer())), false, false)
        .responded(Err(gone), Some(peer()))
        .unwrap_err();
    assert_eq!(error.upstream_addr(), Some(&upstream().0));
    match error {
        StreamProxyAcceptorError::WriteResponse { codec, downstream_addr, .. } => {
            assert_eq!(codec.to_text(), "IO error: gone");
            assert_eq!(downstream_addr, Some(peer()));
        }
        other => panic!("expected the response to fail, got {other:?}"),
    }
}

#[test]
fn a_finished_stream_names_its_upstream() {
    let finished = StreamProxyFinished { io: "12 bytes".to_owned(), up: upstream().0 };
    assert_eq!(
        finished.to_text(&|a: &RouteAddr| format!("{}!", a.protocol)),
        "12 bytes,upstream:udp!"
    );
}

#[test]
fn a_stream_handler_reads_its_header_key_first() {
    let read = |key: &str| -> Result<CryptoConfig, String> {
        match key {
            "good" => Ok(CryptoConfig { key: [1; 32] }),
            "fine" => Ok(CryptoConfig { key: [2; 32] }),
            other => Err(format!("{} letters", other.len())),
        }
    };
    let build = |header_key: &'static str, payload_key: Option<&'static str>| {
        StreamProxyConnHandlerConfig { header_key, payload_key, allow_loopback: true }
            .into_builder("context", "0.0.0.0:1".to_owned())
            .build(&read)
    };
    let handler = build("good", Some("fine")).unwrap();
    assert_eq!(handler.crypto.key, [1; 32]);
    assert_eq!(handler.payload_crypto.unwrap().key, [2; 32]);
    assert!(handler.allow_loopback);
    assert_eq!(handler.stream_context, "context");
    assert!(build("good", None).unwrap().payload_crypto.is_none());
    match build("bad", Some("worse")) {
        Err(StreamProxyServerBuildError::HeaderCrypto(reason)) => assert_eq!(reason, "3 letters"),
        other => panic!("expected the header key to fail, got {other:?}"),
    }
    match build("good", Some("worse")) {
        Err(StreamProxyServerBuildError::PayloadCrypto(reason)) => assert_eq!(reason, "5 letters"),
        other => panic!("expected the payload key to fail, got {other:?}"),
    }
}
