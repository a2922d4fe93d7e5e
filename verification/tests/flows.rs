use proxy_common::addr::{InternetAddr, RouteAddr, SocketAddr};
use proxy_common::conn::{DownstreamAddr, Flow, FlowKey, UdpFlowId, UpstreamAddr, UDP_FLOW_ID_LEN};
use proxy_common::conn_handler::udp::{
    error_kind_from_proxy_error, establish_tunnel, handle_proxy_result, parse_packet_route,
    plan_proxy, tunnel_opened, BeforeConnect, EchoFlow, EstablishedTunnel, Packet, PacketRoute,
    ProxyPlan, RelayRequest, RouteBoundRecv, UdpPacketRoute, UdpProxyError, ECHO_FLOW_IDLE,
};
use proxy_common::io::{ErrorKind, IoError};
use proxy_common::relay::udp::AnyError;
use proxy_common::route_header::{CodecError, RouteErrorKind};

fn sock(port: u16) -> SocketAddr {
    SocketAddr::V4 { ip: 0x7f00_0001, port }
}

fn upstream(port: u16) -> UpstreamAddr {
    UpstreamAddr(RouteAddr::udp(InternetAddr::SocketAddr(sock(port))))
}

fn flow_id() -> UdpFlowId {
    UdpFlowId::from_bytes([9; UDP_FLOW_ID_LEN])
}

// A header is one byte: zero for an echo, or the port of the upstream.
fn read_header(buf: &[u8]) -> Result<(Option<UpstreamAddr>, usize), CodecError> {
    match buf.first() {
        None => Err(CodecError::Rejected("no header".to_owned())),
        Some(0) => Ok((None, 1)),
        Some(port) => Ok((Some(upstream(u16::from(*port))), 1)),
    }
}

fn routed(header: u8, payload: &[u8]) -> Vec<u8> {
    let mut packet = Vec::new();
    flow_id().write_routed(&mut packet);
    packet.push(header);
    packet.extend_from_slice(payload);
    packet
}

fn compact(id: UdpFlowId, payload: &[u8]) -> Vec<u8> {
    let mut packet = Vec::new();
    id.write_compact(&mut packet);
    packet.extend_from_slice(payload);
    packet
}

fn assert_tunnel_error<T: std::fmt::Debug>(
    result: Result<T, UdpProxyError>,
    kind: ErrorKind,
    expected: &str,
) {
    match result {
        Err(UdpProxyError::Tunnel(error)) => {
            assert_eq!(error.io_kind, Some(kind));
            assert_eq!(error.message, expected);
        }
        other => panic!("expected a tunnel error, got {other:?}"),
    }
}

#[test]
fn establishment_classifies_echo_and_relay_flows() {
    let echo = establish_tunnel(Some(Ok(routed(0, b"ping"))), &read_header).unwrap();
    match echo {
        EstablishedTunnel::Echo(flow) => assert_eq!(flow.first, b"ping"),
        other => panic!("expected an echo flow, got {other:?}"),
    }
    let relay = establish_tunnel(Some(Ok(routed(9, b"data"))), &read_header).unwrap();
    match relay {
        EstablishedTunnel::Relay(flow) => {
            assert_eq!(flow.upstream.0, upstream(9).0);
            let (mut read, route) = flow.into_parts();
            assert_eq!(route.0, upstream(9).0);
            assert_eq!(read.take_pending(3).unwrap(), b"dat");
            assert!(read.take_pending(3).is_none());
        }
        other => panic!("expected a relay flow, got {other:?}"),
    }
}

#[test]
fn a_stalled_initial_datagram_times_out_the_flow() {
    let result = establish_tunnel(None, &read_header);
    assert_tunnel_error(
        result,
        ErrorKind::TimedOut,
        "timed out waiting for the first routed datagram",
    );
}

#[test]
fn an_idle_echo_flow_ends_quietly_and_releases_its_slot() {
    let idle = EchoFlow::received(None).map(|_| ());
    let (result, was_idle) = EchoFlow::ended(idle);
    assert!(result.is_ok(), "an idle echo flow must end as a clean close: {result:?}");
    assert!(was_idle);
}

#[test]
fn echo_flow_run_reports_idle_expiry_as_a_timeout() {
    assert_tunnel_error(EchoFlow::received(None), ErrorKind::TimedOut, ECHO_FLOW_IDLE);
}

#[test]
fn a_stalled_echo_writer_times_out_the_flow() {
    let stalled = EchoFlow::responded(None);
    let (result, was_idle) = EchoFlow::ended(stalled);
    assert!(!was_idle);
    assert_tunnel_error(result, ErrorKind::TimedOut, "UDP echo flow stalled on response write");
}

#[test]
fn an_echo_is_a_header_and_the_payload() {
    assert_eq!(EchoFlow::response(Ok(vec![1, 2]), b"ping").unwrap(), b"\x01\x02ping");
    let refused = EchoFlow::response(Err(CodecError::Rejected("no key".to_owned())), b"ping");
    match refused {
        Err(UdpProxyError::Tunnel(error)) => {
            assert_eq!(error.io_kind, None);
            assert_eq!(error.message, "no key");
        }
        other => panic!("expected a tunnel error, got {other:?}"),
    }
    assert_eq!(EchoFlow::received(Some(Ok(b"more".to_vec()))).unwrap().unwrap(), b"more");
    let eof = AnyError::from_io(IoError::new(ErrorKind::UnexpectedEof, "eof"));
    assert!(EchoFlow::received(Some(Err(eof))).unwrap().is_none());
    assert!(EchoFlow::responded(Some(Ok(4))).is_ok());
}

#[test]
fn a_tunnel_flow_keeps_its_identifier_and_its_route() {
    let opened = establish_tunnel(Some(Ok(routed(9, b"first"))), &read_header);
    let flow = match tunnel_opened(opened).unwrap() {
        Some(EstablishedTunnel::Relay(flow)) => flow,
        other => panic!("expected a relay flow, got {other:?}"),
    };
    let decoder = &flow.decoder;
    assert_eq!(decoder.recv_decoded(&compact(flow_id(), b"second"), &read_header).unwrap(), b"second");
    assert_eq!(decoder.recv_decoded(&routed(9, b"third"), &read_header).unwrap(), b"third");
    let stranger = UdpFlowId::from_bytes([1; UDP_FLOW_ID_LEN]);
    for packet in [compact(stranger, b"x"), routed(8, b"x"), routed(0, b"x")] {
        let error = decoder.recv_decoded(&packet, &read_header).unwrap_err();
        assert_eq!(error.message, "UDP mux flow changed its flow ID or upstream route");
    }
    let error = decoder.recv_decoded(&[], &read_header).unwrap_err();
    assert_eq!(error.io_kind, None);
}

#[test]
fn a_compact_datagram_cannot_establish_a_tunnel() {
    let result = establish_tunnel(Some(Ok(compact(flow_id(), b"x"))), &read_header);
    assert_tunnel_error(
        result,
        ErrorKind::InvalidData,
        "UDP mux flow used compact form before establishing its route",
    );
}

#[test]
fn a_tunnel_that_closes_before_its_first_datagram_is_no_error() {
    let eof = AnyError::from_io(IoError::new(ErrorKind::UnexpectedEof, "closed"));
    let opened = tunnel_opened(establish_tunnel(Some(Err(eof)), &read_header));
    assert!(opened.unwrap().is_none());
    let reset = AnyError::from_io(IoError::new(ErrorKind::ConnectionReset, "reset"));
    let opened = tunnel_opened(establish_tunnel(Some(Err(reset)), &read_header));
    assert_tunnel_error(opened, ErrorKind::ConnectionReset, "reset");
}

fn identified() -> FlowKey {
    FlowKey::Identified { downstream: DownstreamAddr(sock(1)), flow_id: flow_id() }
}

fn packet(route: PacketRoute, payload: &[u8]) -> Packet {
    Packet { route, payload: payload.to_vec() }
}

#[test]
fn a_new_flow_is_echoed_or_relayed() {
    let echo = plan_proxy(&identified(), Ok(packet(PacketRoute::Routed(None), b"ping"))).unwrap();
    assert!(matches!(echo, ProxyPlan::Echo(payload) if payload == b"ping"));
    let first = packet(PacketRoute::Routed(Some(upstream(9))), b"data");
    match plan_proxy(&identified(), Ok(first)).unwrap() {
        ProxyPlan::Relay { flow, mut dn_read } => {
            assert_eq!(flow.upstream, Some(upstream(9)));
            assert_eq!(flow.downstream, DownstreamAddr(sock(1)));
            let first = dn_read.take_first();
            assert_eq!(dn_read.deliver(first, 100).unwrap(), b"data");
            assert!(dn_read.take_first().is_none());
        }
        other => panic!("expected a relay, got {other:?}"),
    }
}

#[test]
fn a_compact_datagram_cannot_create_a_flow() {
    let alone = plan_proxy(&identified(), Ok(packet(PacketRoute::Compact, b"x"))).map(|_| ());
    assert!(matches!(alone, Err(UdpProxyError::RouteUnavailable)));
    assert_eq!(handle_proxy_result(&alone), None, "its sender is not told");
}

#[test]
fn a_flow_without_a_proper_key_or_packet_is_refused() {
    let key = FlowKey::Routed(Flow { upstream: None, downstream: DownstreamAddr(sock(1)) });
    let refused = plan_proxy(&key, Ok(packet(PacketRoute::Compact, b"x")));
    assert!(matches!(refused, Err(UdpProxyError::InvalidFlowKey)));
    match plan_proxy(&identified(), Err("queue closed".to_owned())) {
        Err(UdpProxyError::InitialPacket(e)) => assert_eq!(e.message, "queue closed"),
        other => panic!("expected a missing packet, got {other:?}"),
    }
}

#[test]
fn a_flow_cannot_change_its_route() {
    let recv = RouteBoundRecv { expected_upstream: Some(upstream(9)), first: None };
    let same = packet(PacketRoute::Routed(Some(upstream(9))), b"longer");
    assert_eq!(recv.deliver(Some(same), 4).unwrap(), b"long");
    assert_eq!(recv.deliver(Some(packet(PacketRoute::Compact, b"y")), 4).unwrap(), b"y");
    for route in [PacketRoute::Routed(Some(upstream(8))), PacketRoute::Routed(None)] {
        let error = recv.deliver(Some(packet(route, b"x")), 4).unwrap_err();
        assert_eq!(error.io_kind, Some(ErrorKind::InvalidData));
        assert_eq!(error.message, "UDP flow changed its upstream route");
    }
    let closed = recv.deliver(None, 4).unwrap_err();
    assert_eq!(closed.io_kind, Some(ErrorKind::UnexpectedEof));
    assert_eq!(closed.message, "UDP flow closed");
}

#[test]
fn the_listener_reads_the_front_of_a_datagram() {
    match parse_packet_route(&routed(9, b"data"), &read_header) {
        Some((UdpPacketRoute::Routed { flow_id: id, upstream: up }, n)) => {
            assert_eq!(id, Some(flow_id()));
            assert_eq!(up, Some(upstream(9)));
            assert_eq!(n, 18);
        }
        other => panic!("expected a routed datagram, got {other:?}"),
    }
    match parse_packet_route(&compact(flow_id(), b"data"), &read_header) {
        Some((UdpPacketRoute::Compact { flow_id: id }, n)) => {
            assert_eq!(id, flow_id());
            assert_eq!(n, 17);
        }
        other => panic!("expected a compact datagram, got {other:?}"),
    }
    assert!(parse_packet_route(b"noise", &read_header).is_none());
}

fn relay_request(up: UpstreamAddr, allow_loopback: bool) -> RelayRequest {
    let flow = Flow { upstream: Some(up), downstream: DownstreamAddr(sock(1)) };
    RelayRequest::new(flow, allow_loopback).unwrap()
}

#[test]
fn an_upstream_on_this_host_is_refused_unless_allowed() {
    let strict = relay_request(upstream(9), false);
    assert_eq!(strict.before_connect(), BeforeConnect::Resolve);
    match strict.resolved(Ok((sock(9), true))) {
        Err(e) => {
            assert!(matches!(e, UdpProxyError::Loopback { sock_addr, .. } if sock_addr == sock(9)));
            assert_eq!(error_kind_from_proxy_error(&e), RouteErrorKind::Loopback);
            assert_eq!(handle_proxy_result(&Err(e)), Some(RouteErrorKind::Loopback));
        }
        Ok(()) => panic!("a loopback upstream must be refused"),
    }
    assert!(strict.resolved(Ok((sock(9), false))).is_ok());
    assert!(relay_request(upstream(9), true).resolved(Ok((sock(9), true))).is_ok());
    let lost = strict.resolved(Err(IoError::new(ErrorKind::NotFound, "no such host"))).unwrap_err();
    assert!(matches!(&lost, UdpProxyError::Resolve { addr, .. } if *addr == upstream(9).0));
    assert_eq!(error_kind_from_proxy_error(&lost), RouteErrorKind::Io);
    let tunnel = UpstreamAddr(RouteAddr {
        address: InternetAddr::DomainName { addr: "private-a".to_owned(), port: 0 },
        protocol: "revtuntcp".to_owned(),
    });
    assert_eq!(relay_request(tunnel, false).before_connect(), BeforeConnect::Nothing);
    let echo = Flow { upstream: None, downstream: DownstreamAddr(sock(1)) };
    assert!(RelayRequest::new(echo, false).is_none());
}

#[test]
fn a_relay_goes_on_with_its_connection() {
    let (flow, conn) = relay_request(upstream(9), false).connected(Ok("conn")).unwrap();
    assert_eq!(flow.upstream, Some(upstream(9)));
    assert_eq!(conn, "conn");
    let refused = relay_request(upstream(9), false)
        .connected::<&str>(Err(IoError::new(ErrorKind::ConnectionRefused, "refused")));
    assert!(matches!(refused, Err(UdpProxyError::ConnectUpstream { .. })));
    assert_eq!(handle_proxy_result(&refused.map(|_| ())), Some(RouteErrorKind::Io));
    assert_eq!(handle_proxy_result(&Ok(())), None);
}
