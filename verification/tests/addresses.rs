use proxy_common::addr::{
    validate_reverse_tunnel_name, InternetAddr, ParseInternetAddrError, ReverseTunnelTransport,
    RouteAddr, RouteAddrHdv, RouteAddrStr, SocketAddr, MAX_REVERSE_TUNNEL_NAME_LEN,
};
use proxy_common::conn::{
    same_upstream, DownstreamAddr, Flow, FlowHdv, FlowKey, UdpFlowId, UpstreamAddr,
    UDP_FLOW_ID_LEN,
};

fn v4(a: u8, b: u8, c: u8, d: u8, port: u16) -> SocketAddr {
    SocketAddr::V4 { ip: u32::from_be_bytes([a, b, c, d]), port }
}

fn parse(s: &str) -> Result<InternetAddr, ParseInternetAddrError> {
    let (host, port) = s.rsplit_once(':').ok_or(ParseInternetAddrError)?;
    let port: u16 = port.parse().map_err(|_| ParseInternetAddrError)?;
    let octets: Vec<u8> = host.split('.').filter_map(|o| o.parse().ok()).collect();
    if octets.len() == 4 {
        return Ok(InternetAddr::SocketAddr(v4(octets[0], octets[1], octets[2], octets[3], port)));
    }
    Ok(InternetAddr::DomainName { addr: host.to_owned(), port })
}

fn render(addr: &InternetAddr) -> String {
    match addr {
        InternetAddr::SocketAddr(SocketAddr::V4 { ip, port }) => {
            let o = ip.to_be_bytes();
            format!("{}.{}.{}.{}:{}", o[0], o[1], o[2], o[3], port)
        }
        InternetAddr::SocketAddr(SocketAddr::V6 { ip6, port, .. }) => format!("[{ip6:x}]:{port}"),
        InternetAddr::DomainName { addr, port } => format!("{addr}:{port}"),
    }
}

#[test]
fn addr_from_str_to_route_addr() {
    let addr = RouteAddr::from_str("tcp://0.0.0.0:0", parse).unwrap();
    assert_eq!(
        addr,
        RouteAddr {
            address: InternetAddr::SocketAddr(v4(0, 0, 0, 0, 0)),
            protocol: "tcp".to_string(),
        }
    );
}

#[test]
fn reverse_tunnel_names_round_trip_without_a_fake_port() {
    for address in ["revtuntcp://private-a", "revtunrtp://private.a_1"] {
        let parsed = RouteAddr::from_str(address, parse).unwrap();
        assert_eq!(parsed.to_text(render), address);
        assert_eq!(parsed.address.port(), 0);
        assert_eq!(parsed.reverse_tunnel().unwrap().1, &address[12..]);
    }
}

#[test]
fn invalid_reverse_tunnel_names_are_rejected() {
    for address in [
        "revtuntcp://",
        "revtuntcp://name:1",
        "revtuntcp://name/path",
        "revtunrtp://white space",
    ] {
        assert!(RouteAddr::from_str(address, parse).is_err(), "{address}");
    }
    let too_long = format!("revtuntcp://{}", "a".repeat(MAX_REVERSE_TUNNEL_NAME_LEN + 1));
    assert!(RouteAddr::from_str(&too_long, parse).is_err());
}

#[test]
fn addr_a_plain_address_defaults_to_the_udp_tag() {
    let addr = RouteAddr::from_str("127.0.0.1:1", parse).unwrap();
    assert_eq!(
        addr,
        RouteAddr {
            address: InternetAddr::SocketAddr(v4(127, 0, 0, 1, 1)),
            protocol: "udp".to_string(),
        }
    );
}

#[test]
fn addr_serde() {
    let s = "tcp://127.0.0.1:1";
    let v = RouteAddrStr(RouteAddr::from_str(s, parse).unwrap());
    assert_eq!(v.0.address, InternetAddr::SocketAddr(v4(127, 0, 0, 1, 1)));
    assert_eq!(v.0.protocol, "tcp".to_string());
    assert_eq!(v.0.to_text(render), s);
}

#[test]
fn a_name_of_the_greatest_length_is_accepted() {
    let longest = "a".repeat(MAX_REVERSE_TUNNEL_NAME_LEN);
    assert!(validate_reverse_tunnel_name(&longest).is_ok());
    assert!(validate_reverse_tunnel_name("A-b_c.9").is_ok());
    assert!(validate_reverse_tunnel_name("n\u{e9}").is_err());
}

#[test]
fn an_address_that_cannot_be_read_is_refused() {
    assert!(RouteAddr::from_str("tcp://nowhere", parse).is_err());
    assert!(RouteAddr::from_str("nowhere", parse).is_err());
}

#[test]
fn transports_and_their_protocols_belong_together() {
    for transport in [ReverseTunnelTransport::Tcp, ReverseTunnelTransport::Rtp] {
        assert_eq!(ReverseTunnelTransport::from_protocol(transport.protocol()), Some(transport));
    }
    assert_eq!(ReverseTunnelTransport::Tcp.protocol(), "revtuntcp");
    assert_eq!(ReverseTunnelTransport::Rtp.protocol(), "revtunrtp");
    assert_eq!(ReverseTunnelTransport::from_protocol("tcp"), None);
}

#[test]
fn a_plain_route_is_no_reverse_tunnel() {
    let plain = RouteAddr::from_str("tcp://example.com:443", parse).unwrap();
    assert!(plain.reverse_tunnel().is_none());
    assert_eq!(plain.address.port(), 443);
    assert_eq!(plain.to_text(render), "tcp://example.com:443");
}

#[test]
fn a_route_shows_as_its_address_and_its_protocol() {
    let route = RouteAddr::udp(InternetAddr::SocketAddr(v4(10, 0, 0, 1, 53)));
    let shown = RouteAddrHdv::from_route_addr(&route);
    assert_eq!(shown.addr, route.address);
    assert_eq!(shown.ty, "udp");
}

#[test]
fn addresses_of_different_kinds_differ() {
    let socket = InternetAddr::SocketAddr(v4(127, 0, 0, 1, 80));
    let v6 = InternetAddr::SocketAddr(SocketAddr::V6 {
        ip6: 1,
        port: 80,
        flowinfo: 0,
        scope_id: 0,
    });
    let name = InternetAddr::DomainName { addr: "localhost".to_owned(), port: 80 };
    assert!(socket.same(&socket.clone()));
    assert!(v6.same(&v6.clone()));
    assert!(name.same(&name.clone()));
    assert!(!socket.same(&v6));
    assert!(!socket.same(&name));
    assert!(!RouteAddr::udp(socket.clone()).same(&RouteAddr::udp(name)));
}

fn routed() -> FlowKey {
    FlowKey::Routed(Flow {
        upstream: None,
        downstream: DownstreamAddr(v4(127, 0, 0, 1, 1000)),
    })
}

fn identified() -> FlowKey {
    FlowKey::Identified {
        downstream: DownstreamAddr(v4(127, 0, 0, 1, 2000)),
        flow_id: UdpFlowId::from_bytes([7; UDP_FLOW_ID_LEN]),
    }
}

#[test]
fn a_flow_key_exposes_its_flow_only_when_routed() {
    let routed = routed();
    assert_eq!(routed.downstream(), DownstreamAddr(v4(127, 0, 0, 1, 1000)));
    assert!(routed.routed_flow().is_some(), "a routed key owns a flow");

    let identified = identified();
    assert_eq!(identified.downstream(), DownstreamAddr(v4(127, 0, 0, 1, 2000)));
    assert!(identified.routed_flow().is_none(), "an identified key has no routed flow");
}

#[test]
fn a_flow_names_its_ends() {
    let upstream = UpstreamAddr(RouteAddr::udp(InternetAddr::SocketAddr(v4(1, 1, 1, 1, 53))));
    let down = DownstreamAddr(v4(127, 0, 0, 1, 9));
    let up_text = |a: &RouteAddr| a.to_text(render);
    let dn_text = |a: &SocketAddr| render(&InternetAddr::SocketAddr(*a));
    let flow = Flow { upstream: Some(upstream), downstream: down };
    assert_eq!(flow.to_text(up_text, dn_text), "up:udp://1.1.1.1:53,dn:127.0.0.1:9");
    let shown = FlowHdv::from_flow(&flow);
    assert_eq!(shown.upstream, Some(InternetAddr::SocketAddr(v4(1, 1, 1, 1, 53))));
    assert_eq!(shown.downstream, InternetAddr::SocketAddr(v4(127, 0, 0, 1, 9)));
    let echo = Flow { upstream: None, downstream: down };
    assert_eq!(echo.to_text(up_text, dn_text), "dn:127.0.0.1:9");
    assert!(!same_upstream(&flow.upstream, &echo.upstream));
    assert!(same_upstream(&flow.upstream, &flow.clone().upstream));
}

#[test]
fn random_flow_ids_are_drawn_anew() {
    let first = UdpFlowId::random();
    let mut differs = false;
    for _ in 0..8 {
        differs = differs || !first.same(&UdpFlowId::random());
    }
    assert!(differs, "eight draws in a row repeated a sixteen-byte identifier");
    assert!(first.same(&UdpFlowId::from_bytes(*first.as_bytes())));
}
