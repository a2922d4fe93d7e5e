use std::cell::RefCell;

use proxy_common::addr::{InternetAddr, RouteAddr, SocketAddr};
use proxy_common::connect::{
    bind_addr_for, connect_any, timed, NamedStreamRegistry, StreamConnectorTable, UdpConnector,
    UdpRoutePlan,
};
use proxy_common::io::{ErrorKind, IoError};
use proxy_common::key_map::KeyMap;

const STREAM_TYPE: &str = "test";

fn v4(last: u32, port: u16) -> SocketAddr {
    SocketAddr::V4 { ip: 0xc000_0200 + last, port }
}

fn v6(port: u16) -> SocketAddr {
    SocketAddr::V6 { ip6: 0x2001_0db8 << 96 | 1, port, flowinfo: 0, scope_id: 0 }
}

#[test]
fn tries_next_resolved_address_after_non_refused_error() {
    let unreachable = v6(443);
    let successful = v4(1, 443);
    let attempted: RefCell<Vec<SocketAddr>> = RefCell::new(Vec::new());
    let connect = |addr: SocketAddr| -> Result<&'static str, IoError> {
        attempted.borrow_mut().push(addr);
        if addr != successful {
            return Err(IoError::new(ErrorKind::NetworkUnreachable, "network unreachable"));
        }
        Ok("conn")
    };
    let (conn, connected_addr) = connect_any(&[unreachable, successful], &connect).unwrap();
    assert_eq!(conn, "conn");
    assert_eq!(connected_addr, successful);
    assert_eq!(*attempted.borrow(), [unreachable, successful]);
}

#[test]
fn without_success_the_last_error_is_told() {
    let connect = |addr: SocketAddr| -> Result<u8, IoError> {
        Err(IoError::other(format!("port {}", addr.port())))
    };
    let e = connect_any(&[v4(1, 1), v4(2, 2)], &connect).unwrap_err();
    assert_eq!(e.message, "port 2");
    let e = connect_any(&[], &connect).unwrap_err();
    assert_eq!(e.message, "no addrs");
}

#[test]
fn stale_registration_cannot_remove_its_replacement() {
    let mut named: NamedStreamRegistry<SocketAddr> = NamedStreamRegistry::new();
    let old = named.register(STREAM_TYPE.to_owned(), "private-a".to_owned(), v4(1, 443));
    let expected = v4(2, 443);
    let replacement = named.register(STREAM_TYPE.to_owned(), "private-a".to_owned(), expected);
    assert_ne!(old.generation, replacement.generation);
    assert!(!named.unregister(&old));
    assert_eq!(named.find(STREAM_TYPE, "private-a"), Some(&expected));
}

#[test]
fn named_connect_waits_for_registration() {
    let mut named: NamedStreamRegistry<SocketAddr> = NamedStreamRegistry::new();
    assert!(named.find(STREAM_TYPE, "private-a").is_none());
    let before = named.changed;
    let expected = v4(10, 443);
    let registration =
        named.register(STREAM_TYPE.to_owned(), "private-a".to_owned(), expected);
    assert_ne!(named.changed, before, "whoever waits is woken");
    assert_eq!(named.find(STREAM_TYPE, "private-a"), Some(&expected));
    assert!(named.find("other", "private-a").is_none());
    assert!(named.unregister(&registration));
    assert!(named.find(STREAM_TYPE, "private-a").is_none());
    assert!(!named.unregister(&registration));
}

#[test]
fn an_unknown_stream_type_is_refused() {
    let mut connectors: KeyMap<String, u8> = KeyMap::new();
    connectors.insert("tcp".to_owned(), 6);
    let table: StreamConnectorTable<u8, u8> = StreamConnectorTable::new(connectors);
    assert_eq!(table.connector("tcp").unwrap(), &6);
    let e = table.connector("smoke").unwrap_err();
    assert_eq!(e.kind, ErrorKind::InvalidInput);
    assert_eq!(e.message, "invalid stream type: `smoke`");
}

#[test]
fn a_datagram_route_goes_by_tunnel_dialer_or_socket() {
    let mut connector: UdpConnector<u8, u8> = UdpConnector::new();
    connector.register_dialer("rtp".to_owned(), 2);
    connector.register_dialer("rtp".to_owned(), 3);
    let route = |protocol: &str| RouteAddr {
        address: InternetAddr::DomainName { addr: "private-a".to_owned(), port: 0 },
        protocol: protocol.to_owned(),
    };
    let tunnel = route("revtuntcp");
    match connector.connect_route(&tunnel) {
        UdpRoutePlan::Named { protocol, name } => {
            assert_eq!(protocol, "revtuntcp");
            assert_eq!(name, "private-a");
        }
        other => panic!("expected a tunnel, got {other:?}"),
    }
    assert!(matches!(connector.connect_route(&route("rtp")), UdpRoutePlan::Dial(3)));
    assert!(matches!(connector.connect_route(&route("udp")), UdpRoutePlan::Socket));
}

#[test]
fn a_step_that_takes_too_long_times_out() {
    let e = timed::<u8>(None, "timed out").unwrap_err();
    assert_eq!(e.kind, ErrorKind::TimedOut);
    assert_eq!(e.message, "timed out");
    assert_eq!(timed(Some(Ok(4)), "timed out").unwrap(), 4);
}

#[test]
fn a_map_keeps_one_value_per_key() {
    let mut map: KeyMap<String, u8> = KeyMap::new();
    map.insert("a".to_owned(), 1);
    map.insert("b".to_owned(), 2);
    map.insert("a".to_owned(), 3);
    assert_eq!(map.get(&"a".to_owned()), Some(&3));
    assert_eq!(map.get(&"b".to_owned()), Some(&2));
    assert_eq!(map.remove(&"a".to_owned()), Some(3));
    assert_eq!(map.remove(&"a".to_owned()), None);
    assert_eq!(map.get(&"a".to_owned()), None);
}

#[test]
fn a_connection_is_bound_to_its_peers_family() {
    let any = SocketAddr::V4 { ip: 0, port: 0 };
    assert_eq!(bind_addr_for(None, v4(1, 443)), any);
    let any6 = SocketAddr::V6 { ip6: 0, port: 0, flowinfo: 0, scope_id: 0 };
    assert_eq!(bind_addr_for(None, v6(443)), any6);
    assert_eq!(bind_addr_for(Some(v4(7, 99)), v4(1, 443)), v4(7, 0));
}

#[test]
fn a_connector_tells_of_its_sessions() {
    let mut connectors: KeyMap<String, u8> = KeyMap::new();
    connectors.insert("tcp".to_owned(), 6);
    let mut table: StreamConnectorTable<u8, u16> = StreamConnectorTable::new(connectors);
    let stats = |connector: &u8, addr: SocketAddr| Some(format!("{connector} at {}", addr.port()));
    assert_eq!(table.session_stats("tcp", v4(1, 443), &stats), Some("6 at 443".to_owned()));
    assert_eq!(table.session_stats("rtp", v4(1, 443), &stats), None);
    assert!(table.reports_session_stats("tcp", &|connector: &u8| *connector == 6));
    assert!(!table.reports_session_stats("tcp", &|connector: &u8| *connector == 7));
    assert!(!table.reports_session_stats("rtp", &|_: &u8| true));

    let named = |connector: &u16| Some(format!("tunnel {connector}"));
    assert_eq!(table.named_session_stats("revtuntcp", "private-a", &named), None);
    let registration =
        table.register_named("revtuntcp".to_owned(), "private-a".to_owned(), 11);
    assert_eq!(
        table.named_session_stats("revtuntcp", "private-a", &named),
        Some("tunnel 11".to_owned())
    );
    assert!(table.named.unregister(&registration));
    assert_eq!(table.named_session_stats("revtuntcp", "private-a", &named), None);

    let mut connector: UdpConnector<u8, u16> = UdpConnector::new();
    connector.register_named("revtunrtp".to_owned(), "private-b".to_owned(), 12);
    assert_eq!(
        connector.named_session_stats("revtunrtp", "private-b", &named),
        Some("tunnel 12".to_owned())
    );
    assert_eq!(connector.named_session_stats("revtuntcp", "private-b", &named), None);
}
