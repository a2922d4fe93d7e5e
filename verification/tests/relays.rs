use proxy_common::addr::{InternetAddr, RouteAddr, SocketAddr};
use proxy_common::conn::{DownstreamAddr, Flow, UpstreamAddr};
use proxy_common::crypto::{CryptoConfig, Encrypted, EncryptionDirection, X_NONCE_BYTES};
use proxy_common::io::{ErrorKind, IoError};
use proxy_common::metrics::{
    retained_until, session_times, BothSessionTables, StreamSession, StreamSessionView, UdpSession,
    UdpSessionHdv,
};
use proxy_common::relay::stream::{
    cipher_side, get_log_from_copy_result, BytesCopied, CipherSide, ConnContext,
    CopyBiError as StreamCopyError, CopyBidirectional, TransferState, TransferStep,
};
use proxy_common::relay::udp::{
    is_udp_eof, on_recv, on_shutdown, AnyError, CopyBiError, FlowLog, FlowLogHdv, Link, PacketStep,
    RecvStep, RelayOutcome, ShutdownOutcome, Timing, TrafficLog, UdpRelay,
};
use proxy_common::text::decimal;
use proxy_common::time::{Duration, Instant, SystemTime};

fn sock(port: u16) -> SocketAddr {
    SocketAddr::V4 { ip: 0x7f00_0001, port }
}

fn route(port: u16) -> RouteAddr {
    RouteAddr::udp(InternetAddr::SocketAddr(sock(port)))
}

fn flow() -> Flow {
    Flow { upstream: Some(UpstreamAddr(route(9))), downstream: DownstreamAddr(sock(1)) }
}

fn now() -> Instant {
    Instant { nanos: 90_000_000_000 }
}

fn wall() -> SystemTime {
    SystemTime { nanos: 1_700_000_000_000_000_000 }
}

fn later(secs: u64) -> Instant {
    now().after(Duration::from_secs(secs))
}

fn io(kind: ErrorKind) -> IoError {
    IoError::new(kind, "read failed")
}

// Reads `payload` once and then meets the end, or fails to read.
fn transfer(
    reads: Vec<Result<usize, IoError>>,
    shutdown: Result<(), IoError>,
) -> (TransferState, Option<Result<u64, IoError>>) {
    let mut state = TransferState::new();
    for read in reads {
        match state.on_read(read) {
            TransferStep::Write(n) => state.on_written(n),
            TransferStep::Shutdown => {
                let ended = state.on_shutdown(shutdown);
                return (state, Some(ended));
            }
            TransferStep::Fail(e) => return (state, Some(Err(e))),
        }
    }
    (state, None)
}

#[test]
fn an_error_reading_a_is_labelled_from_a() {
    let (a, a_end) = transfer(vec![Err(io(ErrorKind::Other))], Ok(()));
    let (b, b_end) = transfer(vec![], Ok(()));
    let copy = CopyBidirectional { a_to_b: a, b_to_a: b };
    let (result, _amounts) = copy.poll(a_end, b_end).unwrap();
    assert!(matches!(&result, Err(StreamCopyError::FromAToB(_))), "{result:?}");
}

#[test]
fn an_error_reading_b_is_labelled_from_b() {
    let (a, a_end) = transfer(vec![], Ok(()));
    let (b, b_end) = transfer(vec![Err(io(ErrorKind::Other))], Ok(()));
    let copy = CopyBidirectional { a_to_b: a, b_to_a: b };
    let (result, _amounts) = copy.poll(a_end, b_end).unwrap();
    assert!(matches!(&result, Err(StreamCopyError::FromBToA(_))), "{result:?}");
}

#[test]
fn a_peer_went_away_read_error_is_treated_as_eof() {
    for kind in [ErrorKind::NotConnected, ErrorKind::ConnectionReset, ErrorKind::BrokenPipe] {
        let (a, a_end) = transfer(vec![Err(io(kind))], Ok(()));
        let (b, b_end) = transfer(vec![Ok(7), Ok(0)], Ok(()));
        let copy = CopyBidirectional { a_to_b: a, b_to_a: b };
        let (result, amounts) = copy.poll(a_end, b_end).unwrap();
        assert!(
            result.is_ok(),
            "a {kind:?} read error must be treated as EOF, got {result:?}"
        );
        assert_eq!(amounts.a_to_b, 0, "{kind:?}");
        assert_eq!(amounts.b_to_a, 7, "the other direction still drained");
    }
}

#[test]
fn a_peer_went_away_shutdown_error_is_not_a_copy_error() {
    for kind in [ErrorKind::NotConnected, ErrorKind::ConnectionReset, ErrorKind::BrokenPipe] {
        let (a, a_end) = transfer(vec![Err(io(ErrorKind::ConnectionReset))], Err(io(kind)));
        let (b, b_end) = transfer(vec![Ok(7), Ok(0)], Ok(()));
        let copy = CopyBidirectional { a_to_b: a, b_to_a: b };
        let (result, amounts) = copy.poll(a_end, b_end).unwrap();
        assert!(
            result.is_ok(),
            "a {kind:?} shutdown error must be tolerated, got {result:?}"
        );
        assert_eq!(amounts.b_to_a, 7);
    }
}

#[test]
fn a_copy_runs_until_both_directions_are_done() {
    let mut copy = CopyBidirectional::new();
    assert_eq!(copy.amounts(), BytesCopied { a_to_b: 0, b_to_a: 0 });
    copy.a_to_b.on_written(5);
    assert!(copy.poll(Some(Ok(5)), None).is_none());
    assert!(copy.poll(None, None).is_none());
    let (result, amounts) = copy.poll(None, Some(Err(io(ErrorKind::Other)))).unwrap();
    assert!(result.is_err());
    assert_eq!(amounts, BytesCopied { a_to_b: 5, b_to_a: 0 });
    let mut closing = TransferState::ShuttingDown(3);
    assert!(closing.on_shutdown(Err(io(ErrorKind::Other))).is_err());
    assert_eq!(closing, TransferState::ShuttingDown(3));
    assert_eq!(closing.on_shutdown(Ok(())).unwrap(), 3);
    assert_eq!(closing, TransferState::Done(3));
}

#[test]
fn the_ciphertext_side_follows_the_direction() {
    assert_eq!(cipher_side(false, EncryptionDirection::Encrypt), CipherSide::Neither);
    assert_eq!(cipher_side(true, EncryptionDirection::Encrypt), CipherSide::Upstream);
    assert_eq!(cipher_side(true, EncryptionDirection::Decrypt), CipherSide::Downstream);
}

#[test]
fn a_stream_record_counts_what_went_up_and_down() {
    let context = ConnContext {
        start: (now(), wall()),
        upstream_remote: route(9),
        upstream_remote_sock: sock(9),
        downstream_remote: Some(sock(1)),
        downstream_local: "local".to_owned(),
        upstream_local: None,
        destination: None,
    };
    let log = get_log_from_copy_result(context, BytesCopied { a_to_b: 3, b_to_a: 4 }, later(2));
    assert_eq!(log.bytes_uplink, 3);
    assert_eq!(log.bytes_downlink, 4);
    assert_eq!(log.timing.duration(), Duration::from_secs(2));
    assert_eq!(log.upstream_addr, route(9));
    assert_eq!(log.downstream_addr, Some(sock(1)));
}

#[test]
fn display_reports_upstream_and_downstream_traffic_in_their_own_slots() {
    let log = FlowLog {
        flow: flow(),
        timing: Timing { start: (now(), wall()), end: later(2) },
        up: TrafficLog { bytes: 11, packets: 1 },
        dn: TrafficLog { bytes: 22, packets: 2 },
    };
    let rendered = log.to_text(
        &|d: Duration| format!("{:.1}", d.nanos as f64 / 1e9),
        &|bytes: u64, d: Duration| format!("{bytes},{}/s", bytes as f64 / (d.nanos as f64 / 1e9)),
        &|_: &RouteAddr| "tcp://10.0.0.1:9000".to_owned(),
        &|_: &SocketAddr| "127.0.0.1:5000".to_owned(),
    );
    assert!(
        rendered.contains("up{1,"),
        "the up slot must carry the uplink counters: {rendered}"
    );
    assert!(
        rendered.contains("dn{2,"),
        "the dn slot must carry the downlink counters: {rendered}"
    );
    assert_eq!(
        rendered,
        "2.0s,up{1,11,5.5/s},dn{2,22,11/s},up:tcp://10.0.0.1:9000,dn:127.0.0.1:5000"
    );
}

fn cipher(packet: &[u8], crypto: &CryptoConfig) -> Result<Encrypted, IoError> {
    let mut output = vec![0; X_NONCE_BYTES];
    output.extend(packet.iter().map(|b| b ^ crypto.key[0]));
    Ok(Encrypted { output, consumed: packet.len() })
}

fn decipher(packet: &[u8], crypto: &CryptoConfig, len: usize) -> Result<Vec<u8>, IoError> {
    Ok(packet[X_NONCE_BYTES..X_NONCE_BYTES + len].iter().map(|b| b ^ crypto.key[0]).collect())
}

fn relay(payload_crypto: Option<CryptoConfig>, en_dir: EncryptionDirection) -> UdpRelay {
    UdpRelay::new(now(), wall(), payload_crypto, en_dir, 64)
}

fn step(relay: &mut UdpRelay, link: Link, packet: &[u8], header: Option<&[u8]>) -> PacketStep {
    relay.on_packet(link, packet, header, later(5), &cipher, &decipher)
}

#[test]
fn one_end_encrypts_what_the_other_decrypts() {
    let key = Some(CryptoConfig { key: [3; 32] });
    let mut access = relay(key, EncryptionDirection::Encrypt);
    let mut proxy = relay(key, EncryptionDirection::Decrypt);
    let sent = match step(&mut access, Link::Up, b"hello", None) {
        PacketStep::Send(sent) => sent,
        other => panic!("expected a packet, got {other:?}"),
    };
    assert_ne!(&sent[..], b"hello");
    assert!(matches!(step(&mut proxy, Link::Up, &sent, None), PacketStep::Send(p) if p == b"hello"));
    let answer = match step(&mut proxy, Link::Down, b"world", None) {
        PacketStep::Send(sent) => sent,
        other => panic!("expected a packet, got {other:?}"),
    };
    let back = step(&mut access, Link::Down, &answer, None);
    assert!(matches!(back, PacketStep::Send(p) if p == b"world"));
}

#[test]
fn a_relay_frames_only_what_goes_down() {
    let mut plain = relay(None, EncryptionDirection::Encrypt);
    let down = step(&mut plain, Link::Down, b"data", Some(b"hdr:"));
    assert!(matches!(down, PacketStep::Send(p) if p == b"hdr:data"));
    let up = step(&mut plain, Link::Up, b"data", Some(b"hdr:"));
    assert!(matches!(up, PacketStep::Send(p) if p == b"data"));
}

#[test]
fn a_packet_that_filled_the_buffer_is_dropped_on_its_way_down() {
    let mut plain = relay(None, EncryptionDirection::Encrypt);
    assert!(matches!(step(&mut plain, Link::Down, &[1; 64], None), PacketStep::TooLarge));
    assert!(matches!(step(&mut plain, Link::Up, &[1; 64], None), PacketStep::Send(_)));
}

#[test]
fn a_packet_that_cannot_be_transformed_warns_at_most_once_a_moment() {
    let mut keyed = relay(Some(CryptoConfig { key: [3; 32] }), EncryptionDirection::Decrypt);
    let short = step(&mut keyed, Link::Up, b"short", None);
    assert!(matches!(short, PacketStep::Drop { warn: true }), "{short:?}");
    let again = step(&mut keyed, Link::Up, b"short", None);
    assert!(matches!(again, PacketStep::Drop { warn: false }), "{again:?}");
}

#[test]
fn a_relay_counts_what_was_sent_and_knows_when_it_is_idle() {
    let mut plain = relay(None, EncryptionDirection::Encrypt);
    let timeout = Duration::from_secs(30);
    plain.on_sent(Link::Up, 10, Ok(10), later(10)).unwrap();
    plain.on_sent(Link::Down, 4, Ok(4), later(20)).unwrap();
    plain.on_sent(Link::Down, 6, Ok(6), later(20)).unwrap();
    assert_eq!(plain.up, TrafficLog { bytes: 10, packets: 1 });
    assert_eq!(plain.dn, TrafficLog { bytes: 10, packets: 2 });
    assert!(!plain.is_idle(later(45), timeout), "one direction keeps the flow alive");
    assert!(plain.is_idle(later(51), timeout));
    let lost = AnyError::from_io(io(ErrorKind::ConnectionReset));
    let failed = plain.on_sent(Link::Up, 10, Err(lost), later(21));
    assert!(matches!(failed, Err(CopyBiError::SendUpstream(_))));
    assert_eq!(plain.up.packets, 1);
}

#[test]
fn a_direction_ends_with_its_sender() {
    assert!(matches!(on_recv(Link::Up, Ok(12)), RecvStep::Throttle(12)));
    let eof = || AnyError::from_io(io(ErrorKind::UnexpectedEof));
    assert!(is_udp_eof(&eof()));
    assert!(matches!(on_recv(Link::Up, Err(eof())), RecvStep::Shutdown));
    let reset = || AnyError::from_io(io(ErrorKind::ConnectionReset));
    assert!(!is_udp_eof(&reset()));
    assert!(matches!(
        on_recv(Link::Up, Err(reset())),
        RecvStep::Fail(CopyBiError::RecvDownstream(_))
    ));
    assert!(matches!(
        on_recv(Link::Down, Err(reset())),
        RecvStep::Fail(CopyBiError::RecvUpstream(_))
    ));
    assert!(on_shutdown(Link::Up, Ok(ShutdownOutcome::Propagated)).is_ok());
    assert!(on_shutdown(Link::Up, Ok(ShutdownOutcome::Unsupported)).is_ok());
    assert!(matches!(on_shutdown(Link::Up, Err(reset())), Err(CopyBiError::SendUpstream(_))));
    assert!(matches!(on_shutdown(Link::Down, Err(reset())), Err(CopyBiError::SendDownstream(_))));
}

#[test]
fn a_relay_ends_in_a_record_or_its_first_error() {
    let plain = relay(None, EncryptionDirection::Encrypt);
    let log = RelayOutcome::new().finish(flow(), &plain).unwrap();
    assert_eq!(log.flow.downstream, DownstreamAddr(sock(1)));
    let shown = FlowLogHdv::from_flow_log(&log);
    assert_eq!(shown.up, TrafficLog { bytes: 0, packets: 0 });
    assert_eq!(shown.flow.upstream, Some(InternetAddr::SocketAddr(sock(9))));
    let mut outcome = RelayOutcome::new();
    let lost = |n: u8| AnyError { io_kind: None, message: format!("lost {n}") };
    outcome.on_link_end(Some(Err(CopyBiError::RecvUpstream(lost(1)))));
    outcome.on_sibling_end(Err(CopyBiError::RecvDownstream(lost(2))));
    match outcome.finish(flow(), &plain) {
        Err(CopyBiError::RecvUpstream(e)) => assert_eq!(e.message, "lost 1"),
        other => panic!("expected the first error, got {other:?}"),
    }
}

fn ms(nanos: i128) -> SystemTime {
    SystemTime { nanos: nanos * 1_000_000 }
}

#[test]
fn a_session_lasts_until_its_end_or_until_now() {
    let running = session_times(ms(1_000), None, ms(1_250));
    assert_eq!((running.duration, running.start_ms, running.end_ms), (250, 1_000, None));
    let ended = session_times(ms(1_000), Some(ms(1_100)), ms(9_000));
    assert_eq!((ended.duration, ended.start_ms, ended.end_ms), (100, 1_000, Some(1_100)));
    let set_back = session_times(ms(1_000), Some(ms(900)), ms(9_000));
    assert_eq!(set_back.duration, 0);
    let before_epoch = session_times(ms(-5), None, ms(20));
    assert_eq!((before_epoch.duration, before_epoch.start_ms), (20, 0));
    assert_eq!(retained_until(now()), later(5));
}

#[test]
fn a_datagram_session_shows_what_its_server_knows() {
    let proxy = UdpSession::of_proxy_server(&flow(), None, ms(1_000), 7u64, 8u64).unwrap();
    assert_eq!(proxy.destination, None);
    assert_eq!(proxy.upstream_remote, InternetAddr::SocketAddr(sock(9)));
    let first_hop = InternetAddr::SocketAddr(sock(30));
    let mut access =
        UdpSession::of_access_server(&flow(), Some(sock(5)), first_hop.clone(), ms(1_000), 7u64, 8u64)
            .unwrap();
    assert_eq!(access.destination, Some(InternetAddr::SocketAddr(sock(9))));
    assert_eq!(access.upstream_remote, first_hop);
    access.finish(ms(1_500));
    let shown = UdpSessionHdv::from_udp_session(&access, ms(9_000), &|g: &u64| g * 10);
    assert_eq!(shown.times.duration, 500);
    assert_eq!((shown.up, shown.dn), (70, 80));
    assert_eq!(shown.destination, Some(InternetAddr::SocketAddr(sock(9))));
    assert_eq!(shown.upstream_local, Some(sock(5)));
    assert_eq!(shown.downstream_remote, sock(1));
    let echo = Flow { upstream: None, downstream: DownstreamAddr(sock(1)) };
    assert!(UdpSession::of_proxy_server(&echo, None, ms(0), 0, 0).is_none());
}

#[test]
fn a_stream_session_shows_its_routes() {
    let session = StreamSession {
        start: ms(10),
        end: None,
        destination: Some(route(7)),
        upstream_local: None,
        upstream_remote: route(9),
        downstream_local: "tcp://0.0.0.0:1".to_owned(),
        downstream_remote: None,
        up_gauge: Some(2u64),
        dn_gauge: None,
    };
    let shown = StreamSessionView::from_stream_session(&session, ms(15), &|g: &u64| g + 1);
    assert_eq!(shown.destination.unwrap().addr, route(7).address);
    assert_eq!(shown.upstream_remote.ty, "udp");
    assert_eq!((shown.up, shown.dn), (Some(3), None));
    assert_eq!(shown.times.duration, 5);
    assert_eq!(shown.downstream_local, "tcp://0.0.0.0:1");
}

#[test]
fn session_tables_are_there_or_not() {
    let tables: BothSessionTables<u8, u16> = BothSessionTables::new(1, 2);
    assert_eq!((tables.stream(), tables.udp()), (Some(&1), Some(&2)));
    let empty: BothSessionTables<u8, u16> = BothSessionTables::empty();
    assert_eq!((empty.stream(), empty.udp()), (None, None));
}

#[test]
fn numbers_are_written_in_decimal() {
    for n in [0, 7, 10, 99, 127, 1_000_000, u64::MAX] {
        assert_eq!(decimal(n), n.to_string());
    }
}

#[test]
fn times_are_told_apart_without_wrapping() {
    assert_eq!(now().duration_since(later(3)), Duration::zero());
    assert_eq!(later(3).duration_since(now()), Duration::from_secs(3));
    assert_eq!(ms(5).duration_since(ms(-5)), Some(Duration::from_millis(10)));
    assert_eq!(ms(-5).duration_since(ms(5)), None);
    let far = SystemTime { nanos: i128::MAX };
    let ago = SystemTime { nanos: i128::MIN };
    assert_eq!(far.duration_since(ago), Some(Duration { nanos: u128::MAX }));
    assert_eq!(ms(-1).since_epoch(), None);
    assert_eq!(Duration::from_secs(1).saturating_sub(Duration::from_secs(2)), Duration::zero());
}
