//! Relaying datagrams both ways between the two ends of a flow.
//!
//! The two directions run side by side and share one [`UdpRelay`]: what a
//! packet becomes, what is counted, and when the flow counts as idle. A third
//! party, [`RelayOutcome`], waits for the directions to end.

use vstd::prelude::*;
use vstd::string::*;
use crate::addr::{RouteAddr, SocketAddr};
use crate::conn::{Flow, FlowHdv};
use crate::crypto::{
    ciphers_to, decrypting_hands_on_what_the_cipher_read, direction_yields,
    encrypting_hands_on_what_the_cipher_wrote, reads_back, send_dyn, transforms_to, CryptoConfig, Encrypted, EncryptionDirection, X_NONCE_BYTES,
};
use crate::io::{ErrorKind, IoError};
use crate::text::{decimal, decimal_text, decimal_texts_tell_numbers_apart};
use crate::time::{Duration, Instant, SystemTime, NANOS_PER_SEC};

verus! {

/// How often a relay looks for idleness.
pub const ACTIVITY_CHECK_INTERVAL_SECS: u64 = 1;

/// The shortest time between two warnings of dropped packets.
pub const CRYPTO_FAIL_WARN_INTERVAL_SECS: u64 = 1;

/// An error of any layer. What is known of it is whether it is an error of
/// input or output, and of which kind.
#[derive(Debug)]
pub struct AnyError {
    pub io_kind: Option<ErrorKind>,
    pub message: String,
}

impl AnyError {
    /// Whether the error is the clean end of a flow.
    pub open spec fn spec_is_udp_eof(self) -> bool {
        self.io_kind == Some(ErrorKind::UnexpectedEof)
    }

    /// Whether it is an error of input or output of that kind, saying that.
    pub open spec fn is_io(self, kind: ErrorKind, message: Seq<char>) -> bool {
        self.io_kind == Some(kind) && self.message@ == message
    }

    /// An error of input or output, as an error of any layer.
    pub fn from_io(error: IoError) -> (r: Self)
        ensures
            r == (AnyError { io_kind: Some(error.kind), message: error.message }),
    {
        AnyError { io_kind: Some(error.kind), message: error.message }
    }
}

/// Whether the error is the clean end of a flow.
pub fn is_udp_eof(error: &AnyError) -> (r: bool)
    ensures
        r == error.spec_is_udp_eof(),
{
    match error.io_kind {
        Some(kind) => kind == ErrorKind::UnexpectedEof,
        None => false,
    }
}

/// How a write-half shutdown resolved.
#[derive(Debug, Clone, Copy, PartialEq, Eq, Structural)]
pub enum ShutdownOutcome {
    /// The peer was told that nothing more comes: the flow closed by itself,
    /// not by its timeout.
    Propagated,
    /// The transport cannot tell the peer so (a bare datagram socket): the
    /// flow is kept until its timeout.
    Unsupported,
}

/// Why a relay ended early.
#[derive(Debug)]
pub enum CopyBiError {
    SendUpstream(AnyError),
    RecvUpstream(AnyError),
    RecvDownstream(AnyError),
    SendDownstream(AnyError),
}

/// The two directions of a relay.
#[derive(Debug, Clone, Copy, PartialEq, Eq, Structural)]
pub enum Link {
    /// From the downstream to the upstream.
    Up,
    /// From the upstream to the downstream.
    Down,
}

impl Link {
    /// The error of a direction that could not receive.
    pub open spec fn recv_error(self, error: AnyError) -> CopyBiError {
        match self {
            Link::Up => CopyBiError::RecvDownstream(error),
            Link::Down => CopyBiError::RecvUpstream(error),
        }
    }

    /// The error of a direction that could not send or shut down.
    pub open spec fn send_error(self, error: AnyError) -> CopyBiError {
        match self {
            Link::Up => CopyBiError::SendUpstream(error),
            Link::Down => CopyBiError::SendDownstream(error),
        }
    }

    fn recv_failed(self, error: AnyError) -> (r: CopyBiError)
        ensures
            r == self.recv_error(error),
    {
        match self {
            Link::Up => CopyBiError::RecvDownstream(error),
            Link::Down => CopyBiError::RecvUpstream(error),
        }
    }

    fn send_failed(self, error: AnyError) -> (r: CopyBiError)
        ensures
            r == self.send_error(error),
    {
        match self {
            Link::Up => CopyBiError::SendUpstream(error),
            Link::Down => CopyBiError::SendDownstream(error),
        }
    }
}

/// What a direction does about what it received.
#[derive(Debug)]
pub enum RecvStep {
    /// A packet came: wait until the speed limit lets this many bytes pass,
    /// then hand it on.
    Throttle(usize),
    /// The sender closed its end: shut down the writer on the other side, so
    /// that the clean end travels on.
    Shutdown,
    /// Receiving failed: the direction ends.
    Fail(CopyBiError),
}

/// Decides what to do about a receive of `n` bytes or its error.
pub fn on_recv(link: Link, outcome: Result<usize, AnyError>) -> (r: RecvStep)
    ensures
        match outcome {
            Ok(n) => r == RecvStep::Throttle(n),
            Err(error) => if error.spec_is_udp_eof() {
                r is Shutdown
            } else {
                r == RecvStep::Fail(link.recv_error(error))
            },
        },
{
    match outcome {
        Ok(n) => RecvStep::Throttle(n),
        Err(error) => if is_udp_eof(&error) {
            RecvStep::Shutdown
        } else {
            RecvStep::Fail(link.recv_failed(error))
        },
    }
}

/// How a direction ends after it shut down the writer. A transport that
/// cannot pass the end on is no error.
pub fn on_shutdown(link: Link, outcome: Result<ShutdownOutcome, AnyError>) -> (r: Result<
    (),
    CopyBiError,
>)
    ensures
        match outcome {
            Ok(_) => r is Ok,
            Err(error) => r == Err::<(), _>(link.send_error(error)),
        },
{
    match outcome {
        Ok(_) => Ok(()),
        Err(error) => Err(link.send_failed(error)),
    }
}

/// Bytes and packets that went one way.
#[derive(Debug, Clone, Copy, PartialEq, Eq, Hash, Structural)]
pub struct TrafficLog {
    pub bytes: u64,
    pub packets: u64,
}

/// What happens to a packet that passed the speed limit.
#[derive(Debug)]
pub enum PacketStep {
    /// The packet filled the whole buffer and may have been cut: drop it
    /// without metering it.
    TooLarge,
    /// The packet could not be encrypted or decrypted: it was metered, and is
    /// dropped, with a warning unless one was given a moment ago.
    Drop { warn: bool },
    /// The packet was metered; send this.
    Send(Vec<u8>),
}

/// What the two directions of one flow share.
#[derive(Debug)]
pub struct UdpRelay {
    pub start: (Instant, SystemTime),
    pub last_uplink_packet: Instant,
    pub last_downlink_packet: Instant,
    pub last_crypto_fail_warn: Instant,
    pub up: TrafficLog,
    pub dn: TrafficLog,
    pub payload_crypto: Option<CryptoConfig>,
    /// What is done to packets on their way up; the opposite is done to
    /// packets on their way down.
    pub en_dir: EncryptionDirection,
    /// The length of the packet buffers.
    pub packet_buffer_len: usize,
}

impl UdpRelay {
    /// A relay that starts now and has carried nothing.
    pub fn new(
        now: Instant,
        wall_now: SystemTime,
        payload_crypto: Option<CryptoConfig>,
        en_dir: EncryptionDirection,
        packet_buffer_len: usize,
    ) -> (r: Self)
        ensures
            r == (UdpRelay {
                start: (now, wall_now),
                last_uplink_packet: now,
                last_downlink_packet: now,
                last_crypto_fail_warn: now,
                up: TrafficLog { bytes: 0, packets: 0 },
                dn: TrafficLog { bytes: 0, packets: 0 },
                payload_crypto,
                en_dir,
                packet_buffer_len,
            }),
    {
        UdpRelay {
            start: (now, wall_now),
            last_uplink_packet: now,
            last_downlink_packet: now,
            last_crypto_fail_warn: now,
            up: TrafficLog { bytes: 0, packets: 0 },
            dn: TrafficLog { bytes: 0, packets: 0 },
            payload_crypto,
            en_dir,
            packet_buffer_len,
        }
    }

    /// What is done to packets that go the given way.
    pub open spec fn direction(self, link: Link) -> EncryptionDirection {
        match link {
            Link::Up => self.en_dir,
            Link::Down => self.en_dir.spec_flip(),
        }
    }

    /// Whether a dropped packet is worth a warning now.
    pub open spec fn warns_at(self, now: Instant) -> bool {
        now.nanos - self.last_crypto_fail_warn.nanos > CRYPTO_FAIL_WARN_INTERVAL_SECS
            * NANOS_PER_SEC
    }

    /// Notes that a packet was dropped, and tells whether to warn of it.
    fn log_crypto_drop(&mut self, now: Instant) -> (warn: bool)
        ensures
            warn == old(self).warns_at(now),
            *final(self) == (UdpRelay {
                last_crypto_fail_warn: if warn {
                    now
                } else {
                    old(self).last_crypto_fail_warn
                },
                ..*old(self)
            }),
    {
        let since = now.duration_since(self.last_crypto_fail_warn);
        let interval = Duration::from_secs(CRYPTO_FAIL_WARN_INTERVAL_SECS);
        if since.nanos > interval.nanos {
            self.last_crypto_fail_warn = now;
            true
        } else {
            false
        }
    }

    /// Decides what becomes of a packet that passed the speed limit. Packets
    /// for the downstream get the response header, if there is one, in front.
    pub fn on_packet<
        E: Fn(&[u8], &CryptoConfig) -> Result<Encrypted, IoError>,
        D: Fn(&[u8], &CryptoConfig, usize) -> Result<Vec<u8>, IoError>,
    >(
        &mut self,
        link: Link,
        packet: &[u8],
        response_header: Option<&[u8]>,
        now: Instant,
        cipher: &E,
        decipher: &D,
    ) -> (r: PacketStep)
        requires
            forall|p: &[u8], k: &CryptoConfig| call_requires(*cipher, (p, k)),
            forall|p: &[u8], k: &CryptoConfig, len: usize| call_requires(*decipher, (p, k, len)),
        ensures
            if link == Link::Down && packet@.len() == old(self).packet_buffer_len {
                r is TooLarge && *final(self) == *old(self)
            } else {
                exists|body: Option<Seq<u8>>|
                    #![trigger old(self).carries(*cipher, *decipher, link, packet@, body)]
                    {
                        &&& old(self).carries(*cipher, *decipher, link, packet@, body)
                        &&& match body {
                            None => {
                                &&& r == (PacketStep::Drop { warn: old(self).warns_at(now) })
                                &&& *final(self) == (UdpRelay {
                                    last_crypto_fail_warn: if old(self).warns_at(now) {
                                        now
                                    } else {
                                        old(self).last_crypto_fail_warn
                                    },
                                    ..*old(self)
                                })
                            },
                            Some(body) => {
                                &&& r matches PacketStep::Send(bytes)
                                &&& bytes@ == (match (link, response_header) {
                                    (Link::Down, Some(header)) => header@ + body,
                                    _ => body,
                                })
                                &&& *final(self) == *old(self)
                            },
                        }
                    }
            },
    {
        if link == Link::Down && packet.len() == self.packet_buffer_len {
            return PacketStep::TooLarge;
        }
        let direction = match link {
            Link::Up => self.en_dir,
            Link::Down => self.en_dir.flip(),
        };
        let body: Vec<u8> = match &self.payload_crypto {
            Some(crypto) => {
                let transformed = send_dyn(
                    packet,
                    self.packet_buffer_len,
                    crypto,
                    direction,
                    cipher,
                    decipher,
                );
                match transformed {
                    Some(body) => {
                        assert(self.carries(*cipher, *decipher, link, packet@, Some(body@)));
                        body
                    },
                    None => {
                        assert(old(self).carries(*cipher, *decipher, link, packet@, None));
                        let warn = self.log_crypto_drop(now);
                        return PacketStep::Drop { warn };
                    },
                }
            },
            None => {
                let mut body: Vec<u8> = Vec::new();
                body.extend_from_slice(packet);
                assert(body@ =~= packet@);
                assert(self.carries(*cipher, *decipher, link, packet@, Some(body@)));
                body
            },
        };
        match (link, response_header) {
            (Link::Down, Some(header)) => {
                let mut framed: Vec<u8> = Vec::new();
                framed.extend_from_slice(header);
                framed.extend_from_slice(body.as_slice());
                assert(framed@ =~= header@ + body@);
                PacketStep::Send(framed)
            },
            _ => PacketStep::Send(body),
        }
    }

    /// Whether the payload that goes on may be `body`, or, with none, the
    /// packet may be dropped.
    pub open spec fn carries<
        E: Fn(&[u8], &CryptoConfig) -> Result<Encrypted, IoError>,
        D: Fn(&[u8], &CryptoConfig, usize) -> Result<Vec<u8>, IoError>,
    >(
        self,
        cipher: E,
        decipher: D,
        link: Link,
        packet: Seq<u8>,
        body: Option<Seq<u8>>,
    ) -> bool {
        match self.payload_crypto {
            Some(crypto) => transforms_to(
                cipher,
                decipher,
                packet,
                self.packet_buffer_len,
                crypto,
                self.direction(link),
                body,
            ),
            None => body == Some(packet),
        }
    }

    /// The relay after one more packet of `bytes` bytes went the given way.
    pub open spec fn counted(self, link: Link, bytes: u64, now: Instant) -> UdpRelay {
        match link {
            Link::Up => UdpRelay {
                up: TrafficLog {
                    bytes: self.up.bytes.wrapping_add(bytes),
                    packets: self.up.packets.wrapping_add(1),
                },
                last_uplink_packet: now,
                ..self
            },
            Link::Down => UdpRelay {
                dn: TrafficLog {
                    bytes: self.dn.bytes.wrapping_add(bytes),
                    packets: self.dn.packets.wrapping_add(1),
                },
                last_downlink_packet: now,
                ..self
            },
        }
    }

    /// Counts a packet that was sent. The way up counts what was handed over,
    /// the way down what the transport says it took.
    pub fn on_sent(
        &mut self,
        link: Link,
        packet_len: usize,
        outcome: Result<usize, AnyError>,
        now: Instant,
    ) -> (r: Result<(), CopyBiError>)
        ensures
            match outcome {
                Ok(n) => {
                    &&& r is Ok
                    &&& *final(self) == old(self).counted(
                        link,
                        (if link == Link::Up {
                            packet_len
                        } else {
                            n
                        }) as u64,
                        now,
                    )
                },
                Err(error) => r == Err::<(), _>(link.send_error(error)) && *final(self)
                    == *old(self),
            },
    {
        let n: usize = match outcome {
            Ok(n) => n,
            Err(error) => {
                return Err(link.send_failed(error));
            },
        };
        match link {
            Link::Up => {
                self.up = TrafficLog {
                    bytes: self.up.bytes.wrapping_add(packet_len as u64),
                    packets: self.up.packets.wrapping_add(1),
                };
                self.last_uplink_packet = now;
            },
            Link::Down => {
                self.dn = TrafficLog {
                    bytes: self.dn.bytes.wrapping_add(n as u64),
                    packets: self.dn.packets.wrapping_add(1),
                };
                self.last_downlink_packet = now;
            },
        }
        Ok(())
    }

    /// Whether the flow has been silent both ways for longer than the timeout.
    pub open spec fn idle(self, now: Instant, flow_timeout: Duration) -> bool {
        &&& now.nanos - self.last_uplink_packet.nanos > flow_timeout.nanos
        &&& now.nanos - self.last_downlink_packet.nanos > flow_timeout.nanos
    }

    pub fn is_idle(&self, now: Instant, flow_timeout: Duration) -> (r: bool)
        ensures
            r == self.idle(now, flow_timeout),
    {
        now.duration_since(self.last_uplink_packet).nanos > flow_timeout.nanos
            && now.duration_since(self.last_downlink_packet).nanos > flow_timeout.nanos
    }
}

/// A packet that went either way keeps the flow alive: it is not idle before
/// another timeout has passed.
pub proof fn traffic_keeps_a_flow_alive(
    relay: UdpRelay,
    link: Link,
    bytes: u64,
    now: Instant,
    later: Instant,
    flow_timeout: Duration,
)
    requires
        later.nanos - now.nanos <= flow_timeout.nanos,
    ensures
        !relay.counted(link, bytes, now).idle(later, flow_timeout),
{
}

/// What is counted one way leaves the other way's counters alone.
pub proof fn links_are_counted_apart(relay: UdpRelay, link: Link, bytes: u64, now: Instant)
    ensures
        link == Link::Up ==> relay.counted(link, bytes, now).dn == relay.dn,
        link == Link::Down ==> relay.counted(link, bytes, now).up == relay.up,
{
}

/// What is encrypted on the way up is decrypted on the way down, and the other
/// way round.
pub proof fn links_transform_opposite_ways(relay: UdpRelay)
    ensures
        relay.direction(Link::Down) == relay.direction(Link::Up).spec_flip(),
        relay.direction(Link::Down) != relay.direction(Link::Up),
{
}

/// A packet that went one way.
pub struct SentPacket {
    pub link: Link,
    pub bytes: u64,
    pub now: Instant,
}

impl UdpRelay {
    /// The relay after all these packets went, in order.
    pub open spec fn counted_all(self, sent: Seq<SentPacket>) -> UdpRelay
        decreases sent.len(),
    {
        if sent.len() == 0 {
            self
        } else {
            let last = sent.last();
            self.counted_all(sent.drop_last()).counted(last.link, last.bytes, last.now)
        }
    }
}

/// How many of the packets went the given way.
pub open spec fn packets_sent(sent: Seq<SentPacket>, link: Link) -> int
    decreases sent.len(),
{
    if sent.len() == 0 {
        0
    } else {
        packets_sent(sent.drop_last(), link) + if sent.last().link == link {
            1int
        } else {
            0int
        }
    }
}

/// How many bytes the packets of the given way have together.
pub open spec fn bytes_sent(sent: Seq<SentPacket>, link: Link) -> int
    decreases sent.len(),
{
    if sent.len() == 0 {
        0
    } else {
        bytes_sent(sent.drop_last(), link) + if sent.last().link == link {
            sent.last().bytes as int
        } else {
            0int
        }
    }
}

/// The counters of a relay are the number and the bytes of the packets that
/// went each way, as long as these fit the counters.
pub proof fn relay_counts_what_was_sent(relay: UdpRelay, sent: Seq<SentPacket>)
    requires
        relay.up == (TrafficLog { bytes: 0, packets: 0 }),
        relay.dn == (TrafficLog { bytes: 0, packets: 0 }),
        packets_sent(sent, Link::Up) <= u64::MAX,
        packets_sent(sent, Link::Down) <= u64::MAX,
        bytes_sent(sent, Link::Up) <= u64::MAX,
        bytes_sent(sent, Link::Down) <= u64::MAX,
    ensures
        relay.counted_all(sent).up.packets == packets_sent(sent, Link::Up),
        relay.counted_all(sent).up.bytes == bytes_sent(sent, Link::Up),
        relay.counted_all(sent).dn.packets == packets_sent(sent, Link::Down),
        relay.counted_all(sent).dn.bytes == bytes_sent(sent, Link::Down),
    decreases sent.len(),
{
    if sent.len() > 0 {
        lemma_sent_is_not_negative(sent.drop_last());
        relay_counts_what_was_sent(relay, sent.drop_last());
    }
}

proof fn lemma_sent_is_not_negative(sent: Seq<SentPacket>)
    ensures
        packets_sent(sent, Link::Up) >= 0,
        packets_sent(sent, Link::Down) >= 0,
        bytes_sent(sent, Link::Up) >= 0,
        bytes_sent(sent, Link::Down) >= 0,
    decreases sent.len(),
{
    if sent.len() > 0 {
        lemma_sent_is_not_negative(sent.drop_last());
    }
}

/// When a flow started, by both clocks, and when its last packet passed.
#[derive(Debug, Clone, Copy)]
pub struct Timing {
    pub start: (Instant, SystemTime),
    pub end: Instant,
}

impl Timing {
    /// How long it took, in nanoseconds.
    pub open spec fn elapsed(self) -> int {
        if self.end.nanos >= self.start.0.nanos {
            self.end.nanos - self.start.0.nanos
        } else {
            0
        }
    }

    pub fn duration(&self) -> (d: Duration)
        ensures
            d.nanos == self.elapsed(),
    {
        self.end.duration_since(self.start.0)
    }
}

/// The record of one flow.
#[derive(Debug)]
pub struct FlowLog {
    pub flow: Flow,
    pub timing: Timing,
    pub up: TrafficLog,
    pub dn: TrafficLog,
}

/// The traffic of one direction as a record shows it: how many packets, and
/// what `volume` says of their bytes.
pub open spec fn traffic_text(name: Seq<char>, packets: u64, volume: Seq<char>) -> Seq<char> {
    name + "{"@ + decimal_text(packets as nat) + ","@ + volume + "}"@
}

fn write_traffic(text: &mut String, name: &str, packets: u64, volume: &String)
    ensures
        final(text)@ == old(text)@ + traffic_text(name@, packets, volume@),
{
    text.append(name);
    text.append("{");
    let count: String = decimal(packets);
    text.append(count.as_str());
    text.append(",");
    text.append(volume.as_str());
    text.append("}");
    assert(text@ =~= old(text)@ + traffic_text(name@, packets, volume@));
}

impl FlowLog {
    /// Whether the record of a flow with that upstream may read as the text.
    pub open spec fn reads_as<
        S: Fn(Duration) -> String,
        V: Fn(u64, Duration) -> String,
        U: Fn(&RouteAddr) -> String,
        D: Fn(&SocketAddr) -> String,
    >(
        self,
        upstream: RouteAddr,
        seconds: S,
        volume: V,
        render_upstream: U,
        render_downstream: D,
        text: Seq<char>,
    ) -> bool {
        exists|d: Duration, secs: String, up: String, dn: String, from: String, to: String|
            {
                &&& d.nanos == self.timing.elapsed()
                &&& #[trigger] call_ensures(seconds, (d,), secs)
                &&& #[trigger] call_ensures(volume, (self.up.bytes, d), up)
                &&& #[trigger] call_ensures(volume, (self.dn.bytes, d), dn)
                &&& #[trigger] call_ensures(render_upstream, (&upstream,), from)
                &&& #[trigger] call_ensures(render_downstream, (&self.flow.downstream.0,), to)
                &&& text == secs@ + "s,"@ + traffic_text("up"@, self.up.packets, up@) + ","@
                    + traffic_text("dn"@, self.dn.packets, dn@) + ",up:"@ + from@ + ",dn:"@ + to@
            }
    }

    /// Writes the record: the seconds, the traffic up and down, and the two
    /// ends. `seconds` writes the time it took, `volume` writes a number of
    /// bytes and how fast that was, and the other two write the ends.
    pub fn to_text<
        S: Fn(Duration) -> String,
        V: Fn(u64, Duration) -> String,
        U: Fn(&RouteAddr) -> String,
        D: Fn(&SocketAddr) -> String,
    >(
        &self,
        seconds: &S,
        volume: &V,
        render_upstream: &U,
        render_downstream: &D,
    ) -> (text: String)
        requires
            self.flow.upstream is Some,
            forall|d: Duration| call_requires(*seconds, (d,)),
            forall|n: u64, d: Duration| call_requires(*volume, (n, d)),
            forall|a: &RouteAddr| call_requires(*render_upstream, (a,)),
            forall|a: &SocketAddr| call_requires(*render_downstream, (a,)),
        ensures
            match self.flow.upstream {
                Some(upstream) => self.reads_as(
                    upstream.0,
                    *seconds,
                    *volume,
                    *render_upstream,
                    *render_downstream,
                    text@,
                ),
                None => false,
            },
    {
        let d = self.timing.duration();
        let mut text: String = seconds(d);
        let ghost secs = text;
        text.append("s,");
        let up: String = volume(self.up.bytes, d);
        write_traffic(&mut text, "up", self.up.packets, &up);
        text.append(",");
        let dn: String = volume(self.dn.bytes, d);
        write_traffic(&mut text, "dn", self.dn.packets, &dn);
        text.append(",up:");
        let from: String = match &self.flow.upstream {
            Some(upstream) => render_upstream(&upstream.0),
            None => String::new(),
        };
        text.append(from.as_str());
        text.append(",dn:");
        let to: String = render_downstream(&self.flow.downstream.0);
        text.append(to.as_str());
        assert(call_ensures(*seconds, (d,), secs));
        text
    }
}

/// The record of one flow as a metrics table holds it.
#[derive(Debug)]
pub struct FlowLogHdv {
    pub flow: FlowHdv,
    pub timing: Timing,
    pub up: TrafficLog,
    pub dn: TrafficLog,
}

impl FlowLogHdv {
    pub fn from_flow_log(value: &FlowLog) -> (r: Self)
        ensures
            r.timing == value.timing,
            r.up == value.up,
            r.dn == value.dn,
            match (r.flow.upstream, value.flow@.upstream) {
                (Some(a), Some(b)) => a@ == b.address,
                (None, None) => true,
                _ => false,
            },
            r.flow.downstream == crate::addr::InternetAddr::SocketAddr(value.flow@.downstream),
    {
        FlowLogHdv {
            flow: FlowHdv::from_flow(&value.flow),
            timing: value.timing,
            up: value.up,
            dn: value.dn,
        }
    }
}

/// How the relay as a whole is going: nothing wrong so far, or the first error
/// of a direction.
#[derive(Debug)]
pub struct RelayOutcome {
    pub error: Option<CopyBiError>,
}

impl RelayOutcome {
    pub fn new() -> (r: Self)
        ensures
            r.error is None,
    {
        RelayOutcome { error: None }
    }

    /// Takes note of a direction that ended, or that none is left. Tells
    /// whether the relay is over: it goes on after a clean end, until the
    /// other direction ends too.
    pub fn on_link_end(&mut self, ended: Option<Result<(), CopyBiError>>) -> (over: bool)
        ensures
            match ended {
                None => over && *final(self) == *old(self),
                Some(Ok(())) => !over && *final(self) == *old(self),
                Some(Err(error)) => over && final(self).error == Some(error),
            },
    {
        match ended {
            None => true,
            Some(Ok(())) => false,
            Some(Err(error)) => {
                self.error = Some(error);
                true
            },
        }
    }

    /// Takes note of how a direction that was still running ended once the
    /// relay was over: its error counts only if there was none before.
    pub fn on_sibling_end(&mut self, ended: Result<(), CopyBiError>)
        ensures
            match (old(self).error, ended) {
                (None, Err(error)) => final(self).error == Some(error),
                _ => *final(self) == *old(self),
            },
    {
        if self.error.is_none() {
            if let Err(error) = ended {
                self.error = Some(error);
            }
        }
    }

    /// The record of the flow, or the error that ended it.
    pub fn finish(self, flow: Flow, relay: &UdpRelay) -> (r: Result<FlowLog, CopyBiError>)
        ensures
            match self.error {
                Some(error) => r == Err::<FlowLog, _>(error),
                None => {
                    &&& r matches Ok(log)
                    &&& log.flow == flow
                    &&& log.timing.start == relay.start
                    &&& log.timing.end.nanos == (if relay.last_downlink_packet.nanos
                        >= relay.last_uplink_packet.nanos {
                        relay.last_downlink_packet.nanos
                    } else {
                        relay.last_uplink_packet.nanos
                    })
                    &&& log.up == relay.up
                    &&& log.dn == relay.dn
                },
            },
    {
        match self.error {
            Some(error) => Err(error),
            None => {
                let end = if relay.last_downlink_packet.nanos >= relay.last_uplink_packet.nanos {
                    relay.last_downlink_packet
                } else {
                    relay.last_uplink_packet
                };
                Ok(
                    FlowLog {
                        flow,
                        timing: Timing { start: relay.start, end },
                        up: relay.up,
                        dn: relay.dn,
                    },
                )
            },
        }
    }
}

proof fn lemma_last_packets(relay: UdpRelay, sent: Seq<SentPacket>)
    requires
        relay.last_uplink_packet == relay.start.0,
        relay.last_downlink_packet == relay.start.0,
        forall|i: int| 0 <= i < sent.len() ==> relay.start.0.nanos <= (#[trigger] sent[i]).now.nanos,
        forall|i: int, j: int|
            0 <= i <= j < sent.len() ==> (#[trigger] sent[i]).now.nanos <= (
            #[trigger] sent[j]).now.nanos,
    ensures
        forall|i: int|
            0 <= i < sent.len() ==> (#[trigger] sent[i]).now.nanos <= (match sent[i].link {
                Link::Up => relay.counted_all(sent).last_uplink_packet.nanos,
                Link::Down => relay.counted_all(sent).last_downlink_packet.nanos,
            }),
        relay.counted_all(sent).last_uplink_packet == relay.start.0 || exists|i: int|
            0 <= i < sent.len() && (#[trigger] sent[i]).now == relay.counted_all(
                sent,
            ).last_uplink_packet,
        relay.counted_all(sent).last_downlink_packet == relay.start.0 || exists|i: int|
            0 <= i < sent.len() && (#[trigger] sent[i]).now == relay.counted_all(
                sent,
            ).last_downlink_packet,
        relay.start.0.nanos <= relay.counted_all(sent).last_uplink_packet.nanos,
        relay.start.0.nanos <= relay.counted_all(sent).last_downlink_packet.nanos,
    decreases sent.len(),
{
    if sent.len() > 0 {
        let init = sent.drop_last();
        let n = sent.len() - 1;
        lemma_last_packets(relay, init);
        let before = relay.counted_all(init);
        let after = relay.counted_all(sent);
        assert(sent[n] == sent.last());
        assert forall|i: int| 0 <= i < sent.len() implies (#[trigger] sent[i]).now.nanos <= (
        match sent[i].link {
            Link::Up => after.last_uplink_packet.nanos,
            Link::Down => after.last_downlink_packet.nanos,
        }) by {
            if i < n {
                assert(init[i] == sent[i]);
            }
            assert(sent[i].now.nanos <= sent[n].now.nanos);
        }
        if sent[n].link == Link::Down && before.last_uplink_packet != relay.start.0 {
            let k = choose|k: int|
                0 <= k < init.len() && (#[trigger] init[k]).now == before.last_uplink_packet;
            assert(sent[k].now == after.last_uplink_packet);
        }
        if sent[n].link == Link::Up && before.last_downlink_packet != relay.start.0 {
            let k = choose|k: int|
                0 <= k < init.len() && (#[trigger] init[k]).now == before.last_downlink_packet;
            assert(sent[k].now == after.last_downlink_packet);
        }
    }
}

/// A flow is idle exactly once more than the timeout has passed since it started
/// and since every packet of it, whichever way the packets went and however many
/// there were: a flow with packets one way only, or with none, times out too.
pub proof fn a_flow_is_idle_once_nothing_was_sent_for_a_timeout(
    relay: UdpRelay,
    sent: Seq<SentPacket>,
    now: Instant,
    flow_timeout: Duration,
)
    requires
        relay.last_uplink_packet == relay.start.0,
        relay.last_downlink_packet == relay.start.0,
        forall|i: int| 0 <= i < sent.len() ==> relay.start.0.nanos <= (#[trigger] sent[i]).now.nanos,
        forall|i: int, j: int|
            0 <= i <= j < sent.len() ==> (#[trigger] sent[i]).now.nanos <= (
            #[trigger] sent[j]).now.nanos,
    ensures
        relay.counted_all(sent).idle(now, flow_timeout) <==> now.nanos - relay.start.0.nanos
            > flow_timeout.nanos && forall|i: int|
            0 <= i < sent.len() ==> now.nanos - (#[trigger] sent[i]).now.nanos
                > flow_timeout.nanos,
{
    lemma_last_packets(relay, sent);
}

/// Counting a packet tells nothing but the traffic and the time of the last
/// packet of its own direction.
pub proof fn counting_leaves_the_rest_alone(relay: UdpRelay, link: Link, bytes: u64, now: Instant)
    ensures
        ({
            let after = relay.counted(link, bytes, now);
            &&& after.start == relay.start
            &&& after.last_crypto_fail_warn == relay.last_crypto_fail_warn
            &&& after.payload_crypto == relay.payload_crypto
            &&& after.en_dir == relay.en_dir
            &&& after.packet_buffer_len == relay.packet_buffer_len
            &&& match link {
                Link::Up => after.last_uplink_packet == now && after.last_downlink_packet
                    == relay.last_downlink_packet,
                Link::Down => after.last_downlink_packet == now && after.last_uplink_packet
                    == relay.last_uplink_packet,
            }
        }),
{
}

/// Two relays at the ends of one leg, of which the nearer one encrypts what goes
/// up and the farther one decrypts it, with the same key, carry a packet from
/// end to end as it was, either way, and between them it is a nonce longer.
pub proof fn two_ends_of_a_leg_carry_a_packet_across<
    E: Fn(&[u8], &CryptoConfig) -> Result<Encrypted, IoError>,
    D: Fn(&[u8], &CryptoConfig, usize) -> Result<Vec<u8>, IoError>,
>(
    cipher: E,
    decipher: D,
    crypto: CryptoConfig,
    from: UdpRelay,
    to: UdpRelay,
    link: Link,
    packet: Seq<u8>,
    sent: Option<Seq<u8>>,
    received: Option<Seq<u8>>,
)
    requires
        from.payload_crypto == Some(crypto),
        to.payload_crypto == Some(crypto),
        match link {
            Link::Up => from.en_dir is Encrypt && to.en_dir is Decrypt,
            Link::Down => from.en_dir is Decrypt && to.en_dir is Encrypt,
        },
        packet.len() + 24 <= from.packet_buffer_len,
        packet.len() <= to.packet_buffer_len,
        reads_back(cipher, decipher, packet, crypto),
        from.carries(cipher, decipher, link, packet, sent),
        sent matches Some(bytes) ==> to.carries(cipher, decipher, link, bytes, received),
    ensures
        sent matches Some(bytes) && bytes.len() == packet.len() + 24,
        received == Some(packet),
{
    let out = choose|out: Result<Seq<u8>, IoError>|
        direction_yields(
            cipher,
            decipher,
            packet,
            from.packet_buffer_len,
            crypto,
            EncryptionDirection::Encrypt,
            out,
        ) && match out {
            Ok(transformed) => sent == Some(transformed),
            Err(_) => sent is None,
        };
    encrypting_hands_on_what_the_cipher_wrote(
        cipher,
        packet,
        from.packet_buffer_len,
        crypto,
        out,
    );
    let (p, raw) = choose|p: &[u8], raw: Result<Encrypted, IoError>|
        {
            &&& p@ == packet
            &&& #[trigger] call_ensures(cipher, (p, &crypto), raw)
            &&& match out {
                Ok(bytes) => raw matches Ok(done) && done.consumed == packet.len() && done.output@
                    == bytes,
                Err(e) => raw == Err::<Encrypted, IoError>(e) || (raw matches Ok(done)
                    && done.consumed != packet.len()),
            }
        };
    assert(ciphers_to(cipher, packet, crypto, raw));
    assert(ciphers_to(cipher, packet, crypto, Ok(raw->Ok_0)));
}

/// A relay without a key passes every packet on as it is, and drops none.
pub proof fn a_relay_without_a_key_passes_packets_on<
    E: Fn(&[u8], &CryptoConfig) -> Result<Encrypted, IoError>,
    D: Fn(&[u8], &CryptoConfig, usize) -> Result<Vec<u8>, IoError>,
>(
    cipher: E,
    decipher: D,
    relay: UdpRelay,
    link: Link,
    packet: Seq<u8>,
    body: Option<Seq<u8>>,
)
    requires
        relay.payload_crypto is None,
        relay.carries(cipher, decipher, link, packet, body),
    ensures
        body == Some(packet),
{
}

/// A dropped packet is warned of exactly if more than a second has passed since
/// the last warning.
pub proof fn drops_are_warned_of_once_a_second(relay: UdpRelay, now: Instant)
    ensures
        relay.warns_at(now) <==> now.nanos > relay.last_crypto_fail_warn.nanos + 1_000_000_000,
{
}

/// What goes up comes from the downstream and is sent to the upstream, and what
/// goes down the other way; the error of a direction says which end failed.
pub proof fn errors_name_the_end_that_failed(error: AnyError)
    ensures
        Link::Up.recv_error(error) == CopyBiError::RecvDownstream(error),
        Link::Up.send_error(error) == CopyBiError::SendUpstream(error),
        Link::Down.recv_error(error) == CopyBiError::RecvUpstream(error),
        Link::Down.send_error(error) == CopyBiError::SendDownstream(error),
        error.spec_is_udp_eof() <==> error.io_kind == Some(ErrorKind::UnexpectedEof),
{
}

/// The time that a flow took is what lies between its start and its last packet.
pub proof fn a_flow_takes_from_its_start_to_its_last_packet(timing: Timing)
    ensures
        timing.start.0.nanos <= timing.end.nanos ==> timing.start.0.nanos + timing.elapsed()
            == timing.end.nanos,
        timing.elapsed() >= 0,
        timing.end.nanos < timing.start.0.nanos ==> timing.elapsed() == 0,
{
}

/// The record of a direction tells how many packets went: no two numbers read
/// the same.
pub proof fn a_record_tells_how_many_packets_went(
    name: Seq<char>,
    packets: u64,
    other: u64,
    volume: Seq<char>,
)
    ensures
        traffic_text(name, packets, volume) == traffic_text(name, other, volume) ==> packets
            == other,
        traffic_text(name, packets, volume) == name + "{"@ + decimal_text(packets as nat) + ","@
            + volume + "}"@,
{
    let front = name + "{"@;
    let a = decimal_text(packets as nat);
    let b = decimal_text(other as nat);
    let t = traffic_text(name, packets, volume);
    let u = traffic_text(name, other, volume);
    let rest = ","@ + volume + "}"@;
    assert(t =~= front + a + rest);
    assert(u =~= front + b + rest);
    if t == u {
        assert((front + a + rest).len() == front.len() + a.len() + rest.len());
        assert((front + b + rest).len() == front.len() + b.len() + rest.len());
        assert(t.subrange(front.len() as int, (front.len() + a.len()) as int) =~= a);
        assert(u.subrange(front.len() as int, (front.len() + b.len()) as int) =~= b);
        decimal_texts_tell_numbers_apart(packets as nat, other as nat);
    }
}

/// A relay with a key passes on nothing but what the cipher made of the packet:
/// what it wrote of the whole packet where packets are encrypted, and what it
/// read of them where they are decrypted. All else is dropped.
pub proof fn a_relay_with_a_key_passes_on_what_the_cipher_made<
    E: Fn(&[u8], &CryptoConfig) -> Result<Encrypted, IoError>,
    D: Fn(&[u8], &CryptoConfig, usize) -> Result<Vec<u8>, IoError>,
>(
    cipher: E,
    decipher: D,
    relay: UdpRelay,
    crypto: CryptoConfig,
    link: Link,
    packet: Seq<u8>,
    body: Option<Seq<u8>>,
    encrypts: bool,
)
    requires
        relay.payload_crypto == Some(crypto),
        encrypts == (relay.en_dir is Encrypt && link is Up || relay.en_dir is Decrypt && link is
            Down),
        relay.carries(cipher, decipher, link, packet, body),
    ensures
        encrypts && packet.len() + X_NONCE_BYTES > relay.packet_buffer_len ==> body is None,
        !encrypts && packet.len() < X_NONCE_BYTES ==> body is None,
        !encrypts && packet.len() > X_NONCE_BYTES + relay.packet_buffer_len ==> body is None,
        encrypts && body is Some ==> exists|p: &[u8], done: Encrypted|
            {
                &&& p@ == packet
                &&& #[trigger] call_ensures(cipher, (p, &crypto), Ok(done))
                &&& done.consumed == packet.len()
                &&& done.output@ == body->0
            },
        !encrypts && body is Some ==> exists|p: &[u8], len: usize, plain: Vec<u8>|
            {
                &&& p@ == packet
                &&& len + X_NONCE_BYTES == packet.len()
                &&& #[trigger] call_ensures(decipher, (p, &crypto, len), Ok(plain))
                &&& plain@ == body->0
                &&& plain@.len() == len
            },
{
    let direction = if encrypts {
        EncryptionDirection::Encrypt
    } else {
        EncryptionDirection::Decrypt
    };
    let out = choose|out: Result<Seq<u8>, IoError>|
        direction_yields(
            cipher,
            decipher,
            packet,
            relay.packet_buffer_len,
            crypto,
            direction,
            out,
        ) && match out {
            Ok(transformed) => body == Some(transformed),
            Err(_) => body is None,
        };
    if encrypts {
        encrypting_hands_on_what_the_cipher_wrote(
            cipher,
            packet,
            relay.packet_buffer_len,
            crypto,
            out,
        );
    } else {
        decrypting_hands_on_what_the_cipher_read(
            decipher,
            packet,
            relay.packet_buffer_len,
            crypto,
            out,
        );
    }
}

/// The record of a flow tells, in this order, how many seconds it took, what
/// went up, what went down, and its two ends: each in the words of the function
/// that writes it, of the flow's own numbers.
pub proof fn a_record_reads_in_order<
    S: Fn(Duration) -> String,
    V: Fn(u64, Duration) -> String,
    U: Fn(&RouteAddr) -> String,
    D: Fn(&SocketAddr) -> String,
>(
    log: FlowLog,
    upstream: RouteAddr,
    seconds: S,
    volume: V,
    render_upstream: U,
    render_downstream: D,
    secs: Seq<char>,
    up: Seq<char>,
    dn: Seq<char>,
    from: Seq<char>,
    to: Seq<char>,
    text: Seq<char>,
)
    requires
        log.timing.start.0.nanos <= log.timing.end.nanos,
        forall|d: Duration, s: String| #[trigger]
            call_ensures(seconds, (d,), s) && d.nanos == log.timing.end.nanos
                - log.timing.start.0.nanos ==> s@ == secs,
        forall|n: u64, d: Duration, s: String| #[trigger]
            call_ensures(volume, (n, d), s) && n == log.up.bytes && d.nanos
                == log.timing.end.nanos - log.timing.start.0.nanos ==> s@ == up,
        forall|n: u64, d: Duration, s: String| #[trigger]
            call_ensures(volume, (n, d), s) && n == log.dn.bytes && d.nanos
                == log.timing.end.nanos - log.timing.start.0.nanos ==> s@ == dn,
        forall|s: String| #[trigger]
            call_ensures(render_upstream, (&upstream,), s) ==> s@ == from,
        forall|s: String| #[trigger]
            call_ensures(render_downstream, (&log.flow.downstream.0,), s) ==> s@ == to,
        log.reads_as(upstream, seconds, volume, render_upstream, render_downstream, text),
    ensures
        text == secs + "s,"@ + ("up"@ + "{"@ + decimal_text(log.up.packets as nat) + ","@ + up + "}"@)
            + ","@ + ("dn"@ + "{"@ + decimal_text(log.dn.packets as nat) + ","@ + dn + "}"@)
            + ",up:"@ + from + ",dn:"@ + to,
{
}

} // verus!
