//! What a monitor shows of the sessions of a process.

use vstd::prelude::*;
use crate::addr::{InternetAddr, RouteAddr, RouteAddrHdv, SocketAddr};
use crate::conn::Flow;
use crate::time::{Duration, Instant, SystemTime, NANOS_PER_MILLI, NANOS_PER_SEC};

verus! {

/// How long a session that ended is still shown, in seconds.
pub const DEAD_SESSION_RETENTION_SECS: u64 = 5;

/// When a session that ends now is no longer shown.
pub fn retained_until(now: Instant) -> (r: Instant)
    requires
        now.nanos + DEAD_SESSION_RETENTION_SECS * NANOS_PER_SEC <= u128::MAX,
    ensures
        r.nanos == now.nanos + DEAD_SESSION_RETENTION_SECS * NANOS_PER_SEC,
{
    now.after(Duration::from_secs(DEAD_SESSION_RETENTION_SECS))
}

/// The time since the epoch, in nanoseconds. Before the epoch it is zero.
pub open spec fn unix_nanos(t: SystemTime) -> int {
    if t.nanos >= 0 {
        t.nanos as int
    } else {
        0
    }
}

/// Nanoseconds as whole milliseconds, of which 64 bits are shown.
pub open spec fn shown_ms(nanos: int) -> u64 {
    (nanos as u128 / NANOS_PER_MILLI) as u64
}

/// The times of a session as they are shown, in milliseconds.
#[derive(Debug, Clone, Copy, PartialEq, Eq, Structural)]
pub struct SessionTimes {
    pub duration: u64,
    pub start_ms: u64,
    pub end_ms: Option<u64>,
}

/// The times to show. A session that has not ended lasts until now; one that
/// seems to end before it starts lasts no time.
pub open spec fn times_of(start: SystemTime, end: Option<SystemTime>, now: SystemTime) -> SessionTimes {
    let last = match end {
        Some(end) => unix_nanos(end),
        None => unix_nanos(now),
    };
    SessionTimes {
        duration: shown_ms(
            if last >= unix_nanos(start) {
                last - unix_nanos(start)
            } else {
                0
            },
        ),
        start_ms: shown_ms(unix_nanos(start)),
        end_ms: match end {
            Some(end) => Some(shown_ms(unix_nanos(end))),
            None => None,
        },
    }
}

fn since_epoch_or_zero(t: SystemTime) -> (d: Duration)
    ensures
        d.nanos == unix_nanos(t),
{
    match t.since_epoch() {
        Some(d) => d,
        None => Duration::zero(),
    }
}

pub fn session_times(start: SystemTime, end: Option<SystemTime>, now: SystemTime) -> (r: SessionTimes)
    ensures
        r == times_of(start, end, now),
{
    let start_unix = since_epoch_or_zero(start);
    let now_unix = since_epoch_or_zero(now);
    let duration = match end {
        Some(end) => since_epoch_or_zero(end).saturating_sub(start_unix),
        None => now_unix.saturating_sub(start_unix),
    };
    let end_ms = match end {
        Some(end) => Some(since_epoch_or_zero(end).as_millis_u64()),
        None => None,
    };
    SessionTimes {
        duration: duration.as_millis_u64(),
        start_ms: start_unix.as_millis_u64(),
        end_ms,
    }
}

/// A datagram session. `G` measures what passes.
#[derive(Debug)]
pub struct UdpSession<G> {
    pub start: SystemTime,
    pub end: Option<SystemTime>,
    pub destination: Option<InternetAddr>,
    pub upstream_local: Option<SocketAddr>,
    pub upstream_remote: InternetAddr,
    pub downstream_remote: SocketAddr,
    pub up_gauge: G,
    pub dn_gauge: G,
}

impl<G> UdpSession<G> {
    /// The session of a flow on a proxy server: where its datagrams go in the
    /// end is not known there.
    pub fn of_proxy_server(
        flow: &Flow,
        upstream_local: Option<SocketAddr>,
        now: SystemTime,
        up_gauge: G,
        dn_gauge: G,
    ) -> (r: Option<Self>)
        ensures
            match r {
                None => flow.upstream is None,
                Some(session) => {
                    &&& flow@.upstream matches Some(upstream)
                    &&& session.upstream_remote@ == upstream.address
                    &&& session.destination is None
                    &&& session.start == now
                    &&& session.end is None
                    &&& session.upstream_local == upstream_local
                    &&& session.downstream_remote == flow@.downstream
                    &&& session.up_gauge == up_gauge
                    &&& session.dn_gauge == dn_gauge
                },
            },
    {
        let upstream_remote = match &flow.upstream {
            Some(upstream) => upstream.0.address.clone(),
            None => {
                return None;
            },
        };
        Some(
            UdpSession {
                start: now,
                end: None,
                destination: None,
                upstream_local,
                upstream_remote,
                downstream_remote: flow.downstream.0,
                up_gauge,
                dn_gauge,
            },
        )
    }

    /// The session of a flow on an access server: its upstream is where its
    /// datagrams go in the end, and `upstream_remote` where they go first.
    pub fn of_access_server(
        flow: &Flow,
        upstream_local: Option<SocketAddr>,
        upstream_remote: InternetAddr,
        now: SystemTime,
        up_gauge: G,
        dn_gauge: G,
    ) -> (r: Option<Self>)
        ensures
            match r {
                None => flow.upstream is None,
                Some(session) => {
                    &&& flow@.upstream matches Some(upstream)
                    &&& session.destination matches Some(destination)
                    &&& destination@ == upstream.address
                    &&& session.upstream_remote == upstream_remote
                    &&& session.start == now
                    &&& session.end is None
                    &&& session.upstream_local == upstream_local
                    &&& session.downstream_remote == flow@.downstream
                    &&& session.up_gauge == up_gauge
                    &&& session.dn_gauge == dn_gauge
                },
            },
    {
        let destination = match &flow.upstream {
            Some(upstream) => upstream.0.address.clone(),
            None => {
                return None;
            },
        };
        Some(
            UdpSession {
                start: now,
                end: None,
                destination: Some(destination),
                upstream_local,
                upstream_remote,
                downstream_remote: flow.downstream.0,
                up_gauge,
                dn_gauge,
            },
        )
    }

    /// Takes note of the end.
    pub fn finish(&mut self, now: SystemTime)
        ensures
            *final(self) == (UdpSession { end: Some(now), ..*old(self) }),
    {
        self.end = Some(now);
    }
}

/// A datagram session as it is shown. `V` is what a gauge reads.
#[derive(Debug)]
pub struct UdpSessionHdv<V> {
    pub destination: Option<InternetAddr>,
    pub times: SessionTimes,
    pub upstream_local: Option<SocketAddr>,
    pub upstream_remote: InternetAddr,
    pub downstream_remote: SocketAddr,
    pub up: V,
    pub dn: V,
}

/// The view of an address that may be missing.
pub open spec fn address_view(address: Option<InternetAddr>) -> Option<
    crate::addr::InternetAddrView,
> {
    match address {
        Some(address) => Some(address@),
        None => None,
    }
}

impl<V> UdpSessionHdv<V> {
    /// The session as it is shown now. `read` reads a gauge.
    pub fn from_udp_session<G, F: Fn(&G) -> V>(s: &UdpSession<G>, now: SystemTime, read: &F) -> (r:
        Self)
        requires
            forall|g: &G| call_requires(*read, (g,)),
        ensures
            address_view(r.destination) == address_view(s.destination),
            r.times == times_of(s.start, s.end, now),
            r.upstream_local == s.upstream_local,
            r.upstream_remote@ == s.upstream_remote@,
            r.downstream_remote == s.downstream_remote,
            call_ensures(*read, (&s.up_gauge,), r.up),
            call_ensures(*read, (&s.dn_gauge,), r.dn),
    {
        let destination = match &s.destination {
            Some(destination) => Some(destination.clone()),
            None => None,
        };
        UdpSessionHdv {
            destination,
            times: session_times(s.start, s.end, now),
            upstream_local: s.upstream_local,
            upstream_remote: s.upstream_remote.clone(),
            downstream_remote: s.downstream_remote,
            up: read(&s.up_gauge),
            dn: read(&s.dn_gauge),
        }
    }
}

/// A stream session. `G` measures what passes, if anything does.
#[derive(Debug)]
pub struct StreamSession<G> {
    pub start: SystemTime,
    pub end: Option<SystemTime>,
    pub destination: Option<RouteAddr>,
    pub upstream_local: Option<SocketAddr>,
    pub upstream_remote: RouteAddr,
    pub downstream_local: String,
    pub downstream_remote: Option<SocketAddr>,
    pub up_gauge: Option<G>,
    pub dn_gauge: Option<G>,
}

/// A stream session as it is shown. `V` is what a gauge reads.
#[derive(Debug)]
pub struct StreamSessionView<V> {
    pub destination: Option<RouteAddrHdv>,
    pub times: SessionTimes,
    pub upstream_local: Option<SocketAddr>,
    pub upstream_remote: RouteAddrHdv,
    pub downstream_local: String,
    pub downstream_remote: Option<SocketAddr>,
    pub up: Option<V>,
    pub dn: Option<V>,
}

/// Whether a route is shown as these columns.
pub open spec fn shows_route(route: RouteAddr, shown: RouteAddrHdv) -> bool {
    shown.addr@ == route@.address && shown.ty@ == route@.protocol
}

/// Whether a gauge that may be missing reads as that.
pub open spec fn gauge_reads<G, V, F: Fn(&G) -> V>(read: F, gauge: Option<G>, v: Option<V>) -> bool {
    match (gauge, v) {
        (Some(gauge), Some(v)) => call_ensures(read, (&gauge,), v),
        (None, None) => true,
        _ => false,
    }
}

fn read_gauge<G, V, F: Fn(&G) -> V>(gauge: &Option<G>, read: &F) -> (v: Option<V>)
    requires
        forall|g: &G| call_requires(*read, (g,)),
    ensures
        gauge_reads(*read, *gauge, v),
{
    match gauge {
        Some(gauge) => Some(read(gauge)),
        None => None,
    }
}

impl<V> StreamSessionView<V> {
    /// The session as it is shown now. `read` reads a gauge.
    pub fn from_stream_session<G, F: Fn(&G) -> V>(
        s: &StreamSession<G>,
        now: SystemTime,
        read: &F,
    ) -> (r: Self)
        requires
            forall|g: &G| call_requires(*read, (g,)),
        ensures
            match (s.destination, r.destination) {
                (Some(route), Some(shown)) => shows_route(route, shown),
                (None, None) => true,
                _ => false,
            },
            r.times == times_of(s.start, s.end, now),
            r.upstream_local == s.upstream_local,
            shows_route(s.upstream_remote, r.upstream_remote),
            r.downstream_local == s.downstream_local,
            r.downstream_remote == s.downstream_remote,
            gauge_reads(*read, s.up_gauge, r.up),
            gauge_reads(*read, s.dn_gauge, r.dn),
    {
        let destination = match &s.destination {
            Some(destination) => Some(RouteAddrHdv::from_route_addr(destination)),
            None => None,
        };
        StreamSessionView {
            destination,
            times: session_times(s.start, s.end, now),
            upstream_local: s.upstream_local,
            upstream_remote: RouteAddrHdv::from_route_addr(&s.upstream_remote),
            downstream_local: s.downstream_local.clone(),
            downstream_remote: s.downstream_remote,
            up: read_gauge(&s.up_gauge, read),
            dn: read_gauge(&s.dn_gauge, read),
        }
    }
}

/// A session that ended is shown the same from then on, whatever time it is.
pub proof fn ended_session_is_frozen(
    start: SystemTime,
    end: SystemTime,
    now: SystemTime,
    later: SystemTime,
)
    ensures
        times_of(start, Some(end), now) == times_of(start, Some(end), later),
{
}

/// The tables of live sessions, if there are any.
#[derive(Debug)]
pub struct BothSessionTables<S, U> {
    pub stream: Option<S>,
    pub udp: Option<U>,
}

impl<S, U> BothSessionTables<S, U> {
    pub fn new(stream: S, udp: U) -> (r: Self)
        ensures
            r.stream == Some(stream),
            r.udp == Some(udp),
    {
        BothSessionTables { stream: Some(stream), udp: Some(udp) }
    }

    pub fn empty() -> (r: Self)
        ensures
            r.stream is None,
            r.udp is None,
    {
        BothSessionTables { stream: None, udp: None }
    }

    pub fn stream(&self) -> (r: Option<&S>)
        ensures
            match self.stream {
                Some(table) => r == Some(&table),
                None => r is None,
            },
    {
        match &self.stream {
            Some(table) => Some(table),
            None => None,
        }
    }

    pub fn udp(&self) -> (r: Option<&U>)
        ensures
            match self.udp {
                Some(table) => r == Some(&table),
                None => r is None,
            },
    {
        match &self.udp {
            Some(table) => Some(table),
            None => None,
        }
    }
}

/// A session is shown by whole milliseconds since the epoch, and its duration by
/// those between its start and its end, or, while it runs, between its start and
/// now: as long as they fit what is shown. Times before the epoch count as the
/// epoch.
pub proof fn a_session_is_shown_in_whole_milliseconds(
    start: SystemTime,
    end: Option<SystemTime>,
    now: SystemTime,
    from: int,
    to: int,
)
    requires
        from == (if start.nanos < 0 {
            0
        } else {
            start.nanos as int
        }),
        to == (match end {
            Some(end) => if end.nanos < 0 {
                0
            } else {
                end.nanos as int
            },
            None => if now.nanos < 0 {
                0
            } else {
                now.nanos as int
            },
        }),
        from <= to < 1_000_000 * u64::MAX,
    ensures
        ({
            let shown = times_of(start, end, now);
            &&& shown.start_ms * 1_000_000 <= from < (shown.start_ms + 1) * 1_000_000
            &&& shown.duration * 1_000_000 <= to - from < (shown.duration + 1) * 1_000_000
            &&& end is None <==> shown.end_ms is None
            &&& shown.end_ms matches Some(end_ms) ==> end_ms * 1_000_000 <= to < (end_ms + 1)
                * 1_000_000
        }),
{
    lemma_shown(from);
    lemma_shown(to);
    lemma_shown(to - from);
}

proof fn lemma_shown(nanos: int)
    requires
        0 <= nanos < 1_000_000 * u64::MAX,
    ensures
        shown_ms(nanos) * 1_000_000 <= nanos < (shown_ms(nanos) + 1) * 1_000_000,
{
    assert(nanos as u128 == nanos);
    let ms = nanos as u128 / NANOS_PER_MILLI;
    assert(ms * 1_000_000 <= nanos < (ms + 1) * 1_000_000) by (nonlinear_arith)
        requires
            ms == nanos / 1_000_000,
            0 <= nanos,
    ;
    assert(ms <= u64::MAX);
}

/// A session whose clock was set back lasted no time, and a start before the
/// epoch is shown as the epoch.
pub proof fn no_session_lasts_less_than_no_time(
    start: SystemTime,
    end: Option<SystemTime>,
    now: SystemTime,
    last: SystemTime,
)
    requires
        last == (match end {
            Some(end) => end,
            None => now,
        }),
    ensures
        last.nanos <= start.nanos ==> times_of(start, end, now).duration == 0,
        start.nanos <= 0 ==> times_of(start, end, now).start_ms == 0,
{
    assert(0u128 / NANOS_PER_MILLI == 0);
}

/// Columns show an address and its protocol as they are, and a gauge that is
/// missing is not made up.
pub proof fn columns_show_what_is_there<G, V, F: Fn(&G) -> V>(
    route: RouteAddr,
    shown: RouteAddrHdv,
    read: F,
    gauge: Option<G>,
    v: Option<V>,
    address: Option<InternetAddr>,
    other: Option<InternetAddr>,
)
    ensures
        shows_route(route, shown) <==> shown.addr@ == route.address@ && shown.ty@
            == route.protocol@,
        gauge_reads(read, gauge, v) <==> match gauge {
            Some(g) => v matches Some(reading) && call_ensures(read, (&g,), reading),
            None => v is None,
        },
        address_view(address) == address_view(other) <==> match (address, other) {
            (Some(a), Some(b)) => a@ == b@,
            (None, None) => true,
            _ => false,
        },
{
}

} // verus!
