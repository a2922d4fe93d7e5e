//! The client's end of a stream through a chain of proxies.
//!
//! The client connects to the first proxy and then speaks to each proxy in
//! turn, through those before it: it upgrades the connection, sends the request
//! header, and from then on writes under that proxy's payload key, if it has
//! one. When all requests are written it reads the response of each proxy, in
//! the same order, and from then on reads under that proxy's payload key. Only
//! when all have answered that they relay does the payload follow.

use vstd::prelude::*;
use crate::addr::{InternetAddr, RouteAddr, RouteAddrView};
use crate::crypto::CryptoConfig;
use crate::route::conn_chain::{
    chain_requests, each_proxy_is_told_the_next, requests_lead_to, HopRequest, RouteRequest,
};
use crate::route::hop_config::HopConfig;
use crate::route_header::stream::PreambleError;
use crate::route_header::{CodecError, RouteError, RouteErrorKind, RouteResponse};
use crate::time::{Duration, Instant};

verus! {

/// A connection could not be opened. The kind is what a client is told of it.
#[derive(Debug, PartialEq, Eq)]
pub struct ConnectError {
    pub kind: RouteErrorKind,
    pub message: String,
}

/// Why a stream could not be set up.
#[derive(Debug)]
pub enum StreamEstablishError {
    ConnectDestination { connect: ConnectError, upstream_addr: RouteAddr },
    ConnectFirstProxyServer { connect: ConnectError, upstream_addr: RouteAddr },
    WriteHeartbeatUpgrade { preamble: PreambleError, upstream_addr: RouteAddr },
    WriteStreamRequestHeader { codec: CodecError, upstream_addr: RouteAddr },
    /// The response of a proxy could not be read; `hop` is its place in the
    /// chain.
    ReadStreamResponseHeader { codec: CodecError, hop: usize, upstream_addr: RouteAddr },
    /// A proxy does not relay; `hop` is its place in the chain.
    Response { err: RouteError, hop: usize, upstream_addr: RouteAddr },
}

/// What to tell the proxies next, or to hear from them.
#[derive(Debug)]
pub enum HandshakeAction<'a> {
    /// Upgrade the connection, under the key.
    SendUpgrade(&'a CryptoConfig),
    /// Send the request header, under the key.
    WriteHeader(&'a RouteRequest, &'a CryptoConfig),
    /// Read the response header, under the key.
    ReadResponse(&'a CryptoConfig),
    /// Nothing: all proxies know, and all have answered.
    Done,
}

/// Telling the proxies of a chain where to relay to, and hearing whether they
/// do.
#[derive(Debug)]
pub struct Handshake {
    pub requests: Vec<HopRequest>,
    /// How many proxies know already.
    pub told: usize,
    /// Whether the connection to the next one is upgraded.
    pub upgraded: bool,
    /// How many proxies have answered that they relay.
    pub answered: usize,
    /// Whether what follows the headers is under the last proxy's key too.
    pub through_last: bool,
}

impl Handshake {
    /// No proxy answers before all know.
    pub open spec fn wf(self) -> bool {
        &&& self.told <= self.requests@.len()
        &&& self.upgraded ==> !self.all_told()
        &&& self.answered <= self.requests@.len()
        &&& self.answered > 0 ==> self.all_told()
    }

    /// Whether all proxies know.
    pub open spec fn all_told(self) -> bool {
        self.told == self.requests@.len()
    }

    /// Whether all proxies know, and all have answered.
    pub open spec fn done(self) -> bool {
        self.all_told() && self.answered == self.requests@.len()
    }

    /// How many steps are left.
    pub open spec fn steps_left(self) -> int {
        2 * (self.requests@.len() - self.told) + (self.requests@.len() - self.answered)
            - if self.upgraded {
            1int
        } else {
            0int
        }
    }

    pub fn new(requests: Vec<HopRequest>, through_last: bool) -> (r: Self)
        ensures
            r.wf(),
            r == (Handshake { requests, told: 0, upgraded: false, answered: 0, through_last }),
            r.steps_left() == 3 * requests@.len(),
    {
        Handshake { requests, told: 0, upgraded: false, answered: 0, through_last }
    }

    /// What to do next: for each proxy in chain order, first the upgrade, then
    /// the header; and then, again in chain order, the response of each. All
    /// are under that proxy's key.
    pub fn action(&self) -> (r: HandshakeAction<'_>)
        requires
            self.wf(),
        ensures
            match r {
                HandshakeAction::Done => self.done(),
                HandshakeAction::SendUpgrade(crypto) => !self.all_told() && !self.upgraded
                    && *crypto == self.requests@[self.told as int].header_crypto,
                HandshakeAction::WriteHeader(request, crypto) => !self.all_told() && self.upgraded
                    && *request == self.requests@[self.told as int].request && *crypto
                    == self.requests@[self.told as int].header_crypto,
                HandshakeAction::ReadResponse(crypto) => self.all_told() && !self.done() && *crypto
                    == self.requests@[self.answered as int].header_crypto,
            },
    {
        if self.told == self.requests.len() {
            if self.answered == self.requests.len() {
                return HandshakeAction::Done;
            }
            return HandshakeAction::ReadResponse(&self.requests[self.answered].header_crypto);
        }
        let next = &self.requests[self.told];
        if self.upgraded {
            HandshakeAction::WriteHeader(&next.request, &next.header_crypto)
        } else {
            HandshakeAction::SendUpgrade(&next.header_crypto)
        }
    }

    /// Takes note that the connection was upgraded.
    pub fn upgrade_sent(&mut self)
        requires
            old(self).wf(),
            !old(self).all_told(),
            !old(self).upgraded,
        ensures
            final(self).wf(),
            *final(self) == (Handshake { upgraded: true, ..*old(self) }),
            takes_step(*old(self), *final(self)),
            final(self).steps_left() == old(self).steps_left() - 1,
    {
        self.upgraded = true;
    }

    /// The key that what follows a proxy's header is under, in either
    /// direction.
    pub open spec fn spec_payload_key(self, hop: int) -> Option<CryptoConfig> {
        if hop + 1 < self.requests@.len() || self.through_last {
            self.requests@[hop].payload_crypto
        } else {
            None
        }
    }

    fn payload_key(&self, hop: usize) -> (r: Option<CryptoConfig>)
        requires
            hop < self.requests@.len(),
        ensures
            r == self.spec_payload_key(hop as int),
            hop < usize::MAX,
    {
        let n: usize = self.requests.len();
        if hop + 1 < n || self.through_last {
            self.requests[hop].payload_crypto
        } else {
            None
        }
    }

    /// Takes note that the header was written. Tells the key to put on all
    /// that is written from now on, if any.
    pub fn header_written(&mut self) -> (r: Option<CryptoConfig>)
        requires
            old(self).wf(),
            !old(self).all_told(),
            old(self).upgraded,
        ensures
            final(self).wf(),
            *final(self) == (Handshake {
                told: (old(self).told + 1) as usize,
                upgraded: false,
                ..*old(self)
            }),
            takes_step(*old(self), *final(self)),
            r == old(self).spec_payload_key(old(self).told as int),
            final(self).steps_left() == old(self).steps_left() - 1,
    {
        let key = self.payload_key(self.told);
        self.told = self.told + 1;
        self.upgraded = false;
        key
    }

    /// Takes note that a proxy has answered that it relays. Tells the key to
    /// take off all that is read from now on, if any.
    pub fn response_read(&mut self) -> (r: Option<CryptoConfig>)
        requires
            old(self).wf(),
            old(self).all_told(),
            !old(self).done(),
        ensures
            final(self).wf(),
            *final(self) == (Handshake { answered: (old(self).answered + 1) as usize, ..*old(self) }),
            takes_step(*old(self), *final(self)),
            r == old(self).spec_payload_key(old(self).answered as int),
            final(self).steps_left() == old(self).steps_left() - 1,
    {
        let key = self.payload_key(self.answered);
        self.answered = self.answered + 1;
        key
    }
}

/// Whether one handshake becomes the other by its next step: the upgrade, the
/// header, or the response.
pub open spec fn takes_step(before: Handshake, after: Handshake) -> bool {
    &&& !before.done()
    &&& after.requests == before.requests
    &&& after.through_last == before.through_last
    &&& if before.all_told() {
        &&& after.told == before.told
        &&& after.upgraded == before.upgraded
        &&& after.answered == before.answered + 1
    } else {
        &&& after.upgraded == !before.upgraded
        &&& after.told == before.told + if before.upgraded {
            1int
        } else {
            0int
        }
        &&& after.answered == before.answered
    }
}

/// A handshake tells every proxy of the chain once and in order, upgrading the
/// connection to each before it writes the header, and then hears every proxy
/// once and in order. It takes three steps for each proxy, and is not done, so
/// that no payload follows, before the last proxy has answered.
pub proof fn handshake_tells_and_hears_every_proxy_in_order(states: Seq<Handshake>, k: int)
    requires
        0 <= k < states.len(),
        states[0].told == 0,
        !states[0].upgraded,
        states[0].answered == 0,
        forall|i: int|
            0 <= i < states.len() - 1 ==> takes_step(#[trigger] states[i], states[i + 1]),
    ensures
        states[k].wf(),
        states[k].requests == states[0].requests,
        states[k].through_last == states[0].through_last,
        ({
            let n = states[0].requests@.len();
            &&& k <= 3 * n
            &&& k <= 2 * n ==> {
                &&& states[k].told == k / 2
                &&& states[k].upgraded == (k % 2 == 1)
                &&& states[k].answered == 0
            }
            &&& k > 2 * n ==> {
                &&& states[k].told == n
                &&& !states[k].upgraded
                &&& states[k].answered == k - 2 * n
            }
            &&& states[k].done() <==> k == 3 * n
        }),
    decreases k,
{
    if k > 0 {
        handshake_tells_and_hears_every_proxy_in_order(states, k - 1);
        assert(takes_step(states[k - 1], states[k - 1 + 1]));
    }
}

/// How to set up a stream.
#[derive(Debug)]
pub enum StreamEstablish {
    ConnectDestination(DirectStream),
    ConnectFirstProxy(ProxiedStream),
}

/// A stream without proxies, still to be connected.
#[derive(Debug)]
pub struct DirectStream {
    pub destination: RouteAddr,
}

/// A stream through proxies, still to be connected to the first of them.
#[derive(Debug)]
pub struct ProxiedStream {
    pub proxies: Vec<HopConfig>,
    pub destination: RouteAddr,
}

/// A stream that is connected to the first proxy at `addr`, and tells the
/// proxies where it goes.
#[derive(Debug)]
pub struct StreamHandshake {
    pub handshake: Handshake,
    pub addr: RouteAddr,
}

impl StreamEstablish {
    pub fn start(proxies: Vec<HopConfig>, destination: RouteAddr) -> (r: Self)
        ensures
            match r {
                StreamEstablish::ConnectDestination(stream) => proxies@.len() == 0
                    && stream.destination == destination,
                StreamEstablish::ConnectFirstProxy(stream) => stream.wf() && stream.proxies
                    == proxies && stream.destination == destination,
            },
    {
        if proxies.len() == 0 {
            StreamEstablish::ConnectDestination(DirectStream { destination })
        } else {
            StreamEstablish::ConnectFirstProxy(ProxiedStream { proxies, destination })
        }
    }
}

impl DirectStream {
    /// The address of the stream, once it is connected.
    pub fn connected(self, outcome: Result<(), ConnectError>) -> (r: Result<
        RouteAddr,
        StreamEstablishError,
    >)
        ensures
            match outcome {
                Ok(()) => r == Ok::<_, StreamEstablishError>(self.destination),
                Err(connect) => r == Err::<RouteAddr, _>(
                    StreamEstablishError::ConnectDestination {
                        connect,
                        upstream_addr: self.destination,
                    },
                ),
            },
    {
        match outcome {
            Ok(()) => Ok(self.destination),
            Err(connect) => Err(
                StreamEstablishError::ConnectDestination {
                    connect,
                    upstream_addr: self.destination,
                },
            ),
        }
    }
}

impl ProxiedStream {
    pub open spec fn wf(self) -> bool {
        self.proxies@.len() > 0
    }

    /// The route to the first proxy, and the key that tells its connections
    /// apart.
    pub fn first_proxy(&self) -> (r: (&RouteAddr, &CryptoConfig))
        requires
            self.wf(),
        ensures
            *r.0 == self.proxies@[0].address,
            *r.1 == self.proxies@[0].header_crypto,
    {
        (&self.proxies[0].address, &self.proxies[0].header_crypto)
    }

    /// Goes on once the first proxy is connected, or not.
    pub fn connected(self, outcome: Result<(), ConnectError>) -> (r: Result<
        StreamHandshake,
        StreamEstablishError,
    >)
        requires
            self.wf(),
        ensures
            match outcome {
                Ok(()) => {
                    &&& r matches Ok(stream)
                    &&& stream.addr@ == self.proxies@[0].address@
                    &&& stream.handshake.wf()
                    &&& stream.handshake.told == 0
                    &&& !stream.handshake.upgraded
                    &&& stream.handshake.answered == 0
                    &&& stream.handshake.through_last
                    &&& requests_lead_to(
                        stream.handshake.requests@,
                        self.proxies@,
                        Some(self.destination@),
                    )
                },
                Err(e) => {
                    &&& r matches Err(
                        StreamEstablishError::ConnectFirstProxyServer { connect, upstream_addr },
                    )
                    &&& connect == e
                    &&& upstream_addr@ == self.proxies@[0].address@
                },
            },
    {
        let addr = self.proxies[0].address.clone();
        match outcome {
            Ok(()) => {
                let requests = chain_requests(self.proxies.as_slice(), Some(self.destination));
                Ok(StreamHandshake { handshake: Handshake::new(requests, true), addr })
            },
            Err(connect) => Err(
                StreamEstablishError::ConnectFirstProxyServer { connect, upstream_addr: addr },
            ),
        }
    }
}

impl StreamHandshake {
    /// Takes in how upgrading went.
    pub fn upgrade_sent(&mut self, outcome: Result<(), PreambleError>) -> (r: Result<
        (),
        StreamEstablishError,
    >)
        requires
            old(self).handshake.wf(),
            !old(self).handshake.all_told(),
            !old(self).handshake.upgraded,
        ensures
            final(self).handshake.wf(),
            final(self).addr == old(self).addr,
            match outcome {
                Ok(()) => r is Ok && final(self).handshake == (Handshake {
                    upgraded: true,
                    ..old(self).handshake
                }),
                Err(e) => {
                    &&& final(self).handshake == old(self).handshake
                    &&& r matches Err(
                        StreamEstablishError::WriteHeartbeatUpgrade { preamble, upstream_addr },
                    )
                    &&& preamble == e
                    &&& upstream_addr@ == old(self).addr@
                },
            },
    {
        match outcome {
            Ok(()) => {
                self.handshake.upgrade_sent();
                Ok(())
            },
            Err(preamble) => Err(
                StreamEstablishError::WriteHeartbeatUpgrade {
                    preamble,
                    upstream_addr: self.addr.clone(),
                },
            ),
        }
    }

    /// Takes in how writing the header went. Tells the key to put on all that
    /// is written from now on, if any.
    pub fn header_written(&mut self, outcome: Result<(), CodecError>) -> (r: Result<
        Option<CryptoConfig>,
        StreamEstablishError,
    >)
        requires
            old(self).handshake.wf(),
            !old(self).handshake.all_told(),
            old(self).handshake.upgraded,
        ensures
            final(self).handshake.wf(),
            final(self).addr == old(self).addr,
            match outcome {
                Ok(()) => {
                    &&& r == Ok::<_, StreamEstablishError>(
                        old(self).handshake.spec_payload_key(old(self).handshake.told as int),
                    )
                    &&& final(self).handshake == (Handshake {
                        told: (old(self).handshake.told + 1) as usize,
                        upgraded: false,
                        ..old(self).handshake
                    })
                    &&& takes_step(old(self).handshake, final(self).handshake)
                },
                Err(e) => {
                    &&& final(self).handshake == old(self).handshake
                    &&& r matches Err(
                        StreamEstablishError::WriteStreamRequestHeader { codec, upstream_addr },
                    )
                    &&& codec == e
                    &&& upstream_addr@ == old(self).addr@
                },
            },
    {
        match outcome {
            Ok(()) => Ok(self.handshake.header_written()),
            Err(codec) => Err(
                StreamEstablishError::WriteStreamRequestHeader {
                    codec,
                    upstream_addr: self.addr.clone(),
                },
            ),
        }
    }

    /// Takes in the response of the next proxy. If it relays, tells the key to
    /// take off all that is read from now on, if any.
    pub fn response_read(&mut self, outcome: Result<RouteResponse, CodecError>) -> (r: Result<
        Option<CryptoConfig>,
        StreamEstablishError,
    >)
        requires
            old(self).handshake.wf(),
            old(self).handshake.all_told(),
            !old(self).handshake.done(),
        ensures
            final(self).handshake.wf(),
            final(self).addr == old(self).addr,
            match outcome {
                Ok(RouteResponse { result: Ok(()) }) => {
                    &&& r == Ok::<_, StreamEstablishError>(
                        old(self).handshake.spec_payload_key(old(self).handshake.answered as int),
                    )
                    &&& final(self).handshake == (Handshake {
                        answered: (old(self).handshake.answered + 1) as usize,
                        ..old(self).handshake
                    })
                    &&& takes_step(old(self).handshake, final(self).handshake)
                },
                Ok(RouteResponse { result: Err(e) }) => {
                    &&& final(self).handshake == old(self).handshake
                    &&& r matches Err(StreamEstablishError::Response { err, hop, upstream_addr })
                    &&& err == e
                    &&& hop == old(self).handshake.answered
                    &&& upstream_addr@ == old(self).addr@
                },
                Err(e) => {
                    &&& final(self).handshake == old(self).handshake
                    &&& r matches Err(
                        StreamEstablishError::ReadStreamResponseHeader {
                            codec,
                            hop,
                            upstream_addr,
                        },
                    )
                    &&& codec == e
                    &&& hop == old(self).handshake.answered
                    &&& upstream_addr@ == old(self).addr@
                },
            },
    {
        let hop: usize = self.handshake.answered;
        match outcome {
            Ok(response) => match response.result {
                Ok(()) => Ok(self.handshake.response_read()),
                Err(err) => Err(
                    StreamEstablishError::Response { err, hop, upstream_addr: self.addr.clone() },
                ),
            },
            Err(codec) => Err(
                StreamEstablishError::ReadStreamResponseHeader {
                    codec,
                    hop,
                    upstream_addr: self.addr.clone(),
                },
            ),
        }
    }
}

/// Why a probe brought no round trip time.
#[derive(Debug)]
pub enum TraceError {
    ConnectError(ConnectError),
    PreambleError(PreambleError),
    Header(CodecError),
    Response { err: RouteError },
}

/// What a probe has to do first.
#[derive(Debug)]
pub enum StreamProbeStart {
    /// There is no proxy: the round trip takes no time.
    Done(Duration),
    /// Connect the first proxy.
    Connect(StreamProbe),
}

/// A probe of a chain: an echo request to the last proxy. The proxies before it
/// answer that they relay, and the last answers the probe itself.
#[derive(Debug)]
pub struct StreamProbe {
    pub handshake: Handshake,
}

impl StreamProbe {
    /// The requests lead to no destination, and the last proxy's own key is
    /// left aside.
    pub open spec fn wf(self) -> bool {
        &&& self.handshake.wf()
        &&& self.handshake.requests@.len() > 0
        &&& !self.handshake.through_last
    }

    pub fn start(proxies: &[HopConfig]) -> (r: StreamProbeStart)
        ensures
            match r {
                StreamProbeStart::Done(rtt) => proxies@.len() == 0 && rtt.nanos == 0,
                StreamProbeStart::Connect(probe) => {
                    &&& probe.wf()
                    &&& probe.handshake.told == 0
                    &&& !probe.handshake.upgraded
                    &&& probe.handshake.answered == 0
                    &&& requests_lead_to(probe.handshake.requests@, proxies@, None)
                },
            },
    {
        if proxies.len() == 0 {
            return StreamProbeStart::Done(Duration::zero());
        }
        let requests = chain_requests(proxies, None);
        StreamProbeStart::Connect(StreamProbe { handshake: Handshake::new(requests, false) })
    }

    /// Takes in the response of the next proxy. If it is no error, tells the
    /// key to take off all that is read from now on, if any.
    pub fn response_read(&mut self, outcome: Result<RouteResponse, CodecError>) -> (r: Result<
        Option<CryptoConfig>,
        TraceError,
    >)
        requires
            old(self).wf(),
            old(self).handshake.all_told(),
            !old(self).handshake.done(),
        ensures
            final(self).wf(),
            match outcome {
                Ok(RouteResponse { result: Ok(()) }) => {
                    &&& r == Ok::<_, TraceError>(
                        old(self).handshake.spec_payload_key(old(self).handshake.answered as int),
                    )
                    &&& final(self).handshake == (Handshake {
                        answered: (old(self).handshake.answered + 1) as usize,
                        ..old(self).handshake
                    })
                    &&& takes_step(old(self).handshake, final(self).handshake)
                },
                Ok(RouteResponse { result: Err(err) }) => r == Err::<Option<CryptoConfig>, _>(
                    TraceError::Response { err },
                ) && *final(self) == *old(self),
                Err(e) => r == Err::<Option<CryptoConfig>, _>(TraceError::Header(e))
                    && *final(self) == *old(self),
            },
    {
        match outcome {
            Ok(response) => match response.result {
                Ok(()) => Ok(self.handshake.response_read()),
                Err(err) => Err(TraceError::Response { err }),
            },
            Err(e) => Err(TraceError::Header(e)),
        }
    }

    /// The round trip time, when the last proxy has answered. `start` is the
    /// time when the first proxy was connected.
    pub fn rtt(&self, start: Instant, end: Instant) -> (r: Duration)
        requires
            self.handshake.done(),
        ensures
            r.nanos == (if end.nanos >= start.nanos {
                end.nanos - start.nanos
            } else {
                0
            }),
    {
        end.duration_since(start)
    }
}

/// The connections that a chain starts on, as far as they can be renewed or
/// asked.
#[derive(Debug)]
pub enum FirstHop<'a> {
    /// The chain is empty.
    Missing,
    /// A reverse tunnel: it has statistics, but is not renewed from here.
    Tunnel { protocol: &'a str, name: &'a str },
    /// Connections to all addresses that this one resolves to.
    Address { protocol: &'a str, address: &'a InternetAddr },
}

/// The connections that a chain starts on.
pub fn first_hop<'a>(chain: &'a [HopConfig]) -> (r: FirstHop<'a>)
    ensures
        match r {
            FirstHop::Missing => chain@.len() == 0,
            FirstHop::Tunnel { protocol, name } => {
                &&& chain@.len() > 0
                &&& protocol@ == chain@[0].address@.protocol
                &&& chain@[0].address@.reverse_tunnel() matches Some((_, tunnel))
                &&& name@ == tunnel
            },
            FirstHop::Address { protocol, address } => {
                &&& chain@.len() > 0
                &&& protocol@ == chain@[0].address@.protocol
                &&& chain@[0].address@.reverse_tunnel() is None
                &&& *address == chain@[0].address.address
            },
        },
{
    if chain.len() == 0 {
        return FirstHop::Missing;
    }
    let addr: &'a RouteAddr = &chain[0].address;
    let protocol: &'a str = addr.protocol.as_str();
    match addr.reverse_tunnel() {
        Some((_, name)) => FirstHop::Tunnel { protocol, name },
        None => FirstHop::Address { protocol, address: &addr.address },
    }
}

/// What follows a proxy's header is under the payload key that is configured for
/// that proxy, in either direction, and under none if it has none. Only a probe
/// leaves the key of the last proxy aside, which answers it by itself.
pub proof fn each_leg_is_under_its_proxys_own_key(
    handshake: Handshake,
    proxies: Seq<HopConfig>,
    destination: Option<RouteAddrView>,
    hop: int,
)
    requires
        requests_lead_to(handshake.requests@, proxies, destination),
        0 <= hop < proxies.len(),
    ensures
        handshake.through_last ==> handshake.spec_payload_key(hop) == proxies[hop].payload_crypto,
        !handshake.through_last && hop < proxies.len() - 1 ==> handshake.spec_payload_key(hop)
            == proxies[hop].payload_crypto,
        !handshake.through_last && hop == proxies.len() - 1 ==> handshake.spec_payload_key(
            hop,
        ) is None,
{
    each_proxy_is_told_the_next(handshake.requests@, proxies, destination, hop);
}

/// A stream through proxies has a proxy to go through, and so has a probe, which
/// leaves the last proxy's own key aside.
pub proof fn a_proxied_stream_has_a_proxy(stream: ProxiedStream, probe: StreamProbe)
    ensures
        stream.wf() <==> stream.proxies@.len() != 0,
        probe.wf() ==> probe.handshake.requests@.len() != 0 && !probe.handshake.through_last,
{
}

} // verus!
