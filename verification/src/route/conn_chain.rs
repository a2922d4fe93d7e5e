//! Chains of proxies.

use vstd::prelude::*;
use vstd::string::*;
use crate::addr::{RouteAddr, RouteAddrView};
use crate::crypto::CryptoConfig;
use crate::key_map::KeyMap;
use crate::route::chain_selection::RttSlot;
use crate::route::hop_config::{HopConfig, HopConfigBuildError};
use crate::route::rtt_stats::RttStats;
use crate::time::{Duration, MAX_NANOS};

verus! {

/// What a proxy is asked for: the next hop, or, with none, an echo.
#[derive(Debug, PartialEq, Eq)]
pub struct RouteRequest {
    pub upstream: Option<RouteAddr>,
}

/// The view of a route that may be missing.
pub open spec fn route_view(route: Option<RouteAddr>) -> Option<RouteAddrView> {
    match route {
        Some(route) => Some(route@),
        None => None,
    }
}

/// Where the `i`th proxy of a chain relays to: the proxy after it, or the
/// destination behind the last one.
pub open spec fn next_hop(
    nodes: Seq<HopConfig>,
    destination: Option<RouteAddrView>,
    i: int,
) -> Option<RouteAddrView> {
    if i + 1 < nodes.len() {
        Some(nodes[i + 1].address@)
    } else {
        destination
    }
}

/// The request header for each proxy of a chain, with the key that the proxy
/// reads it by.
pub fn convert_proxies_to_header_crypto_pairs(
    nodes: &[HopConfig],
    destination: Option<RouteAddr>,
) -> (pairs: Vec<(RouteRequest, CryptoConfig)>)
    requires
        nodes@.len() > 0,
    ensures
        pairs@.len() == nodes@.len(),
        forall|i: int|
            0 <= i < pairs@.len() ==> route_view((#[trigger] pairs@[i]).0.upstream) == next_hop(
                nodes@,
                route_view(destination),
                i,
            ) && pairs@[i].1 == nodes@[i].header_crypto,
{
    let mut pairs: Vec<(RouteRequest, CryptoConfig)> = Vec::new();
    let mut i: usize = 0;
    while i + 1 < nodes.len()
        invariant
            nodes.len() > 0,
            i < nodes.len(),
            pairs@.len() == i,
            forall|j: int|
                0 <= j < i ==> route_view((#[trigger] pairs@[j]).0.upstream) == next_hop(
                    nodes@,
                    route_view(destination),
                    j,
                ) && pairs@[j].1 == nodes@[j].header_crypto,
        decreases nodes.len() - i,
    {
        let request = RouteRequest { upstream: Some(nodes[i + 1].address.clone()) };
        pairs.push((request, nodes[i].header_crypto));
        i += 1;
    }
    pairs.push((RouteRequest { upstream: destination }, nodes[nodes.len() - 1].header_crypto));
    pairs
}

/// What a client tells one proxy of a chain: the route request that its header
/// encrypts, the key of that header, and the key of what follows.
#[derive(Debug)]
pub struct HopRequest {
    pub request: RouteRequest,
    pub header_crypto: CryptoConfig,
    pub payload_crypto: Option<CryptoConfig>,
}

/// Whether the requests lead through the chain to the destination: each proxy
/// is told the next one, and the last is told the destination.
pub open spec fn requests_lead_to(
    layers: Seq<HopRequest>,
    proxies: Seq<HopConfig>,
    destination: Option<RouteAddrView>,
) -> bool {
    &&& layers.len() == proxies.len()
    &&& forall|i: int|
        0 <= i < layers.len() ==> {
            &&& route_view((#[trigger] layers[i]).request.upstream) == next_hop(
                proxies,
                destination,
                i,
            )
            &&& layers[i].header_crypto == proxies[i].header_crypto
            &&& layers[i].payload_crypto == proxies[i].payload_crypto
        }
}

/// The requests that lead through the chain to the destination.
pub fn chain_requests(proxies: &[HopConfig], destination: Option<RouteAddr>) -> (layers: Vec<
    HopRequest,
>)
    requires
        proxies@.len() > 0,
    ensures
        requests_lead_to(layers@, proxies@, route_view(destination)),
{
    let mut pairs = convert_proxies_to_header_crypto_pairs(proxies, destination);
    let ghost all = pairs@;
    let mut layers: Vec<HopRequest> = Vec::new();
    let mut i: usize = 0;
    while i < proxies.len()
        invariant
            i <= proxies@.len(),
            all.len() == proxies@.len(),
            pairs@ == all.skip(i as int),
            layers@.len() == i,
            forall|j: int|
                0 <= j < all.len() ==> route_view((#[trigger] all[j]).0.upstream) == next_hop(
                    proxies@,
                    route_view(destination),
                    j,
                ) && all[j].1 == proxies@[j].header_crypto,
            forall|j: int|
                0 <= j < i ==> {
                    &&& route_view((#[trigger] layers@[j]).request.upstream) == next_hop(
                        proxies@,
                        route_view(destination),
                        j,
                    )
                    &&& layers@[j].header_crypto == proxies@[j].header_crypto
                    &&& layers@[j].payload_crypto == proxies@[j].payload_crypto
                },
        decreases proxies@.len() - i,
    {
        let (request, header_crypto) = pairs.remove(0);
        assert(all.skip(i as int).remove(0) =~= all.skip(i + 1));
        assert((request, header_crypto) == all[i as int]);
        layers.push(
            HopRequest { request, header_crypto, payload_crypto: proxies[i].payload_crypto },
        );
        i += 1;
    }
    layers
}

/// A part of a configuration that stands in place or is shared by name.
#[derive(Debug)]
pub enum SharableConfig<T> {
    SharingKey(String),
    Private(T),
}

/// A chain of proxies, and how much it counts among others.
#[derive(Debug)]
pub struct WeightedConnChain {
    pub weight: usize,
    pub chain: Vec<HopConfig>,
}

/// A chain as it is configured.
#[derive(Debug)]
pub struct WeightedConnChainBuilder {
    pub weight: usize,
    pub chain: Vec<SharableConfig<HopConfig>>,
}

/// Why a chain could not be put together.
#[derive(Debug)]
pub enum WeightedConnChainBuildError {
    ProxyServer(HopConfigBuildError),
    ProxyServerKeyNotFound(String),
}

/// Whether a configured hop can be had.
pub open spec fn hop_known(hop: SharableConfig<HopConfig>, conn: KeyMap<String, HopConfig>) -> bool {
    match hop {
        SharableConfig::SharingKey(key) => conn@.dom().contains(key@),
        SharableConfig::Private(_) => true,
    }
}

/// Whether `hop` is what the configured hop stands for.
pub open spec fn hop_stands_for(
    configured: SharableConfig<HopConfig>,
    conn: KeyMap<String, HopConfig>,
    hop: HopConfig,
) -> bool {
    match configured {
        SharableConfig::SharingKey(key) => conn@.dom().contains(key@) && hop@ == conn@[key@]@,
        SharableConfig::Private(private) => hop == private,
    }
}

impl WeightedConnChainBuilder {
    /// Whether looking up the hops ends in `r`: all of them, or the first name
    /// that is not known.
    pub open spec fn resolves_to(
        self,
        conn: KeyMap<String, HopConfig>,
        r: Result<WeightedConnChain, WeightedConnChainBuildError>,
    ) -> bool {
        match r {
            Ok(chain) => {
                &&& chain.weight == self.weight
                &&& chain.chain@.len() == self.chain@.len()
                &&& forall|i: int|
                    0 <= i < self.chain@.len() ==> hop_stands_for(
                        #[trigger] self.chain@[i],
                        conn,
                        chain.chain@[i],
                    )
            },
            Err(e) => exists|i: int|
                {
                    &&& 0 <= i < self.chain@.len()
                    &&& (#[trigger] self.chain@[i]) matches SharableConfig::SharingKey(key)
                    &&& !conn@.dom().contains(key@)
                    &&& e == WeightedConnChainBuildError::ProxyServerKeyNotFound(key)
                    &&& forall|j: int| 0 <= j < i ==> hop_known(#[trigger] self.chain@[j], conn)
                },
        }
    }

    /// Looks up the hops that are shared by name. Every hop may have a payload
    /// key of its own.
    pub fn resolve(self, conn: &KeyMap<String, HopConfig>) -> (r: Result<
        WeightedConnChain,
        WeightedConnChainBuildError,
    >)
        requires
            conn.wf(),
        ensures
            self.resolves_to(*conn, r),
    {
        let weight: usize = self.weight;
        let ghost configured = self.chain@;
        let mut rest: Vec<SharableConfig<HopConfig>> = self.chain;
        let mut chain: Vec<HopConfig> = Vec::new();
        while rest.len() > 0
            invariant
                conn.wf(),
                configured == self.chain@,
                weight == self.weight,
                chain@.len() + rest@.len() == configured.len(),
                rest@ == configured.skip(chain@.len() as int),
                forall|i: int|
                    0 <= i < chain@.len() ==> hop_stands_for(
                        #[trigger] configured[i],
                        *conn,
                        chain@[i],
                    ),
            decreases rest@.len(),
        {
            let ghost i = chain@.len() as int;
            let configured_hop = rest.remove(0);
            assert(configured_hop == configured[i]);
            assert(rest@ =~= configured.skip(i + 1));
            let hop = match configured_hop {
                SharableConfig::SharingKey(key) => match conn.get(&key) {
                    Some(hop) => hop.clone(),
                    None => {
                        assert forall|j: int| 0 <= j < i implies hop_known(
                            #[trigger] configured[j],
                            *conn,
                        ) by {
                            assert(hop_stands_for(configured[j], *conn, chain@[j]));
                        }
                        return Err(WeightedConnChainBuildError::ProxyServerKeyNotFound(key));
                    },
                },
                SharableConfig::Private(hop) => hop,
            };
            chain.push(hop);
        }
        Ok(WeightedConnChain { weight, chain })
    }
}

/// How the probe of a chain is doing.
#[derive(Debug, Clone, Copy, PartialEq, Eq, Structural)]
pub enum ProbeTaskState {
    Disabled,
    Running,
    Cancelled,
    CompletedUnexpectedly,
    Panicked,
    JoinFailed,
}

impl ProbeTaskState {
    /// Whether the probe runs, was never started, or was stopped on purpose.
    pub open spec fn healthy(self) -> bool {
        self == ProbeTaskState::Disabled || self == ProbeTaskState::Running || self
            == ProbeTaskState::Cancelled
    }

    /// Whether the probe runs, was never started, or was stopped on purpose.
    /// Otherwise it died, and what it measured is stale.
    pub fn is_healthy(self) -> (r: bool)
        ensures
            r == self.healthy(),
    {
        matches!(
            self,
            ProbeTaskState::Disabled | ProbeTaskState::Running | ProbeTaskState::Cancelled
        )
    }
}

/// Work that is collected while routes are prepared, and started only when
/// they are put to use.
#[derive(Debug)]
pub struct ProbeFutures<F> {
    pub futures: Vec<F>,
}

impl<F> ProbeFutures<F> {
    pub fn new() -> (r: Self)
        ensures
            r.futures@.len() == 0,
    {
        ProbeFutures { futures: Vec::new() }
    }

    pub fn push(&mut self, fut: F)
        ensures
            final(self).futures@ == old(self).futures@.push(fut),
    {
        self.futures.push(fut);
    }

    pub fn is_empty(&self) -> (r: bool)
        ensures
            r == (self.futures@.len() == 0),
    {
        self.futures.len() == 0
    }

    pub fn into_futures(self) -> (r: Vec<F>)
        ensures
            r == self.futures,
    {
        self.futures
    }
}

impl<F> Default for ProbeFutures<F> {
    fn default() -> (r: Self)
        ensures
            r.futures@.len() == 0,
    {
        ProbeFutures::new()
    }
}

/// A chain with what its probe found out.
#[derive(Debug)]
pub struct GaugedConnChain {
    pub weighted: WeightedConnChain,
    pub rtt_stats: RttStats,
    pub probe_state: ProbeTaskState,
}

impl GaugedConnChain {
    /// The effective time can be told.
    pub open spec fn wf(self) -> bool {
        self.rtt_stats.effective_nanos() matches Some(nanos) ==> nanos <= MAX_NANOS
    }

    /// A chain of which nothing is known yet. Its probe, if it has one, is
    /// collected and counts as running.
    pub fn new<F>(weighted: WeightedConnChain, probe: Option<F>, probes: &mut ProbeFutures<F>) -> (r:
        Self)
        ensures
            r.wf(),
            r.weighted == weighted,
            r.rtt_stats.srtt is None,
            r.rtt_stats.rttvar is None,
            r.rtt_stats.recent@.len() == 0,
            r.probe_state == (if probe is Some {
                ProbeTaskState::Running
            } else {
                ProbeTaskState::Disabled
            }),
            final(probes).futures@ == (match probe {
                Some(fut) => old(probes).futures@.push(fut),
                None => old(probes).futures@,
            }),
    {
        let mut probe_state = ProbeTaskState::Disabled;
        if let Some(fut) = probe {
            probe_state = ProbeTaskState::Running;
            probes.push(fut);
        }
        GaugedConnChain { weighted, rtt_stats: RttStats::new(), probe_state }
    }

    pub fn weighted(&self) -> (r: &WeightedConnChain)
        ensures
            *r == self.weighted,
    {
        &self.weighted
    }

    pub fn rtt(&self) -> (r: Option<Duration>)
        ensures
            r == self.rtt_stats.srtt,
    {
        self.rtt_stats.srtt
    }

    pub fn rttvar(&self) -> (r: Option<Duration>)
        ensures
            r == self.rtt_stats.rttvar,
    {
        self.rtt_stats.rttvar
    }

    /// The time that the chain is judged by.
    pub fn rtt_eff(&self) -> (r: Option<Duration>)
        requires
            self.wf(),
        ensures
            match self.rtt_stats.effective_nanos() {
                None => r is None,
                Some(nanos) => r matches Some(rtt) && rtt.nanos == nanos,
            },
    {
        self.rtt_stats.effective()
    }

    pub fn probe_state(&self) -> (r: ProbeTaskState)
        ensures
            r == self.probe_state,
    {
        self.probe_state
    }

    pub fn probe_healthy(&self) -> (r: bool)
        ensures
            r == self.probe_state.healthy(),
    {
        self.probe_state().is_healthy()
    }

    /// What is known of the chain's round trip time.
    pub open spec fn slot(self) -> RttSlot {
        if !self.probe_state.healthy() {
            RttSlot::Unreachable
        } else {
            match self.rtt_stats.effective_nanos() {
                Some(nanos) => RttSlot::Measured(Duration { nanos: nanos as u128 }),
                None => RttSlot::Unmeasured,
            }
        }
    }

    pub fn rtt_slot(&self) -> (r: RttSlot)
        requires
            self.wf(),
        ensures
            r == self.slot(),
    {
        if !self.probe_healthy() {
            return RttSlot::Unreachable;
        }
        match self.rtt_eff() {
            Some(rtt) => RttSlot::Measured(rtt),
            None => RttSlot::Unmeasured,
        }
    }
}

/// What a dead probe measured is never used, however good it was.
pub proof fn stale_gauges_are_ignored(chain: GaugedConnChain)
    requires
        !chain.probe_state.healthy(),
    ensures
        chain.slot() is Unreachable,
{
}

/// Each proxy of a chain is told to relay to the address of the proxy after it,
/// and the last one to the destination, or to none for an echo. What it is told
/// is under its own keys.
pub proof fn each_proxy_is_told_the_next(
    layers: Seq<HopRequest>,
    proxies: Seq<HopConfig>,
    destination: Option<RouteAddrView>,
    i: int,
)
    requires
        requests_lead_to(layers, proxies, destination),
        0 <= i < proxies.len(),
    ensures
        layers.len() == proxies.len(),
        i < proxies.len() - 1 ==> (layers[i].request.upstream matches Some(upstream) && upstream@
            == proxies[i + 1].address@),
        i == proxies.len() - 1 ==> match destination {
            Some(address) => layers[i].request.upstream matches Some(upstream) && upstream@
                == address,
            None => layers[i].request.upstream is None,
        },
        layers[i].header_crypto == proxies[i].header_crypto,
        layers[i].payload_crypto == proxies[i].payload_crypto,
{
    let told = layers[i].request;
}

/// A probe that ended by itself, in whatever way, is not healthy, and what it
/// measured does not count. With any other, a chain counts by its effective
/// time, and as unmeasured before it has one.
pub proof fn a_chain_counts_by_its_time_while_its_probe_is_healthy(chain: GaugedConnChain)
    requires
        chain.wf(),
    ensures
        match chain.probe_state {
            ProbeTaskState::CompletedUnexpectedly
            | ProbeTaskState::Panicked
            | ProbeTaskState::JoinFailed => {
                &&& !chain.probe_state.healthy()
                &&& chain.slot() is Unreachable
            },
            ProbeTaskState::Disabled | ProbeTaskState::Running | ProbeTaskState::Cancelled => {
                &&& chain.probe_state.healthy()
                &&& chain.rtt_stats.effective_nanos() is None ==> chain.slot() is Unmeasured
                &&& chain.rtt_stats.effective_nanos() matches Some(nanos) ==> (
                chain.slot() matches RttSlot::Measured(rtt) && (nanos >= 0 ==> rtt.nanos == nanos))
            },
        },
{
}

/// A chain that could be put together has the configured weight and a hop for
/// each configured one, in order: the one that is registered under its name, or
/// the one that was given.
pub proof fn a_resolved_chain_is_as_configured(
    builder: WeightedConnChainBuilder,
    conn: KeyMap<String, HopConfig>,
    chain: WeightedConnChain,
    i: int,
)
    requires
        builder.resolves_to(conn, Ok(chain)),
        0 <= i < builder.chain@.len(),
    ensures
        chain.weight == builder.weight,
        chain.chain@.len() == builder.chain@.len(),
        match builder.chain@[i] {
            SharableConfig::SharingKey(key) => conn@.contains_key(key@) && chain.chain@[i]@
                == conn@[key@]@,
            SharableConfig::Private(hop) => chain.chain@[i] == hop,
        },
{
    assert(hop_stands_for(builder.chain@[i], conn, chain.chain@[i]));
}

/// A chain cannot be put together only for a name that is not registered: the
/// error names the first such one.
pub proof fn the_first_unknown_hop_is_named(
    builder: WeightedConnChainBuilder,
    conn: KeyMap<String, HopConfig>,
    e: WeightedConnChainBuildError,
)
    requires
        builder.resolves_to(conn, Err(e)),
    ensures
        exists|i: int, key: String|
            {
                &&& 0 <= i < builder.chain@.len()
                &&& #[trigger] builder.chain@[i] == SharableConfig::<HopConfig>::SharingKey(key)
                &&& !(#[trigger] conn@.contains_key(key@))
                &&& e == WeightedConnChainBuildError::ProxyServerKeyNotFound(key)
                &&& forall|j: int|
                    0 <= j < i ==> ((#[trigger] builder.chain@[j]) matches
                        SharableConfig::SharingKey(other) ==> conn@.contains_key(other@))
            },
{
    let i = choose|i: int|
        {
            &&& 0 <= i < builder.chain@.len()
            &&& (#[trigger] builder.chain@[i]) matches SharableConfig::SharingKey(key)
            &&& !conn@.dom().contains(key@)
            &&& e == WeightedConnChainBuildError::ProxyServerKeyNotFound(key)
            &&& forall|j: int| 0 <= j < i ==> hop_known(#[trigger] builder.chain@[j], conn)
        };
    let key = builder.chain@[i]->SharingKey_0;
    assert(!conn@.contains_key(key@));
    assert forall|j: int| 0 <= j < i implies ((#[trigger] builder.chain@[j]) matches
        SharableConfig::SharingKey(other) ==> conn@.contains_key(other@)) by {
        assert(hop_known(builder.chain@[j], conn));
    }
}

/// A route that is missing is not one that is there.
pub proof fn routes_are_told_apart(a: Option<RouteAddr>, b: Option<RouteAddr>)
    ensures
        route_view(a) == route_view(b) <==> match (a, b) {
            (Some(x), Some(y)) => x@ == y@,
            (None, None) => true,
            _ => false,
        },
{
}

} // verus!
