use std::sync::Arc;

use proxy_common::addr::{InternetAddr, RouteAddr, SocketAddr};
use proxy_common::crypto::CryptoConfig;
use proxy_common::key_map::KeyMap;
use proxy_common::route::chain_selection::{RttSlot, ScoreStore};
use proxy_common::route::conn::{ConnConfig, ConnConfigBuildError, ConnConfigBuilder, IntoAddr};
use proxy_common::route::conn_chain::{
    convert_proxies_to_header_crypto_pairs, GaugedConnChain, ProbeFutures, ProbeTaskState,
    SharableConfig, WeightedConnChain, WeightedConnChainBuildError, WeightedConnChainBuilder,
};
use proxy_common::route::hop_config::{HopConfig, HopConfigBuildError};
use proxy_common::route::prober::{
    clamp_interval, display_chain, fmt_rtt, round_sample, ProbeOutcome, ProbeTask, RttUnit,
};
use proxy_common::route::route_selector::{
    NonEmptyRouteSelector, RouteSelector, RouteSelectorBuildError, RouteSelectorBuilder,
    RouteSelectorError,
};
use proxy_common::route::route_table::{
    Registries, RouteAction, RouteActionBuilder, RouteActionSelector, RouteActionTagBuilder,
    RouteTable, RouteTableBuildError, RouteTableBuilder, RouteTableEntry, RouteTableEntryBuilder,
};
use proxy_common::route::rtt_stats::RttStats;
use proxy_common::time::{Duration, Instant, MAX_NANOS};

const BAD_KEY: &str = "c2VjcmV0LXByb3h5LWtleQ!!";

fn decode(key: &str) -> Result<CryptoConfig, String> {
    match key.find('!') {
        Some(at) => Err(format!("Invalid symbol 33, offset {at}.")),
        None => Ok(CryptoConfig { key: [key.len() as u8; 32] }),
    }
}

fn route(port: u16) -> RouteAddr {
    RouteAddr {
        address: InternetAddr::SocketAddr(SocketAddr::V4 { ip: 0x7f00_0001, port }),
        protocol: "tcp".to_owned(),
    }
}

fn build_hop(header: &str, payload: &str) -> HopConfigBuildError {
    HopConfig::build(route(1), decode(header), Some(decode(payload))).unwrap_err()
}

#[test]
fn hop_config_a_key_that_fails_to_decode_is_not_repeated_back_into_the_log() {
    let e = build_hop(BAD_KEY, "aGVsbG8").to_text();
    assert!(!e.contains("c2VjcmV0"), "{e}");
}

#[test]
fn hop_config_a_bad_payload_key_is_not_reported_as_a_bad_header_key() {
    let e = build_hop("aGVsbG8", BAD_KEY).to_text();
    assert!(e.contains("PayloadCrypto"), "{e}");
    assert!(!e.contains("HeaderCrypto"), "{e}");
}

struct PortText(&'static str);

impl IntoAddr for PortText {
    type Addr = u16;

    fn into_address(self) -> u16 {
        self.0.parse().unwrap()
    }
}

fn build_conn(header: &'static str, payload: &'static str) -> Result<ConnConfig<u16>, ConnConfigBuildError> {
    ConnConfigBuilder { address: PortText("1"), header_key: header, payload_key: Some(payload) }
        .build(&decode)
}

#[test]
fn conn_a_key_that_fails_to_decode_is_not_repeated_back_into_the_log() {
    let e = build_conn(BAD_KEY, "aGVsbG8").unwrap_err();
    assert!(!format!("{e:?}").contains("c2VjcmV0"), "{e:?}");
    assert!(matches!(e, ConnConfigBuildError::HeaderCrypto(_)), "{e:?}");
}

#[test]
fn conn_a_bad_payload_key_is_not_reported_as_a_bad_header_key() {
    let e = build_conn("aGVsbG8", BAD_KEY).unwrap_err();
    assert!(matches!(e, ConnConfigBuildError::PayloadCrypto(_)), "{e:?}");
}

#[test]
fn a_configured_proxy_has_its_address_and_both_keys() {
    let conn = build_conn("aGVsbG8", "aGk").unwrap();
    assert_eq!(conn.address, 1);
    assert_eq!(conn.header_crypto.key, [7; 32]);
    assert_eq!(conn.payload_crypto.unwrap().key, [3; 32]);
}

#[test]
fn is_healthy_classifies_terminal_failures_as_unhealthy() {
    assert!(ProbeTaskState::Disabled.is_healthy());
    assert!(ProbeTaskState::Running.is_healthy());
    assert!(ProbeTaskState::Cancelled.is_healthy());
    assert!(!ProbeTaskState::CompletedUnexpectedly.is_healthy());
    assert!(!ProbeTaskState::Panicked.is_healthy());
    assert!(!ProbeTaskState::JoinFailed.is_healthy());
}

fn chain(weight: usize) -> WeightedConnChain {
    WeightedConnChain { weight, chain: Vec::new() }
}

#[test]
fn probe_healthy_reflects_injected_state() {
    let mut probes: ProbeFutures<()> = ProbeFutures::new();
    let mut chain = GaugedConnChain::new(chain(1), None, &mut probes);
    assert!(chain.probe_healthy(), "Disabled is healthy");
    chain.probe_state = ProbeTaskState::Panicked;
    assert!(!chain.probe_healthy(), "Panicked must be reflected as unhealthy");
    chain.probe_state = ProbeTaskState::Cancelled;
    assert!(chain.probe_healthy(), "Cancelled must be reflected as healthy");
}

#[test]
fn a_probed_chain_runs_its_probe() {
    let mut probes: ProbeFutures<&str> = ProbeFutures::new();
    assert!(probes.is_empty());
    let chain = GaugedConnChain::new(chain(1), Some("probe"), &mut probes);
    assert_eq!(chain.probe_state(), ProbeTaskState::Running);
    assert_eq!(chain.rtt(), None);
    assert_eq!(chain.rttvar(), None);
    assert_eq!(chain.rtt_eff(), None);
    assert_eq!(chain.rtt_slot(), RttSlot::Unmeasured);
    assert_eq!(probes.into_futures(), vec!["probe"]);
}

fn blend(old: Duration, new: Duration, percent: u32) -> Duration {
    let alpha = f64::from(percent) / 100.;
    let mixed = old.nanos as f64 * (1. - alpha) + new.nanos as f64 * alpha;
    Duration { nanos: mixed.round() as u128 }
}

fn selector(weights: &[usize], ratio: Option<f64>) -> NonEmptyRouteSelector<f64> {
    let mut probes: ProbeFutures<()> = ProbeFutures::new();
    NonEmptyRouteSelector::new(
        weights.iter().map(|w| chain(*w)).collect(),
        None::<&fn(&WeightedConnChain)>,
        None,
        ratio.map(Ok::<f64, f64>),
        &mut probes,
    )
    .unwrap()
}

fn set_gauge(selector: &mut NonEmptyRouteSelector<f64>, i: usize, millis: u64) {
    selector.chains[i].rtt_stats.apply_sample(Duration::from_millis(millis), &blend);
}

fn score(weight: usize, cum_weight: usize, slot: RttSlot) -> f64 {
    let factor = match slot {
        RttSlot::Unreachable => 0.,
        RttSlot::Unmeasured => 0.5,
        RttSlot::Measured(rtt) => 1. / (1. + rtt.nanos as f64 / 1e8),
    };
    weight as f64 / cum_weight as f64 * factor
}

fn chosen_weight(selector: &NonEmptyRouteSelector<f64>) -> usize {
    let scores = selector.scores(
        &|_: usize, weight: usize, cum_weight: usize, slot: RttSlot| {
            score(weight, cum_weight, slot).to_bits() as i64
        },
        &|ratio: &f64, best: Duration| {
            let nanos = best.nanos as f64 * ratio;
            Duration { nanos: if nanos < MAX_NANOS as f64 { nanos as u128 } else { MAX_NANOS } }
        },
    );
    let sum: f64 = scores.iter().map(|s| f64::from_bits(s.score as u64)).sum();
    selector.choose_chain(&scores, sum == 0., &|_: usize| true).weight
}

fn check_zero_sum() {
    let mut selector = selector(&[0, 5], Some(1.5));
    set_gauge(&mut selector, 0, 10);
    set_gauge(&mut selector, 1, 5000);
    for _ in 0..200 {
        assert_eq!(
            chosen_weight(&selector),
            0,
            "the slow chain was excluded; the fallback must not reinstate it"
        );
    }
}

#[test]
fn conn_selector_a_zero_sum_falls_back_within_the_eligible_set() {
    check_zero_sum();
}

#[test]
fn route_selector_a_zero_sum_falls_back_within_the_eligible_set() {
    check_zero_sum();
}

fn check_dead_probe() {
    let mut selector = selector(&[1, 2], Some(1.5));
    set_gauge(&mut selector, 0, 10);
    selector.chains[0].probe_state = ProbeTaskState::Panicked;
    set_gauge(&mut selector, 1, 5000);
    for _ in 0..200 {
        assert_eq!(
            chosen_weight(&selector),
            2,
            "the dead-probe chain must never be selected while a healthy one exists"
        );
    }
}

#[test]
fn conn_selector_a_dead_probe_chain_is_excluded_regardless_of_stale_gauges() {
    check_dead_probe();
}

#[test]
fn route_selector_a_dead_probe_chain_is_excluded_regardless_of_stale_gauges() {
    check_dead_probe();
}

fn check_all_dead() {
    let mut selector = selector(&[1, 2], None);
    set_gauge(&mut selector, 0, 10);
    selector.chains[0].probe_state = ProbeTaskState::CompletedUnexpectedly;
    set_gauge(&mut selector, 1, 5000);
    selector.chains[1].probe_state = ProbeTaskState::JoinFailed;

    let mut saw = [false; 3];
    for _ in 0..5000 {
        let w = chosen_weight(&selector);
        saw[w] = true;
    }
    assert!(saw[1] && saw[2], "uniform fallback must reach both chains");
}

#[test]
fn conn_selector_all_dead_probes_fall_back_to_uniform_selection() {
    check_all_dead();
}

#[test]
fn route_selector_all_dead_probes_fall_back_to_uniform_selection() {
    check_all_dead();
}

fn check_cancelled_probe() {
    let mut selector = selector(&[1, 2], Some(1.5));
    set_gauge(&mut selector, 0, 10);
    selector.chains[0].probe_state = ProbeTaskState::Cancelled;
    set_gauge(&mut selector, 1, 5000);
    for _ in 0..200 {
        assert_eq!(
            chosen_weight(&selector),
            1,
            "a cancelled probe is healthy; its (better) gauges should win"
        );
    }
}

#[test]
fn conn_selector_cancelled_probe_is_treated_as_healthy() {
    check_cancelled_probe();
}

#[test]
fn route_selector_cancelled_probe_is_treated_as_healthy() {
    check_cancelled_probe();
}

fn new_selector(
    weights: &[usize],
    active: Option<usize>,
    gate: Option<Result<f64, f64>>,
) -> Result<RouteSelector<f64>, RouteSelectorError<f64>> {
    let mut probes: ProbeFutures<usize> = ProbeFutures::new();
    RouteSelector::new(
        weights.iter().map(|w| chain(*w)).collect(),
        None::<&fn(&WeightedConnChain) -> usize>,
        active,
        gate,
        &mut probes,
    )
}

#[test]
fn chains_that_cannot_be_chosen_from_are_refused() {
    assert!(matches!(new_selector(&[], Some(3), Some(Err(0.5))), Ok(RouteSelector::Empty)));
    let none = NonEmptyRouteSelector::new(
        Vec::new(),
        None::<&fn(&WeightedConnChain)>,
        None,
        None::<Result<f64, f64>>,
        &mut ProbeFutures::new(),
    );
    assert!(matches!(none, Err(RouteSelectorError::ZeroAccumulatedWeight)));
    assert!(matches!(
        new_selector(&[0, 0], Some(3), Some(Err(0.5))),
        Err(RouteSelectorError::ZeroAccumulatedWeight)
    ));
    match new_selector(&[1], Some(3), Some(Err(0.5))) {
        Err(RouteSelectorError::InvalidMaxRttRatio(ratio)) => assert_eq!(ratio, 0.5),
        other => panic!("expected the ratio to be refused, got {other:?}"),
    }
    assert!(matches!(
        new_selector(&[1], Some(3), Some(Ok(1.5))),
        Err(RouteSelectorError::TooManyActiveChains)
    ));
    match new_selector(&[1, 2], Some(1), Some(Ok(1.5))) {
        Ok(RouteSelector::NonEmpty(selector)) => {
            assert_eq!(selector.cum_weight, 3);
            assert_eq!(selector.active_chains, 1);
            assert_eq!(selector.gate, Some(1.5));
        }
        other => panic!("expected a selector, got {other:?}"),
    }
}

#[test]
fn only_the_best_chains_are_active() {
    let mut probes: ProbeFutures<()> = ProbeFutures::new();
    let mut selector: NonEmptyRouteSelector<f64> = NonEmptyRouteSelector::new(
        vec![chain(1), chain(1), chain(1)],
        None::<&fn(&WeightedConnChain)>,
        Some(2),
        None::<Result<f64, f64>>,
        &mut probes,
    )
    .unwrap();
    set_gauge(&mut selector, 0, 300);
    set_gauge(&mut selector, 1, 20);
    set_gauge(&mut selector, 2, 10);
    let scores = selector.scores(
        &|_: usize, w: usize, c: usize, slot: RttSlot| score(w, c, slot).to_bits() as i64,
        &|_: &f64, best: Duration| best,
    );
    let ids: Vec<usize> = scores.iter().map(|s| s.index).collect();
    assert_eq!(ids, vec![2, 1]);
    assert_eq!(selector.chain_ranked(&scores, 0).weight, 1);
}

fn hop(port: u16) -> HopConfig {
    HopConfig {
        address: route(port),
        header_crypto: CryptoConfig { key: [port as u8; 32] },
        payload_crypto: None,
    }
}

fn known_hops() -> KeyMap<String, HopConfig> {
    let mut conn = KeyMap::new();
    conn.insert("near".to_owned(), hop(1));
    conn
}

fn shared(name: &str) -> SharableConfig<HopConfig> {
    SharableConfig::SharingKey(name.to_owned())
}

#[test]
fn a_chain_is_looked_up_hop_by_hop() {
    let chain = WeightedConnChainBuilder {
        weight: 4,
        chain: vec![shared("near"), SharableConfig::Private(hop(2))],
    }
    .resolve(&known_hops())
    .unwrap();
    assert_eq!(chain.weight, 4);
    assert_eq!(chain.chain, vec![hop(1), hop(2)]);

    let missing = WeightedConnChainBuilder {
        weight: 4,
        chain: vec![shared("near"), shared("far"), shared("farther")],
    }
    .resolve(&known_hops());
    match missing {
        Err(WeightedConnChainBuildError::ProxyServerKeyNotFound(name)) => assert_eq!(name, "far"),
        other => panic!("expected a missing hop, got {other:?}"),
    }
}

#[test]
fn every_hop_may_have_a_payload_key() {
    let keyed = |port: u16| HopConfig {
        payload_crypto: Some(CryptoConfig { key: [port as u8; 32] }),
        ..hop(port)
    };
    let chain = WeightedConnChainBuilder {
        weight: 1,
        chain: vec![SharableConfig::Private(keyed(1)), SharableConfig::Private(keyed(2))],
    }
    .resolve(&known_hops())
    .unwrap();
    assert!(chain.chain.iter().all(|hop| hop.payload_crypto.is_some()));
}

#[test]
fn each_hop_is_told_the_next_one() {
    let chain = [hop(1), hop(2)];
    let pairs = convert_proxies_to_header_crypto_pairs(&chain, Some(route(9)));
    assert_eq!(pairs.len(), 2);
    assert_eq!(pairs[0].0.upstream, Some(route(2)));
    assert_eq!(pairs[0].1.key, [1; 32]);
    assert_eq!(pairs[1].0.upstream, Some(route(9)));
    assert_eq!(pairs[1].1.key, [2; 32]);
    let echo = convert_proxies_to_header_crypto_pairs(&chain, None);
    assert_eq!(echo[1].0.upstream, None);
}

#[test]
fn a_chain_is_written_as_a_list() {
    let write = |hop: &HopConfig| format!("p{}", hop.address.address.port());
    assert_eq!(display_chain(&[hop(1), hop(2)], &write), "[p1,p2]");
    assert_eq!(display_chain(&[hop(3)], &write), "[p3]");
    assert_eq!(display_chain(&[], &write), "[]");
}

#[test]
fn a_probe_paces_recycle_and_reoptimize_on_the_clock() {
    let start = Instant { nanos: 1_000_000_000 };
    let mut task = ProbeTask::new(start);
    let mut stats = RttStats::default();
    // A jump of the smoothed time needs a window full of slow samples.
    let keep = |_: Duration, new: Duration, _: u32| new;
    let plan = task.round(&mut stats, Some(Duration::from_millis(10)), start, &keep);
    assert!(!plan.reoptimize && plan.degraded.is_none() && !plan.log);
    assert_eq!(plan.mean_interval, Duration::from_millis(6_000));
    let mut fired = 0;
    for _ in 0..8 {
        let plan = task.round(&mut stats, Some(Duration::from_millis(100)), start, &keep);
        if plan.degraded.is_some() {
            fired += 1;
            assert!(!task.recycle(start), "too early after the start");
        }
    }
    assert_eq!(fired, 1);
    let later = start.after(Duration::from_secs(600));
    let plan = task.round(&mut stats, None, later, &keep);
    assert!(plan.lost, "a round without a sample is lost");
    assert!(plan.reoptimize);
    assert!(task.recycle(later));
    assert!(!task.recycle(later));
    let plan = task.round(&mut stats, None, later, &keep);
    assert!(!plan.reoptimize);
}

#[test]
fn a_chain_is_dead_after_five_failures_and_alive_after_one_success() {
    let start = Instant { nanos: 0 };
    let mut task = ProbeTask::new(start);
    let mut stats = RttStats::default();
    for round in 1..=5 {
        let plan = task.round(&mut stats, None, start, &blend);
        let expected = if round < 5 { 6_000 } else { 24_000 };
        assert_eq!(plan.mean_interval, Duration::from_millis(expected));
        assert_eq!(plan.log, round == 5);
    }
    let plan = task.round(&mut stats, Some(Duration::from_millis(5)), start, &blend);
    assert!(!plan.lost);
    assert_eq!(plan.mean_interval, Duration::from_millis(6_000));
    assert_eq!(task.consecutive_failures, 0);
}

#[test]
fn a_round_that_times_out_has_no_sample() {
    let (sample, epilog) = round_sample::<&str, &str>(None);
    assert_eq!(sample, None);
    assert_eq!(epilog, None);
    let failed: ProbeOutcome<&str, &str> = ProbeOutcome { rtt: Err("lost"), epilog: Some("reap") };
    assert_eq!(round_sample(Some(failed)), (None, Some("reap")));
    let done: ProbeOutcome<&str, &str> =
        ProbeOutcome { rtt: Ok(Duration::from_millis(3)), epilog: None };
    assert_eq!(round_sample(Some(done)), (Some(Duration::from_millis(3)), None));
}

#[test]
fn poisson_interval_respects_clamp_bounds() {
    for millis in [0, 1, 499, 500, 501, 6_000, 59_999, 60_000, 60_001, 1_000_000] {
        let d = clamp_interval(Duration::from_millis(millis)).as_millis_u64();
        assert!((500..=60_000).contains(&d), "{d:?}");
        assert_eq!(d, millis.clamp(500, 60_000));
    }
}

#[test]
fn times_are_written_in_their_unit() {
    let number = |d: Duration, unit: RttUnit| {
        let scale = match unit {
            RttUnit::Secs => 1e9,
            RttUnit::Millis => 1e6,
            RttUnit::Micros => 1e3,
            RttUnit::Nanos => 1.,
        };
        format!("{}", d.nanos as f64 / scale)
    };
    for (nanos, text) in [
        (1_200_000_000, "1.2s"),
        (12_500_000, "12.5ms"),
        (25_000, "25\u{b5}s"),
        (500, "500ns"),
        (1_000_000_000, "1s"),
        (1_000_000, "1ms"),
        (1_000, "1\u{b5}s"),
        (0, "0ns"),
    ] {
        assert_eq!(fmt_rtt(Duration { nanos }, &number), text);
    }
}

#[derive(Debug)]
enum Matcher {
    Any,
    Addr(u32),
    Port(u16),
    Range(u32, u32),
    Named(&'static str),
}

fn matches_named(
    matchers: &[(&'static str, Matcher)],
    matcher: &Matcher,
    addr: &InternetAddr,
    mut visited: Vec<String>,
) -> (bool, Vec<String>) {
    let (ip, port) = match addr {
        InternetAddr::SocketAddr(SocketAddr::V4 { ip, port }) => (Some(*ip), *port),
        other => (None, other.port()),
    };
    match matcher {
        Matcher::Any => (true, visited),
        Matcher::Addr(expected) => (ip == Some(*expected), visited),
        Matcher::Port(expected) => (port == *expected, visited),
        Matcher::Range(first, last) => (ip.is_some_and(|ip| *first <= ip && ip <= *last), visited),
        Matcher::Named(name) => {
            if visited.iter().any(|v| v == name) {
                return (false, visited);
            }
            visited.push((*name).to_owned());
            match matchers.iter().find(|(key, _)| key == name) {
                Some((_, matcher)) => matches_named(matchers, matcher, addr, visited),
                None => (false, visited),
            }
        }
    }
}

fn v4(a: u8, b: u8, c: u8, d: u8, port: u16) -> InternetAddr {
    InternetAddr::SocketAddr(SocketAddr::V4 { ip: u32::from_be_bytes([a, b, c, d]), port })
}

type Table = RouteTable<Matcher, f64>;

fn entry(matcher: Matcher, action: RouteAction<f64>) -> RouteTableEntry<Matcher, f64> {
    RouteTableEntry::new(None, Arc::new(matcher), action)
}

fn named_entry(name: &str, matcher: Matcher, action: RouteAction<f64>) -> RouteTableEntry<Matcher, f64> {
    RouteTableEntry::new(Some(name.to_owned()), Arc::new(matcher), action)
}

fn action<'a>(
    table: &'a Table,
    matchers: &[(&'static str, Matcher)],
    addr: InternetAddr,
) -> &'a RouteAction<f64> {
    table.action(&addr, &|m: &Matcher, a: &InternetAddr, visited: Vec<String>| {
        matches_named(matchers, m, a, visited)
    })
}

#[test]
fn an_empty_table_blocks_everything() {
    let table: Table = RouteTable::new(vec![]);
    let v6 = InternetAddr::SocketAddr(SocketAddr::V6 {
        ip6: 0x2001_0db8 << 96 | 1,
        port: 443,
        flowinfo: 0,
        scope_id: 0,
    });
    let name = InternetAddr::DomainName { addr: "example.com".to_owned(), port: 443 };
    assert!(matches!(action(&table, &[], v4(1, 2, 3, 4, 80)), RouteAction::Block));
    assert!(matches!(action(&table, &[], v6), RouteAction::Block));
    assert!(matches!(action(&table, &[], name), RouteAction::Block));
}

#[test]
fn the_first_matching_entry_wins() {
    let table: Table = RouteTable::new(vec![
        entry(Matcher::Any, RouteAction::Direct),
        entry(Matcher::Addr(0x0a00_0005), RouteAction::Block),
    ]);
    assert!(matches!(action(&table, &[], v4(10, 0, 0, 5, 80)), RouteAction::Direct));
    assert!(matches!(action(&table, &[], v4(9, 9, 9, 9, 80)), RouteAction::Direct));
}

#[test]
fn a_non_matching_entry_falls_through_to_a_later_one() {
    let table: Table = RouteTable::new(vec![
        entry(Matcher::Port(80), RouteAction::Block),
        entry(Matcher::Any, RouteAction::Direct),
    ]);
    assert!(matches!(action(&table, &[], v4(1, 2, 3, 4, 80)), RouteAction::Block));
    assert!(matches!(action(&table, &[], v4(1, 2, 3, 4, 443)), RouteAction::Direct));
}

#[test]
fn unmatched_traffic_is_blocked() {
    let table: Table =
        RouteTable::new(vec![entry(Matcher::Addr(0x0a00_0005), RouteAction::Direct)]);
    assert!(matches!(action(&table, &[], v4(10, 0, 0, 6, 80)), RouteAction::Block));
}

#[test]
fn an_entry_can_reference_a_shared_matcher_by_name() {
    let matchers = [("lan", Matcher::Range(0xc0a8_0000, 0xc0a8_ffff))];
    let table: Table = RouteTable::new(vec![entry(Matcher::Named("lan"), RouteAction::Direct)]);
    assert!(matches!(action(&table, &matchers, v4(192, 168, 1, 10, 80)), RouteAction::Direct));
    assert!(matches!(action(&table, &matchers, v4(8, 8, 8, 8, 80)), RouteAction::Block));
}

#[test]
fn a_shared_matcher_name_is_only_consulted_once() {
    let matchers = [("direct", Matcher::Any)];
    let table: Table = RouteTable::new(vec![
        named_entry("direct", Matcher::Any, RouteAction::Direct),
        named_entry("direct", Matcher::Any, RouteAction::Block),
    ]);
    assert!(matches!(action(&table, &matchers, v4(1, 2, 3, 4, 80)), RouteAction::Direct));

    let table: Table = RouteTable::new(vec![
        named_entry("web", Matcher::Port(443), RouteAction::Direct),
        named_entry("web", Matcher::Any, RouteAction::Direct),
    ]);
    assert!(matches!(action(&table, &[], v4(1, 2, 3, 4, 80)), RouteAction::Block));
}

#[test]
fn a_matcher_referencing_itself_terminates() {
    let matchers = [("recur", Matcher::Named("recur"))];
    let table: Table = RouteTable::new(vec![entry(Matcher::Named("recur"), RouteAction::Direct)]);
    assert!(matches!(action(&table, &matchers, v4(1, 2, 3, 4, 80)), RouteAction::Block));
}

#[test]
fn a_conn_selector_action_is_preserved_when_selected() {
    let selector = new_selector(&[1], None, None).unwrap();
    let table: Table = RouteTable::new(vec![entry(
        Matcher::Any,
        RouteAction::RouteSelector(Arc::new(selector)),
    )]);
    assert!(matches!(action(&table, &[], v4(1, 2, 3, 4, 80)), RouteAction::RouteSelector(_)));
}

fn registries() -> Registries<Matcher, f64> {
    let mut matcher = KeyMap::new();
    matcher.insert("web".to_owned(), Arc::new(Matcher::Port(443)));
    let mut conn_selector = KeyMap::new();
    conn_selector.insert("fast".to_owned(), Arc::new(new_selector(&[1], None, None).unwrap()));
    Registries { conn: known_hops(), matcher, conn_selector }
}

fn gate_of(ratio: f64) -> Result<f64, f64> {
    if ratio >= 1. { Ok(ratio) } else { Err(ratio) }
}

fn resolve_action(
    action: RouteActionBuilder<f64>,
) -> Result<RouteAction<f64>, RouteTableBuildError<f64>> {
    let mut probes: ProbeFutures<usize> = ProbeFutures::new();
    action.resolve(&registries(), &|c: &WeightedConnChain| c.weight, &gate_of, &mut probes)
}

fn named(name: &str) -> RouteActionBuilder<f64> {
    RouteActionBuilder::RouteSelector(RouteActionSelector::Named {
        conn_selector: name.to_owned(),
    })
}

fn private(chain: Vec<SharableConfig<HopConfig>>, ratio: Option<f64>) -> RouteActionBuilder<f64> {
    RouteActionBuilder::RouteSelector(RouteActionSelector::Sharable(SharableConfig::Private(
        RouteSelectorBuilder {
            chains: vec![WeightedConnChainBuilder { weight: 1, chain }],
            probe_rtt: true,
            active_chains: None,
            max_rtt_ratio: ratio,
        },
    )))
}

#[test]
fn actions_are_looked_up_or_made() {
    let direct = RouteActionBuilder::Tagged(RouteActionTagBuilder::Direct);
    assert!(matches!(resolve_action(direct), Ok(RouteAction::Direct)));
    let block = RouteActionBuilder::Tagged(RouteActionTagBuilder::Block);
    assert!(matches!(resolve_action(block), Ok(RouteAction::Block)));
    assert!(matches!(resolve_action(named("fast")), Ok(RouteAction::RouteSelector(_))));
    for reserved in ["direct", "block"] {
        match resolve_action(named(reserved)) {
            Err(RouteTableBuildError::ReservedRouteSelectorName(name)) => {
                assert_eq!(name, reserved)
            }
            other => panic!("expected a reserved name, got {other:?}"),
        }
    }
    match resolve_action(named("slow")) {
        Err(RouteTableBuildError::RouteSelectorKeyNotFound(name)) => assert_eq!(name, "slow"),
        other => panic!("expected an unknown name, got {other:?}"),
    }
    assert!(matches!(
        resolve_action(private(vec![shared("near")], Some(1.5))),
        Ok(RouteAction::RouteSelector(_))
    ));
    assert!(matches!(
        resolve_action(private(vec![shared("far")], Some(0.5))),
        Err(RouteTableBuildError::RouteSelector(RouteSelectorBuildError::ChainConfig(_)))
    ));
    assert!(matches!(
        resolve_action(private(vec![shared("near")], Some(0.5))),
        Err(RouteTableBuildError::RouteSelector(RouteSelectorBuildError::RouteSelector(
            RouteSelectorError::InvalidMaxRttRatio(_)
        )))
    ));
}

#[test]
fn a_table_is_made_of_its_entries_in_order() {
    let entry = |matcher: &str, action: RouteActionBuilder<f64>| RouteTableEntryBuilder {
        matcher: SharableConfig::SharingKey(matcher.to_owned()),
        action,
    };
    let mut probes: ProbeFutures<usize> = ProbeFutures::new();
    let table = RouteTableBuilder {
        entries: vec![
            entry("web", private(vec![shared("near")], None)),
            RouteTableEntryBuilder {
                matcher: SharableConfig::Private(Arc::new(Matcher::Any)),
                action: RouteActionBuilder::Tagged(RouteActionTagBuilder::Direct),
            },
        ],
    }
    .resolve(&registries(), &|c: &WeightedConnChain| c.weight, &gate_of, &mut probes)
    .unwrap();
    assert_eq!(probes.into_futures(), vec![1], "the chain that was made is probed");
    assert_eq!(table.entries[0].matcher_name().map(|n| n.as_str()), Some("web"));
    assert!(matches!(action(&table, &[], v4(1, 2, 3, 4, 443)), RouteAction::RouteSelector(_)));
    assert!(matches!(action(&table, &[], v4(1, 2, 3, 4, 80)), RouteAction::Direct));

    let mut probes: ProbeFutures<usize> = ProbeFutures::new();
    let failed = RouteTableBuilder {
        entries: vec![entry("mail", named("slow")), entry("web", named("slow"))],
    }
    .resolve(&registries(), &|c: &WeightedConnChain| c.weight, &gate_of, &mut probes);
    match failed {
        Err(RouteTableBuildError::MatcherKeyNotFound(name)) => assert_eq!(name, "mail"),
        other => panic!("expected an unknown matcher, got {other:?}"),
    }
}

#[test]
fn a_table_that_fails_leaves_the_probes_of_the_entries_before() {
    let entry = |matcher: &str, action: RouteActionBuilder<f64>| RouteTableEntryBuilder {
        matcher: SharableConfig::SharingKey(matcher.to_owned()),
        action,
    };
    let mut probes: ProbeFutures<usize> = ProbeFutures::new();
    let failed = RouteTableBuilder {
        entries: vec![
            entry("web", private(vec![shared("near")], None)),
            entry("web", private(vec![shared("near")], Some(0.5))),
            entry("web", private(vec![shared("near")], None)),
        ],
    }
    .resolve(&registries(), &|c: &WeightedConnChain| c.weight, &gate_of, &mut probes);
    assert!(matches!(
        failed,
        Err(RouteTableBuildError::RouteSelector(RouteSelectorBuildError::RouteSelector(
            RouteSelectorError::InvalidMaxRttRatio(_)
        )))
    ));
    assert_eq!(probes.into_futures(), vec![1]);
}

#[test]
fn a_selector_that_is_not_probed_adds_no_probe() {
    let build = |probe_rtt: bool| {
        let mut probes: ProbeFutures<usize> = ProbeFutures::new();
        RouteSelectorBuilder {
            chains: vec![
                WeightedConnChainBuilder { weight: 2, chain: vec![shared("near")] },
                WeightedConnChainBuilder { weight: 3, chain: vec![shared("near")] },
            ],
            probe_rtt,
            active_chains: None,
            max_rtt_ratio: None,
        }
        .resolve(&known_hops(), &|c: &WeightedConnChain| c.weight, &gate_of, &mut probes)
        .unwrap();
        probes.into_futures()
    };
    assert_eq!(build(true), vec![2, 3], "one probe per chain, in order");
    assert!(build(false).is_empty());
}

#[test]
fn scores_are_good_for_half_a_minute() {
    let mut store = NonEmptyRouteSelector::<f64>::score_store();
    let made = Instant { nanos: 7_000_000_000 };
    assert!(store.get(made).is_none());
    let mut selector = selector(&[1, 1], None);
    let rank = |_: usize, w: usize, c: usize, slot: RttSlot| score(w, c, slot).to_bits() as i64;
    let cutoff = |_: &f64, best: Duration| best;
    assert!(selector.refresh_scores(&mut store, made, &rank, &cutoff));
    let first = |store: &ScoreStore, now: Instant| store.get(now).map(|scores| scores[0].index);
    assert_eq!(first(&store, made), Some(0));
    set_gauge(&mut selector, 0, 300);
    set_gauge(&mut selector, 1, 10);
    let late = made.after(Duration { nanos: 29_999_999_999 });
    assert!(!selector.refresh_scores(&mut store, late, &rank, &cutoff));
    assert_eq!(first(&store, late), Some(0), "what was measured since does not count yet");
    let over = made.after(Duration::from_secs(30));
    assert_eq!(first(&store, over), None);
    assert!(selector.refresh_scores(&mut store, over, &rank, &cutoff));
    assert_eq!(first(&store, over), Some(1));
}

#[test]
fn a_gated_choice_never_falls_on_a_dead_or_slow_chain() {
    let mut selector = selector(&[0, 5, 7, 0], Some(1.5));
    set_gauge(&mut selector, 0, 10);
    set_gauge(&mut selector, 1, 5_000);
    set_gauge(&mut selector, 2, 1);
    selector.chains[2].probe_state = ProbeTaskState::JoinFailed;
    set_gauge(&mut selector, 3, 12);
    selector.chains[3].probe_state = ProbeTaskState::Cancelled;
    let scores = selector.scores(
        &|_: usize, w: usize, c: usize, slot: RttSlot| score(w, c, slot).to_bits() as i64,
        &|ratio: &f64, best: Duration| Duration { nanos: (best.nanos as f64 * ratio) as u128 },
    );
    let mut ids: Vec<usize> = scores.iter().map(|s| s.index).collect();
    ids.sort();
    assert_eq!(ids, vec![0, 3], "a cancelled probe counts as healthy");
    for _ in 0..200 {
        let chosen = selector.choose_chain(&scores, true, &|_: usize| false);
        assert_eq!(chosen.weight, 0, "the cutoff holds even if all scores are zero");
    }
}
