use std::sync::Arc;

use proxy_common::addr::{InternetAddr, SocketAddr};
use proxy_common::crypto::CryptoConfig;
use proxy_common::key_map::KeyMap;
use proxy_common::proxy_table::proxy_group::{
    ProxyChainGauge, ProxyGroup, ProxyGroupBuildError, ProxyGroupBuilder, ProxyGroupError,
    WeightedProxyChain,
};
use proxy_common::proxy_table::proxy_server::{
    AddressString, ProxyConfigBuildError, ProxyConfigBuilder,
};
use proxy_common::proxy_table::table::{
    ProxyAction, ProxyActionBuilder, ProxyActionTagBuilder, ProxyTable, ProxyTableBuildContext,
    ProxyTableBuildError, ProxyTableBuilder, ProxyTableEntry, ProxyTableEntryBuilder,
};
use proxy_common::proxy_table::trace::{TraceWave, TRACES_PER_WAVE};
use proxy_common::route::conn_chain::SharableConfig;
use proxy_common::sampling::{DataPoint, TopSample};
use proxy_common::time::{Duration, Instant};

fn chain(weight: usize) -> WeightedProxyChain<u16> {
    WeightedProxyChain { weight, chain: Vec::new() }
}

fn group(weights: &[usize], active: Option<usize>) -> Result<ProxyGroup<u16>, ProxyGroupError> {
    ProxyGroup::new(weights.iter().map(|w| chain(*w)).collect(), false, active)
}

#[test]
fn a_group_without_weight_is_refused() {
    assert_eq!(group(&[], None).unwrap_err(), ProxyGroupError::ZeroAccumulatedWeight);
    assert_eq!(group(&[0, 0], Some(9)).unwrap_err(), ProxyGroupError::ZeroAccumulatedWeight);
    assert_eq!(group(&[1, 2], Some(3)).unwrap_err(), ProxyGroupError::TooManyActiveChains);
    let made = group(&[1, 2], None).unwrap();
    assert_eq!(made.cum_weight, 3);
    assert_eq!(made.active_chains, 2);
}

#[test]
fn a_group_ranks_its_active_chains() {
    let mut made = group(&[1, 2, 3], Some(2)).unwrap();
    made.chains[1].set_gauge(Some(Duration::from_millis(5)), 0);
    let seen = std::cell::RefCell::new(Vec::new());
    let scores = made.scores(&|gauges: &[ProxyChainGauge], cum_weight: usize| {
        assert_eq!(cum_weight, 6);
        seen.borrow_mut().extend_from_slice(gauges);
        vec![5, 9, 7]
    });
    let ids: Vec<usize> = scores.iter().map(|s| s.index).collect();
    assert_eq!(ids, vec![1, 2]);
    assert_eq!(
        seen.borrow()[1],
        ProxyChainGauge { weight: 2, rtt: Some(Duration::from_millis(5)), lost: Some(0) }
    );
    assert_eq!(seen.borrow()[2], ProxyChainGauge { weight: 3, rtt: None, lost: None });
}

#[test]
fn a_group_chooses_by_score_or_by_chance() {
    let single = group(&[4], None).unwrap();
    let scores = single.scores(&|_: &[ProxyChainGauge], _: usize| vec![0]);
    assert_eq!(single.choose_chain(&scores, false, &|_: usize| false).weight, 4);

    let made = group(&[1, 2, 3], Some(1)).unwrap();
    let scores = made.scores(&|_: &[ProxyChainGauge], _: usize| vec![1, 2, 3]);
    assert_eq!(made.choose_chain(&scores, false, &|_: usize| true).weight, 3);
    let mut saw = [false; 4];
    for _ in 0..5000 {
        saw[made.choose_chain(&scores, true, &|_: usize| true).weight] = true;
    }
    assert_eq!(saw, [false, true, true, true], "every chain of the group is as likely");

    let made = group(&[1, 2, 3], None).unwrap();
    let scores = made.scores(&|_: &[ProxyChainGauge], _: usize| vec![5, 9, 7]);
    assert_eq!(made.choose_chain(&scores, false, &|i: usize| i >= 1).weight, 3);
    assert_eq!(made.choose_chain(&scores, false, &|_: usize| false).weight, 1);
}

#[test]
fn a_wave_reports_the_mean_of_what_came_back() {
    let mut wave = TraceWave::new();
    wave.traced(Some(Duration::from_millis(10)));
    wave.traced(None);
    wave.traced(Some(Duration::from_millis(25)));
    let report = wave.report();
    assert_eq!(report.rtt, Some(Duration { nanos: 17_500_000 }));
    assert_eq!(report.lost, TRACES_PER_WAVE - 2);
    assert_eq!(report.pause, Duration::from_secs(30));

    let mut dead = TraceWave::new();
    dead.traced(None);
    let report = dead.report();
    assert_eq!(report.rtt, None);
    assert_eq!(report.lost, TRACES_PER_WAVE);
    assert_eq!(report.pause, Duration::from_secs(3600));
}

struct PortText(&'static str);

impl AddressString for PortText {
    type Address = u16;

    fn into_address(self) -> u16 {
        self.0.parse().unwrap()
    }
}

#[test]
fn a_proxy_is_read_from_its_configuration() {
    let read = |key: &'static str| -> Result<CryptoConfig, String> {
        if key == "bad" { Err("too short".to_owned()) } else { Ok(CryptoConfig { key: [8; 32] }) }
    };
    let build = |header_key, payload_key| {
        ProxyConfigBuilder { address: PortText("80"), header_key, payload_key }.build(&read)
    };
    let proxy = build("good", None).unwrap();
    assert_eq!(proxy.address, 80);
    assert_eq!(proxy.header_crypto.key, [8; 32]);
    assert!(proxy.payload_crypto.is_none());
    for (header_key, payload_key) in [("bad", None), ("good", Some("bad"))] {
        match build(header_key, payload_key) {
            Err(ProxyConfigBuildError::Crypto(reason)) => assert_eq!(reason, "too short"),
            Ok(proxy) => panic!("expected a refusal, got {proxy:?}"),
        }
    }
}

fn build_chain(weight: usize) -> Result<WeightedProxyChain<u16>, &'static str> {
    if weight == 13 { Err("unlucky") } else { Ok(chain(weight)) }
}

fn in_place(chains: Vec<usize>, active_chains: Option<usize>) -> ProxyActionBuilder<usize> {
    ProxyActionBuilder::ProxyGroup(SharableConfig::Private(ProxyGroupBuilder {
        chains,
        trace_rtt: false,
        active_chains,
    }))
}

#[test]
fn a_group_is_made_of_its_chains_or_not_at_all() {
    let build = |chains: Vec<usize>, active_chains| {
        ProxyGroupBuilder { chains, trace_rtt: true, active_chains }.build(&build_chain)
    };
    let made = build(vec![1, 2], None).unwrap();
    assert_eq!(made.cum_weight, 3);
    assert!(made.traced, "the group is traced as it is configured");
    assert!(!group(&[1, 2], None).unwrap().traced);
    assert!(matches!(
        build(vec![0, 13], None),
        Err(ProxyGroupBuildError::ChainConfig("unlucky"))
    ));
    assert!(matches!(
        build(vec![1], Some(2)),
        Err(ProxyGroupBuildError::ProxyGroup(ProxyGroupError::TooManyActiveChains))
    ));
}

fn build_matcher(port: &'static str) -> Result<Arc<u16>, std::num::ParseIntError> {
    port.parse().map(Arc::new)
}

type Cx = ProxyTableBuildContext<u16, u16>;

fn context() -> Cx {
    let mut matcher = KeyMap::new();
    matcher.insert("web".to_owned(), Arc::new(443));
    let mut proxy_group = KeyMap::new();
    proxy_group.insert("fast".to_owned(), Arc::new(group(&[1], None).unwrap()));
    ProxyTableBuildContext { matcher, proxy_group }
}

fn matches_port(port: &u16, addr: &InternetAddr) -> bool {
    *port == 0 || *port == addr.port()
}

fn addr(port: u16) -> InternetAddr {
    InternetAddr::SocketAddr(SocketAddr::V4 { ip: 1, port })
}

#[test]
fn a_proxy_table_takes_the_first_match() {
    let table = ProxyTableBuilder {
        entries: vec![
            ProxyTableEntryBuilder {
                matcher: SharableConfig::SharingKey("web".to_owned()),
                action: ProxyActionBuilder::ProxyGroup(SharableConfig::SharingKey(
                    "fast".to_owned(),
                )),
            },
            ProxyTableEntryBuilder {
                matcher: SharableConfig::Private("80"),
                action: in_place(vec![1, 2], None),
            },
            ProxyTableEntryBuilder {
                matcher: SharableConfig::Private("53"),
                action: ProxyActionBuilder::Tagged(ProxyActionTagBuilder::Direct),
            },
        ],
    }
    .build(&context(), &build_matcher, &build_chain)
    .unwrap();
    match table.action(&addr(443), &matches_port) {
        ProxyAction::ProxyGroup(group) => assert_eq!(group.cum_weight, 1),
        other => panic!("expected the shared group, got {other:?}"),
    }
    match table.action(&addr(80), &matches_port) {
        ProxyAction::ProxyGroup(group) => assert_eq!(group.cum_weight, 3),
        other => panic!("expected the group in place, got {other:?}"),
    }
    assert!(matches!(table.action(&addr(53), &matches_port), ProxyAction::Direct));
    assert!(matches!(table.action(&addr(22), &matches_port), ProxyAction::Block));
    let wins: ProxyTable<u16, u16> = ProxyTable::new(vec![
        ProxyTableEntry::new(Arc::new(0), ProxyAction::Direct),
        ProxyTableEntry::new(Arc::new(22), ProxyAction::Block),
    ]);
    assert!(matches!(wins.action(&addr(22), &matches_port), ProxyAction::Direct));
}

#[test]
fn names_that_a_proxy_table_does_not_know_are_told() {
    let build = |matcher: &str, action: ProxyActionBuilder<usize>| {
        ProxyTableBuilder {
            entries: vec![ProxyTableEntryBuilder {
                matcher: SharableConfig::SharingKey(matcher.to_owned()),
                action,
            }],
        }
        .build(&context(), &build_matcher, &build_chain)
    };
    let slow = || ProxyActionBuilder::ProxyGroup(SharableConfig::SharingKey("slow".to_owned()));
    match build("mail", slow()) {
        Err(ProxyTableBuildError::ProxyGroupKeyNotFound(name)) => assert_eq!(name, "mail"),
        other => panic!("expected an unknown matcher, got {other:?}"),
    }
    match build("web", slow()) {
        Err(ProxyTableBuildError::ProxyGroupKeyNotFound(name)) => assert_eq!(name, "slow"),
        other => panic!("expected an unknown group, got {other:?}"),
    }
    assert!(matches!(
        build("web", in_place(vec![0], None)),
        Err(ProxyTableBuildError::ProxyGroup(ProxyGroupBuildError::ProxyGroup(
            ProxyGroupError::ZeroAccumulatedWeight
        )))
    ));
}

#[test]
fn a_matcher_that_cannot_be_made_comes_before_its_action() {
    let entry = |matcher: &'static str| ProxyTableEntryBuilder {
        matcher: SharableConfig::Private(matcher),
        action: ProxyActionBuilder::ProxyGroup(SharableConfig::SharingKey("slow".to_owned())),
    };
    let refused = entry("http").build(&context(), &build_matcher, &build_chain);
    assert!(matches!(refused, Err(ProxyTableBuildError::Matcher(_))), "{refused:?}");
    let refused = entry("80").build(&context(), &build_matcher, &build_chain);
    match refused {
        Err(ProxyTableBuildError::ProxyGroupKeyNotFound(name)) => assert_eq!(name, "slow"),
        other => panic!("expected an unknown group, got {other:?}"),
    }
}

#[test]
fn a_sample_keeps_its_smallest_values() {
    let fresh = Duration::from_secs(10);
    let now = Instant { nanos: 50_000_000_000 };
    let mut sample: TopSample<u32> = TopSample::new(3, fresh);
    assert_eq!(sample.get_nth(0), None);
    assert_eq!(sample.get_5_percentile(), None);
    for value in [30, 10, 20] {
        sample.insert(value, now);
    }
    assert_eq!(sample.get_nth(0), Some(&10));
    assert_eq!(sample.get_nth(2), Some(&30));
    assert_eq!(sample.get_5_percentile(), Some(&10));
    sample.insert(5, now);
    assert_eq!(sample.data_points.len(), 3);
    assert_eq!(sample.get_nth(0), Some(&5));
}

#[test]
fn a_fresh_sample_drops_its_greatest_value() {
    let now = Instant { nanos: 50_000_000_000 };
    let mut sample: TopSample<u32> = TopSample::new(2, Duration::from_secs(3600));
    for value in [1, 2, 3] {
        sample.insert(value, now);
    }
    assert_eq!(sample.get_nth(0), Some(&1));
    assert_eq!(sample.get_nth(1), Some(&2));
}

#[test]
fn a_stale_point_makes_room() {
    let now = Instant { nanos: 50_000_000_000 };
    let mut sample: TopSample<u32> = TopSample::new(2, Duration::from_secs(10));
    sample.insert(1, now);
    let later = now.after(Duration::from_secs(11));
    sample.insert(2, later);
    sample.insert(3, later);
    assert_eq!(sample.get_nth(0), Some(&2), "the value of 1 is out of date");
    assert_eq!(sample.get_nth(1), Some(&3));
}

#[test]
fn a_point_has_a_term() {
    let now = Instant { nanos: 1_000 };
    let point = DataPoint::new('x', Duration { nanos: 500 }, now);
    assert_eq!(point.fresh_until, Instant { nanos: 1_500 });
    assert!(point.is_fresh(now));
    assert!(point.is_fresh(Instant { nanos: 1_500 }));
    assert!(!point.is_fresh(Instant { nanos: 1_501 }));
}

#[test]
fn the_scores_of_a_group_are_kept_for_half_a_minute() {
    let mut store = ProxyGroup::<u16>::score_store();
    let made = Instant { nanos: 1 };
    let group = group(&[1, 2], None).unwrap();
    let rising = |gauges: &[ProxyChainGauge], _: usize| (0..gauges.len() as i64).collect::<Vec<_>>();
    let falling = |gauges: &[ProxyChainGauge], _: usize| {
        (0..gauges.len() as i64).rev().collect::<Vec<_>>()
    };
    assert!(group.refresh_scores(&mut store, made, &rising));
    let late = made.after(Duration { nanos: 29_999_999_999 });
    assert!(!group.refresh_scores(&mut store, late, &falling));
    assert_eq!(store.get(late).unwrap()[0].index, 1);
    let over = made.after(Duration::from_secs(30));
    assert!(group.refresh_scores(&mut store, over, &falling));
    assert_eq!(store.get(over).unwrap()[0].index, 0);
}
