use proxy_common::route::chain_selection::{
    best_measured, pick_weighted, rank_chains, retain_eligible, RttSlot, ScoredChain,
};
use proxy_common::route::degradation::{RecyclePacer, RttDegradation, DEGRADED_PROBE_STREAK};
use proxy_common::route::rtt_stats::{
    ewma_duration, ewma_loss, median_duration, RttStats, LOSS_EWMA_ALPHA_DOWN_PERCENT,
    LOSS_EWMA_ALPHA_UP_PERCENT, RTT_EWMA_ALPHA_PERCENT,
};
use proxy_common::time::{Duration, Instant, MAX_NANOS};

fn ms(n: u64) -> Duration {
    Duration::from_millis(n)
}

fn secs_later(t: Instant, secs: u64) -> Instant {
    t.after(Duration::from_secs(secs))
}

fn blend(old: Duration, new: Duration, percent: u32) -> Duration {
    let alpha = f64::from(percent) / 100.;
    let mixed = old.nanos as f64 * (1. - alpha) + new.nanos as f64 * alpha;
    Duration { nanos: mixed.round() as u128 }
}

fn check_pacer() {
    let t0 = Instant { nanos: 5_000_000_000 };
    let mut p = RecyclePacer::new(t0);
    assert!(!p.allow(secs_later(t0, 30)));
    assert!(!p.allow(secs_later(t0, 599)));
    assert!(p.allow(secs_later(t0, 600)));
    assert!(!p.allow(secs_later(t0, 900)));
    assert!(p.allow(secs_later(t0, 1300)));
}

#[test]
fn degradation_pacer_suppresses_early_and_frequent_recycles() {
    check_pacer();
}

#[test]
fn recycle_pacer_suppresses_early_and_frequent_recycles() {
    check_pacer();
}

fn check_fires_then_rebases() {
    let mut d = RttDegradation::default();
    for _ in 0..10 {
        assert!(!d.observe(ms(50)));
    }
    for _ in 0..4 {
        assert!(!d.observe(ms(200)));
    }
    assert!(d.observe(ms(200)));
    for _ in 0..10 {
        assert!(!d.observe(ms(200)));
    }
    assert!(!d.observe(ms(50)));
    for _ in 0..4 {
        assert!(!d.observe(ms(200)));
    }
    assert!(d.observe(ms(200)));
}

#[test]
fn degradation_degradation_fires_after_sustained_regression_then_rebases() {
    check_fires_then_rebases();
}

#[test]
fn recycle_degradation_fires_after_sustained_regression_then_rebases() {
    check_fires_then_rebases();
}

#[test]
fn the_degradation_ratio_boundary_counts_a_sample_exactly_at_the_ratio() {
    let mut d = RttDegradation::default();
    assert!(!d.observe(Duration::from_secs(1)));
    for _ in 0..DEGRADED_PROBE_STREAK - 1 {
        assert!(!d.observe(Duration::from_secs(3)));
    }
    assert!(
        d.observe(Duration::from_secs(3)),
        "a 3x regression must fire after DEGRADED_PROBE_STREAK observations"
    );

    let mut d = RttDegradation::default();
    assert!(!d.observe(Duration::from_secs(1)));
    for _ in 0..DEGRADED_PROBE_STREAK - 1 {
        assert!(!d.observe(Duration::from_secs(3)));
    }
    assert!(
        !d.observe(Duration::from_secs(2)),
        "2x is below the ratio and must reset the streak"
    );
    assert!(
        !d.observe(Duration::from_secs(3)),
        "the streak restarted at one, so it must not fire yet"
    );
}

fn check_streak_resets() {
    let mut d = RttDegradation::default();
    assert!(!d.observe(ms(50)));
    for _ in 0..4 {
        assert!(!d.observe(ms(200)));
    }
    assert!(!d.observe(ms(60)));
    for _ in 0..4 {
        assert!(!d.observe(ms(200)));
    }
    assert!(d.observe(ms(200)));
}

#[test]
fn degradation_degradation_streak_resets_when_rtt_recovers() {
    check_streak_resets();
}

#[test]
fn recycle_degradation_streak_resets_when_rtt_recovers() {
    check_streak_resets();
}

#[test]
fn rtt_stats_median_is_outlier_robust() {
    assert_eq!(median_duration(&mut vec![ms(10), ms(20), ms(5000)]), Some(ms(20)));
}

#[test]
fn rtt_stats_median_even_count_averages_the_two_middles() {
    assert_eq!(median_duration(&mut vec![ms(40), ms(10), ms(30), ms(20)]), Some(ms(25)));
}

#[test]
fn rtt_stats_median_of_empty_wave_is_none() {
    assert_eq!(median_duration(&mut vec![]), None);
}

#[test]
fn score_median_is_outlier_robust() {
    assert_eq!(median_duration(&mut vec![ms(10), ms(20), ms(5000)]), Some(ms(20)));
}

#[test]
fn score_median_even_count_averages_the_two_middles() {
    assert_eq!(median_duration(&mut vec![ms(40), ms(10), ms(30), ms(20)]), Some(ms(25)));
}

#[test]
fn score_median_of_empty_wave_is_none() {
    assert_eq!(median_duration(&mut vec![]), None);
}

#[test]
fn a_median_leaves_the_wave_sorted() {
    let mut wave = vec![ms(30), ms(10), ms(20)];
    assert_eq!(median_duration(&mut wave), Some(ms(20)));
    assert_eq!(wave, vec![ms(10), ms(20), ms(30)]);
}

fn check_first_sample() {
    let mut s = RttStats::default();
    s.apply_sample(ms(100), &blend);
    assert_eq!(s.srtt, Some(ms(100)));
    assert_eq!(s.rttvar, Some(ms(50)));
    assert_eq!(s.effective(), Some(ms(200)));
}

#[test]
fn rtt_stats_rtt_stats_first_sample_seeds_rfc6298_pessimistic() {
    check_first_sample();
}

#[test]
fn score_rtt_stats_first_sample_seeds_rfc6298_pessimistic() {
    check_first_sample();
}

fn check_steady_beats_jittery() {
    let mut steady = RttStats::default();
    let mut jittery = RttStats::default();
    for _ in 0..20 {
        steady.apply_sample(ms(150), &blend);
        jittery.apply_sample(ms(150), &blend);
        jittery.apply_sample(ms(900), &blend);
    }
    let s = steady.effective().unwrap();
    let j = jittery.effective().unwrap();
    assert!(s.nanos + ms(100).nanos < j.nanos, "steady {s:?} vs jittery {j:?}");
}

#[test]
fn rtt_stats_steady_route_beats_jittery_route_with_similar_median() {
    check_steady_beats_jittery();
}

#[test]
fn score_steady_route_beats_jittery_route_with_similar_median() {
    check_steady_beats_jittery();
}

fn check_rttvar_decays() {
    let mut stats = RttStats::default();
    for _ in 0..10 {
        stats.apply_sample(ms(200), &blend);
        stats.apply_sample(ms(800), &blend);
    }
    let noisy_rttvar = stats.rttvar;
    for _ in 0..40 {
        stats.apply_sample(ms(150), &blend);
    }
    let calm_rttvar = stats.rttvar;
    assert!(calm_rttvar.is_some() && noisy_rttvar.is_some());
    assert!(
        calm_rttvar.unwrap().nanos < noisy_rttvar.unwrap().nanos / 4,
        "calm {calm_rttvar:?} not below quarter of noisy {noisy_rttvar:?}",
    );
}

#[test]
fn rtt_stats_rttvar_decays_once_the_path_calms_down() {
    check_rttvar_decays();
}

#[test]
fn score_rttvar_decays_once_the_path_calms_down() {
    check_rttvar_decays();
}

fn check_rolling_median() {
    let mut stats = RttStats::default();
    for _ in 0..5 {
        stats.apply_sample(ms(150), &blend);
    }
    let before = stats.srtt;
    stats.apply_sample(ms(5000), &blend);
    let after = stats.srtt;
    assert!(after.is_some() && before.is_some());
    let drift = after.unwrap().nanos.abs_diff(before.unwrap().nanos);
    assert!(drift < ms(2).nanos, "srtt drifted by {drift}");
    assert!(stats.rttvar.unwrap().nanos > ms(1000).nanos, "rttvar {:?} not above 1s", stats.rttvar);
}

#[test]
fn rtt_stats_rolling_median_keeps_srtt_outlier_robust() {
    check_rolling_median();
}

#[test]
fn score_rolling_median_keeps_srtt_outlier_robust() {
    check_rolling_median();
}

fn rank(score: f64) -> i64 {
    (score * 1e6) as i64
}

fn measured(index: usize, score: f64, rtt: Duration) -> ScoredChain {
    ScoredChain { index, score: rank(score), rtt: RttSlot::Measured(rtt) }
}

fn unmeasured(index: usize, score: f64) -> ScoredChain {
    ScoredChain { index, score: rank(score), rtt: RttSlot::Unmeasured }
}

fn unreachable_chain(index: usize, score: f64) -> ScoredChain {
    ScoredChain { index, score: rank(score), rtt: RttSlot::Unreachable }
}

fn cutoff(best: Duration, ratio: f64) -> Duration {
    let nanos = best.nanos as f64 * ratio;
    if nanos < MAX_NANOS as f64 {
        Duration { nanos: nanos as u128 }
    } else {
        Duration { nanos: MAX_NANOS }
    }
}

fn survivors(mut chains: Vec<ScoredChain>, ratio: f64) -> Vec<usize> {
    let before = chains.len();
    let dropped = retain_eligible(&mut chains, &|best: Duration| cutoff(best, ratio));
    assert_eq!(dropped, before - chains.len());
    let mut ids: Vec<usize> = chains.into_iter().map(|c| c.index).collect();
    ids.sort_unstable();
    ids
}

fn check_gate_keeps_the_fast_tier() {
    let s = |rtt: Duration| (1. / 6.) / (1. + rtt.nanos as f64 / 1e8);
    let chains = vec![
        measured(0, s(ms(150)), ms(150)),
        measured(1, s(ms(150)), ms(150)),
        measured(2, s(ms(150)), ms(150)),
        measured(3, s(ms(150)), ms(150)),
        measured(4, s(ms(250)), ms(250)),
        measured(5, s(ms(250)), ms(250)),
    ];
    assert_eq!(survivors(chains, 1.5), vec![0, 1, 2, 3]);
}

#[test]
fn chain_selection_gate_keeps_the_fast_tier_and_drops_the_slow_one() {
    check_gate_keeps_the_fast_tier();
}

#[test]
fn score_gate_keeps_the_fast_tier_and_drops_the_slow_one() {
    check_gate_keeps_the_fast_tier();
}

#[test]
fn chain_selection_gate_is_a_no_op_until_something_is_measured() {
    let chains = vec![unmeasured(0, 0.9), unmeasured(1, 0.1)];
    assert_eq!(survivors(chains, 0.8), vec![0, 1]);
}

#[test]
fn score_gate_is_a_no_op_until_something_is_measured() {
    let chains = vec![unmeasured(0, 0.9), unmeasured(1, 0.1)];
    assert_eq!(survivors(chains, 0.8), vec![0, 1]);
}

#[test]
fn chain_selection_gate_never_excludes_an_unmeasured_chain() {
    let chains = vec![measured(0, 1.0, ms(100)), unmeasured(1, 0.1)];
    assert_eq!(survivors(chains, 2.0), vec![0, 1]);
}

#[test]
fn score_gate_never_excludes_an_unmeasured_chain() {
    let chains = vec![measured(0, 1.0, ms(100)), unmeasured(1, 0.1)];
    assert_eq!(survivors(chains, 2.0), vec![0, 1]);
}

#[test]
fn an_enormous_ratio_admits_everything_instead_of_panicking() {
    let chains = vec![measured(0, 1.0, ms(1)), measured(1, 0.5, ms(5000))];
    assert_eq!(survivors(chains, 1e30), vec![0, 1]);
    let chains = vec![measured(0, 1.0, ms(1)), measured(1, 0.5, ms(5000))];
    assert_eq!(survivors(chains, f64::MAX), vec![0, 1]);
}

fn check_gate_bar() {
    let chains = vec![
        measured(0, 0.40, ms(50)),
        measured(1, 0.30, ms(200)),
        unmeasured(2, 0.90),
    ];
    assert_eq!(survivors(chains, 1.5), vec![0, 2]);
}

#[test]
fn chain_selection_gate_bar_ignores_optimistic_unmeasured_scores() {
    check_gate_bar();
}

#[test]
fn score_gate_bar_ignores_optimistic_unmeasured_scores() {
    check_gate_bar();
}

#[test]
fn chain_selection_gate_excludes_a_dead_from_start_chain() {
    let chains = vec![measured(0, 0.4, ms(100)), measured(1, 0.0, ms(5000))];
    assert_eq!(survivors(chains, 1.5), vec![0]);
}

#[test]
fn score_gate_excludes_a_dead_from_start_chain() {
    let chains = vec![measured(0, 0.4, ms(100)), measured(1, 0.0, ms(5000))];
    assert_eq!(survivors(chains, 1.5), vec![0]);
}

#[test]
fn gate_always_excludes_unreachable_chains() {
    let chains = vec![measured(0, 0.4, ms(100)), unreachable_chain(1, 0.5)];
    assert_eq!(survivors(chains, 1.5), vec![0]);
}

#[test]
fn gate_keeps_unreachable_when_all_are_unreachable() {
    let chains = vec![unreachable_chain(0, 0.5), unreachable_chain(1, 0.5)];
    assert_eq!(survivors(chains, 1.5), vec![0, 1]);
}

#[test]
fn the_best_time_is_the_least_that_was_measured() {
    let chains = [measured(0, 1., ms(70)), unmeasured(1, 1.), measured(2, 1., ms(30))];
    assert_eq!(best_measured(&chains), Some(ms(30)));
    assert_eq!(best_measured(&[unmeasured(0, 1.), unreachable_chain(1, 1.)]), None);
}

#[test]
fn ranking_puts_the_best_first_and_keeps_ties_in_order() {
    let chains =
        [unmeasured(0, 0.2), unmeasured(1, 0.5), unmeasured(2, 0.2), unmeasured(3, 0.9)];
    let all: Vec<usize> = rank_chains(&chains, 4).into_iter().map(|c| c.index).collect();
    assert_eq!(all, vec![3, 1, 0, 2]);
    let active: Vec<usize> = rank_chains(&chains, 2).into_iter().map(|c| c.index).collect();
    assert_eq!(active, vec![3, 1]);
    assert_eq!(rank_chains(&chains[..1], 3).len(), 1);
}

fn picked(scores: &[(usize, f64)], r: f64) -> usize {
    let chains: Vec<ScoredChain> = scores
        .iter()
        .map(|(index, score)| ScoredChain {
            index: *index,
            score: score.to_bits() as i64,
            rtt: RttSlot::Unmeasured,
        })
        .collect();
    let covers = |i: usize| {
        let mut cum = 0.;
        for (_, score) in &scores[..=i] {
            cum += score;
        }
        r < cum
    };
    pick_weighted(&chains, &covers)
}

fn check_pick_bucket() {
    let s = [(0usize, 0.7_f64), (1, 0.3)];
    assert_eq!(picked(&s, 0.0), 0);
    assert_eq!(picked(&s, 0.69), 0);
    assert_eq!(picked(&s, 0.70), 1);
    assert_eq!(picked(&s, 0.99), 1);
}

#[test]
fn chain_selection_pick_weighted_selects_the_bucket_containing_r() {
    check_pick_bucket();
}

#[test]
fn score_pick_weighted_selects_the_bucket_containing_r() {
    check_pick_bucket();
}

fn check_pick_index() {
    let s = [(3usize, 0.5_f64), (1, 0.5)];
    assert_eq!(picked(&s, 0.2), 3);
    assert_eq!(picked(&s, 0.7), 1);
}

#[test]
fn chain_selection_pick_weighted_returns_the_chain_index_not_the_position() {
    check_pick_index();
}

#[test]
fn score_pick_weighted_returns_the_chain_index_not_the_position() {
    check_pick_index();
}

fn check_pick_single() {
    assert_eq!(picked(&[(5usize, 1.0_f64)], 0.0), 5);
    assert_eq!(picked(&[(5usize, 1.0_f64)], 0.999), 5);
}

#[test]
fn chain_selection_pick_weighted_single_bucket_always_wins() {
    check_pick_single();
}

#[test]
fn score_pick_weighted_single_bucket_always_wins() {
    check_pick_single();
}

fn check_pick_overshoot() {
    assert_eq!(picked(&[(0usize, 0.3_f64), (1, 0.3)], 0.6), 1);
}

#[test]
fn chain_selection_pick_weighted_overshoot_falls_back_to_last_instead_of_panicking() {
    check_pick_overshoot();
}

#[test]
fn score_pick_weighted_overshoot_falls_back_to_last_instead_of_panicking() {
    check_pick_overshoot();
}

#[test]
fn a_draw_from_no_chain_is_zero() {
    assert_eq!(pick_weighted(&[], &|_: usize| true), 0);
}

fn check_ewma_seed() {
    let r = ewma_duration(None, Some(ms(100)), RTT_EWMA_ALPHA_PERCENT, &blend);
    assert_eq!(r, Some(ms(100)));
}

#[test]
fn rtt_stats_ewma_duration_first_sample_seeds_the_estimate() {
    check_ewma_seed();
}

#[test]
fn score_ewma_duration_first_sample_seeds_the_estimate() {
    check_ewma_seed();
}

fn check_ewma_dead_wave() {
    let r = ewma_duration(Some(ms(100)), None, RTT_EWMA_ALPHA_PERCENT, &blend);
    assert_eq!(r, Some(ms(100)));
    assert_eq!(ewma_duration(None, None, RTT_EWMA_ALPHA_PERCENT, &blend), None);
}

#[test]
fn rtt_stats_ewma_duration_dead_wave_keeps_previous_estimate() {
    check_ewma_dead_wave();
}

#[test]
fn score_ewma_duration_dead_wave_keeps_previous_estimate() {
    check_ewma_dead_wave();
}

fn check_ewma_blend() {
    assert_eq!(RTT_EWMA_ALPHA_PERCENT, 7);
    let blended = ewma_duration(Some(ms(100)), Some(ms(200)), RTT_EWMA_ALPHA_PERCENT, &blend);
    let secs = blended.unwrap().nanos as f64 / 1e9;
    assert!((secs - 0.107).abs() < 1e-9);
}

#[test]
fn rtt_stats_ewma_duration_blends_toward_the_new_sample() {
    check_ewma_blend();
}

#[test]
fn score_ewma_duration_blends_toward_the_new_sample() {
    check_ewma_blend();
}

fn loss_after(prev: Option<f64>, sample: f64) -> f64 {
    ewma_loss(prev, sample, &|a: &f64, b: &f64| a > b, &|old: f64, new: f64, percent: u32| {
        let alpha = f64::from(percent) / 100.;
        old * (1. - alpha) + new * alpha
    })
}

fn check_ewma_loss() {
    assert!((loss_after(None, 0.4) - 0.4).abs() < f64::EPSILON);
    let up = loss_after(Some(0.2), 1.0);
    assert!((up - 0.368).abs() < 1e-9);
    let down = loss_after(Some(0.8), 0.0);
    assert!((down - 0.744).abs() < 1e-9);
    let up_move = loss_after(Some(0.5), 1.0) - 0.5;
    let down_move = 0.5 - loss_after(Some(0.5), 0.0);
    assert!(up_move > down_move);
    assert!((0.0..=1.0).contains(&up) && (0.0..=1.0).contains(&down));
    assert!(LOSS_EWMA_ALPHA_UP_PERCENT > LOSS_EWMA_ALPHA_DOWN_PERCENT);
}

#[test]
fn rtt_stats_ewma_loss_is_fast_to_distrust_slow_to_trust() {
    check_ewma_loss();
}

#[test]
fn score_ewma_loss_is_fast_to_distrust_slow_to_trust() {
    check_ewma_loss();
}
