//! The smoothed round trip time of a chain.

use vstd::prelude::*;
use crate::time::{Duration, MAX_NANOS};

verus! {

/// The weight of a new sample in the smoothed time, in hundredths.
pub const RTT_EWMA_ALPHA_PERCENT: u32 = 7;

/// The weight of a new sample in the variation, in hundredths.
pub const RTTVAR_EWMA_BETA_PERCENT: u32 = 25;

/// The weight of a new sample in the loss, in hundredths, where it is above
/// what was known.
pub const LOSS_EWMA_ALPHA_UP_PERCENT: u32 = 21;

/// The weight of a new sample in the loss, in hundredths, where it is not.
pub const LOSS_EWMA_ALPHA_DOWN_PERCENT: u32 = 7;

/// How many samples the rolling median looks at.
pub const RTT_MEDIAN_WINDOW: usize = 5;

/// How many variations the effective time is above the smoothed one.
pub const RTT_EFF_VAR_FACTOR: u128 = 2;

/// Whether the times ascend.
pub open spec fn ascending(rtts: Seq<Duration>) -> bool {
    forall|i: int, j: int|
        0 <= i <= j < rtts.len() ==> (#[trigger] rtts[i]).nanos <= (#[trigger] rtts[j]).nanos
}

/// The middle of ascending times: the one in the middle, or the mean of the
/// two in the middle, rounded down.
pub open spec fn middle(rtts: Seq<Duration>) -> Option<Duration> {
    let mid = rtts.len() as int / 2;
    if rtts.len() == 0 {
        None
    } else if rtts.len() % 2 == 1 {
        Some(rtts[mid])
    } else {
        Some(Duration { nanos: ((rtts[mid - 1].nanos + rtts[mid].nanos) / 2) as u128 })
    }
}

/// Whether every time is one that can be measured.
pub open spec fn all_wf(rtts: Seq<Duration>) -> bool {
    forall|i: int| 0 <= i < rtts.len() ==> (#[trigger] rtts[i]).wf()
}

/// Whether `median` is the median of the times, which `window` holds in order.
pub open spec fn is_median(rtts: Seq<Duration>, window: Seq<Duration>, median: Duration) -> bool {
    &&& ascending(window)
    &&& window.to_multiset() == rtts.to_multiset()
    &&& middle(window) == Some(median)
}

/// Sorts the times.
fn sort_durations(rtts: &mut Vec<Duration>)
    ensures
        ascending(final(rtts)@),
        final(rtts)@.to_multiset() == old(rtts)@.to_multiset(),
        final(rtts)@.len() == old(rtts)@.len(),
{
    let mut unsorted: Vec<Duration> = Vec::new();
    unsorted.append(rtts);
    let ghost all = unsorted@;
    assert(all =~= old(rtts)@);
    proof {
        broadcast use vstd::seq_lib::group_to_multiset_ensures;

    }
    while unsorted.len() > 0
        invariant
            ascending(rtts@),
            rtts@.len() + unsorted@.len() == all.len(),
            rtts@.to_multiset().add(unsorted@.to_multiset()) =~= all.to_multiset(),
        decreases unsorted@.len(),
    {
        let ghost before = rtts@;
        let ghost rest = unsorted@;
        proof {
            broadcast use vstd::seq_lib::group_to_multiset_ensures;

        }
        let rtt = match unsorted.pop() {
            Some(rtt) => rtt,
            None => {
                return ;
            },
        };
        let mut at: usize = rtts.len();
        while at > 0 && rtt.nanos < rtts[at - 1].nanos
            invariant
                at <= rtts@.len(),
                rtts@ == before,
                ascending(before),
                forall|i: int| at <= i < before.len() ==> rtt.nanos < (#[trigger] before[i]).nanos,
            decreases at,
        {
            at -= 1;
        }
        rtts.insert(at, rtt);
        proof {
            broadcast use vstd::seq_lib::group_to_multiset_ensures;

            vstd::seq_lib::to_multiset_insert(before, at as int, rtt);
            assert(rest =~= unsorted@.push(rtt));
            assert(rest.to_multiset() =~= unsorted@.to_multiset().insert(rtt));
            let after = rtts@;
            assert forall|i: int, j: int| 0 <= i <= j < after.len() implies (
            #[trigger] after[i]).nanos <= (#[trigger] after[j]).nanos by {
                let a = if i < at {
                    before[i]
                } else if i == at {
                    rtt
                } else {
                    before[i - 1]
                };
                let b = if j < at {
                    before[j]
                } else if j == at {
                    rtt
                } else {
                    before[j - 1]
                };
                assert(after[i] == a && after[j] == b);
                if i < at && j == at {
                    assert(before[i].nanos <= before[at - 1].nanos);
                }
            }
        }
    }
    proof {
        broadcast use vstd::seq_lib::group_to_multiset_ensures;

        assert(unsorted@.to_multiset() =~= vstd::multiset::Multiset::empty());
        assert(rtts@.to_multiset() =~= all.to_multiset());
    }
}

/// The median of the times, which are sorted on the way.
pub fn median_duration(rtts: &mut Vec<Duration>) -> (r: Option<Duration>)
    requires
        all_wf(old(rtts)@),
    ensures
        ascending(final(rtts)@),
        final(rtts)@.to_multiset() == old(rtts)@.to_multiset(),
        final(rtts)@.len() == old(rtts)@.len(),
        r == middle(final(rtts)@),
        r matches Some(median) ==> median.wf(),
{
    if rtts.len() == 0 {
        return None;
    }
    sort_durations(rtts);
    proof {
        lemma_wf_survives_permutation(old(rtts)@, rtts@);
    }
    let mid: usize = rtts.len() / 2;
    if rtts.len() % 2 == 1 {
        assert(rtts@[mid as int].wf());
        Some(rtts[mid])
    } else {
        assert(rtts@[mid as int].wf() && rtts@[mid - 1].wf());
        Some(Duration { nanos: (rtts[mid - 1].nanos + rtts[mid].nanos) / 2 })
    }
}

proof fn lemma_wf_survives_permutation(a: Seq<Duration>, b: Seq<Duration>)
    requires
        all_wf(a),
        a.to_multiset() == b.to_multiset(),
    ensures
        all_wf(b),
{
    broadcast use vstd::seq_lib::group_to_multiset_ensures;

    assert forall|i: int| 0 <= i < b.len() implies (#[trigger] b[i]).wf() by {
        assert(b.contains(b[i]));
        assert(b.to_multiset().count(b[i]) > 0);
        assert(a.to_multiset().count(b[i]) > 0);
        assert(a.contains(b[i]));
    }
}

/// The median lies between the least and the greatest time, so that no single
/// outlier can move it beyond the others.
pub proof fn median_is_within_range(rtts: Seq<Duration>)
    requires
        ascending(rtts),
        all_wf(rtts),
        rtts.len() > 0,
    ensures
        rtts.first().nanos <= middle(rtts)->0.nanos <= rtts.last().nanos,
{
    let mid = rtts.len() as int / 2;
    assert(rtts[0].nanos <= rtts[mid].nanos <= rtts[rtts.len() - 1].nanos);
    if rtts.len() % 2 == 0 {
        assert(rtts[0].nanos <= rtts[mid - 1].nanos <= rtts[mid].nanos);
        assert((rtts[mid - 1].nanos + rtts[mid].nanos) / 2 <= rtts[mid].nanos);
    }
}

/// With three or more times, whatever the greatest is, the median is not above
/// the second greatest.
pub proof fn median_ignores_one_outlier(rtts: Seq<Duration>)
    requires
        ascending(rtts),
        all_wf(rtts),
        rtts.len() >= 3,
    ensures
        middle(rtts)->0.nanos <= rtts[rtts.len() - 2].nanos,
{
    let mid = rtts.len() as int / 2;
    assert(rtts[mid].nanos <= rtts[rtts.len() - 2].nanos);
    if rtts.len() % 2 == 0 {
        assert(rtts[mid - 1].nanos <= rtts[mid].nanos);
    }
}

/// The smoothed round trip time of a chain, how much it varies, and the last
/// few samples.
#[derive(Debug)]
pub struct RttStats {
    pub srtt: Option<Duration>,
    pub rttvar: Option<Duration>,
    pub recent: Vec<Duration>,
}

/// The window after a sample: the oldest goes if it is full.
pub open spec fn window_with(recent: Seq<Duration>, sample: Duration) -> Seq<Duration> {
    if recent.len() >= RTT_MEDIAN_WINDOW {
        recent.remove(0).push(sample)
    } else {
        recent.push(sample)
    }
}

/// Whether mixing two times gives a time that can be measured.
pub open spec fn blends_in_range<B: Fn(Duration, Duration, u32) -> Duration>(blend: B) -> bool {
    forall|a: Duration, b: Duration, percent: u32, mixed: Duration| #[trigger]
        call_ensures(blend, (a, b, percent), mixed) ==> mixed.wf()
}

/// Mixes a sample into an estimate, with that many hundredths of the sample.
/// Without a sample the estimate stays; the first sample is the estimate.
pub fn ewma_duration<B: Fn(Duration, Duration, u32) -> Duration>(
    prev: Option<Duration>,
    sample: Option<Duration>,
    alpha_percent: u32,
    blend: &B,
) -> (r: Option<Duration>)
    requires
        forall|a: Duration, b: Duration| call_requires(*blend, (a, b, alpha_percent)),
    ensures
        match (prev, sample) {
            (_, None) => r == prev,
            (None, Some(s)) => r == Some(s),
            (Some(p), Some(s)) => r matches Some(mixed) && call_ensures(
                *blend,
                (p, s, alpha_percent),
                mixed,
            ),
        },
{
    match (prev, sample) {
        (_, None) => prev,
        (None, Some(s)) => Some(s),
        (Some(p), Some(s)) => Some(blend(p, s, alpha_percent)),
    }
}

/// Mixes a sample into an estimate of loss, whatever loss is measured in. Loss
/// goes up faster than it comes down; the first sample is the estimate.
pub fn ewma_loss<L, R: Fn(&L, &L) -> bool, B: Fn(L, L, u32) -> L>(
    prev: Option<L>,
    sample: L,
    rises: &R,
    blend: &B,
) -> (r: L)
    requires
        forall|a: &L, b: &L| call_requires(*rises, (a, b)),
        forall|a: L, b: L, percent: u32| call_requires(*blend, (a, b, percent)),
    ensures
        match prev {
            None => r == sample,
            Some(p) => exists|rising: bool| #[trigger]
                call_ensures(*rises, (&sample, &p), rising) && call_ensures(
                    *blend,
                    (p, sample, loss_alpha_percent(rising)),
                    r,
                ),
        },
{
    match prev {
        None => sample,
        Some(p) => {
            let rising = rises(&sample, &p);
            let alpha_percent: u32 = if rising {
                LOSS_EWMA_ALPHA_UP_PERCENT
            } else {
                LOSS_EWMA_ALPHA_DOWN_PERCENT
            };
            assert(call_ensures(*rises, (&sample, &p), rising));
            blend(p, sample, alpha_percent)
        },
    }
}

/// The weight of a new sample of loss, in hundredths.
pub open spec fn loss_alpha_percent(rising: bool) -> u32 {
    if rising {
        LOSS_EWMA_ALPHA_UP_PERCENT
    } else {
        LOSS_EWMA_ALPHA_DOWN_PERCENT
    }
}

/// How far two times are apart.
pub open spec fn apart(a: Duration, b: Duration) -> Duration {
    if a.nanos >= b.nanos {
        Duration { nanos: (a.nanos - b.nanos) as u128 }
    } else {
        Duration { nanos: (b.nanos - a.nanos) as u128 }
    }
}

impl RttStats {
    /// All times are ones that can be measured, and there are no more samples
    /// than the window holds.
    pub open spec fn wf(self) -> bool {
        &&& self.srtt matches Some(srtt) ==> srtt.wf()
        &&& self.rttvar matches Some(rttvar) ==> rttvar.wf()
        &&& all_wf(self.recent@)
        &&& self.recent@.len() <= RTT_MEDIAN_WINDOW
    }

    pub fn new() -> (r: Self)
        ensures
            r.wf(),
            r.srtt is None,
            r.rttvar is None,
            r.recent@.len() == 0,
    {
        RttStats { srtt: None, rttvar: None, recent: Vec::new() }
    }

    /// Whether the stats may be `after` once the sample was taken in.
    pub open spec fn sampled<B: Fn(Duration, Duration, u32) -> Duration>(
        self,
        after: RttStats,
        sample: Duration,
        blend: B,
    ) -> bool {
        &&& after.recent@ == window_with(self.recent@, sample)
        &&& match self.srtt {
            None => {
                &&& after.srtt == Some(sample)
                &&& after.rttvar == Some(Duration { nanos: sample.nanos / 2 })
            },
            Some(srtt) => {
                let prev = match self.rttvar {
                    Some(rttvar) => rttvar,
                    None => Duration { nanos: 0 },
                };
                &&& after.rttvar matches Some(rttvar)
                &&& call_ensures(
                    blend,
                    (prev, apart(sample, srtt), RTTVAR_EWMA_BETA_PERCENT),
                    rttvar,
                )
                &&& after.srtt matches Some(estimate)
                &&& exists|window: Seq<Duration>, median: Duration|
                    {
                        &&& #[trigger] is_median(after.recent@, window, median)
                        &&& call_ensures(blend, (srtt, median, RTT_EWMA_ALPHA_PERCENT), estimate)
                    }
            },
        }
    }

    /// Takes in a sample. The first one is the estimate, with half of it as
    /// the variation. After that `blend` mixes the old value and the new, with
    /// the weight of the new one in hundredths: into the variation goes how
    /// far the sample is off, into the estimate the median of the window.
    pub fn apply_sample<B: Fn(Duration, Duration, u32) -> Duration>(
        &mut self,
        sample: Duration,
        blend: &B,
    )
        requires
            old(self).wf(),
            sample.wf(),
            forall|a: Duration, b: Duration, percent: u32| call_requires(*blend, (a, b, percent)),
            blends_in_range(*blend),
        ensures
            final(self).wf(),
            old(self).sampled(*final(self), sample, *blend),
    {
        if self.recent.len() >= RTT_MEDIAN_WINDOW {
            self.recent.remove(0);
        }
        self.recent.push(sample);
        let mut window: Vec<Duration> = self.recent.clone();
        assert(window@ =~= self.recent@);
        let rolling_median = match median_duration(&mut window) {
            Some(median) => median,
            None => sample,
        };
        assert(middle(window@) == Some(rolling_median)) by {
            assert(window@.len() > 0);
        }
        match self.srtt {
            None => {
                self.srtt = Some(sample);
                self.rttvar = Some(Duration { nanos: sample.nanos / 2 });
            },
            Some(srtt) => {
                let dev = if sample.nanos >= srtt.nanos {
                    Duration { nanos: sample.nanos - srtt.nanos }
                } else {
                    Duration { nanos: srtt.nanos - sample.nanos }
                };
                let prev = match self.rttvar {
                    Some(rttvar) => rttvar,
                    None => Duration::zero(),
                };
                self.rttvar = Some(blend(prev, dev, RTTVAR_EWMA_BETA_PERCENT));
                self.srtt = ewma_duration(
                    Some(srtt),
                    Some(rolling_median),
                    RTT_EWMA_ALPHA_PERCENT,
                    blend,
                );
                assert(is_median(self.recent@, window@, rolling_median));
            },
        }
    }

    /// The time that a chain is judged by: the estimate, and twice its
    /// variation on top.
    pub open spec fn effective_nanos(self) -> Option<int> {
        match self.srtt {
            None => None,
            Some(srtt) => Some(
                srtt.nanos + RTT_EFF_VAR_FACTOR * (match self.rttvar {
                    Some(rttvar) => rttvar.nanos as int,
                    None => 0,
                }),
            ),
        }
    }

    pub fn effective(&self) -> (r: Option<Duration>)
        requires
            self.effective_nanos() matches Some(nanos) ==> nanos <= MAX_NANOS,
        ensures
            match self.effective_nanos() {
                None => r is None,
                Some(nanos) => r matches Some(rtt) && rtt.nanos == nanos,
            },
    {
        match self.srtt {
            None => None,
            Some(srtt) => {
                let rttvar = match self.rttvar {
                    Some(rttvar) => rttvar,
                    None => Duration::zero(),
                };
                Some(Duration { nanos: srtt.nanos + rttvar.nanos * RTT_EFF_VAR_FACTOR })
            },
        }
    }
}

impl Default for RttStats {
    fn default() -> (r: Self)
        ensures
            r.wf(),
            r.srtt is None,
            r.rttvar is None,
            r.recent@.len() == 0,
    {
        RttStats::new()
    }
}

/// The median of some times has as many of them on either side: it is the one
/// in the middle of the times in order, or it halves the two in the middle.
pub proof fn a_median_has_as_many_times_on_either_side(
    rtts: Seq<Duration>,
    window: Seq<Duration>,
    median: Duration,
)
    requires
        all_wf(rtts),
        is_median(rtts, window, median),
    ensures
        window.len() == rtts.len(),
        window.to_multiset() == rtts.to_multiset(),
        forall|i: int, j: int|
            0 <= i <= j < window.len() ==> (#[trigger] window[i]).nanos <= (
            #[trigger] window[j]).nanos,
        exists|lo: int, hi: int|
            {
                &&& 0 <= lo <= hi <= lo + 1
                &&& lo + hi == window.len() - 1
                &&& 0 <= (#[trigger] window[lo]).nanos + (#[trigger] window[hi]).nanos - 2
                    * median.nanos <= 1
            },
{
    broadcast use vstd::seq_lib::group_to_multiset_ensures;

    lemma_wf_survives_permutation(rtts, window);
    assert(window.len() == window.to_multiset().len());
    assert(rtts.len() == rtts.to_multiset().len());
    let lo = (window.len() - 1) / 2;
    let hi = window.len() as int / 2;
    assert(0 <= window[lo].nanos + window[hi].nanos - 2 * median.nanos <= 1) by {
        if window.len() % 2 == 0 {
            assert(window[lo].wf() && window[hi].wf());
        }
    }
}

proof fn lemma_window_step(recent: Seq<Duration>, samples: Seq<Duration>, sample: Duration)
    requires
        recent == samples.skip(
            if samples.len() > 5 {
                samples.len() - 5
            } else {
                0
            },
        ),
    ensures
        window_with(recent, sample) == samples.push(sample).skip(
            if samples.len() + 1 > 5 {
                samples.len() + 1 - 5
            } else {
                0
            },
        ),
{
    let next = samples.push(sample);
    if recent.len() >= RTT_MEDIAN_WINDOW {
        assert(recent.remove(0).push(sample) =~= next.skip(next.len() - 5));
    } else {
        assert(recent.push(sample) =~= next.skip(0));
    }
}

/// However many samples came, the window holds the last five of them, or all
/// while there are no more, the newest at its end.
pub proof fn the_window_holds_the_last_samples<B: Fn(Duration, Duration, u32) -> Duration>(
    states: Seq<RttStats>,
    samples: Seq<Duration>,
    blend: B,
)
    requires
        states.len() == samples.len() + 1,
        states[0].recent@.len() == 0,
        forall|i: int|
            0 <= i < samples.len() ==> states[i].sampled(
                states[i + 1],
                #[trigger] samples[i],
                blend,
            ),
    ensures
        states.last().recent@ == samples.skip(
            if samples.len() > 5 {
                samples.len() - 5
            } else {
                0
            },
        ),
        samples.len() > 0 ==> states.last().recent@.last() == samples.last(),
    decreases samples.len(),
{
    if samples.len() == 0 {
        assert(states[0].recent@ =~= samples.skip(0));
    } else {
        let before = samples.drop_last();
        let earlier = states.drop_last();
        assert forall|i: int| 0 <= i < before.len() implies earlier[i].sampled(
            earlier[i + 1],
            #[trigger] before[i],
            blend,
        ) by {
            assert(samples[i] == before[i]);
        }
        the_window_holds_the_last_samples(earlier, before, blend);
        let n = samples.len() - 1;
        assert(states[n].sampled(states[n + 1], samples[n], blend));
        lemma_window_step(states[n].recent@, before, samples[n]);
        assert(before.push(samples[n]) =~= samples);
    }
}

/// The first sample is the estimate, with half of it as the variation. From
/// then on the estimate goes seven hundredths of the way to the median of the
/// last samples, the new one among them, and the variation a quarter of the way
/// to how far the new sample is off the estimate that it finds.
pub proof fn the_estimate_follows_the_last_samples<B: Fn(Duration, Duration, u32) -> Duration>(
    states: Seq<RttStats>,
    samples: Seq<Duration>,
    blend: B,
)
    requires
        samples.len() > 0,
        all_wf(samples),
        states.len() == samples.len() + 1,
        states[0].recent@.len() == 0,
        states[0].srtt is None,
        forall|i: int|
            0 <= i < samples.len() ==> states[i].sampled(
                states[i + 1],
                #[trigger] samples[i],
                blend,
            ),
    ensures
        states[1].srtt == Some(samples[0]),
        states[1].rttvar matches Some(rttvar) && rttvar.nanos == samples[0].nanos / 2,
        samples.len() > 1 ==> {
            let before = states[samples.len() - 1];
            let after = states.last();
            &&& before.srtt matches Some(srtt)
            &&& before.rttvar matches Some(rttvar)
            &&& after.srtt matches Some(next_srtt)
            &&& after.rttvar matches Some(next_rttvar)
            &&& exists|off: Duration|
                {
                    &&& off.nanos == srtt.nanos - samples.last().nanos || off.nanos
                        == samples.last().nanos - srtt.nanos
                    &&& #[trigger] call_ensures(blend, (rttvar, off, 25), next_rttvar)
                }
            &&& exists|median: Duration|
                {
                    &&& #[trigger] call_ensures(blend, (srtt, median, 7), next_srtt)
                    &&& exists|window: Seq<Duration>|
                        #[trigger] window.to_multiset() == samples.skip(
                            if samples.len() > 5 {
                                samples.len() - 5
                            } else {
                                0
                            },
                        ).to_multiset() && (forall|i: int, j: int|
                            0 <= i <= j < window.len() ==> (#[trigger] window[i]).nanos <= (
                            #[trigger] window[j]).nanos) && exists|lo: int, hi: int|
                            {
                                &&& 0 <= lo <= hi <= lo + 1
                                &&& lo + hi == window.len() - 1
                                &&& 0 <= (#[trigger] window[lo]).nanos + (
                                #[trigger] window[hi]).nanos - 2 * median.nanos <= 1
                            }
                }
        },
{
    assert(states[0].sampled(states[1], samples[0], blend));
    if samples.len() > 1 {
        let n = samples.len() - 1;
        lemma_sampled_is_known(states, samples, blend, n);
        the_window_holds_the_last_samples(states, samples, blend);
        assert(states[n].sampled(states[n + 1], samples[n], blend));
        let before = states[n];
        let after = states[n + 1];
        let srtt = before.srtt->0;
        let rttvar = before.rttvar->0;
        assert(call_ensures(blend, (rttvar, apart(samples[n], srtt), 25), after.rttvar->0));
        let (window, median) = choose|window: Seq<Duration>, median: Duration|
            {
                &&& #[trigger] is_median(after.recent@, window, median)
                &&& call_ensures(blend, (srtt, median, RTT_EWMA_ALPHA_PERCENT), after.srtt->0)
            };
        let last = after.recent@;
        assert forall|i: int| 0 <= i < last.len() implies (#[trigger] last[i]).wf() by {
            assert(last[i] == samples[samples.len() - last.len() + i]);
        }
        a_median_has_as_many_times_on_either_side(last, window, median);
        assert(call_ensures(blend, (srtt, median, 7), after.srtt->0));
    }
}

proof fn lemma_sampled_is_known<B: Fn(Duration, Duration, u32) -> Duration>(
    states: Seq<RttStats>,
    samples: Seq<Duration>,
    blend: B,
    n: int,
)
    requires
        0 < n <= samples.len(),
        states.len() == samples.len() + 1,
        states[0].srtt is None,
        forall|i: int|
            0 <= i < samples.len() ==> states[i].sampled(
                states[i + 1],
                #[trigger] samples[i],
                blend,
            ),
    ensures
        states[n].srtt is Some,
        states[n].rttvar is Some,
    decreases n,
{
    assert(states[n - 1].sampled(states[n], samples[n - 1], blend));
    if n > 1 {
        lemma_sampled_is_known(states, samples, blend, n - 1);
    }
}

/// A chain is judged by its estimate and twice its variation on top of it; a
/// chain without an estimate is not judged.
pub proof fn the_effective_time_is_two_variations_above_the_estimate(
    stats: RttStats,
    srtt: Duration,
    rttvar: Duration,
)
    ensures
        stats.srtt is None <==> stats.effective_nanos() is None,
        stats.srtt == Some(srtt) && stats.rttvar == Some(rttvar) ==> stats.effective_nanos()
            == Some(srtt.nanos + rttvar.nanos + rttvar.nanos),
        stats.srtt == Some(srtt) && stats.rttvar is None ==> stats.effective_nanos() == Some(
            srtt.nanos as int,
        ),
{
}

/// Loss goes up by a fifth of the way and more, and comes down three times
/// slower.
pub proof fn loss_rises_three_times_as_fast_as_it_falls()
    ensures
        loss_alpha_percent(true) == 21,
        loss_alpha_percent(true) == 3 * loss_alpha_percent(false),
{
}

/// Times have a median exactly if there are any.
pub proof fn only_no_times_have_no_median(rtts: Seq<Duration>)
    ensures
        middle(rtts) is None <==> rtts.len() == 0,
        rtts.len() == 1 ==> middle(rtts) == Some(rtts[0]),
{
}

} // verus!
