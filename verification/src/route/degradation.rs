//! When a chain has become so slow that its connections are worth renewing.

use vstd::prelude::*;
use crate::time::{Duration, Instant, NANOS_PER_SEC};

verus! {

/// How many times slower than its best a chain counts as degraded.
pub const DEGRADED_RTT_RATIO: u128 = 3;

/// How many degraded samples in a row are acted on.
pub const DEGRADED_PROBE_STREAK: u32 = 5;

/// The shortest time between two recycles, in seconds.
pub const MIN_RECYCLE_INTERVAL_SECS: u64 = 600;

/// Keeps recycles apart.
#[derive(Debug, Clone, Copy)]
pub struct RecyclePacer {
    pub last: Instant,
}

impl RecyclePacer {
    /// Starts as if a recycle had just happened.
    pub fn new(now: Instant) -> (r: Self)
        ensures
            r.last == now,
    {
        RecyclePacer { last: now }
    }

    /// Whether enough time has passed since the last recycle.
    pub open spec fn allows(self, now: Instant) -> bool {
        now.nanos - self.last.nanos >= MIN_RECYCLE_INTERVAL_SECS * NANOS_PER_SEC
    }

    /// Allows a recycle if the last one is long enough ago, and takes note of
    /// it.
    pub fn allow(&mut self, now: Instant) -> (r: bool)
        ensures
            r == old(self).allows(now),
            final(self).last == (if r {
                now
            } else {
                old(self).last
            }),
    {
        let interval = Duration::from_secs(MIN_RECYCLE_INTERVAL_SECS);
        if now.duration_since(self.last).nanos < interval.nanos {
            return false;
        }
        self.last = now;
        true
    }
}

/// Two recycles that a pacer allows one after the other are never closer than
/// the interval.
pub proof fn recycles_are_kept_apart(pacer: RecyclePacer, first: Instant, second: Instant)
    requires
        pacer.allows(first),
        (RecyclePacer { last: first }).allows(second),
    ensures
        second.nanos - first.nanos >= MIN_RECYCLE_INTERVAL_SECS * NANOS_PER_SEC,
        !pacer.allows(pacer.last),
{
}

/// Watches the smoothed round trip time of a chain against its best.
#[derive(Debug, Clone, Copy)]
pub struct RttDegradation {
    pub best: Option<Duration>,
    pub streak: u32,
}

impl Default for RttDegradation {
    fn default() -> (r: Self)
        ensures
            r.wf(),
            r.best is None,
            r.streak == 0,
    {
        RttDegradation::new()
    }
}

impl RttDegradation {
    /// The best time is one that can be measured, and a full streak has been
    /// acted on.
    pub open spec fn wf(self) -> bool {
        &&& self.best matches Some(best) ==> best.wf()
        &&& self.streak < DEGRADED_PROBE_STREAK
    }

    pub fn new() -> (r: Self)
        ensures
            r.wf(),
            r.best is None,
            r.streak == 0,
    {
        RttDegradation { best: None, streak: 0 }
    }

    /// The best time, this sample included.
    pub open spec fn best_with(self, srtt: Duration) -> Duration {
        match self.best {
            Some(best) if best.nanos <= srtt.nanos => best,
            _ => srtt,
        }
    }

    /// Whether the sample is at least the ratio slower than the best.
    pub open spec fn degraded(self, srtt: Duration) -> bool {
        srtt.nanos >= DEGRADED_RTT_RATIO * self.best_with(srtt).nanos
    }

    /// The state after a sample.
    pub open spec fn observed(self, srtt: Duration) -> RttDegradation {
        if !self.degraded(srtt) {
            RttDegradation { best: Some(self.best_with(srtt)), streak: 0 }
        } else if self.fires(srtt) {
            RttDegradation { best: Some(srtt), streak: 0 }
        } else {
            RttDegradation {
                best: Some(self.best_with(srtt)),
                streak: (self.streak + 1) as u32,
            }
        }
    }

    /// Whether the sample completes a streak of degraded ones.
    pub open spec fn fires(self, srtt: Duration) -> bool {
        self.degraded(srtt) && self.streak + 1 >= DEGRADED_PROBE_STREAK
    }

    /// Takes in a sample. Tells whether the chain has been degraded for long
    /// enough; its present time then becomes the one to compare with.
    pub fn observe(&mut self, srtt: Duration) -> (r: bool)
        requires
            old(self).wf(),
            srtt.wf(),
        ensures
            final(self).wf(),
            r == old(self).fires(srtt),
            *final(self) == old(self).observed(srtt),
    {
        let best = match self.best {
            Some(best) => if best.nanos <= srtt.nanos {
                best
            } else {
                srtt
            },
            None => srtt,
        };
        self.best = Some(best);
        if srtt.nanos < best.nanos * DEGRADED_RTT_RATIO {
            self.streak = 0;
            return false;
        }
        self.streak = self.streak + 1;
        if self.streak < DEGRADED_PROBE_STREAK {
            return false;
        }
        self.streak = 0;
        self.best = Some(srtt);
        true
    }
}

/// The state after several samples.
pub open spec fn observed_all(state: RttDegradation, samples: Seq<Duration>) -> RttDegradation
    decreases samples.len(),
{
    if samples.len() == 0 {
        state
    } else {
        observed_all(state, samples.drop_last()).observed(samples.last())
    }
}

/// One sample that is not degraded starts the streak over: it takes that many
/// degraded samples again before anything fires.
pub proof fn recovery_resets_the_streak(state: RttDegradation, srtt: Duration)
    requires
        state.wf(),
        !state.degraded(srtt),
    ensures
        state.observed(srtt).streak == 0,
        !state.fires(srtt),
{
}

/// Fewer samples than a whole streak never fire, whatever they are, if none
/// before them were degraded.
pub proof fn short_streak_never_fires(
    state: RttDegradation,
    samples: Seq<Duration>,
    next: Duration,
)
    requires
        state.wf(),
        state.streak == 0,
        samples.len() + 1 < DEGRADED_PROBE_STREAK,
    ensures
        !observed_all(state, samples).fires(next),
        observed_all(state, samples).streak <= samples.len(),
    decreases samples.len(),
{
    if samples.len() > 0 {
        short_streak_never_fires(state, samples.drop_last(), samples.last());
    }
}

/// A recycle is allowed exactly once ten minutes have passed since the last.
pub proof fn a_recycle_is_allowed_after_ten_minutes(pacer: RecyclePacer, now: Instant)
    ensures
        pacer.allows(now) <==> now.nanos >= pacer.last.nanos + 600_000_000_000,
{
}

/// Five samples in a row that are three times the best or more fire, at the
/// fifth and not before, and the fifth is then what later ones are held against.
pub proof fn the_fifth_degraded_sample_in_a_row_fires(
    state: RttDegradation,
    best: Duration,
    samples: Seq<Duration>,
    k: int,
)
    requires
        state.best == Some(best),
        state.streak == 0,
        samples.len() == 5,
        forall|i: int| 0 <= i < 5 ==> (#[trigger] samples[i]).nanos >= 3 * best.nanos,
        0 <= k < 5,
    ensures
        observed_all(state, samples.take(k)).fires(samples[k]) <==> k == 4,
        observed_all(state, samples.take(k)).best == Some(best),
        observed_all(state, samples.take(k)).streak == k,
        k == 4 ==> observed_all(state, samples.take(k)).observed(samples[k]).best == Some(
            samples[k],
        ) && observed_all(state, samples.take(k)).observed(samples[k]).streak == 0,
    decreases k,
{
    if k > 0 {
        the_fifth_degraded_sample_in_a_row_fires(state, best, samples, k - 1);
        assert(samples.take(k).drop_last() =~= samples.take(k - 1));
        assert(samples.take(k).last() == samples[k - 1]);
    } else {
        assert(samples.take(0).len() == 0);
    }
}

/// A sample that is less than three times the best, or that is itself the best,
/// starts the streak over, however long it was, and fires nothing.
pub proof fn a_sample_near_the_best_starts_over(
    state: RttDegradation,
    best: Duration,
    srtt: Duration,
)
    requires
        state.best == Some(best),
        srtt.nanos < 3 * best.nanos,
        srtt.nanos > 0,
    ensures
        !state.fires(srtt),
        state.observed(srtt).streak == 0,
        state.observed(srtt).best matches Some(next) && next.nanos == (if srtt.nanos < best.nanos {
            srtt.nanos
        } else {
            best.nanos
        }),
{
}

/// Samples are held against the shortest of them, as long as nothing fired.
pub proof fn the_best_is_the_shortest_sample(state: RttDegradation, samples: Seq<Duration>)
    requires
        state.best is None,
        samples.len() > 0,
        forall|k: int|
            0 <= k < samples.len() ==> !observed_all(state, #[trigger] samples.take(k)).fires(
                samples[k],
            ),
    ensures
        observed_all(state, samples).best is Some,
        forall|i: int|
            0 <= i < samples.len() ==> observed_all(state, samples).best->0.nanos <= (
            #[trigger] samples[i]).nanos,
        exists|i: int|
            0 <= i < samples.len() && #[trigger] samples[i] == observed_all(state, samples).best->0,
    decreases samples.len(),
{
    let n = samples.len() - 1;
    let init = samples.drop_last();
    assert(samples.take(n) =~= init);
    assert(!observed_all(state, samples.take(n)).fires(samples[n]));
    if n > 0 {
        assert forall|k: int| 0 <= k < init.len() implies !observed_all(
            state,
            #[trigger] init.take(k),
        ).fires(init[k]) by {
            assert(init.take(k) =~= samples.take(k));
            assert(samples[k] == init[k]);
        }
        the_best_is_the_shortest_sample(state, init);
        let before = observed_all(state, init).best->0;
        let k = choose|k: int| 0 <= k < init.len() && #[trigger] init[k] == before;
        assert(samples[k] == before);
        assert forall|i: int| 0 <= i < samples.len() implies observed_all(
            state,
            samples,
        ).best->0.nanos <= (#[trigger] samples[i]).nanos by {
            if i < n {
                assert(init[i] == samples[i]);
            }
        }
    }
    assert(samples[n] == samples.last());
}

} // verus!
