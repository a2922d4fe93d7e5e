//! Probing a chain round after round.

use vstd::prelude::*;
use vstd::string::*;
use crate::route::degradation::{RecyclePacer, RttDegradation};
use crate::route::hop_config::HopConfig;
use crate::route::rtt_stats::{blends_in_range, RttStats};
use crate::time::{Duration, Instant, NANOS_PER_MILLI};

verus! {

/// How many rounds there are between two records of how a chain is doing.
pub const PROBES_PER_INTERVAL: u32 = 5;

/// The mean pause between rounds, in milliseconds: a fifth of half a minute.
pub const PROBE_MEAN_INTERVAL_MS: u64 = 6_000;

/// The mean pause while a chain is dead: a fifth of two minutes.
pub const PROBE_MEAN_INTERVAL_DEAD_MS: u64 = 24_000;

pub const PROBE_MIN_INTERVAL_MS: u64 = 500;

pub const PROBE_MAX_INTERVAL_MS: u64 = 60_000;

/// How many failures in a row make a chain dead.
pub const DEAD_CONSECUTIVE_FAILURES: u32 = 5;

/// How long a round may take, in seconds.
pub const RTT_TIMEOUT_SECS: u64 = 5;

/// The outcome of one round: the sample, and what is left to do about it.
#[derive(Debug)]
pub struct ProbeOutcome<E, W> {
    pub rtt: Result<Duration, E>,
    /// Work that the round leaves behind, such as seeing its flow end.
    pub epilog: Option<W>,
}

/// What the owner of a probe can ask of it.
pub trait ProbeRtt {
    /// The name of the probe in records; a probe that does not tell one is
    /// unknown.
    fn probe_kind(&self) -> (kind: &'static str)
        default_ensures
            kind@ == "unknown"@,
    {
        "unknown"
    }
}

/// The sample of a round, and what it leaves behind. A round that fails or
/// takes too long has no sample.
pub fn round_sample<E, W>(outcome: Option<ProbeOutcome<E, W>>) -> (r: (Option<Duration>, Option<W>))
    ensures
        match outcome {
            Some(outcome) => r.1 == outcome.epilog && r.0 == (match outcome.rtt {
                Ok(rtt) => Some(rtt),
                Err(_) => None,
            }),
            None => r.0 is None && r.1 is None,
        },
{
    match outcome {
        Some(outcome) => {
            let sample = match outcome.rtt {
                Ok(rtt) => Some(rtt),
                Err(_) => None,
            };
            (sample, outcome.epilog)
        },
        None => (None, None),
    }
}

/// The mean pause, in milliseconds, after so many failures in a row.
pub open spec fn mean_interval_ms(failures: int) -> int {
    if failures >= DEAD_CONSECUTIVE_FAILURES {
        PROBE_MEAN_INTERVAL_DEAD_MS as int
    } else {
        PROBE_MEAN_INTERVAL_MS as int
    }
}

/// What a probe keeps between rounds.
#[derive(Debug, Clone, Copy)]
pub struct ProbeTask {
    pub consecutive_failures: u32,
    pub probes_since_log: u32,
    pub degradation: RttDegradation,
    pub pacer: RecyclePacer,
    pub reoptimize_pacer: RecyclePacer,
}

/// What is to be done after a round.
#[derive(Debug, Clone, Copy)]
pub struct RoundPlan {
    /// The round is to be counted as lost: it has no sample.
    pub lost: bool,
    /// Have the first hop look for a better way.
    pub reoptimize: bool,
    /// The chain has become slow: this is its smoothed time. Renew the first
    /// hop's connections, unless that was done a moment ago.
    pub degraded: Option<Duration>,
    /// Record how the chain is doing.
    pub log: bool,
    /// The mean pause until the next round.
    pub mean_interval: Duration,
}

impl ProbeTask {
    /// The counters are within their terms.
    pub open spec fn wf(self) -> bool {
        self.probes_since_log < PROBES_PER_INTERVAL && self.degradation.wf()
    }

    pub fn new(now: Instant) -> (r: Self)
        ensures
            r.wf(),
            r.consecutive_failures == 0,
            r.probes_since_log == 0,
            r.degradation == (RttDegradation { best: None, streak: 0 }),
            r.pacer.last == now,
            r.reoptimize_pacer.last == now,
    {
        ProbeTask {
            consecutive_failures: 0,
            probes_since_log: 0,
            degradation: RttDegradation::new(),
            pacer: RecyclePacer::new(now),
            reoptimize_pacer: RecyclePacer::new(now),
        }
    }

    /// How many rounds in a row failed, this one included.
    pub open spec fn failures_after(self, sample: Option<Duration>) -> int {
        match sample {
            Some(_) => 0,
            None => if self.consecutive_failures < u32::MAX {
                self.consecutive_failures + 1
            } else {
                u32::MAX as int
            },
        }
    }

    /// Takes in the sample of a round. A round without a sample changes
    /// neither the smoothed time nor the watch on it.
    pub fn round<B: Fn(Duration, Duration, u32) -> Duration>(
        &mut self,
        stats: &mut RttStats,
        sample: Option<Duration>,
        now: Instant,
        blend: &B,
    ) -> (r: RoundPlan)
        requires
            old(self).wf(),
            old(stats).wf(),
            sample matches Some(rtt) ==> rtt.wf(),
            forall|a: Duration, b: Duration, percent: u32| call_requires(*blend, (a, b, percent)),
            blends_in_range(*blend),
        ensures
            final(self).wf(),
            final(stats).wf(),
            match sample {
                None => *final(stats) == *old(stats),
                Some(rtt) => old(stats).sampled(*final(stats), rtt, *blend),
            },
            final(self).consecutive_failures == old(self).failures_after(sample),
            r.lost == (sample is None),
            r.reoptimize == old(self).reoptimize_pacer.allows(now),
            final(self).reoptimize_pacer.last == (if r.reoptimize {
                now
            } else {
                old(self).reoptimize_pacer.last
            }),
            final(self).pacer == old(self).pacer,
            match (sample, final(stats).srtt) {
                (Some(_), Some(srtt)) => {
                    &&& final(self).degradation == old(self).degradation.observed(srtt)
                    &&& r.degraded == (if old(self).degradation.fires(srtt) {
                        Some(srtt)
                    } else {
                        None
                    })
                },
                _ => final(self).degradation == old(self).degradation && r.degraded is None,
            },
            r.log == (old(self).probes_since_log + 1 >= PROBES_PER_INTERVAL),
            final(self).probes_since_log == (if r.log {
                0
            } else {
                old(self).probes_since_log + 1
            }),
            r.mean_interval.nanos == NANOS_PER_MILLI * mean_interval_ms(
                final(self).consecutive_failures as int,
            ),
    {
        if let Some(rtt) = sample {
            stats.apply_sample(rtt, blend);
        }
        self.consecutive_failures = match sample {
            Some(_) => 0,
            None => self.consecutive_failures.saturating_add(1),
        };
        let reoptimize = self.reoptimize_pacer.allow(now);
        let mut degraded: Option<Duration> = None;
        if let (Some(_), Some(srtt)) = (sample, stats.srtt) {
            if self.degradation.observe(srtt) {
                degraded = Some(srtt);
            }
        }
        self.probes_since_log = self.probes_since_log + 1;
        let log = self.probes_since_log >= PROBES_PER_INTERVAL;
        if log {
            self.probes_since_log = 0;
        }
        let mean_ms: u64 = if self.consecutive_failures >= DEAD_CONSECUTIVE_FAILURES {
            PROBE_MEAN_INTERVAL_DEAD_MS
        } else {
            PROBE_MEAN_INTERVAL_MS
        };
        RoundPlan {
            lost: sample.is_none(),
            reoptimize,
            degraded,
            log,
            mean_interval: Duration::from_millis(mean_ms),
        }
    }

    /// Whether connections may be renewed now; if so, takes note of it.
    pub fn recycle(&mut self, now: Instant) -> (r: bool)
        requires
            old(self).wf(),
        ensures
            final(self).wf(),
            r == old(self).pacer.allows(now),
            *final(self) == (ProbeTask {
                pacer: RecyclePacer {
                    last: if r {
                        now
                    } else {
                        old(self).pacer.last
                    },
                },
                ..*old(self)
            }),
    {
        self.pacer.allow(now)
    }
}

/// Whether the states are those between rounds with these samples.
pub open spec fn takes_rounds(tasks: Seq<ProbeTask>, samples: Seq<Option<Duration>>) -> bool {
    &&& tasks.len() == samples.len() + 1
    &&& forall|i: int|
        0 <= i < samples.len() ==> (#[trigger] tasks[i + 1]).consecutive_failures
            == tasks[i].failures_after(samples[i])
}

/// How many of the last rounds failed, back to the last that did not.
pub open spec fn failures_in_a_row(samples: Seq<Option<Duration>>) -> nat
    decreases samples.len(),
{
    if samples.len() == 0 || samples.last() is Some {
        0
    } else {
        1 + failures_in_a_row(samples.drop_last())
    }
}

proof fn lemma_failures_are_counted(tasks: Seq<ProbeTask>, samples: Seq<Option<Duration>>)
    requires
        takes_rounds(tasks, samples),
        tasks[0].consecutive_failures == 0,
    ensures
        tasks.last().consecutive_failures == (if failures_in_a_row(samples) < u32::MAX {
            failures_in_a_row(samples) as int
        } else {
            u32::MAX as int
        }),
    decreases samples.len(),
{
    if samples.len() > 0 {
        let n = samples.len() - 1;
        let tasks_before = tasks.drop_last();
        let samples_before = samples.drop_last();
        assert forall|i: int| 0 <= i < samples_before.len() implies (#[trigger] tasks_before[i
            + 1]).consecutive_failures == tasks_before[i].failures_after(samples_before[i]) by {
            assert(tasks[i + 1] == tasks_before[i + 1]);
        }
        lemma_failures_are_counted(tasks_before, samples_before);
        assert(tasks[n + 1].consecutive_failures == tasks[n].failures_after(samples[n]));
        assert(tasks_before.last() == tasks[n]);
    }
}

/// Whatever the rounds of a new probe brought: the next pause is that of a
/// dead chain exactly if as many of the last rounds as make a chain dead
/// failed, with no success between them. One success revives the chain.
pub proof fn a_chain_is_dead_after_failures_in_a_row(
    tasks: Seq<ProbeTask>,
    samples: Seq<Option<Duration>>,
)
    requires
        takes_rounds(tasks, samples),
        tasks[0].consecutive_failures == 0,
    ensures
        mean_interval_ms(tasks.last().consecutive_failures as int) == (if failures_in_a_row(samples)
            >= DEAD_CONSECUTIVE_FAILURES {
            PROBE_MEAN_INTERVAL_DEAD_MS
        } else {
            PROBE_MEAN_INTERVAL_MS
        }),
        samples.len() > 0 && samples.last() is Some ==> mean_interval_ms(
            tasks.last().consecutive_failures as int,
        ) == PROBE_MEAN_INTERVAL_MS,
{
    lemma_failures_are_counted(tasks, samples);
}

/// A pause, kept within its bounds.
pub fn clamp_interval(pause: Duration) -> (r: Duration)
    ensures
        r.nanos == (if pause.nanos < PROBE_MIN_INTERVAL_MS * NANOS_PER_MILLI {
            PROBE_MIN_INTERVAL_MS * NANOS_PER_MILLI
        } else if pause.nanos > PROBE_MAX_INTERVAL_MS * NANOS_PER_MILLI {
            PROBE_MAX_INTERVAL_MS * NANOS_PER_MILLI
        } else {
            pause.nanos as int
        }),
{
    let least = Duration::from_millis(PROBE_MIN_INTERVAL_MS);
    let most = Duration::from_millis(PROBE_MAX_INTERVAL_MS);
    if pause.nanos < least.nanos {
        least
    } else if pause.nanos > most.nanos {
        most
    } else {
        pause
    }
}

/// The unit that a time is written in.
#[derive(Debug, Clone, Copy, PartialEq, Eq, Structural)]
pub enum RttUnit {
    Secs,
    Millis,
    Micros,
    Nanos,
}

impl RttUnit {
    /// The greatest unit that the time fills once.
    pub open spec fn of(d: Duration) -> RttUnit {
        if d.nanos >= 1_000_000_000 {
            RttUnit::Secs
        } else if d.nanos >= 1_000_000 {
            RttUnit::Millis
        } else if d.nanos >= 1_000 {
            RttUnit::Micros
        } else {
            RttUnit::Nanos
        }
    }

    pub open spec fn spec_suffix(self) -> &'static str {
        match self {
            RttUnit::Secs => "s",
            RttUnit::Millis => "ms",
            RttUnit::Micros => "\u{b5}s",
            RttUnit::Nanos => "ns",
        }
    }

    pub fn suffix(self) -> (r: &'static str)
        ensures
            r@ == self.spec_suffix()@,
    {
        match self {
            RttUnit::Secs => "s",
            RttUnit::Millis => "ms",
            RttUnit::Micros => "\u{b5}s",
            RttUnit::Nanos => "ns",
        }
    }
}

/// Writes a time in the greatest unit that it fills once. `number` writes how
/// much of the unit it is.
pub fn fmt_rtt<N: Fn(Duration, RttUnit) -> String>(d: Duration, number: &N) -> (text: String)
    requires
        forall|d: Duration, unit: RttUnit| call_requires(*number, (d, unit)),
    ensures
        exists|n: String| #[trigger]
            call_ensures(*number, (d, RttUnit::of(d)), n) && text@ == n@
                + RttUnit::of(d).spec_suffix()@,
{
    let unit = if d.nanos >= 1_000_000_000 {
        RttUnit::Secs
    } else if d.nanos >= 1_000_000 {
        RttUnit::Millis
    } else if d.nanos >= 1_000 {
        RttUnit::Micros
    } else {
        RttUnit::Nanos
    };
    let mut text: String = number(d, unit);
    text.append(unit.suffix());
    text
}

/// Names joined by commas.
pub open spec fn joined(names: Seq<Seq<char>>) -> Seq<char>
    decreases names.len(),
{
    if names.len() == 0 {
        Seq::empty()
    } else if names.len() == 1 {
        names[0]
    } else {
        joined(names.drop_last()) + ","@ + names.last()
    }
}

/// Whether the hops may be written as these names.
pub open spec fn hops_written<W: Fn(&HopConfig) -> String>(
    write: W,
    chain: Seq<HopConfig>,
    names: Seq<Seq<char>>,
) -> bool {
    &&& names.len() == chain.len()
    &&& forall|i: int| 0 <= i < chain.len() ==> hop_written(write, chain[i], #[trigger] names[i])
}

/// Whether the hop may be written as this name.
pub open spec fn hop_written<W: Fn(&HopConfig) -> String>(
    write: W,
    hop: HopConfig,
    name: Seq<char>,
) -> bool {
    exists|s: String| s@ == name && #[trigger] call_ensures(write, (&hop,), s)
}

/// Writes a chain as the list of its hops: `[a,b]`.
pub fn display_chain<W: Fn(&HopConfig) -> String>(chain: &[HopConfig], write: &W) -> (text: String)
    requires
        forall|hop: &HopConfig| call_requires(*write, (hop,)),
    ensures
        exists|names: Seq<Seq<char>>| #[trigger]
            hops_written(*write, chain@, names) && text@ == "["@ + joined(names) + "]"@,
{
    let mut text: String = "[".to_owned();
    let ghost mut names: Seq<Seq<char>> = Seq::empty();
    let mut i: usize = 0;
    assert(text@ =~= "["@ + joined(names));
    while i < chain.len()
        invariant
            i <= chain@.len(),
            names.len() == i,
            forall|hop: &HopConfig| call_requires(*write, (hop,)),
            forall|j: int|
                0 <= j < i ==> hop_written(*write, chain@[j], #[trigger] names[j]),
            text@ == "["@ + joined(names),
        decreases chain@.len() - i,
    {
        if i > 0 {
            text.append(",");
        }
        let name: String = write(&chain[i]);
        text.append(name.as_str());
        proof {
            let before = names;
            names = names.push(name@);
            assert(names.drop_last() =~= before);
            assert(hop_written(*write, chain@[i as int], name@));
            assert(text@ =~= "["@ + joined(names));
        }
        i += 1;
    }
    assert(hops_written(*write, chain@, names));
    text.append("]");
    text
}

/// A time is written in the greatest of the four units that it fills: it is at
/// least one of the unit, and less than one of the next greater.
pub proof fn a_time_is_written_in_the_greatest_unit_it_fills(d: Duration)
    ensures
        match RttUnit::of(d) {
            RttUnit::Secs => d.nanos >= 1_000_000_000,
            RttUnit::Millis => 1_000_000 <= d.nanos < 1_000_000_000,
            RttUnit::Micros => 1_000 <= d.nanos < 1_000_000,
            RttUnit::Nanos => d.nanos < 1_000,
        },
        RttUnit::Secs.spec_suffix()@ == "s"@,
        RttUnit::Millis.spec_suffix()@ == "ms"@,
        RttUnit::Micros.spec_suffix()@ == "\u{b5}s"@,
        RttUnit::Nanos.spec_suffix()@ == "ns"@,
{
}

/// Names that are joined in two parts are joined as a whole, with a comma
/// between the parts; one name alone is itself.
pub proof fn names_are_joined_by_commas(front: Seq<Seq<char>>, back: Seq<Seq<char>>)
    requires
        front.len() > 0,
        back.len() > 0,
    ensures
        joined(front + back) == joined(front) + ","@ + joined(back),
        front.len() == 1 ==> joined(front) == front[0],
        joined(Seq::<Seq<char>>::empty()) == Seq::<char>::empty(),
    decreases back.len(),
{
    let all = front + back;
    assert(all.last() == back.last());
    if back.len() == 1 {
        assert(all.drop_last() =~= front);
    } else {
        let less = back.drop_last();
        assert(all.drop_last() =~= front + less);
        names_are_joined_by_commas(front, less);
        assert(joined(all) =~= joined(front) + ","@ + joined(back));
    }
}

/// A chain is written with a name for each of its hops, in order, each as the
/// writer wrote it.
pub proof fn each_hop_is_written_by_the_writer<W: Fn(&HopConfig) -> String>(
    write: W,
    chain: Seq<HopConfig>,
    names: Seq<Seq<char>>,
    i: int,
)
    requires
        hops_written(write, chain, names),
        0 <= i < chain.len(),
    ensures
        names.len() == chain.len(),
        exists|s: String| s@ == names[i] && #[trigger] call_ensures(write, (&chain[i],), s),
{
    assert(hop_written(write, chain[i], names[i]));
}

/// A chain is dead after five failures in a row, and is then probed every 24
/// seconds in the mean, and every 6 while it is not.
pub proof fn a_dead_chain_is_probed_less_often(failures: int)
    ensures
        failures >= 5 ==> mean_interval_ms(failures) == 24_000,
        failures < 5 ==> mean_interval_ms(failures) == 6_000,
{
}

} // verus!
