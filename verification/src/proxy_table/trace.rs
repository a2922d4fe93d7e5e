//! Measuring a chain of a group, wave by wave.

use vstd::prelude::*;
use crate::time::{Duration, MAX_NANOS, NANOS_PER_SEC};

verus! {

/// How many traces make a wave.
pub const TRACES_PER_WAVE: usize = 60;

/// The time between two traces of a wave, in milliseconds.
pub const TRACE_BURST_GAP_MILLIS: u64 = 10;

/// The time between two waves, in seconds.
pub const TRACE_INTERVAL_SECS: u64 = 30;

/// The time after a wave of which nothing came back, in seconds.
pub const TRACE_DEAD_INTERVAL_SECS: u64 = 3600;

/// What came back of a wave so far.
#[derive(Debug)]
pub struct TraceWave {
    pub rtt_sum: Duration,
    pub rtt_count: usize,
}

/// What a wave found out: the mean time of the traces that came back, if any
/// did, how many were lost, and how long the next wave waits.
#[derive(Debug)]
pub struct TraceReport {
    pub rtt: Option<Duration>,
    pub lost: usize,
    pub pause: Duration,
}

impl TraceWave {
    pub open spec fn wf(self) -> bool {
        self.rtt_sum.wf() && self.rtt_count <= TRACES_PER_WAVE
    }

    pub fn new() -> (r: Self)
        ensures
            r.wf(),
            r.rtt_sum.nanos == 0,
            r.rtt_count == 0,
    {
        TraceWave { rtt_sum: Duration::zero(), rtt_count: 0 }
    }

    /// Takes note of a trace: of its time, if it came back.
    pub fn traced(&mut self, outcome: Option<Duration>)
        requires
            old(self).wf(),
            outcome is Some ==> old(self).rtt_count < TRACES_PER_WAVE,
            outcome matches Some(rtt) ==> old(self).rtt_sum.nanos + rtt.nanos <= MAX_NANOS,
        ensures
            final(self).wf(),
            match outcome {
                None => *final(self) == *old(self),
                Some(rtt) => {
                    &&& final(self).rtt_sum.nanos == old(self).rtt_sum.nanos + rtt.nanos
                    &&& final(self).rtt_count == old(self).rtt_count + 1
                },
            },
    {
        if let Some(rtt) = outcome {
            self.rtt_sum = Duration { nanos: self.rtt_sum.nanos + rtt.nanos };
            self.rtt_count = self.rtt_count + 1;
        }
    }

    /// What the wave found out, once all its traces ended.
    pub fn report(&self) -> (r: TraceReport)
        requires
            self.wf(),
        ensures
            match r.rtt {
                None => self.rtt_count == 0,
                Some(mean) => {
                    &&& self.rtt_count > 0
                    &&& mean.nanos == self.rtt_sum.nanos as int / self.rtt_count as int
                },
            },
            r.lost == TRACES_PER_WAVE - self.rtt_count,
            r.pause.nanos == (if self.rtt_count == 0 {
                TRACE_DEAD_INTERVAL_SECS
            } else {
                TRACE_INTERVAL_SECS
            }) * NANOS_PER_SEC,
    {
        let lost: usize = TRACES_PER_WAVE - self.rtt_count;
        if self.rtt_count == 0 {
            return TraceReport {
                rtt: None,
                lost,
                pause: Duration::from_secs(TRACE_DEAD_INTERVAL_SECS),
            };
        }
        let mean: u128 = self.rtt_sum.nanos / (self.rtt_count as u128);
        TraceReport {
            rtt: Some(Duration { nanos: mean }),
            lost,
            pause: Duration::from_secs(TRACE_INTERVAL_SECS),
        }
    }
}

} // verus!
