//! Spans of time and readings of the two clocks, as integers.
//!
//! Nothing in this library reads a clock: whoever owns the clock passes the
//! reading in.

use vstd::prelude::*;

verus! {

/// Nanoseconds in a second.
pub const NANOS_PER_SEC: u128 = 1_000_000_000;

/// Nanoseconds in a millisecond.
pub const NANOS_PER_MILLI: u128 = 1_000_000;

/// The longest representable span: `u64::MAX` seconds and a trailing fraction.
pub const MAX_NANOS: u128 = 18_446_744_073_709_551_615_999_999_999;

/// A span of time, in nanoseconds.
#[derive(Debug, Clone, Copy, PartialEq, Eq, PartialOrd, Ord, Hash, Structural)]
pub struct Duration {
    pub nanos: u128,
}

/// A reading of the monotonic clock, in nanoseconds since an arbitrary origin.
#[derive(Debug, Clone, Copy, PartialEq, Eq, PartialOrd, Ord, Hash, Structural)]
pub struct Instant {
    pub nanos: u128,
}

/// A reading of the wall clock, in nanoseconds since the Unix epoch. Readings
/// before the epoch are negative.
#[derive(Debug, Clone, Copy, PartialEq, Eq, PartialOrd, Ord, Hash, Structural)]
pub struct SystemTime {
    pub nanos: i128,
}

impl Duration {
    /// Whether the span is one the clocks can produce.
    pub open spec fn wf(self) -> bool {
        self.nanos <= MAX_NANOS
    }

    pub fn zero() -> (d: Self)
        ensures
            d.nanos == 0,
            d.wf(),
    {
        Duration { nanos: 0 }
    }

    pub fn from_secs(secs: u64) -> (d: Self)
        ensures
            d.nanos == secs * NANOS_PER_SEC,
            d.wf(),
    {
        Duration { nanos: secs as u128 * NANOS_PER_SEC }
    }

    pub fn from_millis(millis: u64) -> (d: Self)
        ensures
            d.nanos == millis * NANOS_PER_MILLI,
            d.wf(),
    {
        Duration { nanos: millis as u128 * NANOS_PER_MILLI }
    }

    /// The span in whole milliseconds, rounded down. The low 64 bits are kept
    /// where the count does not fit.
    pub fn as_millis_u64(self) -> (millis: u64)
        ensures
            millis == (self.nanos / NANOS_PER_MILLI) as u64,
    {
        #[verifier::truncate]
        ((self.nanos / NANOS_PER_MILLI) as u64)
    }

    /// The span between the two, zero if `other` is the longer.
    pub fn saturating_sub(self, other: Duration) -> (d: Self)
        ensures
            d.nanos == (if self.nanos >= other.nanos { self.nanos - other.nanos } else { 0 }),
    {
        if self.nanos >= other.nanos {
            Duration { nanos: self.nanos - other.nanos }
        } else {
            Duration { nanos: 0 }
        }
    }
}

impl Instant {
    /// The time from `earlier` to this reading, zero if `earlier` is in fact
    /// later.
    pub fn duration_since(self, earlier: Instant) -> (d: Duration)
        ensures
            d.nanos == (if self.nanos >= earlier.nanos { self.nanos - earlier.nanos } else { 0 }),
    {
        if self.nanos >= earlier.nanos {
            Duration { nanos: self.nanos - earlier.nanos }
        } else {
            Duration { nanos: 0 }
        }
    }

    /// The reading `wait` later.
    pub fn after(self, wait: Duration) -> (t: Instant)
        requires
            self.nanos + wait.nanos <= u128::MAX,
        ensures
            t.nanos == self.nanos + wait.nanos,
    {
        Instant { nanos: self.nanos + wait.nanos }
    }
}

impl SystemTime {
    /// The time from `earlier` to this reading, or nothing if the wall clock
    /// was set back in between.
    pub fn duration_since(self, earlier: SystemTime) -> (d: Option<Duration>)
        ensures
            match d {
                Some(d) => self.nanos >= earlier.nanos && d.nanos == self.nanos - earlier.nanos,
                None => self.nanos < earlier.nanos,
            },
    {
        if self.nanos < earlier.nanos {
            None
        } else if earlier.nanos < 0 && self.nanos >= 0 {
            // The two may be further apart than a signed number can say.
            let before_epoch: u128 = (-(earlier.nanos + 1)) as u128 + 1;
            Some(Duration { nanos: self.nanos as u128 + before_epoch })
        } else {
            Some(Duration { nanos: (self.nanos - earlier.nanos) as u128 })
        }
    }

    /// The time from the Unix epoch to this reading.
    pub fn since_epoch(self) -> (d: Option<Duration>)
        ensures
            match d {
                Some(d) => self.nanos >= 0 && d.nanos == self.nanos,
                None => self.nanos < 0,
            },
    {
        if self.nanos >= 0 {
            Some(Duration { nanos: self.nanos as u128 })
        } else {
            None
        }
    }
}

} // verus!
