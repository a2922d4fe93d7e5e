//! Keeping a value for a while.

use vstd::prelude::*;
use crate::time::{Duration, Instant};

verus! {

/// A value, when it was made, and how long it is good for.
#[derive(Debug)]
pub struct TtlCell<T> {
    pub ttl: Duration,
    pub made: Option<(Instant, T)>,
}

impl<T> TtlCell<T> {
    /// The value, while it is still good: while it is younger than its term.
    pub open spec fn good_at(self, now: Instant) -> Option<T> {
        match self.made {
            Some((at, value)) => if now.nanos < at.nanos + self.ttl.nanos {
                Some(value)
            } else {
                None
            },
            None => None,
        }
    }

    /// A cell that holds nothing yet.
    pub fn new(ttl: Duration) -> (r: Self)
        ensures
            r == (TtlCell::<T> { ttl, made: None }),
    {
        TtlCell { ttl, made: None }
    }

    pub fn get(&self, now: Instant) -> (r: Option<&T>)
        ensures
            match r {
                Some(value) => self.good_at(now) == Some(*value),
                None => self.good_at(now) is None,
            },
    {
        match &self.made {
            Some((at, value)) => if now.nanos < at.nanos || now.nanos - at.nanos < self.ttl.nanos {
                Some(value)
            } else {
                None
            },
            None => None,
        }
    }

    pub fn set(&mut self, value: T, now: Instant)
        ensures
            *final(self) == (TtlCell { ttl: old(self).ttl, made: Some((now, value)) }),
    {
        self.made = Some((now, value));
    }
}

/// A value is good from when it was made until its term is over, and never
/// again.
pub proof fn a_value_is_good_for_its_term<T>(
    cell: TtlCell<T>,
    made: Instant,
    value: T,
    now: Instant,
)
    requires
        cell.made == Some((made, value)),
        made.nanos <= now.nanos,
    ensures
        now.nanos - made.nanos < cell.ttl.nanos ==> cell.good_at(now) == Some(value),
        now.nanos - made.nanos >= cell.ttl.nanos ==> cell.good_at(now) is None,
{
}

/// A cell that holds nothing has no good value, whatever its term.
pub proof fn an_empty_cell_has_no_good_value<T>(cell: TtlCell<T>, now: Instant)
    ensures
        cell.made is None ==> cell.good_at(now) is None,
        cell.made matches Some((made, value)) ==> (now.nanos < made.nanos ==> cell.good_at(now)
            == Some(value)),
{
}

} // verus!
