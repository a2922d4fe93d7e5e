//! How many sessions may run at a time.

use vstd::prelude::*;

verus! {

/// How many sessions may wait to be started.
pub const SESSION_SCOPE_CHANNEL_CAPACITY: usize = 256;

/// How many sessions may be live.
pub const SESSION_SCOPE_MAX_CONCURRENT: usize = 4096;

/// The slots for live sessions. Whoever waits for a slot watches the
/// generation, which changes whenever one is freed.
#[derive(Debug)]
pub struct Admission {
    pub limit: usize,
    pub live: usize,
    pub generation: u64,
}

/// A session was not started.
#[derive(Debug, Clone, Copy, PartialEq, Eq, Structural)]
pub enum SessionSpawnError {
    AtCapacity,
    QueueFull,
    ScopeClosed,
}

/// How handing a session over to be started went.
#[derive(Debug, Clone, Copy, PartialEq, Eq, Structural)]
pub enum HandOff {
    Sent,
    Full,
    Closed,
}

impl Admission {
    /// There is a slot at all, and no more sessions are live than there are
    /// slots.
    pub open spec fn wf(self) -> bool {
        0 < self.limit && self.live <= self.limit
    }

    pub fn new(limit: usize) -> (r: Self)
        requires
            limit > 0,
        ensures
            r.wf(),
            r.limit == limit,
            r.live == 0,
            r.generation == 0,
    {
        Admission { limit, live: 0, generation: 0 }
    }

    /// The slots after one was taken.
    pub open spec fn acquired(self) -> Admission {
        Admission { live: (self.live + 1) as usize, ..self }
    }

    /// The slots after one was freed.
    pub open spec fn released(self) -> Admission {
        Admission {
            live: (self.live - 1) as usize,
            generation: self.generation.wrapping_add(1),
            ..self
        }
    }

    /// Takes a slot if one is free.
    pub fn try_acquire(&mut self) -> (taken: bool)
        requires
            old(self).wf(),
        ensures
            final(self).wf(),
            taken == (old(self).live < old(self).limit),
            *final(self) == (if taken {
                old(self).acquired()
            } else {
                *old(self)
            }),
    {
        if self.live >= self.limit {
            return false;
        }
        self.live += 1;
        true
    }

    /// Frees a slot that was taken.
    pub fn release(&mut self)
        requires
            old(self).wf(),
            old(self).live > 0,
        ensures
            final(self).wf(),
            *final(self) == old(self).released(),
            final(self).live < final(self).limit,
    {
        self.live -= 1;
        self.generation = self.generation.wrapping_add(1);
    }

    /// Takes a slot and hands the session over. A session that is not taken
    /// over leaves its slot free.
    pub fn try_spawn<F: FnOnce() -> HandOff>(&mut self, hand_off: F) -> (r: Result<
        (),
        SessionSpawnError,
    >)
        requires
            old(self).wf(),
            call_requires(hand_off, ()),
        ensures
            final(self).wf(),
            if old(self).live == old(self).limit {
                r == Err::<(), _>(SessionSpawnError::AtCapacity) && *final(self) == *old(self)
            } else {
                exists|outcome: HandOff| #[trigger]
                    call_ensures(hand_off, (), outcome) && match outcome {
                        HandOff::Sent => r is Ok && *final(self) == old(self).acquired(),
                        HandOff::Full => r == Err::<(), _>(SessionSpawnError::QueueFull)
                            && *final(self) == old(self).acquired().released(),
                        HandOff::Closed => r == Err::<(), _>(SessionSpawnError::ScopeClosed)
                            && *final(self) == old(self).acquired().released(),
                    }
            },
    {
        if !self.try_acquire() {
            return Err(SessionSpawnError::AtCapacity);
        }
        match hand_off() {
            HandOff::Sent => Ok(()),
            HandOff::Full => {
                self.release();
                Err(SessionSpawnError::QueueFull)
            },
            HandOff::Closed => {
                self.release();
                Err(SessionSpawnError::ScopeClosed)
            },
        }
    }
}

/// Freeing a slot undoes taking it, and whoever waits for a slot sees that
/// something changed.
pub proof fn release_undoes_acquire(admission: Admission)
    requires
        admission.wf(),
        admission.live < admission.limit,
    ensures
        admission.acquired().wf(),
        admission.acquired().released().live == admission.live,
        admission.acquired().released().limit == admission.limit,
        admission.acquired().released().generation != admission.generation,
{
}

/// A full scope has room again as soon as one session ends.
pub proof fn full_scope_admits_after_release(admission: Admission)
    requires
        admission.wf(),
        admission.live == admission.limit,
    ensures
        admission.released().wf(),
        admission.released().live < admission.released().limit,
{
}

impl SessionSpawnError {
    pub open spec fn spec_as_str(self) -> &'static str {
        match self {
            SessionSpawnError::AtCapacity => "at_capacity",
            SessionSpawnError::QueueFull => "queue_full",
            SessionSpawnError::ScopeClosed => "scope_closed",
        }
    }

    pub fn as_str(self) -> (r: &'static str)
        ensures
            r@ == self.spec_as_str()@,
    {
        match self {
            SessionSpawnError::AtCapacity => "at_capacity",
            SessionSpawnError::QueueFull => "queue_full",
            SessionSpawnError::ScopeClosed => "scope_closed",
        }
    }
}

/// Slots are taken and freed one by one, and the limit stands.
pub proof fn slots_are_taken_and_freed_one_by_one(admission: Admission)
    requires
        admission.wf(),
    ensures
        admission.live < admission.limit ==> {
            &&& admission.acquired().live == admission.live + 1
            &&& admission.acquired().limit == admission.limit
            &&& admission.acquired().generation == admission.generation
        },
        admission.live > 0 ==> {
            &&& admission.released().live + 1 == admission.live
            &&& admission.released().limit == admission.limit
            &&& admission.released().generation != admission.generation
        },
{
}

/// Each reason that a session was not started has a word of its own.
pub proof fn each_refusal_has_its_word()
    ensures
        SessionSpawnError::AtCapacity.spec_as_str()@ == "at_capacity"@,
        SessionSpawnError::QueueFull.spec_as_str()@ == "queue_full"@,
        SessionSpawnError::ScopeClosed.spec_as_str()@ == "scope_closed"@,
{
}

} // verus!
