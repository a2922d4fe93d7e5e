//! Accepting connections, and coping with a listener that fails to.

use vstd::prelude::*;
use vstd::arithmetic::power2::{lemma_pow2_pos, lemma_pow2_strictly_increases, lemma_pow2_unfold};
use crate::addr::SocketAddr;
use crate::io::{ErrorKind, IoError};
use crate::time::{Duration, Instant, NANOS_PER_MILLI};

verus! {

/// The pause after the first failure.
pub const INITIAL_BACKOFF_MS: u64 = 25;

/// The longest pause.
pub const MAX_BACKOFF_MS: u64 = 1000;

/// How many failures in a row are worth a warning.
pub const WARN_AFTER_CONSECUTIVE: u64 = 3;

/// Whether a listener that fails like this will not recover.
pub open spec fn is_fatal_kind(kind: ErrorKind) -> bool {
    ||| kind == ErrorKind::InvalidInput
    ||| kind == ErrorKind::InvalidData
    ||| kind == ErrorKind::PermissionDenied
    ||| kind == ErrorKind::AddrNotAvailable
    ||| kind == ErrorKind::NotConnected
    ||| kind == ErrorKind::Unsupported
}

pub fn is_fatal(kind: ErrorKind) -> (r: bool)
    ensures
        r == is_fatal_kind(kind),
{
    matches!(
        kind,
        ErrorKind::InvalidInput | ErrorKind::InvalidData | ErrorKind::PermissionDenied
            | ErrorKind::AddrNotAvailable | ErrorKind::NotConnected | ErrorKind::Unsupported
    )
}

/// The pause after `count` failures in a row: doubled with each, up to the
/// longest.
pub open spec fn backoff_ms(count: nat) -> nat
    recommends
        count > 0,
{
    let doubled = INITIAL_BACKOFF_MS as nat * vstd::arithmetic::power2::pow2((count - 1) as nat);
    if doubled < MAX_BACKOFF_MS {
        doubled
    } else {
        MAX_BACKOFF_MS as nat
    }
}

fn backoff_wait_ms(count: u64) -> (ms: u64)
    requires
        count > 0,
    ensures
        ms == backoff_ms(count as nat),
{
    let shifts: u64 = count - 1;
    let mut ms: u64 = INITIAL_BACKOFF_MS;
    let mut i: u64 = 0;
    proof {
        vstd::arithmetic::power2::lemma2_to64();
    }
    while i < shifts && ms < MAX_BACKOFF_MS
        invariant
            i <= shifts,
            i == 0 ==> ms == INITIAL_BACKOFF_MS,
            ms == INITIAL_BACKOFF_MS * vstd::arithmetic::power2::pow2(i as nat),
            ms <= 2 * MAX_BACKOFF_MS,
        decreases shifts - i,
    {
        proof {
            lemma_pow2_unfold((i + 1) as nat);
        }
        ms = ms * 2;
        i += 1;
    }
    if ms >= MAX_BACKOFF_MS {
        proof {
            if i < shifts {
                lemma_pow2_strictly_increases(i as nat, shifts as nat);
            }
        }
        MAX_BACKOFF_MS
    } else {
        ms
    }
}

/// The pause never exceeds the longest, and never gets shorter as failures
/// follow each other.
pub proof fn backoff_grows_to_its_cap(count: nat, more: nat)
    requires
        0 < count <= more,
    ensures
        INITIAL_BACKOFF_MS <= backoff_ms(count) <= backoff_ms(more) <= MAX_BACKOFF_MS,
{
    lemma_pow2_pos((count - 1) as nat);
    if count < more {
        lemma_pow2_strictly_increases((count - 1) as nat, (more - 1) as nat);
    }
}

/// The failures of a listener since it last accepted.
#[derive(Debug)]
pub struct AcceptErrorBackoff {
    pub error_count: u64,
    pub first_error: Option<String>,
    pub last_error: Option<String>,
    pub started_at: Option<Instant>,
    pub logged: bool,
    pub retry_at: Option<Instant>,
}

/// A run of failures that ended before it was worth a warning.
#[derive(Debug)]
pub struct ErrorStreak {
    pub error_count: u64,
    pub first_error: Option<String>,
    pub last_error: Option<String>,
    pub elapsed: Duration,
}

impl AcceptErrorBackoff {
    /// No failure.
    pub open spec fn is_clear(self) -> bool {
        &&& self.error_count == 0
        &&& self.first_error is None
        &&& self.last_error is None
        &&& self.started_at is None
        &&& !self.logged
        &&& self.retry_at is None
    }

    pub fn new() -> (r: Self)
        ensures
            r.is_clear(),
    {
        AcceptErrorBackoff {
            error_count: 0,
            first_error: None,
            last_error: None,
            started_at: None,
            logged: false,
            retry_at: None,
        }
    }

    /// The state after one more failure, but for the pause.
    pub open spec fn recorded(self, after: Self, error: IoError, now: Instant) -> bool {
        &&& after.error_count == self.error_count + 1
        &&& after.first_error == (if self.first_error is None {
            Some(error.message)
        } else {
            self.first_error
        })
        &&& after.last_error == Some(error.message)
        &&& after.started_at == (if self.started_at is None {
            Some(now)
        } else {
            self.started_at
        })
        &&& after.logged == (self.logged || is_fatal_kind(error.kind) || self.error_count + 1
            >= WARN_AFTER_CONSECUTIVE)
    }

    fn record(&mut self, error: &IoError, now: Instant)
        requires
            old(self).error_count < u64::MAX,
        ensures
            final(self).error_count == old(self).error_count + 1,
            final(self).first_error == (if old(self).first_error is None {
                Some(error.message)
            } else {
                old(self).first_error
            }),
            final(self).last_error == Some(error.message),
            final(self).started_at == (if old(self).started_at is None {
                Some(now)
            } else {
                old(self).started_at
            }),
            final(self).logged == old(self).logged,
            final(self).retry_at == old(self).retry_at,
    {
        self.error_count += 1;
        if self.started_at.is_none() {
            self.started_at = Some(now);
        }
        if self.first_error.is_none() {
            self.first_error = Some(error.message.clone());
        }
        self.last_error = Some(error.message.clone());
    }

    fn maybe_log(&mut self, fatal: bool)
        ensures
            final(self).logged == (old(self).logged || fatal || old(self).error_count
                >= WARN_AFTER_CONSECUTIVE),
            *final(self) == (AcceptErrorBackoff { logged: final(self).logged, ..*old(self) }),
    {
        if self.logged {
            return;
        }
        if fatal || self.error_count >= WARN_AFTER_CONSECUTIVE {
            self.logged = true;
        }
    }

    /// Takes note of a failure and sets the pause. A fatal error is handed
    /// back. The failure is worth a warning where `logged` turns true.
    pub fn failed(&mut self, error: IoError, now: Instant) -> (r: Result<(), IoError>)
        requires
            old(self).error_count < u64::MAX,
            now.nanos + MAX_BACKOFF_MS * NANOS_PER_MILLI <= u128::MAX,
        ensures
            old(self).recorded(*final(self), error, now),
            if is_fatal_kind(error.kind) {
                r == Err::<(), IoError>(error) && final(self).retry_at is None
            } else {
                &&& r is Ok
                &&& final(self).retry_at matches Some(at)
                &&& at.nanos == now.nanos + backoff_ms((old(self).error_count + 1) as nat)
                    * NANOS_PER_MILLI
            },
    {
        let fatal = is_fatal(error.kind);
        self.record(&error, now);
        if !fatal {
            let wait_ms: u64 = backoff_wait_ms(self.error_count);
            self.retry_at = Some(now.after(Duration::from_millis(wait_ms)));
        } else {
            self.retry_at = None;
        }
        self.maybe_log(fatal);
        if fatal {
            Err(error)
        } else {
            Ok(())
        }
    }

    /// Takes note of a failure of a listener that must not pause.
    pub fn failed_dispatching(&mut self, error: IoError, now: Instant) -> (r: Result<(), IoError>)
        requires
            old(self).error_count < u64::MAX,
        ensures
            old(self).recorded(*final(self), error, now),
            final(self).retry_at is None,
            if is_fatal_kind(error.kind) {
                r == Err::<(), IoError>(error)
            } else {
                r is Ok
            },
    {
        let fatal = is_fatal(error.kind);
        self.record(&error, now);
        self.retry_at = None;
        self.maybe_log(fatal);
        if fatal {
            Err(error)
        } else {
            Ok(())
        }
    }

    /// How much of the pause is left.
    pub fn retry_delay(&self, now: Instant) -> (r: Option<Duration>)
        ensures
            match self.retry_at {
                None => r is None,
                Some(at) => r matches Some(delay) && delay.nanos == (if at.nanos > now.nanos {
                    at.nanos - now.nanos
                } else {
                    0
                }),
            },
    {
        match self.retry_at {
            None => None,
            Some(at) => Some(at.duration_since(now)),
        }
    }

    pub fn retry_at(&self) -> (r: Option<Instant>)
        ensures
            r == self.retry_at,
    {
        self.retry_at
    }

    /// The failures so far, if there are any that no warning told of.
    pub open spec fn silent_streak(self, now: Instant) -> Option<ErrorStreak> {
        if self.error_count > 0 && !self.logged {
            Some(
                ErrorStreak {
                    error_count: self.error_count,
                    first_error: self.first_error,
                    last_error: self.last_error,
                    elapsed: Duration {
                        nanos: match self.started_at {
                            Some(start) if now.nanos >= start.nanos => (now.nanos
                                - start.nanos) as u128,
                            _ => 0,
                        },
                    },
                },
            )
        } else {
            None
        }
    }

    /// Forgets all failures. Hands back those that no warning told of.
    pub fn accepted(&mut self, now: Instant) -> (r: Option<ErrorStreak>)
        ensures
            final(self).is_clear(),
            r == old(self).silent_streak(now),
    {
        let silent = self.error_count > 0 && !self.logged;
        let elapsed = match self.started_at {
            Some(start) => now.duration_since(start),
            None => Duration::zero(),
        };
        let error_count: u64 = self.error_count;
        let first_error = self.first_error.take();
        let last_error = self.last_error.take();
        self.error_count = 0;
        self.started_at = None;
        self.logged = false;
        self.retry_at = None;
        if silent {
            Some(ErrorStreak { error_count, first_error, last_error, elapsed })
        } else {
            None
        }
    }
}

impl Default for AcceptErrorBackoff {
    fn default() -> (r: Self)
        ensures
            r.is_clear(),
    {
        AcceptErrorBackoff::new()
    }
}

/// Why a listener stopped.
#[derive(Debug)]
pub enum ServeError {
    LocalAddr(IoError),
    Accept { source: IoError, addr: SocketAddr },
}

/// What a listener can see.
#[derive(Debug)]
pub enum ServeEvent<T, H> {
    /// A connection came in.
    Accepted(T),
    /// Accepting failed.
    AcceptFailed(IoError),
    /// The work beside accepting is done for this round.
    ExtraDone,
    /// Connections are to be handed to another handler from now on.
    HandlerSet(H),
    /// No other handler will come: the listener is to stop.
    HandlerClosed,
}

/// What a listener does about it.
#[derive(Debug)]
pub enum ServeAction<T, H> {
    /// Hand the connection to the current handler, and warn of the failures
    /// before it that no warning told of.
    Wrap { conn: T, recovered: Option<ErrorStreak> },
    /// Go on; first let others run, if asked to.
    Continue { yield_now: bool },
    /// Make this the current handler.
    Swap(H),
    Stop,
    Fail(ServeError),
}

/// A listener's loop, between two events.
#[derive(Debug)]
pub struct ServeLoop {
    pub addr: SocketAddr,
    /// Whether the listener carries others and must not pause.
    pub dispatching: bool,
    pub backoff: AcceptErrorBackoff,
}

impl ServeLoop {
    pub fn new(addr: SocketAddr, dispatching: bool) -> (r: Self)
        ensures
            r.addr == addr,
            r.dispatching == dispatching,
            r.backoff.is_clear(),
    {
        ServeLoop { addr, dispatching, backoff: AcceptErrorBackoff::new() }
    }

    /// Decides what to do about an event.
    pub fn step<T, H>(&mut self, event: ServeEvent<T, H>, now: Instant) -> (r: ServeAction<T, H>)
        requires
            old(self).backoff.error_count < u64::MAX,
            now.nanos + MAX_BACKOFF_MS * NANOS_PER_MILLI <= u128::MAX,
        ensures
            final(self).addr == old(self).addr,
            final(self).dispatching == old(self).dispatching,
            match event {
                ServeEvent::Accepted(accepted) => {
                    &&& final(self).backoff.is_clear()
                    &&& r matches ServeAction::Wrap { conn, recovered }
                    &&& conn == accepted
                    &&& recovered == old(self).backoff.silent_streak(now)
                },
                ServeEvent::AcceptFailed(error) => {
                    &&& old(self).backoff.recorded(final(self).backoff, error, now)
                    &&& if is_fatal_kind(error.kind) {
                        r == ServeAction::<T, H>::Fail(
                            ServeError::Accept { source: error, addr: old(self).addr },
                        )
                    } else {
                        r == ServeAction::<T, H>::Continue { yield_now: old(self).dispatching }
                    }
                    &&& if is_fatal_kind(error.kind) || old(self).dispatching {
                        final(self).backoff.retry_at is None
                    } else {
                        final(self).backoff.retry_at matches Some(at) && at.nanos == now.nanos
                            + backoff_ms((old(self).backoff.error_count + 1) as nat)
                            * NANOS_PER_MILLI
                    }
                },
                ServeEvent::ExtraDone => r == ServeAction::<T, H>::Continue { yield_now: false }
                    && final(self).backoff == old(self).backoff,
                ServeEvent::HandlerSet(handler) => r == ServeAction::<T, H>::Swap(handler)
                    && final(self).backoff == old(self).backoff,
                ServeEvent::HandlerClosed => r == ServeAction::<T, H>::Stop
                    && final(self).backoff == old(self).backoff,
            },
    {
        match event {
            ServeEvent::Accepted(conn) => {
                let recovered = self.backoff.accepted(now);
                ServeAction::Wrap { conn, recovered }
            },
            ServeEvent::AcceptFailed(error) => {
                let result = if self.dispatching {
                    self.backoff.failed_dispatching(error, now)
                } else {
                    self.backoff.failed(error, now)
                };
                match result {
                    Err(source) => ServeAction::Fail(
                        ServeError::Accept { source, addr: self.addr },
                    ),
                    Ok(()) => ServeAction::Continue { yield_now: self.dispatching },
                }
            },
            ServeEvent::ExtraDone => ServeAction::Continue { yield_now: false },
            ServeEvent::HandlerSet(handler) => ServeAction::Swap(handler),
            ServeEvent::HandlerClosed => ServeAction::Stop,
        }
    }
}

/// The pause is a fortieth of a second after the first failure, and with each
/// further one twice as long, but never more than a second.
pub proof fn the_pause_doubles_up_to_a_second(count: nat)
    requires
        count > 0,
    ensures
        backoff_ms(1) == 25,
        backoff_ms(count + 1) == (if 2 * backoff_ms(count) < 1000 {
            2 * backoff_ms(count)
        } else {
            1000
        }),
{
    vstd::arithmetic::power2::lemma2_to64();
    lemma_pow2_unfold(count);
}

/// A listener stops for errors of its own making, and for those that waiting
/// does not mend; it outlasts all others.
pub proof fn only_lasting_errors_are_fatal(kind: ErrorKind)
    ensures
        is_fatal_kind(kind) <==> (kind is InvalidInput || kind is InvalidData
            || kind is PermissionDenied || kind is AddrNotAvailable || kind is NotConnected
            || kind is Unsupported),
{
}

/// However many failures follow each other, their number is kept, with the words
/// of the first and the last and the time of the first. They are worth a warning
/// from the third on, or as soon as one is fatal.
pub proof fn failures_in_a_row_are_kept(
    states: Seq<AcceptErrorBackoff>,
    errors: Seq<IoError>,
    times: Seq<Instant>,
)
    requires
        errors.len() > 0,
        times.len() == errors.len(),
        states.len() == errors.len() + 1,
        states[0].is_clear(),
        forall|i: int|
            0 <= i < errors.len() ==> states[i].recorded(
                states[i + 1],
                #[trigger] errors[i],
                times[i],
            ),
    ensures
        states.last().error_count == errors.len(),
        states.last().first_error == Some(errors[0].message),
        states.last().last_error == Some(errors.last().message),
        states.last().started_at == Some(times[0]),
        states.last().logged <==> errors.len() >= 3 || exists|i: int|
            0 <= i < errors.len() && is_fatal_kind((#[trigger] errors[i]).kind),
    decreases errors.len(),
{
    let n = errors.len() - 1;
    let init = errors.drop_last();
    let earlier = states.drop_last();
    let earlier_times = times.drop_last();
    assert(states[n].recorded(states[n + 1], errors[n], times[n]));
    if n > 0 {
        assert forall|i: int| 0 <= i < init.len() implies earlier[i].recorded(
            earlier[i + 1],
            #[trigger] init[i],
            earlier_times[i],
        ) by {
            assert(errors[i] == init[i]);
        }
        failures_in_a_row_are_kept(earlier, init, earlier_times);
        assert(earlier.last() == states[n]);
        if states[n].logged && n < 3 {
            let i = choose|i: int| 0 <= i < init.len() && is_fatal_kind((#[trigger] init[i]).kind);
            assert(is_fatal_kind(errors[i].kind));
        }
        if states.last().logged && errors.len() < 3 && !states[n].logged {
            assert(is_fatal_kind(errors[n].kind));
        }
        if exists|i: int| 0 <= i < errors.len() && is_fatal_kind((#[trigger] errors[i]).kind) {
            let i = choose|i: int|
                0 <= i < errors.len() && is_fatal_kind((#[trigger] errors[i]).kind);
            if i < n {
                assert(is_fatal_kind(init[i].kind));
            }
        }
    }
}

/// A listener that accepts again tells of the failures before, exactly if there
/// were some and no warning told of them yet.
pub proof fn recovery_tells_of_silent_failures(backoff: AcceptErrorBackoff, now: Instant)
    ensures
        backoff.is_clear() ==> backoff.silent_streak(now) is None,
        backoff.logged || backoff.error_count == 0 ==> backoff.silent_streak(now) is None,
        !backoff.logged && backoff.error_count > 0 ==> {
            &&& backoff.silent_streak(now) matches Some(streak)
            &&& streak.error_count == backoff.error_count
            &&& streak.first_error == backoff.first_error
            &&& streak.last_error == backoff.last_error
            &&& backoff.started_at matches Some(start) ==> (start.nanos <= now.nanos ==> start.nanos
                + streak.elapsed.nanos == now.nanos)
        },
        backoff.is_clear() ==> backoff.error_count == 0 && !backoff.logged
            && backoff.retry_at is None && backoff.started_at is None && backoff.first_error is None
            && backoff.last_error is None,
{
}

} // verus!
