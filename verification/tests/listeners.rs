use proxy_common::addr::SocketAddr;
use proxy_common::io::{ErrorKind, IoError};
use proxy_common::serve_loop::{
    is_fatal, AcceptErrorBackoff, ServeAction, ServeError, ServeEvent, ServeLoop, MAX_BACKOFF_MS,
};
use proxy_common::session::{
    Admission, HandOff, SessionSpawnError, SESSION_SCOPE_CHANNEL_CAPACITY,
    SESSION_SCOPE_MAX_CONCURRENT,
};
use proxy_common::time::{Duration, Instant};

fn start() -> Instant {
    Instant { nanos: 7_000_000_000 }
}

fn would_block() -> IoError {
    IoError::new(ErrorKind::WouldBlock, "test")
}

fn denied() -> IoError {
    IoError::new(ErrorKind::PermissionDenied, "denied")
}

#[test]
fn dispatching_listener_records_error_without_pausing() {
    let mut backoff = AcceptErrorBackoff::default();
    let _ = backoff.failed_dispatching(would_block(), start());
    assert!(backoff.first_error.is_some(), "error must be recorded");
    assert!(backoff.retry_at().is_none(), "retry_at must not be set on failed_dispatching");
    assert_eq!(backoff.error_count, 1);
}

#[test]
fn ordinary_listener_sets_exponential_backoff() {
    let mut backoff = AcceptErrorBackoff::default();
    let now = start();
    let _ = backoff.failed(would_block(), now);
    assert_eq!(backoff.error_count, 1);
    assert!(backoff.retry_at().is_some());
    let delay = backoff.retry_at().unwrap().duration_since(now);
    assert!(delay.as_millis_u64() >= 25 && delay.as_millis_u64() <= 30);
}

#[test]
fn backoff_caps_at_one_second() {
    let mut backoff = AcceptErrorBackoff::default();
    let now = start();
    for _ in 0..10 {
        let _ = backoff.failed(would_block(), now);
    }
    let delay = backoff.retry_at().unwrap().duration_since(now);
    assert!(delay.as_millis_u64() <= 1000);
}

#[test]
fn backoff_never_overflows_the_backoff() {
    let mut backoff = AcceptErrorBackoff::default();
    let now = start();
    for _ in 0..200 {
        let _ = backoff.failed(would_block(), now);
    }
    let delay = backoff.retry_at().unwrap().duration_since(now);
    assert!(delay.as_millis_u64() <= MAX_BACKOFF_MS, "{delay:?}");
}

#[test]
fn fatal_error_returns_immediately() {
    let mut backoff = AcceptErrorBackoff::default();
    let result = backoff.failed(denied(), start());
    assert!(result.is_err());
}

#[test]
fn fatal_error_logs_on_first_occurrence() {
    let mut backoff = AcceptErrorBackoff::default();
    let _ = backoff.failed(denied(), start());
    assert!(backoff.logged);
}

#[test]
fn non_fatal_error_does_not_log_until_third() {
    let mut backoff = AcceptErrorBackoff::default();
    let _ = backoff.failed(would_block(), start());
    assert!(!backoff.logged);
    let _ = backoff.failed(would_block(), start());
    assert!(!backoff.logged);
    let _ = backoff.failed(would_block(), start());
    assert!(backoff.logged);
}

#[test]
fn accepted_clears_state_after_logged_error_streak() {
    let mut backoff = AcceptErrorBackoff::default();
    for _ in 0..3 {
        let _ = backoff.failed(would_block(), start());
    }
    assert!(backoff.logged);
    let streak = backoff.accepted(start());
    assert!(streak.is_none(), "a streak that was warned of is not told again");
    assert_eq!(backoff.error_count, 0);
    assert!(backoff.first_error.is_none());
    assert!(!backoff.logged);
}

#[test]
fn accepted_clears_state_when_streak_not_yet_logged() {
    let mut backoff = AcceptErrorBackoff::default();
    let _ = backoff.failed(would_block(), start());
    assert!(!backoff.logged);
    let streak = backoff.accepted(start().after(Duration::from_secs(2))).unwrap();
    assert_eq!(streak.error_count, 1);
    assert_eq!(streak.first_error.as_deref(), Some("test"));
    assert_eq!(streak.elapsed, Duration::from_secs(2));
    assert_eq!(backoff.error_count, 0);
    assert!(!backoff.logged);
}

#[test]
fn the_pause_doubles_until_its_cap() {
    let mut backoff = AcceptErrorBackoff::default();
    let now = start();
    for expected in [25, 50, 100, 200, 400, 800, 1000, 1000] {
        backoff.failed(would_block(), now).unwrap();
        assert_eq!(backoff.retry_delay(now), Some(Duration::from_millis(expected)));
    }
    let late = now.after(Duration::from_secs(5));
    assert_eq!(backoff.retry_delay(late), Some(Duration::zero()));
    assert_eq!(AcceptErrorBackoff::default().retry_delay(now), None);
}

#[test]
fn fatal_kinds_are_those_that_do_not_pass() {
    for kind in [
        ErrorKind::InvalidInput,
        ErrorKind::InvalidData,
        ErrorKind::PermissionDenied,
        ErrorKind::AddrNotAvailable,
        ErrorKind::NotConnected,
        ErrorKind::Unsupported,
    ] {
        assert!(is_fatal(kind), "{kind:?}");
    }
    for kind in [ErrorKind::WouldBlock, ErrorKind::ConnectionReset, ErrorKind::Other] {
        assert!(!is_fatal(kind), "{kind:?}");
    }
}

fn listener(dispatching: bool) -> ServeLoop {
    ServeLoop::new(SocketAddr::V4 { ip: 0x7f00_0001, port: 1234 }, dispatching)
}

#[test]
fn a_listener_hands_on_what_it_accepts() {
    let mut serve = listener(false);
    let action = serve.step::<u8, &str>(ServeEvent::AcceptFailed(would_block()), start());
    assert!(matches!(action, ServeAction::Continue { yield_now: false }));
    assert!(serve.backoff.retry_at().is_some());
    let action = serve.step::<u8, &str>(ServeEvent::Accepted(5), start());
    match action {
        ServeAction::Wrap { conn, recovered } => {
            assert_eq!(conn, 5);
            assert_eq!(recovered.unwrap().error_count, 1);
        }
        other => panic!("expected a connection, got {other:?}"),
    }
    assert!(serve.backoff.retry_at().is_none());
}

#[test]
fn a_dispatching_listener_yields_instead_of_pausing() {
    let mut serve = listener(true);
    let action = serve.step::<u8, &str>(ServeEvent::AcceptFailed(would_block()), start());
    assert!(matches!(action, ServeAction::Continue { yield_now: true }));
    assert!(serve.backoff.retry_at().is_none());
}

#[test]
fn a_listener_stops_when_it_must() {
    let mut serve = listener(false);
    let action = serve.step::<u8, &str>(ServeEvent::AcceptFailed(denied()), start());
    match action {
        ServeAction::Fail(ServeError::Accept { source, addr }) => {
            assert_eq!(source.message, "denied");
            assert_eq!(addr, serve.addr);
        }
        other => panic!("expected a failure, got {other:?}"),
    }
    let action = serve.step::<u8, &str>(ServeEvent::HandlerSet("next"), start());
    assert!(matches!(action, ServeAction::Swap("next")));
    let action = serve.step::<u8, &str>(ServeEvent::ExtraDone, start());
    assert!(matches!(action, ServeAction::Continue { yield_now: false }));
    let action = serve.step::<u8, &str>(ServeEvent::HandlerClosed, start());
    assert!(matches!(action, ServeAction::Stop));
}

#[test]
fn try_spawn_refuses_when_the_concurrency_limit_is_reached() {
    let mut admission = Admission::new(2);
    assert!(admission.try_acquire());
    assert!(admission.try_acquire());
    assert_eq!(
        admission.try_spawn(|| HandOff::Sent),
        Err(SessionSpawnError::AtCapacity),
        "try_spawn admitted a session past the concurrency limit"
    );
    admission.release();
    assert_eq!(
        admission.try_spawn(|| HandOff::Sent),
        Ok(()),
        "try_spawn stayed saturated after a session completed"
    );
}

#[test]
fn queue_full_polls_back_the_reserved_permit() {
    let mut admission = Admission::new(2);
    admission.try_spawn(|| HandOff::Sent).unwrap();
    assert_eq!(
        admission.try_spawn(|| HandOff::Full),
        Err(SessionSpawnError::QueueFull),
        "a full handoff queue must refuse the submission"
    );
    assert_eq!(admission.live, 1);
    assert_eq!(admission.try_spawn(|| HandOff::Sent), Ok(()));
}

#[test]
fn closed_scope_is_reported_and_releases_permits() {
    let mut admission = Admission::new(2);
    assert_eq!(
        admission.try_spawn(|| HandOff::Closed),
        Err(SessionSpawnError::ScopeClosed),
        "a dropped scope must be reported as closed"
    );
    assert_eq!(admission.live, 0);
}

#[test]
fn queued_sessions_consume_the_live_limit() {
    let mut admission = Admission::new(2);
    admission.try_spawn(|| HandOff::Sent).unwrap();
    admission.try_spawn(|| HandOff::Sent).unwrap();
    assert_eq!(
        admission.try_spawn(|| HandOff::Sent),
        Err(SessionSpawnError::AtCapacity),
        "a third submission must be refused while two sessions are queued"
    );
    assert_eq!(admission.live, 2);
    admission.release();
    admission.release();
    assert_eq!(admission.live, 0);
}

#[test]
fn freeing_a_slot_is_seen_by_those_who_wait() {
    let mut admission = Admission::new(1);
    assert!(admission.try_acquire());
    let before = admission.generation;
    assert!(!admission.try_acquire());
    assert_eq!(admission.generation, before);
    admission.release();
    assert_ne!(admission.generation, before);
    assert!(admission.try_acquire());
}

#[test]
fn refusals_have_words() {
    assert_eq!(SessionSpawnError::AtCapacity.as_str(), "at_capacity");
    assert_eq!(SessionSpawnError::QueueFull.as_str(), "queue_full");
    assert_eq!(SessionSpawnError::ScopeClosed.as_str(), "scope_closed");
    assert_eq!(SESSION_SCOPE_CHANNEL_CAPACITY, 256);
    assert_eq!(SESSION_SCOPE_MAX_CONCURRENT, 4096);
}
