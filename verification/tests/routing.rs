//! Routing decisions: retry on timeout, divert on rejection, drop on double
//! failure, Fibonacci backoff growth.

use payment_gateway::router::{
    AttemptOutcome, FibonacciBackoff, RouteOutcome, Router, RouterStatus,
};
use payment_gateway::models::ServerPayment;

#[test]
fn default_success_routes_default() {
    let mut router = Router::new(3);
    assert_eq!(router.status, RouterStatus::Calling(ServerPayment::Default));
    let delay = router.record_outcome(AttemptOutcome::Accepted);
    assert_eq!(delay, 0);
    assert_eq!(
        router.status,
        RouterStatus::Finished(RouteOutcome::Stored(ServerPayment::Default))
    );
}

#[test]
fn definitive_error_falls_back_without_retry() {
    let mut router = Router::new(3);
    let delay = router.record_outcome(AttemptOutcome::Rejected);
    assert_eq!(delay, 0);
    assert_eq!(router.status, RouterStatus::Calling(ServerPayment::Fallback));
    // The retry budget is untouched: rejections are never retried.
    assert_eq!(router.retries_left, 3);
    let delay = router.record_outcome(AttemptOutcome::Accepted);
    assert_eq!(delay, 0);
    assert_eq!(
        router.status,
        RouterStatus::Finished(RouteOutcome::Stored(ServerPayment::Fallback))
    );
}

#[test]
fn retry_exhaustion_with_fibonacci_backoff() {
    let mut router = Router::new(4);
    let mut delays = Vec::new();
    // Four timeouts are retried against the default processor with growing
    // delays; the fifth timeout exhausts the budget and diverts to fallback.
    for _ in 0..4 {
        delays.push(router.record_outcome(AttemptOutcome::TimedOut));
        assert_eq!(router.status, RouterStatus::Calling(ServerPayment::Default));
    }
    assert_eq!(delays, vec![20, 20, 40, 60]);
    let delay = router.record_outcome(AttemptOutcome::TimedOut);
    assert_eq!(delay, 0);
    assert_eq!(router.status, RouterStatus::Calling(ServerPayment::Fallback));
    router.record_outcome(AttemptOutcome::Accepted);
    assert_eq!(
        router.status,
        RouterStatus::Finished(RouteOutcome::Stored(ServerPayment::Fallback))
    );
}

#[test]
fn backoff_delays_are_capped() {
    let mut router = Router::new(12);
    let mut delays = Vec::new();
    for _ in 0..12 {
        delays.push(router.record_outcome(AttemptOutcome::TimedOut));
    }
    assert_eq!(
        delays,
        vec![20, 20, 40, 60, 100, 160, 260, 420, 680, 1000, 1000, 1000]
    );
}

#[test]
fn fallback_timeout_drops() {
    let mut router = Router::new(0);
    // Budget zero: the first timeout already diverts to the fallback.
    router.record_outcome(AttemptOutcome::TimedOut);
    assert_eq!(router.status, RouterStatus::Calling(ServerPayment::Fallback));
    // The fallback is never retried: its timeout ends the attempt.
    router.record_outcome(AttemptOutcome::TimedOut);
    assert_eq!(router.status, RouterStatus::Finished(RouteOutcome::Dropped));
}

#[test]
fn double_definitive_failure_drops() {
    let mut router = Router::new(3);
    router.record_outcome(AttemptOutcome::Rejected);
    router.record_outcome(AttemptOutcome::Rejected);
    assert_eq!(router.status, RouterStatus::Finished(RouteOutcome::Dropped));
}

#[test]
fn finished_router_does_not_move() {
    let mut router = Router::new(1);
    router.record_outcome(AttemptOutcome::Accepted);
    let frozen = router.status;
    let delay = router.record_outcome(AttemptOutcome::Rejected);
    assert_eq!(delay, 0);
    assert_eq!(router.status, frozen);
}

#[test]
fn backoff_schedule_advances_and_caps() {
    let mut backoff = FibonacciBackoff::new(20, 100);
    let mut delays = Vec::new();
    for _ in 0..6 {
        delays.push(backoff.next_delay());
    }
    assert_eq!(delays, vec![20, 20, 40, 60, 100, 100]);
}
