//! Worker-pool admission: the in-flight cap, FIFO order, shutdown.

use payment_gateway::models::PaymentsRequest;
use payment_gateway::pool::{WorkerPool, DEFAULT_MAX_IN_FLIGHT};

fn payment(correlation_id: u128) -> PaymentsRequest {
    PaymentsRequest { correlation_id, amount: 100 }
}

#[test]
fn admission_cap_holds_under_load() {
    let mut pool = WorkerPool::new(3);
    // Far more queued items than the cap.
    for i in 0..50u128 {
        pool.enqueue(payment(i));
    }
    let mut started = 0u64;
    while let Some(_) = pool.try_start() {
        started += 1;
        assert!(pool.in_flight <= pool.max_in_flight);
    }
    assert_eq!(started, 3);
    assert_eq!(pool.in_flight, 3);
    assert_eq!(pool.queue.len(), 47);
    // At capacity nothing starts; one completion frees one slot.
    assert!(pool.try_start().is_none());
    pool.finish_attempt();
    assert!(pool.try_start().is_some());
    assert_eq!(pool.in_flight, 3);
}

#[test]
fn queue_is_first_in_first_out() {
    let mut pool = WorkerPool::new(2);
    pool.enqueue(payment(1));
    pool.enqueue(payment(2));
    pool.enqueue(payment(3));
    assert_eq!(pool.try_start().unwrap().correlation_id, 1);
    assert_eq!(pool.try_start().unwrap().correlation_id, 2);
    // Cap reached: the third stays queued.
    assert!(pool.try_start().is_none());
    pool.finish_attempt();
    assert_eq!(pool.try_start().unwrap().correlation_id, 3);
}

#[test]
fn enqueue_never_blocks_and_never_fails() {
    let mut pool = WorkerPool::new(1);
    pool.request_shutdown();
    // Acceptance at ingress is unconditional, even while shutting down or at
    // capacity: the submitter has already been acknowledged.
    for i in 0..1000u128 {
        pool.enqueue(payment(i));
    }
    assert_eq!(pool.queue.len(), 1000);
}

#[test]
fn shutdown_stops_new_starts_but_not_running_attempts() {
    let mut pool = WorkerPool::new(2);
    pool.enqueue(payment(1));
    pool.enqueue(payment(2));
    assert!(pool.try_start().is_some());
    pool.request_shutdown();
    assert!(pool.try_start().is_none());
    assert_eq!(pool.queue.len(), 1);
    // The running attempt still completes normally.
    pool.finish_attempt();
    assert_eq!(pool.in_flight, 0);
}

#[test]
fn default_cap_admits_twenty() {
    assert_eq!(DEFAULT_MAX_IN_FLIGHT, 20);
    let mut pool = WorkerPool::new(DEFAULT_MAX_IN_FLIGHT);
    for i in 0..100u128 {
        pool.enqueue(payment(i));
    }
    let mut started = 0u64;
    while pool.try_start().is_some() {
        started += 1;
    }
    assert_eq!(started, 20);
}
