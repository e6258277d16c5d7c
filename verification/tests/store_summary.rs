//! Record store and summary aggregation: round trips, windows, purge, and
//! the concrete three-payment scenario.

use payment_gateway::codec::{decode_record, encode_record, DecodeError};
use payment_gateway::models::{
    PaymentsSummaryRequest, ProcessorPaymentsRequest, RequestMetric, RoundedDateTime,
    ServerPayment,
};
use payment_gateway::router::{AttemptOutcome, RouteOutcome, Router, RouterStatus};
use payment_gateway::store::RecordStore;
use payment_gateway::summary::{get_summaries, summarize_payloads};

fn record(correlation_id: u128, amount: u64, micros: u64) -> ProcessorPaymentsRequest {
    ProcessorPaymentsRequest {
        correlation_id,
        amount,
        requested_at: RoundedDateTime { micros },
    }
}

fn open_window() -> PaymentsSummaryRequest {
    PaymentsSummaryRequest { from: None, to: None }
}

fn window(from: u64, to: u64) -> PaymentsSummaryRequest {
    PaymentsSummaryRequest {
        from: Some(RoundedDateTime { micros: from }),
        to: Some(RoundedDateTime { micros: to }),
    }
}

#[test]
fn codec_round_trip() {
    let rec = record(0x0123_4567_89ab_cdef_0123_4567_89ab_cdef, 1050, 1_700_000_000_000_000);
    let bytes = encode_record(&rec);
    assert_eq!(bytes.len(), 32);
    assert_eq!(decode_record(bytes.as_slice()), Ok(rec));
}

#[test]
fn decode_rejects_wrong_length() {
    assert_eq!(decode_record(&[]), Err(DecodeError::WrongLength));
    assert_eq!(decode_record(&[0u8; 31]), Err(DecodeError::WrongLength));
    assert_eq!(decode_record(&[0u8; 33]), Err(DecodeError::WrongLength));
}

#[test]
fn summary_round_trip_counts_all_in_window() {
    let mut store = RecordStore::new();
    let amounts = [125u64, 250, 375, 500];
    for (i, amount) in amounts.iter().enumerate() {
        let rec = record(i as u128, *amount, 1000 + i as u64);
        store.record_route_outcome(RouteOutcome::Stored(ServerPayment::Default), &rec);
    }
    let summary = get_summaries(&store, &window(1000, 1003)).unwrap();
    assert_eq!(summary.default.total_requests, 4);
    assert_eq!(summary.default.total_amount, 1250);
    assert_eq!(summary.fallback.total_requests, 0);
    assert_eq!(summary.fallback.total_amount, 0);
}

#[test]
fn summary_excludes_records_outside_window() {
    let mut store = RecordStore::new();
    store.record_route_outcome(
        RouteOutcome::Stored(ServerPayment::Default),
        &record(1, 100, 500),
    );
    store.record_route_outcome(
        RouteOutcome::Stored(ServerPayment::Default),
        &record(2, 200, 1500),
    );
    store.record_route_outcome(
        RouteOutcome::Stored(ServerPayment::Default),
        &record(3, 400, 2500),
    );
    // Inclusive window keeps only the middle record.
    let summary = get_summaries(&store, &window(1000, 2000)).unwrap();
    assert_eq!(summary.default.total_requests, 1);
    assert_eq!(summary.default.total_amount, 200);
    // Half-open windows.
    let late = get_summaries(
        &store,
        &PaymentsSummaryRequest { from: Some(RoundedDateTime { micros: 1500 }), to: None },
    )
    .unwrap();
    assert_eq!(late.default.total_requests, 2);
    assert_eq!(late.default.total_amount, 600);
    let all = get_summaries(&store, &open_window()).unwrap();
    assert_eq!(all.default.total_requests, 3);
    assert_eq!(all.default.total_amount, 700);
}

#[test]
fn range_query_returns_entries_sorted_by_score() {
    let mut store = RecordStore::new();
    for (id, micros) in [(1u128, 300u64), (2, 100), (3, 200)] {
        let rec = record(id, 10, micros);
        store.insert(ServerPayment::Default, encode_record(&rec), micros);
    }
    let payloads = store.range_query(ServerPayment::Default, None, None);
    let ids: Vec<u128> = payloads
        .iter()
        .map(|p| decode_record(p.as_slice()).unwrap().correlation_id)
        .collect();
    assert_eq!(ids, vec![2, 3, 1]);
}

#[test]
fn dropped_outcome_writes_nothing() {
    let mut store = RecordStore::new();
    store.record_route_outcome(RouteOutcome::Dropped, &record(9, 999, 1));
    let summary = get_summaries(&store, &open_window()).unwrap();
    assert_eq!(summary.default.total_requests, 0);
    assert_eq!(summary.fallback.total_requests, 0);
    assert_eq!(store.default_set.len(), 0);
    assert_eq!(store.fallback_set.len(), 0);
}

#[test]
fn purge_idempotence() {
    let mut store = RecordStore::new();
    // Purging an empty store leaves it empty.
    store.purge_all();
    let summary = get_summaries(&store, &open_window()).unwrap();
    assert_eq!(summary.default, RequestMetric { total_requests: 0, total_amount: 0 });
    assert_eq!(summary.fallback, RequestMetric { total_requests: 0, total_amount: 0 });
    // Purging a populated store empties it too.
    store.record_route_outcome(RouteOutcome::Stored(ServerPayment::Default), &record(1, 10, 1));
    store.record_route_outcome(RouteOutcome::Stored(ServerPayment::Fallback), &record(2, 20, 2));
    store.purge_all();
    let summary = get_summaries(&store, &open_window()).unwrap();
    assert_eq!(summary.default, RequestMetric { total_requests: 0, total_amount: 0 });
    assert_eq!(summary.fallback, RequestMetric { total_requests: 0, total_amount: 0 });
}

#[test]
fn purge_one_partition_leaves_the_other() {
    let mut store = RecordStore::new();
    store.record_route_outcome(RouteOutcome::Stored(ServerPayment::Default), &record(1, 10, 1));
    store.record_route_outcome(RouteOutcome::Stored(ServerPayment::Fallback), &record(2, 20, 2));
    store.purge(ServerPayment::Default);
    let summary = get_summaries(&store, &open_window()).unwrap();
    assert_eq!(summary.default.total_requests, 0);
    assert_eq!(summary.fallback.total_requests, 1);
    assert_eq!(summary.fallback.total_amount, 20);
}

#[test]
fn undecodable_payload_fails_whole_summary() {
    let mut store = RecordStore::new();
    store.record_route_outcome(RouteOutcome::Stored(ServerPayment::Default), &record(1, 10, 1));
    store.insert(ServerPayment::Default, vec![1, 2, 3], 5);
    assert_eq!(get_summaries(&store, &open_window()), Err(DecodeError::WrongLength));
    // The fallback partition alone still summarizes.
    let payloads = store.range_query(ServerPayment::Fallback, None, None);
    assert_eq!(
        summarize_payloads(&payloads),
        Ok(RequestMetric { total_requests: 0, total_amount: 0 })
    );
}

#[test]
fn request_metric_addition() {
    let a = RequestMetric { total_requests: 2, total_amount: 1575 };
    let b = RequestMetric { total_requests: 1, total_amount: 2000 };
    let sum = a.add(b);
    assert_eq!(sum, RequestMetric { total_requests: 3, total_amount: 3575 });
    let mut acc = RequestMetric { total_requests: 0, total_amount: 0 };
    acc.add_assign(a);
    acc.add_assign(b);
    assert_eq!(acc, sum);
}

/// Route one payment's record, feeding each processor call's outcome from
/// `outcomes` in call order, and write the end of the attempt to the store.
fn route_and_store(
    store: &mut RecordStore,
    rec: &ProcessorPaymentsRequest,
    outcomes: &[AttemptOutcome],
) {
    let mut router = Router::new(3);
    let mut fed = outcomes.iter();
    let outcome = loop {
        match router.status {
            RouterStatus::Calling(_) => {
                router.record_outcome(*fed.next().expect("routing needed another outcome"));
            }
            RouterStatus::Finished(outcome) => break outcome,
        }
    };
    store.record_route_outcome(outcome, rec);
}

#[test]
fn concrete_three_payment_scenario() {
    // Payments 10.50, 20.00 and 5.25 (in cents) with correlation ids A, B, C:
    // the default processor accepts A and C, rejects B definitively, and the
    // fallback accepts B.
    let a = record(0xA, 1050, 10);
    let b = record(0xB, 2000, 20);
    let c = record(0xC, 525, 30);
    let mut store = RecordStore::new();
    route_and_store(&mut store, &a, &[AttemptOutcome::Accepted]);
    route_and_store(&mut store, &b, &[AttemptOutcome::Rejected, AttemptOutcome::Accepted]);
    route_and_store(&mut store, &c, &[AttemptOutcome::Accepted]);
    let summary = get_summaries(&store, &open_window()).unwrap();
    assert_eq!(summary.default.total_requests, 2);
    assert_eq!(summary.default.total_amount, 1575);
    assert_eq!(summary.fallback.total_requests, 1);
    assert_eq!(summary.fallback.total_amount, 2000);
}

#[test]
fn equal_scores_keep_insertion_order() {
    let mut store = RecordStore::new();
    for id in [1u128, 2, 3] {
        let rec = record(id, 10, 1000);
        store.insert(ServerPayment::Default, encode_record(&rec), 1000);
    }
    let payloads = store.range_query(ServerPayment::Default, None, None);
    let ids: Vec<u128> = payloads
        .iter()
        .map(|p| decode_record(p.as_slice()).unwrap().correlation_id)
        .collect();
    assert_eq!(ids, vec![1, 2, 3]);
}

#[test]
fn duplicate_correlation_ids_both_count() {
    // No deduplication: two successful routings of the same payment store
    // two records and both count toward the totals.
    let mut store = RecordStore::new();
    store.record_route_outcome(RouteOutcome::Stored(ServerPayment::Default), &record(7, 100, 1));
    store.record_route_outcome(RouteOutcome::Stored(ServerPayment::Default), &record(7, 100, 2));
    let summary = get_summaries(&store, &open_window()).unwrap();
    assert_eq!(summary.default.total_requests, 2);
    assert_eq!(summary.default.total_amount, 200);
}

#[test]
fn extreme_values_do_not_overflow() {
    let mut store = RecordStore::new();
    store.record_route_outcome(
        RouteOutcome::Stored(ServerPayment::Default),
        &record(u128::MAX, u64::MAX, u64::MAX),
    );
    store.record_route_outcome(
        RouteOutcome::Stored(ServerPayment::Default),
        &record(u128::MAX, u64::MAX, u64::MAX),
    );
    let summary = get_summaries(&store, &window(u64::MAX, u64::MAX)).unwrap();
    assert_eq!(summary.default.total_requests, 2);
    assert_eq!(summary.default.total_amount, 2 * (u64::MAX as u128));
}

#[test]
fn inverted_window_is_empty() {
    let mut store = RecordStore::new();
    store.record_route_outcome(RouteOutcome::Stored(ServerPayment::Default), &record(1, 10, 1500));
    let summary = get_summaries(&store, &window(2000, 1000)).unwrap();
    assert_eq!(summary.default.total_requests, 0);
    assert_eq!(summary.default.total_amount, 0);
}
