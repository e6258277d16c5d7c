//! Wall-clock stamping and the plain data model.

use payment_gateway::models::{PaymentsRequest, ProcessorPaymentsRequest, RoundedDateTime};

#[test]
fn new_record_is_stamped_with_current_time() {
    let before = ProcessorPaymentsRequest::new(0, 0).requested_at.micros;
    let rec = ProcessorPaymentsRequest::new(1050, 0xA);
    assert_eq!(rec.amount, 1050);
    assert_eq!(rec.correlation_id, 0xA);
    // The clock is monotone enough for a coarse sanity check: stamps are
    // non-decreasing across calls and far past the epoch on a sane clock.
    assert!(rec.requested_at.micros >= before);
    assert!(rec.requested_at.micros > 1_000_000_000_000_000);
}

#[test]
fn stamping_a_payment_copies_its_fields() {
    let payment = PaymentsRequest { correlation_id: 0xB, amount: 2000 };
    let stamp = RoundedDateTime::from_micros(777);
    let rec = ProcessorPaymentsRequest::stamped(&payment, stamp);
    assert_eq!(rec.correlation_id, 0xB);
    assert_eq!(rec.amount, 2000);
    assert_eq!(rec.requested_at, RoundedDateTime { micros: 777 });
}

#[test]
fn default_metrics_are_zeroed() {
    let metric = payment_gateway::models::RequestMetric::default();
    assert_eq!(metric.total_requests, 0);
    assert_eq!(metric.total_amount, 0);
    let summary = payment_gateway::models::PaymentsSummaryResponse::default();
    assert_eq!(summary.default, metric);
    assert_eq!(summary.fallback, metric);
}
