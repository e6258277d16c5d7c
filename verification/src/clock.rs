//! Wall-clock access, rounded to whole microseconds.
//!
//! The current time is the one value the routing logic takes from outside;
//! everything downstream of it is verified for every possible reading.

use vstd::prelude::*;
use crate::models::{PaymentsRequest, ProcessorPaymentsRequest, RoundedDateTime};

verus! {

/// Relies on `chrono::Utc::now` for the current instant and on
/// `chrono::DateTime::timestamp_micros` to turn it into whole microseconds
/// since the Unix epoch. The reading depends on the wall clock, so nothing is
/// promised of its value.
#[verifier::external_body]
fn utc_now_micros() -> i64 {
    chrono::Utc::now().timestamp_micros()
}

impl RoundedDateTime {
    /// The current wall-clock time. Readings from before the Unix epoch do
    /// not occur on a sane clock and are clamped to the epoch, so that a
    /// timestamp is always a plain non-negative microsecond count.
    pub fn now() -> Self {
        let t = utc_now_micros();
        if t < 0 {
            RoundedDateTime { micros: 0 }
        } else {
            RoundedDateTime { micros: t as u64 }
        }
    }
}

impl ProcessorPaymentsRequest {
    /// Stamp a candidate record for `correlation_id` and `amount` with the
    /// current wall-clock time.
    pub fn new(amount: u64, correlation_id: u128) -> (r: Self)
        ensures
            r.amount == amount,
            r.correlation_id == correlation_id,
    {
        ProcessorPaymentsRequest { correlation_id, amount, requested_at: RoundedDateTime::now() }
    }

    /// The record that routing `payment` would store if a processor accepted
    /// it at time `requested_at`.
    pub fn stamped(payment: &PaymentsRequest, requested_at: RoundedDateTime) -> (r: Self)
        ensures
            r.correlation_id == payment.correlation_id,
            r.amount == payment.amount,
            r.requested_at == requested_at,
    {
        ProcessorPaymentsRequest {
            correlation_id: payment.correlation_id,
            amount: payment.amount,
            requested_at,
        }
    }
}

} // verus!
