//! Shared data model: payment requests, processor records and summary totals.
//!
//! Amounts are whole cents (`u64`), timestamps whole microseconds since the
//! Unix epoch (`u64`), correlation identifiers 128-bit values (`u128`).

use vstd::prelude::*;

verus! {

/// A point in time rounded to whole microseconds since the Unix epoch.
/// Doubles as the ordering and range key of the record store.
#[derive(Clone, Copy, PartialEq, Eq, Structural, Debug)]
pub struct RoundedDateTime {
    pub micros: u64,
}

impl RoundedDateTime {
    pub fn from_micros(micros: u64) -> (r: Self)
        ensures
            r.micros == micros,
    {
        RoundedDateTime { micros }
    }
}

/// Payment requisition to be processed: what the ingress boundary hands to a
/// worker. `amount` is in cents and therefore never negative.
#[derive(Clone, Copy, PartialEq, Eq, Structural, Debug)]
pub struct PaymentsRequest {
    pub correlation_id: u128,
    pub amount: u64,
}

/// Empty acknowledgement returned to the submitter at ingress time.
#[derive(Clone, Copy, PartialEq, Eq, Structural, Debug)]
pub struct PaymentsResponse;

/// Optional time window of a summary query; an absent bound means the range
/// is open on that side.
#[derive(Clone, Copy, PartialEq, Eq, Structural, Debug)]
pub struct PaymentsSummaryRequest {
    pub from: Option<RoundedDateTime>,
    pub to: Option<RoundedDateTime>,
}

/// Totals over one record-store partition: how many records matched and the
/// sum of their amounts in cents.
#[derive(Clone, Copy, PartialEq, Eq, Structural, Debug)]
pub struct RequestMetric {
    pub total_requests: u64,
    pub total_amount: u128,
}

impl RequestMetric {
    pub fn add(self, rhs: Self) -> (r: Self)
        requires
            self.total_requests + rhs.total_requests <= u64::MAX,
            self.total_amount + rhs.total_amount <= u128::MAX,
        ensures
            r.total_requests == self.total_requests + rhs.total_requests,
            r.total_amount == self.total_amount + rhs.total_amount,
    {
        RequestMetric {
            total_requests: self.total_requests + rhs.total_requests,
            total_amount: self.total_amount + rhs.total_amount,
        }
    }

    pub fn add_assign(&mut self, rhs: Self)
        requires
            old(self).total_requests + rhs.total_requests <= u64::MAX,
            old(self).total_amount + rhs.total_amount <= u128::MAX,
        ensures
            final(self).total_requests == old(self).total_requests + rhs.total_requests,
            final(self).total_amount == old(self).total_amount + rhs.total_amount,
    {
        self.total_requests = self.total_requests + rhs.total_requests;
        self.total_amount = self.total_amount + rhs.total_amount;
    }
}

impl Default for RequestMetric {
    /// Zero requests, zero amount.
    fn default() -> (r: Self)
        ensures
            r.total_requests == 0,
            r.total_amount == 0,
    {
        RequestMetric { total_requests: 0, total_amount: 0 }
    }
}

/// Answer to a summary query: totals for both partitions, always fully
/// populated.
#[derive(Clone, Copy, PartialEq, Eq, Structural, Debug)]
pub struct PaymentsSummaryResponse {
    pub default: RequestMetric,
    pub fallback: RequestMetric,
}

impl Default for PaymentsSummaryResponse {
    /// Both partitions at zero.
    fn default() -> (r: Self)
        ensures
            r.default.total_requests == 0,
            r.default.total_amount == 0,
            r.fallback.total_requests == 0,
            r.fallback.total_amount == 0,
    {
        PaymentsSummaryResponse {
            default: RequestMetric { total_requests: 0, total_amount: 0 },
            fallback: RequestMetric { total_requests: 0, total_amount: 0 },
        }
    }
}

/// Which downstream processor accepted a payment; names the partition its
/// record is stored in.
#[derive(Clone, Copy, PartialEq, Eq, Structural, Debug)]
pub enum ServerPayment {
    Default,
    Fallback,
}

/// The durable unit written to the record store once a processor has accepted
/// a payment. `requested_at` doubles as the store's sort and range key.
#[derive(Clone, Copy, PartialEq, Eq, Structural, Debug)]
pub struct ProcessorPaymentsRequest {
    pub correlation_id: u128,
    pub amount: u64,
    pub requested_at: RoundedDateTime,
}

/// Message body a processor answers an accepted payment with.
#[derive(PartialEq, Eq, Debug)]
pub struct ProcessorPaymentsResponse {
    pub message: String,
}

/// Health probe answer of a processor.
#[derive(Clone, Copy, PartialEq, Eq, Structural, Debug)]
pub struct ProcessorHealthCheck {
    pub failing: bool,
    pub min_response_time: u32,
}

/// Lookup of one payment by its identifier.
#[derive(Clone, Copy, PartialEq, Eq, Structural, Debug)]
pub struct ProcessorPaymentsIdRequest {
    pub id: u128,
}

/// Answer to a lookup by identifier: the stored record.
#[derive(Clone, Copy, PartialEq, Eq, Structural, Debug)]
pub struct ProcessorPaymentsIdResponse {
    pub inner: ProcessorPaymentsRequest,
}

} // verus!
