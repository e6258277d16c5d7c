//! Summary aggregation: reduce the serialized records of a time window into
//! per-partition totals.
//!
//! Every returned payload is decoded; one undecodable payload fails the whole
//! summary — a deliberate correctness-over-availability choice, never partial
//! results. Totals are a pure fold: one request counted and one amount added
//! per record.

use vstd::prelude::*;
use vstd::arithmetic::mul::lemma_mul_inequality;
use crate::codec::{spec_decode, spec_encode, DecodeError, decode_record};
use crate::codec::lemma_encode_decode_round_trip;
use crate::models::{
    PaymentsSummaryRequest, PaymentsSummaryResponse, ProcessorPaymentsRequest, RequestMetric,
    ServerPayment,
};
use crate::store::{RecordStore, StoredEntry, in_range, spec_range};

verus! {

/// The byte views of a sequence of owned payloads.
pub open spec fn views_of(s: Seq<Vec<u8>>) -> Seq<Seq<u8>> {
    s.map_values(|v: Vec<u8>| v@)
}

/// The byte views of the payloads of a sequence of stored entries.
pub open spec fn payload_views(s: Seq<StoredEntry>) -> Seq<Seq<u8>> {
    s.map_values(|e: StoredEntry| e.payload@)
}

/// Every payload decodes as a record.
pub open spec fn all_decodable(s: Seq<Seq<u8>>) -> bool {
    forall|i: int| 0 <= i < s.len() ==> spec_decode(s[i]) is Some
}

/// Sum of the amounts of the records the payloads decode to (an undecodable
/// payload contributes nothing; the claims below only use this under
/// `all_decodable`).
pub open spec fn spec_total_amount(s: Seq<Seq<u8>>) -> int
    decreases s.len(),
{
    if s.len() == 0 {
        0
    } else {
        spec_total_amount(s.drop_last()) + match spec_decode(s.last()) {
            Option::Some(r) => r.amount as int,
            Option::None => 0,
        }
    }
}

/// Sum of the amounts of a sequence of records.
pub open spec fn spec_sum_amounts(s: Seq<ProcessorPaymentsRequest>) -> int
    decreases s.len(),
{
    if s.len() == 0 {
        0
    } else {
        spec_sum_amounts(s.drop_last()) + s.last().amount as int
    }
}

/// Fold a partition's payloads into its totals: one request and one amount
/// per record. Fails — with no partial result — exactly when some payload
/// does not decode.
pub fn summarize_payloads(payloads: &Vec<Vec<u8>>) -> (out: Result<RequestMetric, DecodeError>)
    ensures
        out is Ok <==> all_decodable(views_of(payloads@)),
        match out {
            Result::Ok(m) => {
                &&& m.total_requests == payloads@.len()
                &&& m.total_amount == spec_total_amount(views_of(payloads@))
            },
            Result::Err(e) => e == DecodeError::WrongLength,
        },
{
    let ghost s = views_of(payloads@);
    let mut total_amount: u128 = 0;
    let mut i: usize = 0;
    while i < payloads.len()
        invariant
            0 <= i <= payloads@.len(),
            s == views_of(payloads@),
            s.len() == payloads@.len(),
            forall|k: int| 0 <= k < i ==> spec_decode(s[k]) is Some,
            total_amount == spec_total_amount(s.take(i as int)),
            total_amount <= (i as int) * 0x1_0000_0000_0000_0000,
        decreases payloads@.len() - i,
    {
        proof {
            assert(s.take(i + 1).drop_last() =~= s.take(i as int));
            assert(s.take(i + 1).last() == s[i as int]);
            assert(s[i as int] == payloads@[i as int]@);
        }
        let record = match decode_record(payloads[i].as_slice()) {
            Ok(r) => r,
            Err(e) => {
                return Err(e);
            },
        };
        proof {
            lemma_mul_inequality((i as int) + 1, 0x1_0000_0000_0000_0000, 0x1_0000_0000_0000_0000);
        }
        total_amount = total_amount + record.amount as u128;
        i = i + 1;
    }
    proof {
        assert(s.take(s.len() as int) =~= s);
    }
    Ok(RequestMetric { total_requests: payloads.len() as u64, total_amount })
}

/// Compute the summary of both partitions over the window of `request`:
/// range-read each partition, decode every returned record and fold it into
/// that partition's totals. Both bounds are inclusive; an absent bound leaves
/// the window open on that side. One undecodable stored payload fails the
/// whole summary.
pub fn get_summaries(store: &RecordStore, request: &PaymentsSummaryRequest) -> (out: Result<
    PaymentsSummaryResponse,
    DecodeError,
>)
    ensures
        ({
            let min = match request.from {
                Option::Some(t) => Option::Some(t.micros),
                Option::None => Option::None,
            };
            let max = match request.to {
                Option::Some(t) => Option::Some(t.micros),
                Option::None => Option::None,
            };
            let ds = payload_views(spec_range(store.partition(ServerPayment::Default), min, max));
            let fs = payload_views(spec_range(store.partition(ServerPayment::Fallback), min, max));
            &&& (out is Ok <==> all_decodable(ds) && all_decodable(fs))
            &&& match out {
                Result::Ok(summary) => {
                    &&& summary.default.total_requests == ds.len()
                    &&& summary.default.total_amount == spec_total_amount(ds)
                    &&& summary.fallback.total_requests == fs.len()
                    &&& summary.fallback.total_amount == spec_total_amount(fs)
                },
                Result::Err(e) => e == DecodeError::WrongLength,
            }
        }),
{
    let min = match request.from {
        Option::Some(t) => Option::Some(t.micros),
        Option::None => Option::None,
    };
    let max = match request.to {
        Option::Some(t) => Option::Some(t.micros),
        Option::None => Option::None,
    };
    let default_payloads = store.range_query(ServerPayment::Default, min, max);
    let fallback_payloads = store.range_query(ServerPayment::Fallback, min, max);
    proof {
        assert(views_of(default_payloads@) =~= payload_views(
            spec_range(store.partition(ServerPayment::Default), min, max),
        ));
        assert(views_of(fallback_payloads@) =~= payload_views(
            spec_range(store.partition(ServerPayment::Fallback), min, max),
        ));
    }
    let default = match summarize_payloads(&default_payloads) {
        Ok(m) => m,
        Err(e) => {
            return Err(e);
        },
    };
    let fallback = match summarize_payloads(&fallback_payloads) {
        Ok(m) => m,
        Err(e) => {
            return Err(e);
        },
    };
    Ok(PaymentsSummaryResponse { default, fallback })
}

/// Summary round trip: a partition holding exactly the encodings of records
/// whose timestamps all lie inside the window is returned whole by the range
/// read, every payload decodes, and the fold gives one counted request per
/// record and the exact sum of their amounts.
pub proof fn lemma_summary_round_trip(
    entries: Seq<StoredEntry>,
    records: Seq<ProcessorPaymentsRequest>,
    min: Option<u64>,
    max: Option<u64>,
)
    requires
        entries.len() == records.len(),
        forall|i: int| 0 <= i < entries.len() ==> entries[i].payload@ == spec_encode(records[i]),
        forall|i: int| 0 <= i < entries.len() ==> in_range(entries[i].score, min, max),
    ensures
        spec_range(entries, min, max) == entries,
        all_decodable(payload_views(entries)),
        spec_total_amount(payload_views(entries)) == spec_sum_amounts(records),
    decreases entries.len(),
{
    if entries.len() == 0 {
        assert(spec_range(entries, min, max) =~= entries);
        assert(payload_views(entries) =~= Seq::<Seq<u8>>::empty());
    } else {
        lemma_summary_round_trip(entries.drop_last(), records.drop_last(), min, max);
        assert(spec_range(entries, min, max) =~= entries);
        let pv = payload_views(entries);
        assert(pv.drop_last() =~= payload_views(entries.drop_last()));
        assert(pv.last() == spec_encode(records.last()));
        lemma_encode_decode_round_trip(records.last());
        assert forall|i: int| 0 <= i < pv.len() implies spec_decode(pv[i]) is Some by {
            lemma_encode_decode_round_trip(records[i]);
        }
        assert(spec_total_amount(pv) == spec_total_amount(pv.drop_last())
            + records.last().amount as int);
    }
}

/// Records with timestamps outside the window are excluded: every entry a
/// range read returns lies inside the window, and no more entries are
/// returned than the partition holds.
pub proof fn lemma_out_of_range_excluded(entries: Seq<StoredEntry>, min: Option<u64>, max: Option<
    u64,
>)
    ensures
        forall|j: int|
            0 <= j < spec_range(entries, min, max).len() ==> in_range(
                #[trigger] spec_range(entries, min, max)[j].score,
                min,
                max,
            ),
        spec_range(entries, min, max).len() <= entries.len(),
    decreases entries.len(),
{
    if entries.len() > 0 {
        lemma_out_of_range_excluded(entries.drop_last(), min, max);
    }
}

/// Purge idempotence, the summary half: over an empty partition — what any
/// purge leaves behind, populated or not — every window's range read is
/// empty and the fold gives zero requests and zero amount.
pub proof fn lemma_empty_store_summary_zero(min: Option<u64>, max: Option<u64>)
    ensures
        spec_range(Seq::<StoredEntry>::empty(), min, max) == Seq::<StoredEntry>::empty(),
        payload_views(Seq::<StoredEntry>::empty()).len() == 0,
        all_decodable(payload_views(Seq::<StoredEntry>::empty())),
        spec_total_amount(payload_views(Seq::<StoredEntry>::empty())) == 0,
{
    assert(spec_range(Seq::<StoredEntry>::empty(), min, max) =~= Seq::<StoredEntry>::empty());
    assert(payload_views(Seq::<StoredEntry>::empty()) =~= Seq::<Seq<u8>>::empty());
}

} // verus!
