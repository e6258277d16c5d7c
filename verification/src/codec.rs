//! Serialization of processor records for the record store.
//!
//! A record is framed as exactly 32 bytes: the correlation identifier
//! little-endian in bytes 0..16, the amount in cents little-endian in bytes
//! 16..24, and the timestamp in microseconds little-endian in bytes 24..32.
//! Decoding rejects any payload of another length; decoding a frame this
//! module produced gives back exactly the record it was made from.

use vstd::prelude::*;
use vstd::bytes::{
    lemma_auto_spec_u128_to_from_le_bytes, lemma_auto_spec_u64_to_from_le_bytes,
    spec_u128_from_le_bytes, spec_u128_to_le_bytes, spec_u64_from_le_bytes, spec_u64_to_le_bytes,
    u128_from_le_bytes, u128_to_le_bytes, u64_from_le_bytes, u64_to_le_bytes,
};
use vstd::slice::slice_subrange;
use crate::models::{ProcessorPaymentsRequest, RoundedDateTime};

verus! {

/// Byte length of one encoded record.
pub const RECORD_LEN: usize = 32;

/// Why a stored payload could not be read back as a record.
#[derive(Clone, Copy, PartialEq, Eq, Structural, Debug)]
pub enum DecodeError {
    /// The payload is not exactly `RECORD_LEN` bytes long.
    WrongLength,
}

/// The 32-byte frame that `encode_record` produces for `r`.
pub open spec fn spec_encode(r: ProcessorPaymentsRequest) -> Seq<u8> {
    spec_u128_to_le_bytes(r.correlation_id) + spec_u64_to_le_bytes(r.amount)
        + spec_u64_to_le_bytes(r.requested_at.micros)
}

/// The record a payload stands for: `Some` exactly when the payload is a
/// well-formed 32-byte frame.
pub open spec fn spec_decode(s: Seq<u8>) -> Option<ProcessorPaymentsRequest> {
    if s.len() == RECORD_LEN {
        Some(
            ProcessorPaymentsRequest {
                correlation_id: spec_u128_from_le_bytes(s.subrange(0, 16)),
                amount: spec_u64_from_le_bytes(s.subrange(16, 24)),
                requested_at: RoundedDateTime { micros: spec_u64_from_le_bytes(s.subrange(24, 32)) },
            },
        )
    } else {
        None
    }
}

/// Serialize `r` into its 32-byte frame.
pub fn encode_record(r: &ProcessorPaymentsRequest) -> (out: Vec<u8>)
    ensures
        out@ == spec_encode(*r),
        out@.len() == RECORD_LEN,
{
    proof {
        lemma_auto_spec_u128_to_from_le_bytes();
        lemma_auto_spec_u64_to_from_le_bytes();
    }
    let mut out = u128_to_le_bytes(r.correlation_id);
    let mut amount = u64_to_le_bytes(r.amount);
    let mut stamp = u64_to_le_bytes(r.requested_at.micros);
    out.append(&mut amount);
    out.append(&mut stamp);
    out
}

/// Read a stored payload back as a record. Succeeds exactly on well-formed
/// 32-byte frames; any other length is a `WrongLength` error.
pub fn decode_record(bytes: &[u8]) -> (out: Result<ProcessorPaymentsRequest, DecodeError>)
    ensures
        match out {
            Ok(r) => spec_decode(bytes@) == Some(r),
            Err(e) => spec_decode(bytes@) is None && e == DecodeError::WrongLength,
        },
        out is Ok <==> bytes@.len() == RECORD_LEN,
{
    if bytes.len() != RECORD_LEN {
        return Err(DecodeError::WrongLength);
    }
    let correlation_id = u128_from_le_bytes(slice_subrange(bytes, 0, 16));
    let amount = u64_from_le_bytes(slice_subrange(bytes, 16, 24));
    let micros = u64_from_le_bytes(slice_subrange(bytes, 24, 32));
    Ok(ProcessorPaymentsRequest { correlation_id, amount, requested_at: RoundedDateTime { micros } })
}

/// Round trip: decoding an encoded record gives back exactly that record,
/// for every record.
pub proof fn lemma_encode_decode_round_trip(r: ProcessorPaymentsRequest)
    ensures
        spec_decode(spec_encode(r)) == Some(r),
{
    lemma_auto_spec_u128_to_from_le_bytes();
    lemma_auto_spec_u64_to_from_le_bytes();
    let s = spec_encode(r);
    assert(s.subrange(0, 16) =~= spec_u128_to_le_bytes(r.correlation_id));
    assert(s.subrange(16, 24) =~= spec_u64_to_le_bytes(r.amount));
    assert(s.subrange(24, 32) =~= spec_u64_to_le_bytes(r.requested_at.micros));
}

} // verus!
