//! Points in time, and how the store writes them down.

use bincode::Options;
use vstd::bytes::{
    spec_u32_from_le_bytes, spec_u32_to_le_bytes, spec_u64_from_le_bytes, spec_u64_to_le_bytes,
};
use vstd::prelude::*;

verus! {

/// `bincode::ErrorKind`: why bytes could not be written or read.
#[verifier::external_type_specification]
#[verifier::external_body]
pub struct ExEncodingErrorKind(bincode::ErrorKind);

/// A point in time: whole seconds since the start of 1970 (UTC), and the
/// nanoseconds into that second.
#[derive(Debug, Clone, Copy, PartialEq, Eq, Structural)]
pub struct Timestamp {
    pub secs: i64,
    pub nanos: u32,
}

/// The twelve bytes that stand for a point in time: the seconds as eight
/// little-endian bytes in two's complement, then the nanoseconds as four.
pub open spec fn timestamp_bytes(secs: i64, nanos: u32) -> Seq<u8> {
    spec_u64_to_le_bytes(secs as u64) + spec_u32_to_le_bytes(nanos)
}

/// The point in time that twelve bytes stand for.
pub open spec fn timestamp_of_bytes(bytes: Seq<u8>) -> Timestamp
    recommends
        bytes.len() == 12,
{
    Timestamp {
        secs: spec_u64_from_le_bytes(bytes.subrange(0, 8)) as i64,
        nanos: spec_u32_from_le_bytes(bytes.subrange(8, 12)),
    }
}

/// What every reading of the clock is: a time at or after the start of
/// 1970, its nanoseconds short of a full second.
pub open spec fn is_clock_reading(secs: i64, nanos: u32) -> bool {
    secs >= 0 && nanos < 1_000_000_000
}

/// `chrono::Utc::now`, as seconds and nanoseconds. It reads the time that
/// has passed since the start of 1970 off the system clock, in whole seconds
/// and the nanoseconds of the second begun; which time that is, is not
/// claimed. A clock that stands before 1970 makes `chrono` give up.
#[verifier::external_body]
pub(crate) fn utc_now() -> (r: Timestamp)
    ensures
        is_clock_reading(r.secs, r.nanos),
{
    let now = chrono::Utc::now();
    Timestamp { secs: now.timestamp(), nanos: now.timestamp_subsec_nanos() }
}

/// `bincode::serialize` of the pair `(secs, nanos)`: fixed-width
/// little-endian integers, one after the other. It cannot fail on such a
/// pair: it counts the size without a limit and writes into a vector.
#[verifier::external_body]
pub(crate) fn serialize_timestamp(secs: i64, nanos: u32) -> (r: Result<Vec<u8>, bincode::Error>)
    ensures
        r is Ok,
        r matches Ok(bytes) ==> bytes@ == timestamp_bytes(secs, nanos),
{
    bincode::serialize(&(secs, nanos))
}

/// `bincode::Options::deserialize` of a pair `(i64, u32)`, with
/// fixed-width integers and bincode's other defaults: reads twelve bytes,
/// and fails on fewer and on more.
#[verifier::external_body]
pub(crate) fn deserialize_timestamp(bytes: &[u8]) -> (r: Result<(i64, u32), bincode::Error>)
    ensures
        r is Ok == (bytes@.len() == 12),
        r matches Ok(pair) ==> pair.0 == timestamp_of_bytes(bytes@).secs && pair.1
            == timestamp_of_bytes(bytes@).nanos,
{
    bincode::DefaultOptions::new().with_fixint_encoding().deserialize(bytes)
}

/// Reading back what was written gives the same point in time.
pub proof fn lemma_timestamp_round_trip(secs: i64, nanos: u32)
    ensures
        timestamp_bytes(secs, nanos).len() == 12,
        timestamp_of_bytes(timestamp_bytes(secs, nanos)) == (Timestamp { secs, nanos }),
{
    vstd::bytes::lemma_auto_spec_u64_to_from_le_bytes();
    vstd::bytes::lemma_auto_spec_u32_to_from_le_bytes();
    let high = spec_u64_to_le_bytes(secs as u64);
    let low = spec_u32_to_le_bytes(nanos);
    let bytes = timestamp_bytes(secs, nanos);
    assert(bytes.subrange(0, 8) =~= high);
    assert(bytes.subrange(8, 12) =~= low);
    assert((secs as u64) as i64 == secs) by (bit_vector);
}

impl Timestamp {
    /// The current time, as the system clock reads it.
    pub fn now() -> (r: Timestamp)
        ensures
            is_clock_reading(r.secs, r.nanos),
    {
        utc_now()
    }

    /// The bytes under which the store keeps this point in time.
    pub open spec fn bytes(self) -> Seq<u8> {
        timestamp_bytes(self.secs, self.nanos)
    }
}

} // verus!
