//! Byte-level layout of recorded message payloads.

use crate::time::{Time, NANOS_PER_SECOND};
use vstd::prelude::*;

verus! {

/// The little-endian 32-bit number at `at`.
pub open spec fn le32_at(bytes: Seq<u8>, at: int) -> nat {
    (bytes[at] + 0x100 * bytes[at + 1] + 0x1_0000 * bytes[at + 2] + 0x100_0000 * bytes[at
        + 3]) as nat
}

/// The little-endian 64-bit number at `at`.
pub open spec fn le64_at(bytes: Seq<u8>, at: int) -> nat {
    le32_at(bytes, at) + 0x1_0000_0000 * le32_at(bytes, at + 4)
}

/// Reads the little-endian 32-bit number at `at`.
pub fn read_le32(bytes: &[u8], at: usize) -> (value: u32)
    requires
        at + 4 <= bytes@.len(),
    ensures
        value == le32_at(bytes@, at as int),
{
    bytes[at] as u32 + 0x100 * bytes[at + 1] as u32 + 0x1_0000 * bytes[at + 2] as u32 + 0x100_0000
        * bytes[at + 3] as u32
}

/// Reads the little-endian 64-bit number at `at`.
pub fn read_le64(bytes: &[u8], at: usize) -> (value: u64)
    requires
        at + 8 <= bytes@.len(),
    ensures
        value == le64_at(bytes@, at as int),
{
    assert(bytes.len() == bytes@.len());
    read_le32(bytes, at) as u64 + 0x1_0000_0000 * read_le32(bytes, at + 4) as u64
}

/// The bytes of a 32-bit number, the lowest first.
pub open spec fn le32_bytes(value: nat) -> Seq<u8> {
    seq![
        (value % 0x100) as u8,
        (value / 0x100 % 0x100) as u8,
        (value / 0x100 / 0x100 % 0x100) as u8,
        (value / 0x100 / 0x100 / 0x100) as u8,
    ]
}

/// The bytes of a 64-bit number, the lowest first.
pub open spec fn le64_bytes(value: u64) -> Seq<u8> {
    le32_bytes((value % 0x1_0000_0000) as nat) + le32_bytes((value / 0x1_0000_0000) as nat)
}

/// `bytes` with a little-endian 64-bit number put in at `at`.
pub open spec fn with_le64(bytes: Seq<u8>, at: int, value: u64) -> Seq<u8> {
    bytes.subrange(0, at) + le64_bytes(value) + bytes.subrange(at + 8, bytes.len() as int)
}

/// The bytes of a 32-bit number make up the number.
proof fn bytes_make_up_number(value: nat, bytes: Seq<u8>, at: int)
    requires
        value < 0x1_0000_0000,
        0 <= at,
        at + 4 <= bytes.len(),
        bytes.subrange(at, at + 4) == le32_bytes(value),
    ensures
        le32_at(bytes, at) == value,
{
    let part = bytes.subrange(at, at + 4);
    assert(bytes[at] == part[0] && bytes[at + 1] == part[1]);
    assert(bytes[at + 2] == part[2] && bytes[at + 3] == part[3]);
}

/// A number that was put in is read back, and nothing else changes.
pub proof fn written_number_is_read_back(bytes: Seq<u8>, at: int, value: u64)
    requires
        0 <= at,
        at + 8 <= bytes.len(),
    ensures
        with_le64(bytes, at, value).len() == bytes.len(),
        le64_at(with_le64(bytes, at, value), at) == value,
        forall|i: int|
            0 <= i < at || at + 8 <= i < bytes.len() ==> #[trigger] with_le64(bytes, at, value)[i]
                == bytes[i],
{
    let written = with_le64(bytes, at, value);
    let low = (value % 0x1_0000_0000) as nat;
    let high = (value / 0x1_0000_0000) as nat;
    assert(written.subrange(at, at + 4) =~= le32_bytes(low));
    assert(written.subrange(at + 4, at + 8) =~= le32_bytes(high));
    bytes_make_up_number(low, written, at);
    bytes_make_up_number(high, written, at + 4);
}

/// Puts a little-endian 64-bit number in at `at`.
pub fn write_le64(bytes: &mut Vec<u8>, at: usize, value: u64)
    requires
        at + 8 <= old(bytes)@.len(),
    ensures
        final(bytes)@ == with_le64(old(bytes)@, at as int, value),
{
    let low: u64 = value % 0x1_0000_0000;
    let high: u64 = value / 0x1_0000_0000;
    assert(bytes.len() == bytes@.len());
    bytes.set(at, (low % 0x100) as u8);
    bytes.set(at + 1, (low / 0x100 % 0x100) as u8);
    bytes.set(at + 2, (low / 0x100 / 0x100 % 0x100) as u8);
    bytes.set(at + 3, (low / 0x100 / 0x100 / 0x100) as u8);
    bytes.set(at + 4, (high % 0x100) as u8);
    bytes.set(at + 5, (high / 0x100 % 0x100) as u8);
    bytes.set(at + 6, (high / 0x100 / 0x100 % 0x100) as u8);
    bytes.set(at + 7, (high / 0x100 / 0x100 / 0x100) as u8);
    assert(bytes@ =~= with_le64(old(bytes)@, at as int, value));
}

/// Whether `data` starts with a four-byte encapsulation header for plain little-endian data.
pub open spec fn has_cdr_header(data: Seq<u8>) -> bool {
    data.len() >= 4 && data[0] == 0 && (data[1] == 0 || data[1] == 1) && data[2] == 0 && data[3]
        == 0
}

/// `data` without its encapsulation header.
pub open spec fn cdr_payload_spec(data: Seq<u8>) -> Seq<u8> {
    if has_cdr_header(data) {
        data.subrange(4, data.len() as int)
    } else {
        data
    }
}

/// Strips the encapsulation header where there is one.
pub fn cdr_payload(data: &[u8]) -> (payload: &[u8])
    ensures
        payload@ == cdr_payload_spec(data@),
{
    if data.len() >= 4 && data[0] == 0 && (data[1] == 0 || data[1] == 1) && data[2] == 0 && data[3]
        == 0 {
        vstd::slice::slice_subrange(data, 4, data.len())
    } else {
        data
    }
}

/// Bytes of a timestamp in front of a payload: 64-bit seconds and 32-bit nanoseconds.
pub const TIME_PREFIX_LENGTH: usize = 12;

/// The timestamp in front of `payload`, held at the largest representable timestamp.
pub open spec fn time_prefix(payload: Seq<u8>) -> int {
    let nanos = NANOS_PER_SECOND * le64_at(payload, 0) + le32_at(payload, 8);
    if nanos <= i64::MAX {
        nanos
    } else {
        i64::MAX as int
    }
}

/// Reads the timestamp in front of a message; `None` where the message is too short for one.
pub fn decode_time_prefix(data: &[u8]) -> (time: Option<Time>)
    ensures
        time is Some <==> cdr_payload_spec(data@).len() >= TIME_PREFIX_LENGTH,
        time is Some ==> time->0.nanos == time_prefix(cdr_payload_spec(data@)),
{
    let payload = cdr_payload(data);
    if payload.len() < TIME_PREFIX_LENGTH {
        return None;
    }
    let seconds: u64 = read_le64(payload, 0);
    let nanos: u32 = read_le32(payload, 8);
    let total: u128 = NANOS_PER_SECOND as u128 * seconds as u128 + nanos as u128;
    if total <= i64::MAX as u128 {
        Some(Time { nanos: total as i64 })
    } else {
        Some(Time { nanos: i64::MAX })
    }
}

/// The timestamp in front of a payload counts seconds in eight bytes and nanoseconds in four, the
/// lowest byte first; one that is too large counts as the largest.
pub proof fn time_prefixes_count_seconds_and_nanoseconds(payload: Seq<u8>)
    requires
        payload.len() >= 12,
    ensures
        ({
            let seconds = payload[0] + 0x100 * payload[1] + 0x1_0000 * payload[2] + 0x100_0000
                * payload[3] + 0x1_0000_0000 * payload[4] + 0x100_0000_0000 * payload[5]
                + 0x1_0000_0000_0000 * payload[6] + 0x100_0000_0000_0000 * payload[7];
            let nanos = payload[8] + 0x100 * payload[9] + 0x1_0000 * payload[10] + 0x100_0000
                * payload[11];
            let total = 1_000_000_000 * seconds + nanos;
            &&& total <= i64::MAX ==> time_prefix(payload) == total
            &&& total > i64::MAX ==> time_prefix(payload) == i64::MAX
        }),
{
}

/// A header of four bytes is left off, and data without one is left as it is.
pub proof fn headers_are_left_off(payload: Seq<u8>, second: u8)
    ensures
        second <= 1 ==> cdr_payload_spec(seq![0u8, second, 0u8, 0u8] + payload) == payload,
        payload.len() < 4 || payload[0] != 0 || payload[1] > 1 || payload[2] != 0 || payload[3] != 0
            ==> cdr_payload_spec(payload) == payload,
{
    let data = seq![0u8, second, 0u8, 0u8] + payload;
    assert(data.subrange(4, data.len() as int) =~= payload);
}

} // verus!
