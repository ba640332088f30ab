//! Record framing of a recording file, checked before the file is handed to a reader.
//!
//! A file is a magic number followed by records: an opcode byte, a 64-bit body length and the
//! body. A chunk is a record whose body holds further records, compressed or as they are.

use crate::wire::{
    le32_at, le64_at, read_le32, read_le64, with_le64, write_le64, written_number_is_read_back,
};
use vstd::prelude::*;

verus! {

/// Bytes of the magic number in front of the first record.
pub const MAGIC_LENGTH: usize = 8;

/// Bytes in front of a record body: opcode and body length.
pub const RECORD_HEADER_LENGTH: usize = 9;

/// Opcode of the record that ends the file.
pub const FOOTER_OPCODE: u8 = 0x02;

/// Opcode of a record that holds a message.
pub const MESSAGE_OPCODE: u8 = 0x05;

/// Opcode of a record that holds further records.
pub const CHUNK_OPCODE: u8 = 0x06;

/// Opcode of a record that holds an attached file.
pub const ATTACHMENT_OPCODE: u8 = 0x09;

/// Opcode of the record that ends the messages of the file.
pub const DATA_END_OPCODE: u8 = 0x0F;

/// Bytes of a chunk header whose compression name is empty.
pub const CHUNK_HEADER_LENGTH: usize = 40;

/// Whether the records that start at `at` stay within the next `length` bytes. A record longer
/// than `limit` or cut off by the end of the file ends the walk.
pub open spec fn records_fit(bytes: Seq<u8>, limit: usize, at: int, length: int) -> bool
    decreases bytes.len() - at,
{
    if length == 0 || at < 0 || at + RECORD_HEADER_LENGTH > bytes.len() {
        true
    } else {
        let body = le64_at(bytes, at + 1);
        if body > limit || at + RECORD_HEADER_LENGTH + body > bytes.len() {
            true
        } else {
            &&& RECORD_HEADER_LENGTH + body <= length
            &&& records_fit(
                bytes,
                limit,
                at + RECORD_HEADER_LENGTH + body,
                length - RECORD_HEADER_LENGTH - body,
            )
        }
    }
}

/// Where the first record that does not stay within the next `length` bytes starts, among those
/// that start at `at`.
pub open spec fn overrun_start(bytes: Seq<u8>, limit: usize, at: int, length: int) -> int
    decreases bytes.len() - at,
{
    if length == 0 || at < 0 || at + RECORD_HEADER_LENGTH > bytes.len() {
        at
    } else {
        let body = le64_at(bytes, at + 1);
        if body > limit || at + RECORD_HEADER_LENGTH + body > bytes.len() || RECORD_HEADER_LENGTH
            + body > length {
            at
        } else {
            overrun_start(
                bytes,
                limit,
                at + RECORD_HEADER_LENGTH + body,
                length - RECORD_HEADER_LENGTH - body,
            )
        }
    }
}

/// Whether the chunk whose body of `length` bytes starts at `at` keeps its uncompressed records
/// within the size that its header gives.
pub open spec fn chunk_is_sound(bytes: Seq<u8>, limit: usize, at: int, length: nat) -> bool {
    at + CHUNK_HEADER_LENGTH <= bytes.len() && length >= CHUNK_HEADER_LENGTH && le32_at(
        bytes,
        at + 28,
    ) == 0 && le64_at(bytes, at + 32) <= length - CHUNK_HEADER_LENGTH ==> records_fit(
        bytes,
        limit,
        at + CHUNK_HEADER_LENGTH,
        le64_at(bytes, at + 32) as int,
    )
}

/// Whether every chunk among the records from `at` on is sound.
pub open spec fn records_are_sound(bytes: Seq<u8>, limit: usize, at: int) -> bool
    decreases bytes.len() - at,
{
    if at < 0 || at + RECORD_HEADER_LENGTH > bytes.len() || bytes[at] == FOOTER_OPCODE {
        true
    } else {
        let body = le64_at(bytes, at + 1);
        let start = at + RECORD_HEADER_LENGTH;
        &&& bytes[at] == CHUNK_OPCODE ==> chunk_is_sound(bytes, limit, start, body)
        &&& start + body <= bytes.len() ==> records_are_sound(bytes, limit, start + body)
    }
}

/// Whether every chunk of the file is sound.
pub open spec fn framing_is_sound(bytes: Seq<u8>, limit: usize) -> bool {
    records_are_sound(bytes, limit, MAGIC_LENGTH as int)
}

/// Where the part of a file that is read ends, found by walking the records from `at` on, and
/// whether it ends there because of a chunk that is not sound. The part ends in front of the first
/// record that runs over the end of its chunk or behind the record that ends the messages,
/// whichever comes first; without either it is the whole file.
pub open spec fn readable_end(bytes: Seq<u8>, limit: usize, at: int) -> (int, bool)
    decreases bytes.len() - at,
{
    if at < 0 || at + RECORD_HEADER_LENGTH > bytes.len() || bytes[at] == FOOTER_OPCODE {
        (bytes.len() as int, false)
    } else {
        let body = le64_at(bytes, at + 1);
        let start = at + RECORD_HEADER_LENGTH;
        if bytes[at] == CHUNK_OPCODE && !chunk_is_sound(bytes, limit, start, body) {
            let records = start + CHUNK_HEADER_LENGTH;
            (overrun_start(bytes, limit, records, le64_at(bytes, start + 32) as int), true)
        } else if start + body > bytes.len() {
            (bytes.len() as int, false)
        } else if bytes[at] == DATA_END_OPCODE {
            (start + body, false)
        } else {
            readable_end(bytes, limit, start + body)
        }
    }
}

/// The part of a file that is read.
pub open spec fn readable_part(bytes: Seq<u8>, limit: usize) -> Seq<u8> {
    bytes.subrange(0, readable_end(bytes, limit, MAGIC_LENGTH as int).0)
}

/// Whether a record that runs over the end of its chunk ends the part of a file that is read.
pub open spec fn is_broken_off(bytes: Seq<u8>, limit: usize) -> bool {
    readable_end(bytes, limit, MAGIC_LENGTH as int).1
}

/// Records that fit still do where the file ends earlier.
proof fn records_fit_in_shorter_file(
    bytes: Seq<u8>,
    limit: usize,
    at: int,
    length: int,
    end: int,
)
    requires
        0 <= end <= bytes.len(),
        records_fit(bytes, limit, at, length),
    ensures
        records_fit(bytes.subrange(0, end), limit, at, length),
    decreases bytes.len() - at,
{
    let shorter = bytes.subrange(0, end);
    if length != 0 && 0 <= at && at + RECORD_HEADER_LENGTH <= end {
        let body = le64_at(bytes, at + 1);
        assert(le64_at(shorter, at + 1) == body);
        if body <= limit && at + RECORD_HEADER_LENGTH + body <= end {
            records_fit_in_shorter_file(
                bytes,
                limit,
                at + RECORD_HEADER_LENGTH + body,
                length - RECORD_HEADER_LENGTH - body,
                end,
            );
        }
    }
}

/// In front of the first record that does not fit, every record does.
proof fn records_fit_up_to_overrun(bytes: Seq<u8>, limit: usize, at: int, length: int)
    requires
        0 <= at,
        0 <= length,
        !records_fit(bytes, limit, at, length),
    ensures
        ({
            let end = overrun_start(bytes, limit, at, length);
            &&& at <= end < at + length
            &&& end <= bytes.len()
            &&& records_fit(bytes.subrange(0, end), limit, at, length)
        }),
    decreases bytes.len() - at,
{
    let end = overrun_start(bytes, limit, at, length);
    let body = le64_at(bytes, at + 1);
    if RECORD_HEADER_LENGTH + body <= length {
        let next = at + RECORD_HEADER_LENGTH + body;
        records_fit_up_to_overrun(bytes, limit, next, length - RECORD_HEADER_LENGTH - body);
        assert(le64_at(bytes.subrange(0, end), at + 1) == body);
    }
}

/// A sound chunk still is where the file ends earlier.
proof fn chunk_is_sound_in_shorter_file(
    bytes: Seq<u8>,
    limit: usize,
    at: int,
    length: nat,
    end: int,
)
    requires
        0 <= at,
        0 <= end <= bytes.len(),
        chunk_is_sound(bytes, limit, at, length),
    ensures
        chunk_is_sound(bytes.subrange(0, end), limit, at, length),
{
    let shorter = bytes.subrange(0, end);
    if at + CHUNK_HEADER_LENGTH <= end {
        assert(le32_at(shorter, at + 28) == le32_at(bytes, at + 28));
        assert(le64_at(shorter, at + 32) == le64_at(bytes, at + 32));
        if length >= CHUNK_HEADER_LENGTH && le32_at(bytes, at + 28) == 0 && le64_at(bytes, at + 32)
            <= length - CHUNK_HEADER_LENGTH {
            records_fit_in_shorter_file(
                bytes,
                limit,
                at + CHUNK_HEADER_LENGTH,
                le64_at(bytes, at + 32) as int,
                end,
            );
        }
    }
}

/// Every chunk of the part that is read is sound.
proof fn readable_part_is_sound(bytes: Seq<u8>, limit: usize, at: int)
    requires
        0 <= at <= bytes.len(),
    ensures
        at <= readable_end(bytes, limit, at).0 <= bytes.len(),
        records_are_sound(bytes.subrange(0, readable_end(bytes, limit, at).0), limit, at),
    decreases bytes.len() - at,
{
    let end = readable_end(bytes, limit, at).0;
    let part = bytes.subrange(0, end);
    if at + RECORD_HEADER_LENGTH <= bytes.len() && bytes[at] != FOOTER_OPCODE {
        let body = le64_at(bytes, at + 1);
        let start = at + RECORD_HEADER_LENGTH;
        if end == bytes.len() {
            assert(part =~= bytes);
        }
        if bytes[at] == CHUNK_OPCODE && !chunk_is_sound(bytes, limit, start, body) {
            let records = start + CHUNK_HEADER_LENGTH;
            records_fit_up_to_overrun(bytes, limit, records, le64_at(bytes, start + 32) as int);
            assert(part[at] == bytes[at] && le64_at(part, at + 1) == body);
            assert(le32_at(part, start + 28) == le32_at(bytes, start + 28));
            assert(le64_at(part, start + 32) == le64_at(bytes, start + 32));
        }
        if start + body <= bytes.len() && (bytes[at] == CHUNK_OPCODE ==> chunk_is_sound(
            bytes,
            limit,
            start,
            body,
        )) {
            if bytes[at] == DATA_END_OPCODE {
                assert(records_are_sound(part, limit, end));
            } else {
                readable_part_is_sound(bytes, limit, start + body);
            }
            assert(part[at] == bytes[at] && le64_at(part, at + 1) == body);
            if bytes[at] == CHUNK_OPCODE {
                chunk_is_sound_in_shorter_file(bytes, limit, start, body, end);
            }
        }
    } else {
        assert(part =~= bytes);
    }
}

/// Where every chunk among the records from `at` on is sound, none of them breaks the part off.
proof fn sound_records_break_nothing_off(bytes: Seq<u8>, limit: usize, at: int)
    requires
        records_are_sound(bytes, limit, at),
    ensures
        !readable_end(bytes, limit, at).1,
    decreases bytes.len() - at,
{
    if 0 <= at && at + RECORD_HEADER_LENGTH <= bytes.len() && bytes[at] != FOOTER_OPCODE {
        let next = at + RECORD_HEADER_LENGTH + le64_at(bytes, at + 1);
        if next <= bytes.len() {
            sound_records_break_nothing_off(bytes, limit, next);
        }
    }
}

/// The part of a file that is read is a start of it whose chunks are all sound, and a file whose
/// chunks are all sound is not broken off.
pub proof fn readable_part_is_sound_start(bytes: Seq<u8>, limit: usize)
    ensures
        readable_part(bytes, limit).is_prefix_of(bytes),
        framing_is_sound(readable_part(bytes, limit), limit),
        framing_is_sound(bytes, limit) ==> !is_broken_off(bytes, limit),
{
    if bytes.len() >= MAGIC_LENGTH {
        readable_part_is_sound(bytes, limit, MAGIC_LENGTH as int);
    }
    if framing_is_sound(bytes, limit) {
        sound_records_break_nothing_off(bytes, limit, MAGIC_LENGTH as int);
    }
}

/// Finds the first record that does not stay within the next `length` bytes, among those that
/// start at `at`.
fn find_overrun(bytes: &[u8], limit: usize, at: usize, length: u64) -> (overrun: Option<usize>)
    requires
        at <= bytes@.len(),
    ensures
        overrun is None <==> records_fit(bytes@, limit, at as int, length as int),
        overrun matches Some(start) ==> start == overrun_start(
            bytes@,
            limit,
            at as int,
            length as int,
        ),
{
    let end: usize = bytes.len();
    let mut position: usize = at;
    let mut remaining: u64 = length;
    while remaining != 0 && end - position >= RECORD_HEADER_LENGTH
        invariant
            position <= end,
            end == bytes@.len(),
            records_fit(bytes@, limit, at as int, length as int) == records_fit(
                bytes@,
                limit,
                position as int,
                remaining as int,
            ),
            overrun_start(bytes@, limit, at as int, length as int) == overrun_start(
                bytes@,
                limit,
                position as int,
                remaining as int,
            ),
        decreases end - position,
    {
        let body: u64 = read_le64(bytes, position + 1);
        let available: usize = end - position - RECORD_HEADER_LENGTH;
        if body > limit as u64 || body > available as u64 {
            return None;
        }
        if body > remaining || remaining - body < RECORD_HEADER_LENGTH as u64 {
            return Some(position);
        }
        remaining = remaining - body - RECORD_HEADER_LENGTH as u64;
        position = position + RECORD_HEADER_LENGTH + body as usize;
    }
    None
}

/// Finds the first record that runs over the end of the chunk whose body of `length` bytes starts
/// at `at`.
fn find_chunk_overrun(bytes: &[u8], limit: usize, at: usize, length: u64) -> (overrun: Option<
    usize,
>)
    requires
        at <= bytes@.len(),
    ensures
        overrun is None <==> chunk_is_sound(bytes@, limit, at as int, length as nat),
        overrun matches Some(start) ==> start == overrun_start(
            bytes@,
            limit,
            at + CHUNK_HEADER_LENGTH,
            le64_at(bytes@, at + 32) as int,
        ),
{
    if bytes.len() - at < CHUNK_HEADER_LENGTH || length < CHUNK_HEADER_LENGTH as u64 {
        return None;
    }
    if read_le32(bytes, at + 28) != 0 {
        return None;
    }
    let size: u64 = read_le64(bytes, at + 32);
    if size > length - CHUNK_HEADER_LENGTH as u64 {
        return None;
    }
    find_overrun(bytes, limit, at + CHUNK_HEADER_LENGTH, size)
}

/// The part of a file that is read, and whether a record that runs over the end of its chunk ends
/// it.
pub fn take_readable_part(bytes: &[u8], limit: usize) -> (part: (&[u8], bool))
    ensures
        part.0@ == readable_part(bytes@, limit),
        part.1 == is_broken_off(bytes@, limit),
        framing_is_sound(part.0@, limit),
{
    let end: usize = bytes.len();
    proof {
        readable_part_is_sound_start(bytes@, limit);
    }
    if end < MAGIC_LENGTH {
        return (bytes, false);
    }
    let mut position: usize = MAGIC_LENGTH;
    while end - position >= RECORD_HEADER_LENGTH && bytes[position] != FOOTER_OPCODE
        invariant
            MAGIC_LENGTH <= position <= end,
            end == bytes@.len(),
            readable_end(bytes@, limit, MAGIC_LENGTH as int) == readable_end(
                bytes@,
                limit,
                position as int,
            ),
            framing_is_sound(readable_part(bytes@, limit), limit),
        decreases end - position,
    {
        let body: u64 = read_le64(bytes, position + 1);
        let start: usize = position + RECORD_HEADER_LENGTH;
        if bytes[position] == CHUNK_OPCODE {
            if let Some(overrun) = find_chunk_overrun(bytes, limit, start, body) {
                proof {
                    readable_part_is_sound(bytes@, limit, position as int);
                }
                return (vstd::slice::slice_subrange(bytes, 0, overrun), true);
            }
        }
        if body > (end - start) as u64 {
            return (vstd::slice::slice_subrange(bytes, 0, end), false);
        }
        let next: usize = start + body as usize;
        if bytes[position] == DATA_END_OPCODE {
            return (vstd::slice::slice_subrange(bytes, 0, next), false);
        }
        position = next;
    }
    (vstd::slice::slice_subrange(bytes, 0, end), false)
}

/// The length to give a chunk in place of its own, where its body of `length` bytes starts at `at`
/// and its own leaves more than `limit` bytes behind its records: one that leaves `limit`. `None`
/// where the chunk keeps its length: where it leaves no more than that, or more than the machine
/// can count, or where the file would not end inside the chunk with the new length.
pub open spec fn bounded_chunk_length(
    bytes: Seq<u8>,
    limit: usize,
    at: int,
    length: nat,
) -> Option<u64> {
    let header = CHUNK_HEADER_LENGTH + le32_at(bytes, at + 28);
    let records = header + le64_at(bytes, at + header - 8);
    if at + CHUNK_HEADER_LENGTH <= bytes.len() && at + header <= bytes.len() && limit < length
        - records <= usize::MAX && at + records + limit > bytes.len() {
        Some((records + limit) as u64)
    } else {
        None
    }
}

/// Where the first chunk that does not keep its length starts, among the records from `at` on.
pub open spec fn overlong_chunk(bytes: Seq<u8>, limit: usize, at: int) -> Option<int>
    decreases bytes.len() - at,
{
    if at < 0 || at + RECORD_HEADER_LENGTH > bytes.len() || bytes[at] == FOOTER_OPCODE || bytes[at]
        == DATA_END_OPCODE {
        None
    } else {
        let body = le64_at(bytes, at + 1);
        let start = at + RECORD_HEADER_LENGTH;
        if bytes[at] == CHUNK_OPCODE && bounded_chunk_length(bytes, limit, start, body) is Some {
            Some(at)
        } else if start + body <= bytes.len() {
            overlong_chunk(bytes, limit, start + body)
        } else {
            None
        }
    }
}

/// The file with the length of its last chunk bounded, where that is longer than can be read.
pub open spec fn bounded_file(bytes: Seq<u8>, limit: usize) -> Seq<u8> {
    match overlong_chunk(bytes, limit, MAGIC_LENGTH as int) {
        Some(at) => with_le64(
            bytes,
            at + 1,
            bounded_chunk_length(
                bytes,
                limit,
                at + RECORD_HEADER_LENGTH,
                le64_at(bytes, at + 1),
            )->0,
        ),
        None => bytes,
    }
}

/// A chunk that does not keep its length is a chunk of the file.
proof fn overlong_chunk_is_chunk(bytes: Seq<u8>, limit: usize, at: int)
    requires
        0 <= at,
    ensures
        overlong_chunk(bytes, limit, at) matches Some(chunk) ==> {
            let start = chunk + RECORD_HEADER_LENGTH;
            &&& at <= chunk
            &&& start <= bytes.len()
            &&& bytes[chunk] == CHUNK_OPCODE
            &&& bounded_chunk_length(bytes, limit, start, le64_at(bytes, chunk + 1)) is Some
        },
    decreases bytes.len() - at,
{
    if at + RECORD_HEADER_LENGTH <= bytes.len() {
        let next = at + RECORD_HEADER_LENGTH + le64_at(bytes, at + 1);
        if next <= bytes.len() {
            overlong_chunk_is_chunk(bytes, limit, next);
        }
    }
}

/// Bounding changes nothing but the length of one chunk. The file ends inside that chunk before and
/// after, and behind its records `limit` bytes are left in place of more.
pub proof fn bounding_changes_one_length(bytes: Seq<u8>, limit: usize)
    ensures
        ({
            let bounded = bounded_file(bytes, limit);
            match overlong_chunk(bytes, limit, MAGIC_LENGTH as int) {
                Some(at) => {
                    let start = at + RECORD_HEADER_LENGTH;
                    let header = CHUNK_HEADER_LENGTH + le32_at(bytes, start + 28);
                    let records = header + le64_at(bytes, start + header - 8);
                    &&& bounded.len() == bytes.len()
                    &&& forall|i: int|
                        0 <= i <= at || start <= i < bytes.len() ==> #[trigger] bounded[i]
                            == bytes[i]
                    &&& bytes[at] == CHUNK_OPCODE
                    &&& le64_at(bounded, at + 1) == records + limit
                    &&& bytes.len() < start + records + limit < start + le64_at(bytes, at + 1)
                },
                None => bounded == bytes,
            }
        }),
{
    overlong_chunk_is_chunk(bytes, limit, MAGIC_LENGTH as int);
    if let Some(at) = overlong_chunk(bytes, limit, MAGIC_LENGTH as int) {
        let start = at + RECORD_HEADER_LENGTH;
        let length = bounded_chunk_length(bytes, limit, start, le64_at(bytes, at + 1))->0;
        written_number_is_read_back(bytes, at + 1, length);
    }
}

/// Finds the length to give a chunk in place of its own, where its body of `length` bytes starts
/// at `at`.
fn find_bounded_length(bytes: &[u8], limit: usize, at: usize, length: u64) -> (bounded: Option<u64>)
    requires
        at <= bytes@.len(),
    ensures
        bounded == bounded_chunk_length(bytes@, limit, at as int, length as nat),
{
    let available: usize = bytes.len() - at;
    if available < CHUNK_HEADER_LENGTH {
        return None;
    }
    let name: u32 = read_le32(bytes, at + 28);
    if name as u64 > (available - CHUNK_HEADER_LENGTH) as u64 {
        return None;
    }
    let header: usize = CHUNK_HEADER_LENGTH + name as usize;
    let data: u64 = read_le64(bytes, at + header - 8);
    if header as u64 > length || data > length - header as u64 {
        return None;
    }
    let padding: u64 = length - header as u64 - data;
    if padding <= limit as u64 || padding > usize::MAX as u64 {
        return None;
    }
    let bounded: u64 = header as u64 + data + limit as u64;
    if bounded > available as u64 {
        Some(bounded)
    } else {
        None
    }
}

/// Bounds the length of the chunk that does not keep it; `None` where there is no such chunk.
pub fn bound_chunk_length(bytes: &[u8], limit: usize) -> (bounded: Option<Vec<u8>>)
    ensures
        match bounded {
            Some(bounded) => bounded@ == bounded_file(bytes@, limit) && overlong_chunk(
                bytes@,
                limit,
                MAGIC_LENGTH as int,
            ) is Some,
            None => bytes@ == bounded_file(bytes@, limit) && overlong_chunk(
                bytes@,
                limit,
                MAGIC_LENGTH as int,
            ) is None,
        },
{
    let end: usize = bytes.len();
    if end < MAGIC_LENGTH {
        return None;
    }
    let mut position: usize = MAGIC_LENGTH;
    while end - position >= RECORD_HEADER_LENGTH && bytes[position] != FOOTER_OPCODE
        && bytes[position] != DATA_END_OPCODE
        invariant
            MAGIC_LENGTH <= position <= end,
            end == bytes@.len(),
            overlong_chunk(bytes@, limit, MAGIC_LENGTH as int) == overlong_chunk(
                bytes@,
                limit,
                position as int,
            ),
        decreases end - position,
    {
        let body: u64 = read_le64(bytes, position + 1);
        let start: usize = position + RECORD_HEADER_LENGTH;
        if bytes[position] == CHUNK_OPCODE {
            if let Some(length) = find_bounded_length(bytes, limit, start, body) {
                let mut bounded: Vec<u8> = vstd::slice::slice_to_vec(bytes);
                write_le64(&mut bounded, position + 1, length);
                return Some(bounded);
            }
        }
        if body > (end - start) as u64 {
            return None;
        }
        position = start + body as usize;
    }
    None
}

/// Bytes from the start of an attachment body to its data, given the body: two timestamps, a
/// name, a media type and the data length. `None` where the body ends before its data.
pub open spec fn attachment_data_start(body: Seq<u8>) -> Option<nat> {
    if body.len() < 20 {
        None
    } else {
        let name_end = 20 + le32_at(body, 16);
        if name_end + 4 > body.len() {
            None
        } else {
            let start = name_end + 4 + le32_at(body, name_end as int) + 8;
            if start > body.len() {
                None
            } else {
                Some(start as nat)
            }
        }
    }
}

/// Whether a record is no attachment, or one that has room for the checksum behind its data.
pub open spec fn attachment_is_whole(record: (u8, Seq<u8>)) -> bool {
    record.0 == ATTACHMENT_OPCODE ==> match attachment_data_start(record.1) {
        Some(start) => start + 4 <= record.1.len(),
        None => true,
    }
}

/// Whether a record is no attachment, or one that has room for the checksum behind its data.
pub fn check_attachment(opcode: u8, body: &[u8]) -> (whole: bool)
    ensures
        whole == attachment_is_whole((opcode, body@)),
{
    if opcode != ATTACHMENT_OPCODE {
        return true;
    }
    let end: usize = body.len();
    if end < 20 {
        return true;
    }
    let name: u32 = read_le32(body, 16);
    if name as u64 > (end - 20) as u64 || end - 20 - (name as usize) < 4 {
        return true;
    }
    let media_at: usize = 20 + name as usize;
    let media: u32 = read_le32(body, media_at);
    let rest: usize = end - media_at - 4;
    if media as u64 > rest as u64 || rest - (media as usize) < 8 {
        return true;
    }
    rest - (media as usize) - 8 >= 4
}

/// An attachment is not whole exactly if it reaches up to its data, which comes behind two
/// timestamps, a name and a media type with their lengths and its own length, but not to the end of
/// the four bytes of a checksum behind them. Any other record is whole.
pub proof fn attachments_need_room_for_a_checksum(opcode: u8, body: Seq<u8>)
    ensures
        opcode != 9 ==> attachment_is_whole((opcode, body)),
        body.len() < 20 ==> attachment_is_whole((opcode, body)),
        opcode == 9 && body.len() >= 20 ==> {
            let name = le32_at(body, 16) as int;
            let media = le32_at(body, 20 + name);
            let data = 20 + name + 4 + media + 8;
            &&& body.len() < 24 + name ==> attachment_is_whole((opcode, body))
            &&& body.len() >= 24 + name ==> (attachment_is_whole((opcode, body)) <==> !(data
                <= body.len() < data + 4))
        },
{
}

/// A file is walked from record to record, each with an opcode and eight bytes of length in front of
/// its body, from behind eight bytes on. The walk ends at the footer and where a record is cut off;
/// then the whole file is read. It ends behind the record that ends the data; then the file is
/// read up to there. It ends at a chunk that is not sound; then the file is read up to the first
/// record that runs over the end of the chunk.
pub proof fn files_are_walked_record_by_record(bytes: Seq<u8>, limit: usize, at: int)
    requires
        0 <= at,
    ensures
        readable_part(bytes, limit) == bytes.take(readable_end(bytes, limit, 8).0),
        is_broken_off(bytes, limit) == readable_end(bytes, limit, 8).1,
        framing_is_sound(bytes, limit) == records_are_sound(bytes, limit, 8),
        ({
            let end = readable_end(bytes, limit, at);
            let sound = records_are_sound(bytes, limit, at);
            let body = le64_at(bytes, at + 1);
            let next = at + 9 + body;
            if at + 9 > bytes.len() || bytes[at] == 2 {
                end == (bytes.len() as int, false) && sound
            } else if bytes[at] == 6 && !chunk_is_sound(bytes, limit, at + 9, body) {
                &&& end == (
                    overrun_start(bytes, limit, at + 49, le64_at(bytes, at + 41) as int),
                    true,
                )
                &&& !sound
            } else if next > bytes.len() {
                end == (bytes.len() as int, false) && sound
            } else {
                &&& bytes[at] == 15 ==> end == (next, false)
                &&& bytes[at] != 15 ==> end == readable_end(bytes, limit, next)
                &&& sound == records_are_sound(bytes, limit, next)
            }
        }),
{
}

/// The records of an uncompressed chunk are walked as well, up to the size that its header gives. A
/// chunk is not sound exactly if one of them that can be read runs over that size; that one is
/// where it overruns.
pub proof fn chunks_are_walked_record_by_record(bytes: Seq<u8>, limit: usize, at: int, length: int)
    requires
        0 <= at,
        0 <= length,
    ensures
        ({
            let body = le64_at(bytes, at + 1);
            let next = at + 9 + body;
            let is_left = length > 0 && at + 9 <= bytes.len() && body <= limit && next
                <= bytes.len();
            &&& !is_left ==> records_fit(bytes, limit, at, length)
            &&& is_left && 9 + body > length ==> !records_fit(bytes, limit, at, length)
                && overrun_start(bytes, limit, at, length) == at
            &&& is_left && 9 + body <= length ==> {
                &&& records_fit(bytes, limit, at, length) == records_fit(
                    bytes,
                    limit,
                    next,
                    length - 9 - body,
                )
                &&& overrun_start(bytes, limit, at, length) == overrun_start(
                    bytes,
                    limit,
                    next,
                    length - 9 - body,
                )
            }
        }),
        at + 40 <= bytes.len() && 40 <= length ==> {
            let size = le64_at(bytes, at + 32);
            let is_plain = bytes[at + 28] == 0 && bytes[at + 29] == 0 && bytes[at + 30] == 0
                && bytes[at + 31] == 0;
            chunk_is_sound(bytes, limit, at, length as nat) <==> !is_plain || size > length - 40
                || records_fit(bytes, limit, at + 40, size as int)
        },
        at + 40 > bytes.len() || length < 40 ==> chunk_is_sound(bytes, limit, at, length as nat),
{
}

/// Whether a chunk, whose body starts at `start`, claims to leave more than `limit` bytes behind its
/// records, though no more than the machine can count, and the file ends within as many bytes
/// behind them.
pub open spec fn claims_too_much(bytes: Seq<u8>, limit: usize, start: int, body: nat) -> bool {
    let header = 40 + le32_at(bytes, start + 28) as int;
    let records = header + le64_at(bytes, start + header - 8);
    &&& start + 40 <= bytes.len()
    &&& start + header <= bytes.len()
    &&& body - records > limit
    &&& body - records <= usize::MAX
    &&& bytes.len() < start + records + limit
}

/// The first chunk that claims too much is found by walking the file up to the record that ends its
/// data, and is given a length that leaves `limit` bytes behind its records.
pub proof fn chunks_that_claim_too_much_are_bounded(bytes: Seq<u8>, limit: usize, at: int)
    requires
        0 <= at,
    ensures
        bounded_file(bytes, limit).len() == bytes.len() || overlong_chunk(bytes, limit, 8) is Some,
        overlong_chunk(bytes, limit, 8) is None ==> bounded_file(bytes, limit) == bytes,
        ({
            let body = le64_at(bytes, at + 1);
            let start = at + 9;
            let found = overlong_chunk(bytes, limit, at);
            if start > bytes.len() || bytes[at] == 2 || bytes[at] == 15 {
                found is None
            } else if bytes[at] == 6 && claims_too_much(bytes, limit, start, body) {
                let header = 40 + le32_at(bytes, start + 28) as int;
                let records = header + le64_at(bytes, start + header - 8);
                &&& found == Some(at)
                &&& bounded_chunk_length(bytes, limit, start, body) == Some(
                    (records + limit) as u64,
                )
            } else if start + body > bytes.len() {
                found is None
            } else {
                found == overlong_chunk(bytes, limit, start + body)
            }
        }),
{
}

} // verus!
