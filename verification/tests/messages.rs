use localization_mcap_visualizer::framing::{
    bound_chunk_length, check_attachment, take_readable_part,
};
use localization_mcap_visualizer::messages::{read_messages, LARGEST_RECORD};
use std::collections::BTreeMap;
use std::io::Cursor;

const MAGIC: [u8; 8] = [0x89, b'M', b'C', b'A', b'P', 0x30, b'\r', b'\n'];

fn write_file(options: mcap::WriteOptions) -> Vec<u8> {
    let mut writer = mcap::Writer::with_options(Cursor::new(Vec::new()), options)
        .expect("the writer should open");
    let imu = writer
        .add_channel(0, "inputs/imu_state", "cdr", &BTreeMap::new())
        .expect("the channel should be added");
    let other = writer
        .add_channel(0, "other", "cdr", &BTreeMap::new())
        .expect("the channel should be added");
    let headers = [(imu, 3, 20, 15), (other, 9, 5, 6), (imu, 4, 30, 25)];
    for (channel_id, sequence, log_time, publish_time) in headers {
        writer
            .write_to_known_channel(
                &mcap::records::MessageHeader { channel_id, sequence, log_time, publish_time },
                &[sequence as u8, 0xAB],
            )
            .expect("the message should be written");
    }
    writer.finish().expect("the file should be finished");
    writer.into_inner().into_inner()
}

fn uncompressed() -> mcap::WriteOptions {
    mcap::WriteOptions::new().compression(None)
}

fn record(opcode: u8, body: &[u8]) -> Vec<u8> {
    let mut bytes = vec![opcode];
    bytes.extend_from_slice(&(body.len() as u64).to_le_bytes());
    bytes.extend_from_slice(body);
    bytes
}

fn attachment_body(checksum: &[u8]) -> Vec<u8> {
    let mut body = vec![0; 16];
    body.extend_from_slice(&1u32.to_le_bytes());
    body.push(b'a');
    body.extend_from_slice(&1u32.to_le_bytes());
    body.push(b'b');
    body.extend_from_slice(&0u64.to_le_bytes());
    body.extend_from_slice(checksum);
    body
}

fn chunk_body(size: u64, records: &[u8]) -> Vec<u8> {
    compressed_chunk_body("", size, size, records)
}

fn compressed_chunk_body(
    compression: &str,
    uncompressed_size: u64,
    compressed_size: u64,
    data: &[u8],
) -> Vec<u8> {
    let mut body = vec![0; 16];
    body.extend_from_slice(&uncompressed_size.to_le_bytes());
    body.extend_from_slice(&0u32.to_le_bytes());
    body.extend_from_slice(&(compression.len() as u32).to_le_bytes());
    body.extend_from_slice(compression.as_bytes());
    body.extend_from_slice(&compressed_size.to_le_bytes());
    body.extend_from_slice(data);
    body
}

/// An lz4 frame with each of the blocks stored as it is.
fn lz4_frame(blocks: &[&[u8]]) -> Vec<u8> {
    let mut frame = vec![0x04, 0x22, 0x4D, 0x18, 0x60, 0x40, 0x82];
    for block in blocks {
        frame.extend_from_slice(&(block.len() as u32 | 0x8000_0000).to_le_bytes());
        frame.extend_from_slice(block);
    }
    frame.extend_from_slice(&[0; 4]);
    frame
}

/// A zstd frame with each of the blocks stored as it is.
fn zstd_frame(blocks: &[&[u8]]) -> Vec<u8> {
    let mut frame = vec![0x28, 0xB5, 0x2F, 0xFD, 0x00, 0x58];
    for (place, block) in blocks.iter().enumerate() {
        let is_last = (place + 1 == blocks.len()) as u32;
        frame.extend_from_slice(&((block.len() as u32) << 3 | is_last).to_le_bytes()[..3]);
        frame.extend_from_slice(block);
    }
    frame
}

/// A file with one chunk that holds the given records, each in a block of its own.
fn file_with_chunk(compression: &str, records: &[&[u8]]) -> Vec<u8> {
    let frame = if compression == "lz4" { lz4_frame(records) } else { zstd_frame(records) };
    let size = records.iter().map(|record| record.len() as u64).sum();
    let mut bytes = MAGIC.to_vec();
    bytes.extend_from_slice(&record(
        0x06,
        &compressed_chunk_body(compression, size, frame.len() as u64, &frame),
    ));
    bytes.extend_from_slice(&record(0x0F, &[0; 4]));
    bytes
}

fn text(text: &str) -> Vec<u8> {
    let mut bytes = (text.len() as u32).to_le_bytes().to_vec();
    bytes.extend_from_slice(text.as_bytes());
    bytes
}

/// The record of a channel without schema.
fn channel_record(id: u16, topic: &str) -> Vec<u8> {
    let mut body = id.to_le_bytes().to_vec();
    body.extend_from_slice(&0u16.to_le_bytes());
    body.extend_from_slice(&text(topic));
    body.extend_from_slice(&text("cdr"));
    body.extend_from_slice(&0u32.to_le_bytes());
    record(0x04, &body)
}

fn message_record(channel_id: u16, sequence: u32) -> Vec<u8> {
    let mut body = channel_id.to_le_bytes().to_vec();
    body.extend_from_slice(&sequence.to_le_bytes());
    body.extend_from_slice(&[0; 16]);
    body.push(0xAB);
    record(0x05, &body)
}

/// What the `mcap` crate makes of a file without its closing magic number: sequence numbers, and
/// whether it ends with an error.
fn streamed(bytes: &[u8]) -> (Vec<u32>, bool) {
    let stream =
        mcap::MessageStream::new_with_options(bytes, mcap::read::Options::IgnoreEndMagic.into())
            .expect("the stream should open");
    let mut sequences = vec![];
    for message in stream {
        match message {
            Ok(message) => sequences.push(message.sequence),
            Err(_) => return (sequences, true),
        }
    }
    (sequences, false)
}

/// What the library makes of a file.
fn read(bytes: &[u8]) -> (Vec<u32>, bool) {
    let log = read_messages(bytes);
    (log.messages.iter().map(|message| message.sequence).collect(), log.damaged)
}

#[test]
fn messages_come_in_the_order_of_the_file() {
    for options in [
        mcap::WriteOptions::new(),
        uncompressed(),
        uncompressed().use_chunks(false),
    ] {
        let log = read_messages(&write_file(options));

        assert!(!log.damaged);
        assert_eq!(log.messages.len(), 3);
        let topics: Vec<&str> =
            log.messages.iter().map(|message| message.topic.as_str()).collect();
        assert_eq!(topics, vec!["inputs/imu_state", "other", "inputs/imu_state"]);
        assert_eq!(log.messages[0].sequence, 3);
        assert_eq!(log.messages[0].log_time, 20);
        assert_eq!(log.messages[0].publish_time, 15);
        assert_eq!(log.messages[0].data, vec![3, 0xAB]);
        assert_eq!(log.messages[1].sequence, 9);
        assert_eq!(log.messages[1].log_time, 5);
        assert_eq!(log.messages[1].publish_time, 6);
        assert_eq!(log.messages[2].data, vec![4, 0xAB]);
    }
}

#[test]
fn a_file_without_its_end_is_read_up_to_the_damage() {
    let whole = write_file(uncompressed().use_chunks(false));
    let log = read_messages(&whole);
    let last = up_to(&whole, [4, 0xAB]).len();

    let cut = read_messages(&whole[..last - 2]);

    assert_eq!(log.messages.len(), 3);
    assert_eq!(cut.messages.len(), 2);
    assert_eq!(cut.messages[1].topic, "other");
    assert!(cut.damaged);
}

#[test]
fn a_file_with_another_magic_number_is_damaged() {
    let mut bytes = write_file(uncompressed());
    bytes[1] = b'X';

    let log = read_messages(&bytes);

    assert!(log.damaged);
    assert!(log.messages.is_empty());
}

#[test]
fn an_empty_file_holds_no_messages() {
    let log = read_messages(&[]);

    assert!(log.messages.is_empty());
}

#[test]
fn a_missing_closing_magic_number_does_no_harm() {
    let bytes = write_file(uncompressed());

    let log = read_messages(&bytes[..bytes.len() - 8]);

    assert!(!log.damaged);
    assert_eq!(log.messages.len(), 3);
}

/// The file up to the end of the message with the given payload.
fn up_to(bytes: &[u8], payload: [u8; 2]) -> Vec<u8> {
    let place = bytes
        .windows(2)
        .position(|window| window == payload)
        .expect("the message should be in the file");
    bytes[..place + 2].to_vec()
}

#[test]
fn a_record_that_overruns_its_chunk_ends_the_reading() {
    let mut bytes = up_to(&write_file(uncompressed().use_chunks(false)), [9, 0xAB]);
    let front = bytes.len();
    let inner = [channel_record(7, "inner"), message_record(7, 21), message_record(7, 22)].concat();
    let fitting = inner.len() - message_record(7, 22).len();
    for missing in [1, 8, 9, 20] {
        bytes.truncate(front);
        let size = (inner.len() - missing) as u64;
        bytes.extend_from_slice(&record(0x06, &chunk_body(size, &inner)));
        bytes.extend_from_slice(&message_record(7, 23));
        let end = front + 9 + 40 + fitting;

        assert_eq!(take_readable_part(&bytes, LARGEST_RECORD), (&bytes[..end], true));
        assert_eq!(read(&bytes), (vec![3, 9, 21], true));
    }
}

#[test]
fn a_chunk_longer_than_any_file_is_read_up_to_the_end_of_the_file() {
    let records = [channel_record(1, "a"), message_record(1, 1), message_record(1, 2)];
    let slices: Vec<&[u8]> = records.iter().map(Vec::as_slice).collect();
    let mut plain = MAGIC.to_vec();
    let size = records.concat().len() as u64;
    plain.extend_from_slice(&record(0x06, &chunk_body(size, &records.concat())));
    plain.extend_from_slice(&record(0x0F, &[0; 4]));
    for file in [plain, file_with_chunk("lz4", &slices), file_with_chunk("zstd", &slices)] {
        assert_eq!(bound_chunk_length(&file, LARGEST_RECORD), None);
        for length in [u64::MAX, 1 << 63, 1 << 62] {
            let mut bytes = file.clone();
            bytes[9..17].copy_from_slice(&length.to_le_bytes());

            assert_eq!(read(&bytes), (vec![1, 2], true));
            assert_eq!(streamed(&bytes), (vec![1, 2], true));
            let bounded = bound_chunk_length(&bytes, LARGEST_RECORD);
            assert_eq!(bounded.is_some(), length > LARGEST_RECORD as u64 + 1_000);
            if let Some(bounded) = bounded {
                assert_eq!(bounded[..9], bytes[..9]);
                assert_eq!(bounded[17..], bytes[17..]);
            }
        }
    }
}

#[test]
fn a_bounded_chunk_leaves_the_limit_behind_its_records() {
    let inner = record(0x7F, &[1, 2, 3]);
    let mut bytes = MAGIC.to_vec();
    bytes.extend_from_slice(&record(0x06, &chunk_body(inner.len() as u64, &inner)));
    bytes[9..17].copy_from_slice(&u64::MAX.to_le_bytes());

    let bounded = bound_chunk_length(&bytes, 1_000_000).expect("the chunk is too long");

    assert_eq!(bounded[9..17], (40 + 12 + 1_000_000u64).to_le_bytes());
    assert_eq!(bound_chunk_length(&bytes, 0), None);
    assert_eq!(bound_chunk_length(&bounded, 1_000_000), None);
}

#[test]
fn a_record_that_overruns_a_chunk_longer_than_any_file_ends_the_reading() {
    let inner = [channel_record(1, "a"), message_record(1, 1), message_record(1, 2)].concat();
    let mut bytes = MAGIC.to_vec();
    bytes.extend_from_slice(&record(0x06, &chunk_body(inner.len() as u64 - 1, &inner)));
    bytes[9..17].copy_from_slice(&u64::MAX.to_le_bytes());

    assert_eq!(read(&bytes), (vec![1], true));
}

#[test]
fn damage_in_front_of_an_overrun_chunk_ends_the_reading_first() {
    let inner = record(0x7F, &[1, 2, 3]);
    let mut bytes = up_to(&write_file(uncompressed().use_chunks(false)), [3, 0xAB]);
    bytes.extend_from_slice(&record(0x05, &[0]));
    bytes.extend_from_slice(&record(0x06, &chunk_body(inner.len() as u64 - 1, &inner)));

    let log = read_messages(&bytes);

    assert!(log.damaged);
    assert_eq!(log.messages.len(), 1);
}

#[test]
fn a_chunk_whose_records_fit_is_read() {
    let inner = record(0x7F, &[1, 2, 3]);
    let mut bytes = MAGIC.to_vec();
    bytes.extend_from_slice(&record(0x06, &chunk_body(inner.len() as u64, &inner)));

    assert_eq!(take_readable_part(&bytes, LARGEST_RECORD), (&bytes[..], false));
    assert!(!read_messages(&bytes).damaged);
}

#[test]
fn an_attachment_without_room_for_its_checksum_ends_the_reading() {
    let short = attachment_body(&[0, 0]);
    let whole = write_file(uncompressed().use_chunks(false));
    let front = up_to(&whole, [9, 0xAB]).len();
    let mut bytes = whole[..front].to_vec();
    bytes.extend_from_slice(&record(0x09, &short));
    bytes.extend_from_slice(&whole[front..]);

    assert!(!check_attachment(0x09, &short));
    assert!(check_attachment(0x08, &short));
    let log = read_messages(&bytes);
    assert!(log.damaged);
    assert_eq!(log.messages.len(), 2);
    assert_eq!(log.messages[1].sequence, 9);
}

#[test]
fn damage_in_front_of_a_short_attachment_ends_the_reading_first() {
    let mut bytes = up_to(&write_file(uncompressed().use_chunks(false)), [3, 0xAB]);
    bytes.extend_from_slice(&record(0x05, &[0]));
    bytes.extend_from_slice(&record(0x09, &attachment_body(&[0, 0])));

    let log = read_messages(&bytes);

    assert!(log.damaged);
    assert_eq!(log.messages.len(), 1);
}

#[test]
fn an_attachment_with_its_checksum_is_read() {
    let attachment = attachment_body(&[0, 0, 0, 0]);
    let whole = write_file(uncompressed().use_chunks(false));
    let front = up_to(&whole, [9, 0xAB]).len();
    let mut bytes = whole[..front].to_vec();
    bytes.extend_from_slice(&record(0x09, &attachment));
    bytes.extend_from_slice(&whole[front..]);

    assert!(check_attachment(0x09, &attachment));
    let log = read_messages(&bytes);
    assert!(!log.damaged);
    assert_eq!(log.messages.len(), 3);
}

#[test]
fn a_record_beyond_the_limit_ends_the_reading() {
    let mut bytes = up_to(&write_file(uncompressed().use_chunks(false)), [9, 0xAB]);
    bytes.push(0x05);
    bytes.extend_from_slice(&u64::MAX.to_le_bytes());

    let log = read_messages(&bytes);

    assert!(log.damaged);
    assert_eq!(log.messages.len(), 2);
}

#[test]
fn a_record_beyond_the_limit_inside_a_chunk_ends_the_reading() {
    let mut overlong = message_record(1, 2);
    overlong[1..9].copy_from_slice(&u64::MAX.to_le_bytes());

    for compression in ["lz4", "zstd"] {
        let bytes = file_with_chunk(
            compression,
            &[&channel_record(1, "a"), &message_record(1, 1), &overlong],
        );

        assert_eq!(read(&bytes), (vec![1], true));
    }
}

#[test]
fn a_file_cut_off_at_any_byte_is_read_up_to_the_cut() {
    for options in [
        mcap::WriteOptions::new().compression(Some(mcap::Compression::Lz4)),
        mcap::WriteOptions::new().compression(Some(mcap::Compression::Zstd)),
        mcap::WriteOptions::new().compression(Some(mcap::Compression::Zstd)).chunk_size(Some(1)),
        uncompressed(),
        uncompressed().use_chunks(false),
    ] {
        let bytes = write_file(options);

        assert_eq!(read(&bytes), (vec![3, 9, 4], false));
        for end in 0..bytes.len() {
            assert_eq!(read(&bytes[..end]), streamed(&bytes[..end]), "cut off at {end}");
        }
    }
}

#[test]
fn a_chunk_of_several_blocks_cut_off_at_any_byte_is_read_up_to_the_cut() {
    for compression in ["lz4", "zstd"] {
        let bytes = file_with_chunk(
            compression,
            &[
                &channel_record(1, "a"),
                &message_record(1, 1),
                &message_record(1, 2),
                &message_record(1, 3),
            ],
        );

        assert_eq!(read(&bytes), (vec![1, 2, 3], false));
        for end in 0..bytes.len() {
            assert_eq!(read(&bytes[..end]), streamed(&bytes[..end]), "cut off at {end}");
        }
    }
}

#[test]
fn a_short_attachment_in_a_compressed_chunk_ends_the_reading() {
    let short = record(0x09, &attachment_body(&[0, 0]));

    for compression in ["lz4", "zstd"] {
        let bytes = file_with_chunk(
            compression,
            &[&channel_record(1, "a"), &message_record(1, 1), &short, &message_record(1, 2)],
        );

        assert_eq!(read(&bytes), (vec![1], true));
        for end in 0..bytes.len() {
            let (sequences, _) = read(&bytes[..end]);
            assert!(sequences.is_empty() || sequences == vec![1], "cut off at {end}");
        }
    }
}

#[test]
fn what_follows_the_data_end_is_not_read() {
    let inner = record(0x7F, &[1, 2, 3]);
    for behind in [
        record(0x06, &chunk_body(inner.len() as u64 - 1, &inner)),
        record(0x09, &attachment_body(&[0, 0])),
        message_record(1, 2),
        vec![0x05, 0xFF],
    ] {
        let mut bytes = MAGIC.to_vec();
        bytes.extend_from_slice(&channel_record(1, "a"));
        bytes.extend_from_slice(&message_record(1, 1));
        bytes.extend_from_slice(&record(0x0F, &[0; 4]));
        let end = bytes.len();
        bytes.extend_from_slice(&behind);

        assert_eq!(take_readable_part(&bytes, LARGEST_RECORD), (&bytes[..end], false));
        assert_eq!(read(&bytes), (vec![1], false));
    }
}

#[test]
fn a_data_end_inside_a_chunk_does_not_end_the_data() {
    for (body, expected) in [(vec![0; 4], (vec![1, 2], false)), (vec![0; 2], (vec![1], true))] {
        for compression in ["lz4", "zstd"] {
            let bytes = file_with_chunk(
                compression,
                &[
                    &channel_record(1, "a"),
                    &message_record(1, 1),
                    &record(0x0F, &body),
                    &message_record(1, 2),
                ],
            );

            assert_eq!(read(&bytes), expected);
            assert_eq!(streamed(&bytes), expected);
        }
    }
}

#[test]
fn a_message_without_its_channel_ends_the_reading() {
    let mut bytes = MAGIC.to_vec();
    bytes.extend_from_slice(&channel_record(1, "a"));
    bytes.extend_from_slice(&message_record(1, 1));
    bytes.extend_from_slice(&message_record(2, 2));

    assert_eq!(read(&bytes), (vec![1], true));
}

#[test]
fn a_channel_that_changes_ends_the_reading() {
    let mut bytes = MAGIC.to_vec();
    bytes.extend_from_slice(&channel_record(1, "a"));
    bytes.extend_from_slice(&message_record(1, 1));
    bytes.extend_from_slice(&channel_record(1, "a"));
    bytes.extend_from_slice(&message_record(1, 2));
    bytes.extend_from_slice(&channel_record(1, "b"));
    bytes.extend_from_slice(&message_record(1, 3));

    assert_eq!(read(&bytes), (vec![1, 2], true));
}
