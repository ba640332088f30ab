//! Reading the messages of a recording file.
//!
//! The `mcap` crate reads the file. Damage ends the reading and keeps what was read. Two kinds of
//! damage the crate cannot cope with: records that run over the end of their chunk, and
//! attachments too short for their checksum. The first is found by walking the file, which is then
//! read only up to there. The second is found by a reader of single records, which is given the
//! file in the same pieces as the reader of messages and goes ahead of it. That reader has a limit
//! on lengths, so a chunk that claims to be longer than any file is given a length within the
//! limit, with which the file still ends inside it.

use crate::framing::{
    attachment_is_whole, bound_chunk_length, bounded_file, check_attachment, framing_is_sound,
    is_broken_off, readable_part, take_readable_part, MESSAGE_OPCODE,
};
use vstd::prelude::*;

verus! {

/// Longest record that is read from a file, in bytes. With its header it is as long as memory
/// can be in one piece.
pub const LARGEST_RECORD: usize = usize::MAX / 2 - 16;

/// A message as it was recorded.
#[derive(Debug)]
pub struct RecordedMessage {
    pub topic: String,
    pub sequence: u32,
    /// Nanoseconds since the epoch at which the message was recorded.
    pub log_time: u64,
    /// Nanoseconds since the epoch at which the message was published.
    pub publish_time: u64,
    pub data: Vec<u8>,
}

/// The contents of a recorded message.
pub struct MessageView {
    pub topic: Seq<char>,
    pub sequence: u32,
    pub log_time: u64,
    pub publish_time: u64,
    pub data: Seq<u8>,
}

impl View for RecordedMessage {
    type V = MessageView;

    open spec fn view(&self) -> MessageView {
        MessageView {
            topic: self.topic@,
            sequence: self.sequence,
            log_time: self.log_time,
            publish_time: self.publish_time,
            data: self.data@,
        }
    }
}

/// The contents of recorded messages.
pub open spec fn message_views(messages: Seq<RecordedMessage>) -> Seq<MessageView> {
    messages.map_values(|message: RecordedMessage| message@)
}

/// The error type of the `mcap` crate.
#[verifier::external_type_specification]
#[verifier::external_body]
pub struct ExMcapError(mcap::McapError);

/// The `mcap` crate's reader of single records.
#[verifier::external_type_specification]
#[verifier::external_body]
pub struct ExLinearReader(mcap::sans_io::LinearReader);

/// The `mcap` crate's reader of the messages of a file held in memory.
#[verifier::external_type_specification]
#[verifier::external_body]
pub struct ExMessageStream<'a>(mcap::MessageStream<'a>);

/// The `mcap` crate's message with its channel.
#[verifier::external_type_specification]
#[verifier::external_body]
pub struct ExMessage<'a>(mcap::Message<'a>);

/// What comes of reading single records to the end.
pub struct Reading {
    /// The records, opcode and body, with those inside chunks in the place of their chunk.
    pub records: Seq<(u8, Seq<u8>)>,
    /// Whether the reading ends with an error.
    pub fails: bool,
    /// Whether no record that is read runs over the end of its uncompressed chunk.
    pub fits: bool,
}

/// What comes of reading a file with records up to `limit` bytes, each request of the reader being
/// answered with as many bytes as it asks for, or as there are.
pub uninterp spec fn file_reading(bytes: Seq<u8>, limit: usize) -> Reading;

/// What comes of reading on, when each request of the reader is answered with as many of the first
/// bytes of `rest` as it asks for, or as there are.
pub uninterp spec fn reading(reader: mcap::sans_io::LinearReader, rest: Seq<u8>) -> Reading;

/// What comes of reading on, when first a request for `need` bytes is answered in that way.
pub uninterp spec fn reading_answered(
    reader: mcap::sans_io::LinearReader,
    need: usize,
    rest: Seq<u8>,
) -> Reading;

/// Whether a reader has been told that there are no more bytes.
pub uninterp spec fn is_told_the_end(reader: mcap::sans_io::LinearReader) -> bool;

/// The messages of a file, up to the end of its data or its first damage, and whether the reading
/// ends at the latter.
pub uninterp spec fn file_messages(bytes: Seq<u8>) -> (Seq<MessageView>, bool);

/// The messages that a reader has yet to hand out, and whether it ends with an error behind them.
pub uninterp spec fn messages_ahead(stream: mcap::MessageStream) -> (Seq<MessageView>, bool);

/// The number of message records that a reader has yet to read in front of what it must not come
/// upon: an attachment too short for its checksum, or an error of the record reader. `None` where
/// neither lies ahead.
pub uninterp spec fn whole_ahead(stream: mcap::MessageStream) -> Option<nat>;

/// One step of a record reader.
enum RecordStep {
    Record { opcode: u8, body: Vec<u8> },
    /// The reader needs more bytes, this many of them.
    Request(usize),
    Failed,
    Finished,
}

/// The number of messages among `records` in front of the first attachment too short for its
/// checksum, or in front of the error with which the records end; `None` where there is neither.
pub open spec fn messages_in_front(records: Seq<(u8, Seq<u8>)>, fails: bool) -> Option<nat>
    decreases records.len(),
{
    if records.len() == 0 {
        if fails {
            Some(0)
        } else {
            None
        }
    } else if !attachment_is_whole(records[0]) {
        Some(0)
    } else {
        match messages_in_front(records.drop_first(), fails) {
            Some(count) => Some(
                if records[0].0 == MESSAGE_OPCODE {
                    count + 1
                } else {
                    count
                },
            ),
            None => None,
        }
    }
}

/// Calls `mcap::sans_io::LinearReader::new_with_options` for files without their closing magic
/// number and with records up to `limit` bytes. Claims that the reader, which has no bytes yet,
/// reads any file to the end as such files are read, and that in a file whose chunks are sound no
/// record runs over the end of its chunk.
#[verifier::external_body]
fn open_records(limit: usize) -> (reader: mcap::sans_io::LinearReader)
    requires
        limit <= LARGEST_RECORD,
    ensures
        !is_told_the_end(reader),
        forall|bytes: Seq<u8>| #[trigger] reading(reader, bytes) == file_reading(bytes, limit),
        forall|bytes: Seq<u8>|
            framing_is_sound(bytes, limit) ==> (#[trigger] reading(reader, bytes)).fits,
{
    mcap::sans_io::LinearReader::new_with_options(
        mcap::sans_io::LinearReaderOptions::default()
            .with_skip_end_magic(true)
            .with_record_length_limit(limit),
    )
}

/// Calls `mcap::sans_io::LinearReader::next_event`, which must not come upon a record that runs
/// over the end of its uncompressed chunk. Claims that the records come out in order, that an
/// error or the end comes when none is left, and that a reader asks for at least one byte, and
/// for none once it has been told that there are no more.
#[verifier::external_body]
fn next_event(reader: &mut mcap::sans_io::LinearReader) -> (step: RecordStep)
    requires
        exists|rest: Seq<u8>| (#[trigger] reading(*old(reader), rest)).fits,
    ensures
        match step {
            RecordStep::Record { opcode, body } => {
                &&& is_told_the_end(*final(reader)) == is_told_the_end(*old(reader))
                &&& forall|rest: Seq<u8>|
                    {
                        let before = #[trigger] reading(*old(reader), rest);
                        let after = reading(*final(reader), rest);
                        &&& before.records.len() > 0
                        &&& before.records[0] == (opcode, body@)
                        &&& after.records == before.records.drop_first()
                        &&& after.fails == before.fails
                        &&& after.fits == before.fits
                    }
            },
            RecordStep::Request(need) => {
                &&& need > 0
                &&& !is_told_the_end(*old(reader))
                &&& !is_told_the_end(*final(reader))
                &&& forall|rest: Seq<u8>| #[trigger]
                    reading(*old(reader), rest) == reading_answered(*final(reader), need, rest)
            },
            RecordStep::Failed => forall|rest: Seq<u8>|
                {
                    let before = #[trigger] reading(*old(reader), rest);
                    before.records.len() == 0 && before.fails
                },
            RecordStep::Finished => forall|rest: Seq<u8>|
                {
                    let before = #[trigger] reading(*old(reader), rest);
                    before.records.len() == 0 && !before.fails
                },
        },
{
    match reader.next_event() {
        Some(Ok(mcap::sans_io::LinearReadEvent::Record { opcode, data })) => {
            RecordStep::Record { opcode, body: data.to_vec() }
        },
        Some(Ok(mcap::sans_io::LinearReadEvent::ReadRequest(need))) => RecordStep::Request(need),
        Some(Err(_)) => RecordStep::Failed,
        None => RecordStep::Finished,
    }
}

/// Calls `insert` and `notify_read` of `mcap::sans_io::LinearReader` to give a reader its next
/// bytes. Claims that this answers a request for that many bytes, or for more where the piece is
/// all that is left, and that an empty piece tells the reader that there are no more.
#[verifier::external_body]
fn give(reader: &mut mcap::sans_io::LinearReader, piece: &[u8])
    ensures
        is_told_the_end(*final(reader)) == (is_told_the_end(*old(reader)) || piece@.len() == 0),
        forall|need: usize, rest: Seq<u8>|
            piece@.len() == need || piece@.len() < need && rest.len() == 0 ==> reading(
                *final(reader),
                rest,
            ) == #[trigger] reading_answered(*old(reader), need, piece@ + rest),
{
    reader.insert(piece.len()).copy_from_slice(piece);
    reader.notify_read(piece.len());
}

/// Calls `mcap::MessageStream::new_with_options` on a file held in memory, without its closing
/// magic number. The call hands back its reader in every case. Claims that the reader has the
/// file's messages ahead, and that it reads the records of the file as a record reader does that
/// is given the file in pieces as long as it asks for, up to the data end.
#[verifier::external_body]
fn open_messages(bytes: &[u8]) -> (opened: Result<mcap::MessageStream, mcap::McapError>)
    requires
        framing_is_sound(bytes@, LARGEST_RECORD),
    ensures
        opened is Ok,
        messages_ahead(opened->Ok_0) == file_messages(bytes@),
        whole_ahead(opened->Ok_0) == messages_in_front(
            file_reading(bytes@, LARGEST_RECORD).records,
            file_reading(bytes@, LARGEST_RECORD).fails,
        ),
{
    mcap::MessageStream::new_with_options(bytes, mcap::read::Options::IgnoreEndMagic.into())
}

/// Calls `next` of `mcap::MessageStream`, which must come upon a message before an attachment too
/// short for its checksum or an error of the record reader, or upon neither. Claims that the
/// messages ahead come out in order, one for each message record that is read, and that an error
/// or the end comes only when none is left.
#[verifier::external_body]
fn next_message(stream: &mut mcap::MessageStream) -> (message: Option<
    Result<RecordedMessage, mcap::McapError>,
>)
    requires
        whole_ahead(*old(stream)) != Some(0nat),
    ensures
        ({
            let (before, fails) = messages_ahead(*old(stream));
            match message {
                Some(Ok(message)) => {
                    &&& before.len() > 0
                    &&& message@ == before[0]
                    &&& messages_ahead(*final(stream)) == (before.drop_first(), fails)
                    &&& whole_ahead(*final(stream)) == match whole_ahead(*old(stream)) {
                        Some(count) => Some((count - 1) as nat),
                        None => None,
                    }
                },
                Some(Err(_)) => before.len() == 0 && fails,
                None => before.len() == 0 && !fails,
            }
        }),
{
    stream.next().map(|message| {
        message.map(|message| RecordedMessage {
            topic: message.channel.topic.clone(),
            sequence: message.sequence,
            log_time: message.log_time,
            publish_time: message.publish_time,
            data: message.data.into_owned(),
        })
    })
}

/// A record reader and the file from which it is given its bytes.
struct RecordSource<'a> {
    reader: mcap::sans_io::LinearReader,
    bytes: &'a [u8],
    /// How many bytes the reader has been given.
    given: usize,
}

impl<'a> RecordSource<'a> {
    /// What comes of reading the rest of the file.
    spec fn ahead(self) -> Reading {
        reading(self.reader, self.bytes@.skip(self.given as int))
    }

    /// Whether the rest of the file can be read.
    spec fn is_readable(self) -> bool {
        &&& self.given <= self.bytes@.len()
        &&& self.ahead().fits
    }

    /// Opens a file whose chunks are sound.
    fn new(bytes: &'a [u8]) -> (source: Self)
        requires
            framing_is_sound(bytes@, LARGEST_RECORD),
        ensures
            source.is_readable(),
            source.ahead() == file_reading(bytes@, LARGEST_RECORD),
    {
        let reader = open_records(LARGEST_RECORD);
        assert(bytes@.skip(0) =~= bytes@);
        RecordSource { reader, bytes, given: 0 }
    }

    /// Reads the next record, answering the requests of the reader.
    fn next_record(&mut self) -> (record: Result<Option<(u8, Vec<u8>)>, ()>)
        requires
            old(self).is_readable(),
        ensures
            ({
                let before = old(self).ahead();
                match record {
                    Ok(Some((opcode, body))) => {
                        let after = final(self).ahead();
                        &&& before.records.len() > 0
                        &&& before.records[0] == (opcode, body@)
                        &&& after.records == before.records.drop_first()
                        &&& after.fails == before.fails
                        &&& final(self).is_readable()
                    },
                    Ok(None) => before.records.len() == 0 && !before.fails,
                    Err(_) => before.records.len() == 0 && before.fails,
                }
            }),
    {
        loop
            invariant
                self.is_readable(),
                self.ahead() == old(self).ahead(),
            decreases
                    self.bytes@.len() - self.given,
                    if is_told_the_end(self.reader) {
                        0int
                    } else {
                        1int
                    },
        {
            let ghost rest = self.bytes@.skip(self.given as int);
            match next_event(&mut self.reader) {
                RecordStep::Record { opcode, body } => {
                    return Ok(Some((opcode, body)));
                },
                RecordStep::Request(need) => {
                    let left: usize = self.bytes.len() - self.given;
                    let length: usize = if need < left {
                        need
                    } else {
                        left
                    };
                    let end: usize = self.given + length;
                    let piece = vstd::slice::slice_subrange(self.bytes, self.given, end);
                    assert(rest =~= piece@ + self.bytes@.skip(end as int));
                    give(&mut self.reader, piece);
                    self.given = end;
                },
                RecordStep::Failed => {
                    return Err(());
                },
                RecordStep::Finished => {
                    return Ok(None);
                },
            }
        }
    }
}

/// The messages of a file.
#[derive(Debug)]
pub struct MessageLog {
    pub messages: Vec<RecordedMessage>,
    /// Whether reading stopped at a damaged or incomplete record.
    pub damaged: bool,
}

/// What a record reader comes upon next.
enum Ahead {
    Message,
    /// An attachment too short for its checksum, or an error.
    Damage,
    End,
}

/// Goes on behind the next message record, or to the first damage.
fn find_message(source: &mut RecordSource) -> (ahead: Ahead)
    requires
        old(source).is_readable(),
    ensures
        ({
            let before = messages_in_front(old(source).ahead().records, old(source).ahead().fails);
            match ahead {
                Ahead::Message => {
                    let after = messages_in_front(
                        final(source).ahead().records,
                        final(source).ahead().fails,
                    );
                    &&& final(source).is_readable()
                    &&& match before {
                        Some(count) => count > 0 && after == Some((count - 1) as nat),
                        None => after is None,
                    }
                },
                Ahead::Damage => before == Some(0nat),
                Ahead::End => before is None,
            }
        }),
{
    loop
        invariant
            source.is_readable(),
            messages_in_front(source.ahead().records, source.ahead().fails) == messages_in_front(
                old(source).ahead().records,
                old(source).ahead().fails,
            ),
        decreases source.ahead().records.len(),
    {
        match source.next_record() {
            Ok(Some((opcode, body))) => {
                if !check_attachment(opcode, body.as_slice()) {
                    return Ahead::Damage;
                }
                if opcode == MESSAGE_OPCODE {
                    return Ahead::Message;
                }
            },
            Ok(None) => {
                return Ahead::End;
            },
            Err(_) => {
                return Ahead::Damage;
            },
        }
    }
}

/// The messages that can be read from a file whose chunks are sound: all of them, or those in front
/// of the first attachment too short for its checksum or of the first error of the record reader;
/// and whether the reading ends with damage.
pub open spec fn readable_messages(bytes: Seq<u8>) -> (Seq<MessageView>, bool) {
    let file = file_reading(bytes, LARGEST_RECORD);
    let all = file_messages(bytes).0;
    match messages_in_front(file.records, file.fails) {
        Some(count) if count <= all.len() => (all.subrange(0, count as int), true),
        _ => file_messages(bytes),
    }
}

/// Reads the messages of a file whose chunks are sound.
fn read_sound_messages(bytes: &[u8]) -> (log: MessageLog)
    requires
        framing_is_sound(bytes@, LARGEST_RECORD),
    ensures
        (message_views(log.messages@), log.damaged) == readable_messages(bytes@),
{
    let ghost all = file_messages(bytes@).0;
    let ghost error = file_messages(bytes@).1;
    let ghost file = file_reading(bytes@, LARGEST_RECORD);
    let ghost front = messages_in_front(file.records, file.fails);
    let mut messages: Vec<RecordedMessage> = Vec::new();
    let mut source = RecordSource::new(bytes);
    let mut stream = match open_messages(bytes) {
        Ok(stream) => stream,
        Err(_) => {
            return MessageLog { messages, damaged: true };
        },
    };
    let mut all_whole = false;
    assert(message_views(messages@) =~= all.subrange(0, 0));
    assert(all.subrange(0, all.len() as int) =~= all);
    loop
        invariant
            (all, error) == file_messages(bytes@),
            file == file_reading(bytes@, LARGEST_RECORD),
            front == messages_in_front(file.records, file.fails),
            messages@.len() <= all.len(),
            message_views(messages@) == all.subrange(0, messages@.len() as int),
            messages_ahead(stream) == (
                all.subrange(messages@.len() as int, all.len() as int),
                error,
            ),
            front matches Some(count) ==> messages@.len() <= count && whole_ahead(stream) == Some(
                (count - messages@.len()) as nat,
            ),
            front is None ==> whole_ahead(stream) is None,
            all_whole ==> front is None,
            !all_whole ==> source.is_readable() && messages_in_front(
                source.ahead().records,
                source.ahead().fails,
            ) == whole_ahead(stream),
        decreases all.len() - messages@.len(),
    {
        if !all_whole {
            match find_message(&mut source) {
                Ahead::Message => {},
                Ahead::Damage => {
                    return MessageLog { messages, damaged: true };
                },
                Ahead::End => {
                    all_whole = true;
                },
            }
        }
        match next_message(&mut stream) {
            Some(Ok(message)) => {
                let ghost count = messages@.len() as int;
                messages.push(message);
                proof {
                    assert(all.subrange(count, all.len() as int).drop_first() =~= all.subrange(
                        count + 1,
                        all.len() as int,
                    ));
                    assert(message_views(messages@) =~= all.subrange(0, count + 1));
                }
            },
            Some(Err(_)) => {
                assert(all.subrange(0, messages@.len() as int) =~= all);
                return MessageLog { messages, damaged: true };
            },
            None => {
                assert(all.subrange(0, messages@.len() as int) =~= all);
                return MessageLog { messages, damaged: false };
            },
        }
    }
}

/// Reads the messages of a file whose chunks have lengths that can be read.
fn read_bounded_messages(bytes: &[u8]) -> (log: MessageLog)
    ensures
        ({
            let (messages, damaged) = readable_messages(readable_part(bytes@, LARGEST_RECORD));
            &&& message_views(log.messages@) == messages
            &&& log.damaged == (damaged || is_broken_off(bytes@, LARGEST_RECORD))
        }),
{
    let (part, broken_off) = take_readable_part(bytes, LARGEST_RECORD);
    let log = read_sound_messages(part);
    MessageLog { damaged: log.damaged || broken_off, messages: log.messages }
}

/// Reads the messages of a recording file in the order in which they were written, up to the end
/// of its data or its first damage.
pub fn read_messages(bytes: &[u8]) -> (log: MessageLog)
    ensures
        ({
            let file = bounded_file(bytes@, LARGEST_RECORD);
            let (messages, damaged) = readable_messages(readable_part(file, LARGEST_RECORD));
            &&& message_views(log.messages@) == messages
            &&& log.damaged == (damaged || is_broken_off(file, LARGEST_RECORD))
        }),
{
    match bound_chunk_length(bytes, LARGEST_RECORD) {
        Some(bounded) => read_bounded_messages(bounded.as_slice()),
        None => read_bounded_messages(bytes),
    }
}

/// Whether reading single records comes upon damage behind the first `front` of them: an attachment
/// too short for its checksum, or the error with which the records end. None comes before it.
pub open spec fn is_damaged_behind(records: Seq<(u8, Seq<u8>)>, fails: bool, front: int) -> bool {
    &&& 0 <= front <= records.len()
    &&& forall|i: int| 0 <= i < front ==> attachment_is_whole(#[trigger] records[i])
    &&& front < records.len() ==> !attachment_is_whole(records[front])
    &&& front == records.len() ==> fails
}

/// The number of messages among the first `front` records.
pub open spec fn message_count(records: Seq<(u8, Seq<u8>)>, front: int) -> nat {
    records.take(front).filter(|record: (u8, Seq<u8>)| record.0 == 5).len()
}

/// The first record adds a message or none.
proof fn first_record_is_counted(records: Seq<(u8, Seq<u8>)>, front: int)
    requires
        0 < front <= records.len(),
    ensures
        message_count(records, front) == message_count(records.drop_first(), front - 1) + if records[0].0
            == 5 {
            1nat
        } else {
            0nat
        },
    decreases front,
{
    reveal(Seq::filter);
    let rest = records.drop_first();
    assert(records.take(front).drop_last() =~= records.take(front - 1));
    assert(records.take(front).last() == records[front - 1]);
    if front > 1 {
        first_record_is_counted(records, front - 1);
        assert(rest.take(front - 1).drop_last() =~= rest.take(front - 2));
        assert(rest.take(front - 1).last() == records[front - 1]);
    } else {
        assert(records.take(0) =~= Seq::empty());
        assert(rest.take(0) =~= Seq::empty());
    }
}

/// The messages in front of the damage are those among the records in front of it, and where there
/// is no damage there is no such number.
pub proof fn messages_in_front_of_damage_are_counted(
    records: Seq<(u8, Seq<u8>)>,
    fails: bool,
    front: int,
)
    ensures
        is_damaged_behind(records, fails, front) ==> messages_in_front(records, fails) == Some(
            message_count(records, front),
        ),
        !fails && (forall|i: int|
            0 <= i < records.len() ==> attachment_is_whole(#[trigger] records[i]))
            ==> messages_in_front(records, fails) is None,
    decreases records.len(),
{
    if records.len() > 0 {
        let rest = records.drop_first();
        messages_in_front_of_damage_are_counted(rest, fails, front - 1);
        if is_damaged_behind(records, fails, front) {
            if front > 0 {
                first_record_is_counted(records, front);
                assert(attachment_is_whole(records[0]));
                assert forall|i: int| 0 <= i < front - 1 implies attachment_is_whole(
                    #[trigger] rest[i],
                ) by {
                    assert(rest[i] == records[i + 1]);
                }
                assert(is_damaged_behind(rest, fails, front - 1));
            } else {
                reveal(Seq::filter);
                assert(records.take(0) =~= Seq::empty());
            }
        }
        if !fails && (forall|i: int|
            0 <= i < records.len() ==> attachment_is_whole(#[trigger] records[i])) {
            assert(attachment_is_whole(records[0]));
            assert forall|i: int| 0 <= i < rest.len() implies attachment_is_whole(
                #[trigger] rest[i],
            ) by {
                assert(rest[i] == records[i + 1]);
            }
        }
    } else {
        reveal(Seq::filter);
        assert(records.take(0) =~= Seq::empty());
    }
}

/// The messages that are read are the first ones of the file, in their order. Where reading single
/// records comes upon damage and the messages in front of it are there, exactly these are read and
/// the file counts as damaged. Where it comes upon none, all are read.
pub proof fn messages_are_read_up_to_the_damage(bytes: Seq<u8>, front: int)
    ensures
        readable_messages(bytes).0.is_prefix_of(file_messages(bytes).0),
        ({
            let file = file_reading(bytes, LARGEST_RECORD);
            let (all, damaged) = file_messages(bytes);
            let count = message_count(file.records, front);
            &&& is_damaged_behind(file.records, file.fails, front) && count <= all.len() ==> {
                &&& readable_messages(bytes).0 == all.take(count as int)
                &&& readable_messages(bytes).1
            }
            &&& is_damaged_behind(file.records, file.fails, front) && count > all.len()
                ==> readable_messages(bytes) == (all, damaged)
            &&& !file.fails && (forall|i: int|
                0 <= i < file.records.len() ==> attachment_is_whole(#[trigger] file.records[i]))
                ==> readable_messages(bytes) == (all, damaged)
        }),
{
    let file = file_reading(bytes, LARGEST_RECORD);
    messages_in_front_of_damage_are_counted(file.records, file.fails, front);
}

/// A message is seen with all that was recorded of it, and messages in their order.
pub proof fn messages_are_seen_as_recorded(messages: Seq<RecordedMessage>, place: int)
    requires
        0 <= place < messages.len(),
    ensures
        message_views(messages).len() == messages.len(),
        ({
            let seen = message_views(messages)[place];
            let message = messages[place];
            &&& seen.topic == message.topic@
            &&& seen.sequence == message.sequence
            &&& seen.log_time == message.log_time
            &&& seen.publish_time == message.publish_time
            &&& seen.data == message.data@
        }),
{
}

} // verus!
