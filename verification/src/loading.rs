//! What becomes of the messages of a recording when they are loaded.

use crate::camera_matrices::{diagnostic_current, diagnostic_previous, measured_between};
use crate::detections::{
    detection_image, detection_of, embedded_times, following_image, is_last_detection,
    lists_by_embedded_time, nearest_image, nearest_image_is_nearest, untimed_detections,
};
use crate::event::{
    DetectedObjectsFrame, EventKind, FieldMarkAssociationTiming, RecordedEvent, StereoImageIndex,
    VisualOdometryDelta,
};
use crate::matching::{
    comes_after, explains_source, is_recorded_after, match_associations,
    sources_come_from_associations, stands_for_detection,
};
use crate::messages::MessageView;
use crate::order::{
    is_lower_bound, lower_bound_is, precedes, stable_order_exists, stable_order_of,
    upper_bound_exists, upper_bound_is,
};
use crate::playback::aligned_time;
use crate::recording::{
    association_keys, event_keys, image_keys, image_sources, is_consistent, is_recording_of,
    ordered_associations, ordered_events, recording_is_consistent, with_image_time, RecordingView,
};
use crate::replay::TimestampMode;
use crate::stream::{
    first_with_topic, last_with_topic, prefix_time, stream_announcements, stream_associations,
    stream_events, stream_images, MessageContent,
};
use crate::time::{is_recorded_time, Time, WallTime};
use crate::topics::Topic;
use vstd::prelude::*;

verus! {

/// Whether a payload is one of those that make an event.
pub open spec fn makes_event(content: MessageContent) -> bool {
    ||| content is ImuState
    ||| content is VisualOdometry
    ||| content is RobotKinematics
    ||| content is CameraMatrix
    ||| content is DetectedObjects
    ||| content is FieldMarkAssociations
    ||| content is Localization
    ||| content is CalibratedIntrinsics
    ||| content is GlobalLocalizationDebug
    ||| content is SolveDiagnostics
}

/// Whether an event is what the message at a place makes: of the kind of its payload, with the
/// times of the message and the time inside it.
pub open spec fn is_event_of(
    event: RecordedEvent,
    message: MessageView,
    content: MessageContent,
    order: int,
) -> bool {
    &&& event.order == order
    &&& event.log_time.nanos == message.log_time
    &&& event.publish_time.nanos == message.publish_time
    &&& match event.kind {
        EventKind::Imu => content == MessageContent::ImuState,
        EventKind::VisualOdometry(delta) => content == MessageContent::VisualOdometry(delta),
        EventKind::RobotKinematics(time) => content == MessageContent::RobotKinematics(time),
        EventKind::CameraMatrix(time) => content == MessageContent::CameraMatrix(time),
        EventKind::DetectedObjects(frame) => {
            &&& content == MessageContent::DetectedObjects
            &&& frame.publish_time.nanos == message.publish_time
            &&& frame.sequence_number == message.sequence
        },
        EventKind::RecordedLocalization { localized } => content == MessageContent::Localization {
            localized,
        },
        EventKind::CalibratedIntrinsics => content == MessageContent::CalibratedIntrinsics,
        EventKind::FieldMarkAssociations(time) => content == MessageContent::FieldMarkAssociations(
            time,
        ),
        EventKind::GlobalLocalizationDebug { present } => content
            == MessageContent::GlobalLocalizationDebug { present },
        EventKind::SolveDiagnostics(time) => content == MessageContent::SolveDiagnostics(time),
    }
}

/// Whether the event at a place is what its message makes.
pub open spec fn comes_from_its_message(
    events: Seq<RecordedEvent>,
    messages: Seq<MessageView>,
    contents: Seq<MessageContent>,
    place: int,
) -> bool {
    let order = events[place].order as int;
    &&& order < messages.len()
    &&& makes_event(contents[order])
    &&& is_event_of(events[place], messages[order], contents[order], order)
}

/// Whether a list holds an event for a message.
pub open spec fn has_event_of(events: Seq<RecordedEvent>, order: int) -> bool {
    exists|place: int| 0 <= place < events.len() && (#[trigger] events[place]).order == order
}

/// The events that messages make in turn are one for each that makes one.
proof fn stream_events_come_from_messages(
    messages: Seq<MessageView>,
    contents: Seq<MessageContent>,
    count: int,
)
    requires
        0 <= count <= messages.len() <= usize::MAX,
    ensures
        ({
            let events = stream_events(messages, contents, count);
            &&& events.len() <= count
            &&& forall|i: int|
                0 <= i < events.len() ==> #[trigger] comes_from_its_message(
                    events,
                    messages,
                    contents,
                    i,
                ) && events[i].order < count
            &&& forall|i: int, j: int|
                #![trigger events[i], events[j]]
                0 <= i < j < events.len() ==> events[i].order < events[j].order
            &&& forall|order: int|
                0 <= order < count && makes_event(#[trigger] contents[order]) ==> has_event_of(
                    events,
                    order,
                )
            &&& forall|i: int|
                0 <= i < events.len() && (#[trigger] events[i]).kind is DetectedObjects
                    ==> events[i].kind->DetectedObjects_0.image_time is None
                    && events[i].kind->DetectedObjects_0.announcement_log_time is None
        }),
    decreases count,
{
    if count > 0 {
        stream_events_come_from_messages(messages, contents, count - 1);
        let earlier = stream_events(messages, contents, count - 1);
        let events = stream_events(messages, contents, count);
        assert forall|i: int| 0 <= i < events.len() implies #[trigger] comes_from_its_message(
            events,
            messages,
            contents,
            i,
        ) && events[i].order < count by {
            if i < earlier.len() {
                assert(comes_from_its_message(earlier, messages, contents, i));
            }
        }
        assert forall|i: int, j: int|
            #![trigger events[i], events[j]]
            0 <= i < j < events.len() implies events[i].order < events[j].order by {
            assert(comes_from_its_message(earlier, messages, contents, i));
            if j < earlier.len() {
                assert(earlier[i].order < earlier[j].order);
            }
        }
        assert forall|order: int|
            0 <= order < count && makes_event(#[trigger] contents[order]) implies has_event_of(
            events,
            order,
        ) by {
            if order < count - 1 {
                let place = choose|place: int|
                    0 <= place < earlier.len() && (#[trigger] earlier[place]).order == order;
                assert(events[place].order == order);
            } else {
                assert(events[earlier.len() as int].order == order);
            }
        }
    }
}

/// Loading makes of every message with an IMU state, a motion, robot kinematics, a camera matrix,
/// detected objects, field-mark associations, a pose, calibrated intrinsics, a state of the global
/// localization or solve diagnostics exactly one event, which is about what the message is about
/// and has its times. There are no other events. They are listed in the order in which they were
/// recorded, those recorded at the same instant in the order of their messages.
pub proof fn every_message_makes_its_event(
    recording: RecordingView,
    messages: Seq<MessageView>,
    contents: Seq<MessageContent>,
)
    requires
        is_recording_of(recording, messages, contents),
        messages.len() <= usize::MAX,
    ensures
        forall|order: int|
            0 <= order < messages.len() && makes_event(#[trigger] contents[order]) ==> has_event_of(
                recording.events,
                order,
            ),
        forall|place: int|
            0 <= place < recording.events.len() ==> #[trigger] comes_from_its_message(
                recording.events,
                messages,
                contents,
                place,
            ),
        forall|i: int, j: int|
            #![trigger recording.events[i], recording.events[j]]
            0 <= i < j < recording.events.len() ==> recording.events[i].order
                != recording.events[j].order && (recording.events[i].log_time.nanos
                < recording.events[j].log_time.nanos || recording.events[i].log_time.nanos
                == recording.events[j].log_time.nanos && recording.events[i].order
                < recording.events[j].order),
{
    let count = messages.len() as int;
    stream_events_come_from_messages(messages, contents, count);
    let stream = stream_events(messages, contents, count);
    let keys = event_keys(stream);
    stable_order_exists(keys);
    let order_of = stable_order_of(keys);
    let sources = image_sources(messages, contents);
    let events = recording.events;
    assert(events.len() == stream.len());
    assert forall|i: int| 0 <= i < events.len() implies order_of[i] < stream.len() && (
    #[trigger] events[i]) == with_image_time(stream[order_of[i] as int], sources) by {
        assert(ordered_events(messages, contents)[i] == stream[order_of[i] as int]);
    }
    assert forall|place: int| 0 <= place < events.len() implies #[trigger] comes_from_its_message(
        events,
        messages,
        contents,
        place,
    ) by {
        assert(events[place] == with_image_time(stream[order_of[place] as int], sources));
        assert(comes_from_its_message(stream, messages, contents, order_of[place] as int));
    }
    assert forall|order: int|
        0 <= order < messages.len() && makes_event(#[trigger] contents[order]) implies has_event_of(
        events,
        order,
    ) by {
        let from = choose|place: int|
            0 <= place < stream.len() && (#[trigger] stream[place]).order == order;
        assert(order_of.contains(from as usize));
        let place = choose|place: int| 0 <= place < order_of.len() && order_of[place] == from;
        assert(events[place] == with_image_time(stream[order_of[place] as int], sources));
        assert(events[place].order == order);
    }
    assert forall|i: int, j: int|
        #![trigger events[i], events[j]]
        0 <= i < j < events.len() implies events[i].order != events[j].order && (
    events[i].log_time.nanos < events[j].log_time.nanos || events[i].log_time.nanos
        == events[j].log_time.nanos && events[i].order < events[j].order) by {
        assert(events[i] == with_image_time(stream[order_of[i] as int], sources));
        assert(events[j] == with_image_time(stream[order_of[j] as int], sources));
        assert(precedes(keys, order_of[i] as int, order_of[j] as int));
        assert(comes_from_its_message(stream, messages, contents, order_of[i] as int));
        assert(comes_from_its_message(stream, messages, contents, order_of[j] as int));
        if order_of[i] < order_of[j] {
            assert(stream[order_of[i] as int].order < stream[order_of[j] as int].order);
        } else {
            assert(stream[order_of[j] as int].order < stream[order_of[i] as int].order);
        }
    }
}

/// Whether an image is the pair of pictures in the message at a place.
pub open spec fn is_image_of(
    image: StereoImageIndex,
    message: MessageView,
    order: int,
) -> bool {
    &&& image.order == order
    &&& image.log_time.nanos == message.log_time
    &&& image.publish_time.nanos == message.publish_time
    &&& image.embedded_time == prefix_time(message)
}

/// Whether the image at a place is that of its message.
pub open spec fn shows_its_message(
    images: Seq<StereoImageIndex>,
    messages: Seq<MessageView>,
    contents: Seq<MessageContent>,
    place: int,
) -> bool {
    let order = images[place].order as int;
    &&& order < messages.len()
    &&& contents[order] is StereoImagePair
    &&& is_image_of(images[place], messages[order], order)
}

/// Whether a list holds an image of a message.
pub open spec fn has_image_of(images: Seq<StereoImageIndex>, order: int) -> bool {
    exists|place: int| 0 <= place < images.len() && (#[trigger] images[place]).order == order
}

/// The images among messages are one for each message with images.
proof fn stream_images_come_from_messages(
    messages: Seq<MessageView>,
    contents: Seq<MessageContent>,
    count: int,
)
    requires
        0 <= count <= messages.len() <= usize::MAX,
    ensures
        ({
            let images = stream_images(messages, contents, count);
            &&& images.len() <= count
            &&& forall|i: int|
                0 <= i < images.len() ==> #[trigger] shows_its_message(
                    images,
                    messages,
                    contents,
                    i,
                ) && images[i].order < count
            &&& forall|i: int, j: int|
                #![trigger images[i], images[j]]
                0 <= i < j < images.len() ==> images[i].order < images[j].order
            &&& forall|order: int|
                0 <= order < count && #[trigger] contents[order] is StereoImagePair ==> has_image_of(
                    images,
                    order,
                )
        }),
    decreases count,
{
    if count > 0 {
        stream_images_come_from_messages(messages, contents, count - 1);
        let earlier = stream_images(messages, contents, count - 1);
        let images = stream_images(messages, contents, count);
        assert forall|i: int| 0 <= i < images.len() implies #[trigger] shows_its_message(
            images,
            messages,
            contents,
            i,
        ) && images[i].order < count by {
            if i < earlier.len() {
                assert(shows_its_message(earlier, messages, contents, i));
            }
        }
        assert forall|i: int, j: int|
            #![trigger images[i], images[j]]
            0 <= i < j < images.len() implies images[i].order < images[j].order by {
            assert(shows_its_message(earlier, messages, contents, i));
            if j < earlier.len() {
                assert(earlier[i].order < earlier[j].order);
            }
        }
        assert forall|order: int|
            0 <= order < count && #[trigger] contents[order] is StereoImagePair implies has_image_of(
            images,
            order,
        ) by {
            if order < count - 1 {
                let place = choose|place: int|
                    0 <= place < earlier.len() && (#[trigger] earlier[place]).order == order;
                assert(images[place].order == order);
            } else {
                assert(images[earlier.len() as int].order == order);
            }
        }
    }
}

/// Loading makes of every message with a pair of pictures exactly one image, with the times of the
/// message and the time in front of its data. There are no other images. They are listed in the
/// order in which they were taken, those taken at the same instant in the order of their messages.
pub proof fn every_picture_message_makes_its_image(
    recording: RecordingView,
    messages: Seq<MessageView>,
    contents: Seq<MessageContent>,
)
    requires
        is_recording_of(recording, messages, contents),
        messages.len() <= usize::MAX,
    ensures
        forall|order: int|
            0 <= order < messages.len() && #[trigger] contents[order] is StereoImagePair
                ==> has_image_of(recording.images, order),
        forall|place: int|
            0 <= place < recording.images.len() ==> #[trigger] shows_its_message(
                recording.images,
                messages,
                contents,
                place,
            ),
        forall|i: int, j: int|
            #![trigger recording.images[i], recording.images[j]]
            0 <= i < j < recording.images.len() ==> recording.images[i].order
                != recording.images[j].order && (recording.images[i].embedded_time.nanos
                < recording.images[j].embedded_time.nanos || recording.images[i].embedded_time.nanos
                == recording.images[j].embedded_time.nanos && recording.images[i].order
                < recording.images[j].order),
{
    let count = messages.len() as int;
    stream_images_come_from_messages(messages, contents, count);
    let stream = stream_images(messages, contents, count);
    let keys = image_keys(stream);
    stable_order_exists(keys);
    let order_of = stable_order_of(keys);
    let images = recording.images;
    assert forall|i: int| 0 <= i < images.len() implies order_of[i] < stream.len() && (
    #[trigger] images[i]) == stream[order_of[i] as int] by {}
    assert forall|place: int| 0 <= place < images.len() implies #[trigger] shows_its_message(
        images,
        messages,
        contents,
        place,
    ) by {
        assert(images[place] == stream[order_of[place] as int]);
        assert(shows_its_message(stream, messages, contents, order_of[place] as int));
    }
    assert forall|order: int|
        0 <= order < messages.len() && #[trigger] contents[order] is
            StereoImagePair implies has_image_of(images, order) by {
        let from = choose|place: int|
            0 <= place < stream.len() && (#[trigger] stream[place]).order == order;
        assert(order_of.contains(from as usize));
        let place = choose|place: int| 0 <= place < order_of.len() && order_of[place] == from;
        assert(images[place] == stream[order_of[place] as int]);
        assert(images[place].order == order);
    }
    assert forall|i: int, j: int|
        #![trigger images[i], images[j]]
        0 <= i < j < images.len() implies images[i].order != images[j].order && (
    images[i].embedded_time.nanos < images[j].embedded_time.nanos || images[i].embedded_time.nanos
        == images[j].embedded_time.nanos && images[i].order < images[j].order) by {
        assert(images[i] == stream[order_of[i] as int]);
        assert(images[j] == stream[order_of[j] as int]);
        assert(precedes(keys, order_of[i] as int, order_of[j] as int));
        if order_of[i] < order_of[j] {
            assert(stream[order_of[i] as int].order < stream[order_of[j] as int].order);
        } else {
            assert(stream[order_of[j] as int].order < stream[order_of[i] as int].order);
        }
    }
}

/// Whether a place is that of the first payload of which `is_wanted` holds.
pub open spec fn is_first_place(
    contents: Seq<MessageContent>,
    is_wanted: spec_fn(MessageContent) -> bool,
    place: Option<usize>,
) -> bool {
    match place {
        Some(place) => {
            &&& place < contents.len()
            &&& is_wanted(contents[place as int])
            &&& forall|i: int| 0 <= i < place ==> !is_wanted(#[trigger] contents[i])
        },
        None => forall|i: int| 0 <= i < contents.len() ==> !is_wanted(#[trigger] contents[i]),
    }
}

/// Whether a place is that of the last payload of which `is_wanted` holds.
pub open spec fn is_last_place(
    contents: Seq<MessageContent>,
    is_wanted: spec_fn(MessageContent) -> bool,
    place: Option<usize>,
) -> bool {
    match place {
        Some(place) => {
            &&& place < contents.len()
            &&& is_wanted(contents[place as int])
            &&& forall|i: int| place < i < contents.len() ==> !is_wanted(#[trigger] contents[i])
        },
        None => forall|i: int| 0 <= i < contents.len() ==> !is_wanted(#[trigger] contents[i]),
    }
}

/// The places found among the first payloads are the first and the last of a topic.
proof fn places_with_topic(contents: Seq<MessageContent>, topic: Topic, count: int)
    requires
        0 <= count <= contents.len() <= usize::MAX,
    ensures
        match first_with_topic(contents, topic, count) {
            Some(place) => {
                &&& place < count && contents[place as int].topic() == topic
                &&& forall|i: int| 0 <= i < place ==> (#[trigger] contents[i]).topic() != topic
            },
            None => forall|i: int| 0 <= i < count ==> (#[trigger] contents[i]).topic() != topic,
        },
        match last_with_topic(contents, topic, count) {
            Some(place) => {
                &&& place < count && contents[place as int].topic() == topic
                &&& forall|i: int| place < i < count ==> (#[trigger] contents[i]).topic() != topic
            },
            None => forall|i: int| 0 <= i < count ==> (#[trigger] contents[i]).topic() != topic,
        },
    decreases count,
{
    if count > 0 {
        places_with_topic(contents, topic, count - 1);
    }
}

/// A recording starts from its first camera matrix and goes by its last stereo camera info and its
/// last field dimensions. There is no recording exactly if there is no camera matrix.
pub proof fn first_and_last_messages_count(
    recording: RecordingView,
    messages: Seq<MessageView>,
    contents: Seq<MessageContent>,
)
    requires
        is_recording_of(recording, messages, contents),
        messages.len() == contents.len() <= usize::MAX,
    ensures
        is_first_place(
            contents,
            |content: MessageContent| content is CameraMatrix,
            Some(recording.first_camera_matrix),
        ),
        is_last_place(
            contents,
            |content: MessageContent| content is StereoCameraInfo,
            recording.stereo_camera_info,
        ),
        is_last_place(
            contents,
            |content: MessageContent| content is FieldDimensions,
            recording.field_dimensions,
        ),
{
    let count = contents.len() as int;
    places_with_topic(contents, Topic::CameraMatrix, count);
    places_with_topic(contents, Topic::StereoCameraInfo, count);
    places_with_topic(contents, Topic::FieldDimensions, count);
}

/// Messages make no recording exactly if none of them carries a camera matrix.
pub proof fn recordings_need_a_camera_matrix(contents: Seq<MessageContent>)
    requires
        contents.len() <= usize::MAX,
    ensures
        first_with_topic(contents, Topic::CameraMatrix, contents.len() as int) is None <==> forall|
            i: int,
        |
            0 <= i < contents.len() ==> !(#[trigger] contents[i] is CameraMatrix),
{
    places_with_topic(contents, Topic::CameraMatrix, contents.len() as int);
}

/// Whether the message at a place announces the image time of the detection with a number.
pub open spec fn announces(content: MessageContent, sequence: i64) -> bool {
    content is DetectedObjectsAnnounce && content->DetectedObjectsAnnounce_sequence_number
        == sequence
}

/// Whether the message at a place is the last that announces the image time of a detection.
pub open spec fn announces_last(
    contents: Seq<MessageContent>,
    sequence: i64,
    place: int,
    count: int,
) -> bool {
    &&& 0 <= place < count
    &&& announces(contents[place], sequence)
    &&& forall|later: int|
        place < later < count ==> !announces(#[trigger] contents[later], sequence)
}

/// Of several announcements of a detection the last one counts.
proof fn last_announcement_counts(
    messages: Seq<MessageView>,
    contents: Seq<MessageContent>,
    sequence: i64,
    count: int,
)
    requires
        0 <= count <= messages.len(),
        messages.len() == contents.len(),
    ensures
        ({
            let announced = stream_announcements(messages, contents, count);
            if announced.contains_key(sequence) {
                exists|place: int| #[trigger]
                    announces_last(contents, sequence, place, count) && announced[sequence].0
                        == contents[place]->DetectedObjectsAnnounce_time
                        && announced[sequence].1.nanos == messages[place].log_time
            } else {
                forall|place: int|
                    0 <= place < count ==> !announces(#[trigger] contents[place], sequence)
            }
        }),
    decreases count,
{
    if count > 0 {
        last_announcement_counts(messages, contents, sequence, count - 1);
        let earlier = stream_announcements(messages, contents, count - 1);
        if announces(contents[count - 1], sequence) {
            assert(announces_last(contents, sequence, count - 1, count));
        } else if earlier.contains_key(sequence) {
            let place = choose|place: int| #[trigger]
                announces_last(contents, sequence, place, count - 1) && earlier[sequence].0
                    == contents[place]->DetectedObjectsAnnounce_time
                    && earlier[sequence].1.nanos == messages[place].log_time;
            assert(announces_last(contents, sequence, place, count));
        }
    }
}

/// The image time of a detection is the one announced last for it, together with the time of that
/// announcement, whatever field-mark associations tell.
pub proof fn detections_have_their_announced_image_time(
    recording: RecordingView,
    messages: Seq<MessageView>,
    contents: Seq<MessageContent>,
    event: int,
    place: int,
)
    requires
        is_recording_of(recording, messages, contents),
        messages.len() == contents.len() <= usize::MAX,
        0 <= event < recording.events.len(),
        recording.events[event].kind is DetectedObjects,
        announces_last(
            contents,
            recording.events[event].kind->DetectedObjects_0.sequence_number,
            place,
            contents.len() as int,
        ),
    ensures
        ({
            let frame = recording.events[event].kind->DetectedObjects_0;
            &&& frame.image_time == Some(contents[place]->DetectedObjectsAnnounce_time)
            &&& frame.announcement_log_time == Some(
                WallTime { nanos: messages[place].log_time as i128 },
            )
        }),
{
    let frame = recording.events[event].kind->DetectedObjects_0;
    let count = messages.len() as int;
    last_announcement_counts(messages, contents, frame.sequence_number, count);
    let announced = stream_announcements(messages, contents, count);
    let sources = image_sources(messages, contents);
    let events = ordered_events(messages, contents);
    assert(recording.events[event] == with_image_time(events[event], sources));
    assert(announces(contents[place], frame.sequence_number));
    let last = choose|last: int| #[trigger]
        announces_last(contents, frame.sequence_number, last, count)
            && announced[frame.sequence_number].0 == contents[last]->DetectedObjectsAnnounce_time
            && announced[frame.sequence_number].1.nanos == messages[last].log_time;
    assert(announces(contents[last], frame.sequence_number));
    assert(last == place);
    assert(sources[frame.sequence_number] == announced[frame.sequence_number]);
}

/// Whether a list has the association that a message told.
pub open spec fn has_association_of(
    associations: Seq<FieldMarkAssociationTiming>,
    order: int,
) -> bool {
    exists|place: int|
        0 <= place < associations.len() && (#[trigger] associations[place]).order == order
}

/// The associations among messages come from messages with associations.
proof fn stream_associations_come_from_messages(
    messages: Seq<MessageView>,
    contents: Seq<MessageContent>,
    count: int,
)
    requires
        0 <= count <= messages.len() <= usize::MAX,
    ensures
        ({
            let associations = stream_associations(messages, contents, count);
            &&& associations.len() <= count
            &&& forall|i: int|
                0 <= i < associations.len() ==> {
                    let order = (#[trigger] associations[i]).order as int;
                    &&& order < count
                    &&& contents[order] is FieldMarkAssociations
                    &&& associations[i].source_time == prefix_time(messages[order])
                    &&& associations[i].log_time.nanos == messages[order].log_time
                }
            &&& forall|i: int, j: int|
                #![trigger associations[i], associations[j]]
                0 <= i < j < associations.len() ==> associations[i].order < associations[j].order
            &&& forall|order: int|
                0 <= order < count && (#[trigger] contents[order]) is FieldMarkAssociations
                    ==> has_association_of(associations, order)
        }),
    decreases count,
{
    if count > 0 {
        stream_associations_come_from_messages(messages, contents, count - 1);
        let earlier = stream_associations(messages, contents, count - 1);
        let associations = stream_associations(messages, contents, count);
        assert forall|i: int| 0 <= i < associations.len() implies {
            let order = (#[trigger] associations[i]).order as int;
            &&& order < count
            &&& contents[order] is FieldMarkAssociations
            &&& associations[i].source_time == prefix_time(messages[order])
            &&& associations[i].log_time.nanos == messages[order].log_time
        } by {
            if i < earlier.len() {
                assert(associations[i] == earlier[i]);
            }
        }
        assert forall|i: int, j: int|
            #![trigger associations[i], associations[j]]
            0 <= i < j < associations.len() implies associations[i].order
            < associations[j].order by {
            assert(associations[i] == earlier[i]);
            if j < earlier.len() {
                assert(associations[j] == earlier[j]);
            }
        }
        assert forall|order: int|
            0 <= order < count && (#[trigger] contents[order]) is
                FieldMarkAssociations implies has_association_of(associations, order) by {
            if order < count - 1 {
                let place = choose|place: int|
                    0 <= place < earlier.len() && (#[trigger] earlier[place]).order == order;
                assert(associations[place].order == order);
            } else {
                assert(associations[earlier.len() as int].order == order);
            }
        }
    }
}

/// Every message with field-mark associations is matched with the detections, once, with the time
/// in front of its data, and nothing else is. They are matched in the order in which they were
/// recorded, those recorded at the same time as they came.
pub proof fn every_association_is_matched(messages: Seq<MessageView>, contents: Seq<MessageContent>)
    requires
        messages.len() == contents.len() <= usize::MAX,
    ensures
        ({
            let associations = ordered_associations(messages, contents);
            &&& forall|i: int|
                0 <= i < associations.len() ==> {
                    let order = (#[trigger] associations[i]).order as int;
                    &&& order < messages.len()
                    &&& contents[order] is FieldMarkAssociations
                    &&& associations[i].source_time == prefix_time(messages[order])
                    &&& associations[i].log_time.nanos == messages[order].log_time
                }
            &&& forall|i: int, j: int|
                #![trigger associations[i], associations[j]]
                0 <= i < j < associations.len() ==> associations[i].log_time.nanos
                    < associations[j].log_time.nanos || associations[i].log_time.nanos
                    == associations[j].log_time.nanos && associations[i].order
                    < associations[j].order
            &&& forall|order: int|
                0 <= order < messages.len() && (#[trigger] contents[order]) is FieldMarkAssociations
                    ==> has_association_of(associations, order)
        }),
{
    let count = messages.len() as int;
    stream_associations_come_from_messages(messages, contents, count);
    let unsorted = stream_associations(messages, contents, count);
    let keys = association_keys(unsorted);
    stable_order_exists(keys);
    let order_of = stable_order_of(keys);
    let associations = ordered_associations(messages, contents);
    assert forall|i: int| 0 <= i < associations.len() implies order_of[i] < unsorted.len() && (
    #[trigger] associations[i]) == unsorted[order_of[i] as int] by {}
    assert forall|i: int, j: int|
        #![trigger associations[i], associations[j]]
        0 <= i < j < associations.len() implies associations[i].log_time.nanos
        < associations[j].log_time.nanos || associations[i].log_time.nanos
        == associations[j].log_time.nanos && associations[i].order < associations[j].order by {
        assert(associations[i] == unsorted[order_of[i] as int]);
        assert(associations[j] == unsorted[order_of[j] as int]);
        assert(precedes(keys, order_of[i] as int, order_of[j] as int));
    }
    assert forall|order: int|
        0 <= order < messages.len() && (#[trigger] contents[order]) is
            FieldMarkAssociations implies has_association_of(associations, order) by {
        assert(has_association_of(unsorted, order));
        let place = choose|place: int|
            0 <= place < unsorted.len() && (#[trigger] unsorted[place]).order == order;
        assert(order_of.contains(place as usize));
        let to = choose|to: int| 0 <= to < order_of.len() && order_of[to] == place;
        assert(associations[to].order == order);
    }
}

/// A detection for which no image time was announced has exactly the image time that the field-mark
/// associations matched with it tell, and none where none was matched with it.
pub proof fn unannounced_detections_have_their_matched_image_time(
    recording: RecordingView,
    messages: Seq<MessageView>,
    contents: Seq<MessageContent>,
    event: int,
)
    requires
        is_recording_of(recording, messages, contents),
        messages.len() == contents.len() <= usize::MAX,
        0 <= event < recording.events.len(),
        recording.events[event].kind is DetectedObjects,
        forall|place: int|
            0 <= place < contents.len() ==> !announces(
                #[trigger] contents[place],
                recording.events[event].kind->DetectedObjects_0.sequence_number,
            ),
    ensures
        ({
            let frame = recording.events[event].kind->DetectedObjects_0;
            let associations = ordered_associations(messages, contents);
            let matched = match_associations(
                ordered_events(messages, contents),
                associations,
                associations.len() as int,
            ).sources;
            if matched.contains_key(frame.sequence_number) {
                let (image_time, log_time) = matched[frame.sequence_number];
                &&& frame.image_time == Some(image_time)
                &&& frame.announcement_log_time == Some(log_time)
            } else {
                &&& frame.image_time is None
                &&& frame.announcement_log_time is None
            }
        }),
{
    let frame = recording.events[event].kind->DetectedObjects_0;
    let sequence = frame.sequence_number;
    let count = messages.len() as int;
    last_announcement_counts(messages, contents, sequence, count);
    stream_events_come_from_messages(messages, contents, count);
    let announced = stream_announcements(messages, contents, count);
    if announced.contains_key(sequence) {
        let place = choose|place: int| #[trigger]
            announces_last(contents, sequence, place, count);
        assert(announces(contents[place], sequence));
    }
    let sources = image_sources(messages, contents);
    let events = ordered_events(messages, contents);
    let stream = stream_events(messages, contents, count);
    stable_order_exists(event_keys(stream));
    let event_order = stable_order_of(event_keys(stream));
    assert(recording.events[event] == with_image_time(events[event], sources));
    assert(event_order[event] < stream.len());
    assert(events[event] == stream[event_order[event] as int]);
}

/// Whether the message at a place holds field-mark associations that tell the image time of a
/// frame: the time in front of its data, recorded no earlier than a detection with the number of
/// the frame.
pub open spec fn tells_image_time(
    recording: RecordingView,
    messages: Seq<MessageView>,
    contents: Seq<MessageContent>,
    frame: DetectedObjectsFrame,
    place: int,
) -> bool {
    &&& 0 <= place < messages.len()
    &&& contents[place] is FieldMarkAssociations
    &&& frame.image_time == Some(prefix_time(messages[place]))
    &&& frame.announcement_log_time == Some(WallTime { nanos: messages[place].log_time as i128 })
    &&& exists|event: int|
        0 <= event < recording.events.len() && (#[trigger] recording.events[event]).kind is
            DetectedObjects && recording.events[event].kind->DetectedObjects_0.sequence_number
            == frame.sequence_number && (recording.events[event].log_time.nanos
            < messages[place].log_time || recording.events[event].log_time.nanos
            == messages[place].log_time && recording.events[event].order <= place)
}

/// A detection for which no image time was announced has none, or has one that field-mark
/// associations tell.
pub proof fn other_image_times_come_from_associations(
    recording: RecordingView,
    messages: Seq<MessageView>,
    contents: Seq<MessageContent>,
    event: int,
)
    requires
        is_recording_of(recording, messages, contents),
        messages.len() == contents.len() <= usize::MAX,
        0 <= event < recording.events.len(),
        recording.events[event].kind is DetectedObjects,
        forall|place: int|
            0 <= place < contents.len() ==> !announces(
                #[trigger] contents[place],
                recording.events[event].kind->DetectedObjects_0.sequence_number,
            ),
    ensures
        ({
            let frame = recording.events[event].kind->DetectedObjects_0;
            &&& frame.image_time is None ==> frame.announcement_log_time is None
            &&& frame.image_time is Some ==> exists|place: int| #[trigger]
                tells_image_time(recording, messages, contents, frame, place)
        }),
{
    let frame = recording.events[event].kind->DetectedObjects_0;
    let sequence = frame.sequence_number;
    let count = messages.len() as int;
    last_announcement_counts(messages, contents, sequence, count);
    stream_events_come_from_messages(messages, contents, count);
    stream_associations_come_from_messages(messages, contents, count);
    every_message_makes_its_event(recording, messages, contents);
    let announced = stream_announcements(messages, contents, count);
    if announced.contains_key(sequence) {
        let place = choose|place: int| #[trigger]
            announces_last(contents, sequence, place, count);
        assert(announces(contents[place], sequence));
    }
    let sources = image_sources(messages, contents);
    let events = ordered_events(messages, contents);
    let stream = stream_events(messages, contents, count);
    stable_order_exists(event_keys(stream));
    let event_order = stable_order_of(event_keys(stream));
    assert(recording.events[event] == with_image_time(events[event], sources));
    assert(event_order[event] < stream.len());
    assert(events[event] == stream[event_order[event] as int]);
    let unsorted = stream_associations(messages, contents, count);
    let keys = association_keys(unsorted);
    stable_order_exists(keys);
    let order_of = stable_order_of(keys);
    let associations = ordered_associations(messages, contents);
    assert forall|i: int| 0 <= i < associations.len() implies order_of[i] < unsorted.len() && (
    #[trigger] associations[i]) == unsorted[order_of[i] as int] by {}
    assert forall|i: int, j: int|
        #![trigger associations[i], associations[j]]
        0 <= i <= j < associations.len() implies !comes_after(
        associations[i].log_time,
        associations[i].order,
        associations[j].log_time,
        associations[j].order,
    ) by {
        assert(associations[i] == unsorted[order_of[i] as int]);
        assert(associations[j] == unsorted[order_of[j] as int]);
        if i < j {
            assert(precedes(keys, order_of[i] as int, order_of[j] as int));
        }
    }
    if frame.image_time is Some {
        assert(sources.contains_key(sequence));
        sources_come_from_associations(events, associations, sequence);
        let i = choose|i: int|
            0 <= i < associations.len() && explains_source(
                events,
                #[trigger] associations[i],
                sequence,
                sources[sequence],
            );
        let association = associations[i];
        assert(association == unsorted[order_of[i] as int]);
        let place = association.order as int;
        let log_time = choose|log_time: WallTime| #[trigger]
            stands_for_detection(events, association, (sequence, log_time));
        let from = choose|from: int|
            #![trigger events[from]]
            0 <= from < events.len() && !is_recorded_after(events[from], association)
                && detection_of(events[from]) is Some && detection_of(events[from])->0.sequence_number
                == sequence && events[from].log_time == log_time;
        assert(recording.events[from] == with_image_time(events[from], sources));
        assert(comes_from_its_message(recording.events, messages, contents, from));
        assert(tells_image_time(recording, messages, contents, frame, place));
    }
}

/// The distance of two numbers.
pub open spec fn gap(a: int, b: int) -> int {
    if a < b {
        b - a
    } else {
        a - b
    }
}

/// Whether an image was taken within a tenth of a second of an instant, and none was taken nearer
/// to it; of two equally near the one taken earlier counts.
pub open spec fn is_image_near(images: Seq<StereoImageIndex>, time: Time, image: int) -> bool {
    &&& 0 <= image < images.len()
    &&& gap(images[image].embedded_time.nanos as int, time.nanos as int) <= 100_000_000
    &&& forall|other: int|
        0 <= other < images.len() ==> {
            let own_gap = gap(images[image].embedded_time.nanos as int, time.nanos as int);
            let other_gap = gap(
                (#[trigger] images[other]).embedded_time.nanos as int,
                time.nanos as int,
            );
            ||| own_gap < other_gap
            ||| own_gap == other_gap && images[image].embedded_time.nanos
                <= images[other].embedded_time.nanos
        }
}

/// Whether no image was taken within a tenth of a second of an instant.
pub open spec fn has_no_near_image(images: Seq<StereoImageIndex>, time: Time) -> bool {
    forall|other: int|
        0 <= other < images.len() ==> gap(
            (#[trigger] images[other]).embedded_time.nanos as int,
            time.nanos as int,
        ) > 100_000_000
}

/// Whether a list holds every place.
pub open spec fn lists_every_image(images: Seq<StereoImageIndex>, by_time: Seq<usize>) -> bool {
    forall|place: usize| place < images.len() ==> #[trigger] by_time.contains(place)
}

/// The image that is found for an instant was taken near it and none was taken nearer; where none
/// is found, none was taken near it.
pub proof fn found_image_is_nearest(
    images: Seq<StereoImageIndex>,
    by_time: Seq<usize>,
    time: Time,
)
    requires
        lists_by_embedded_time(images, by_time),
        lists_every_image(images, by_time),
        images.len() <= usize::MAX,
    ensures
        match nearest_image(images, by_time, time.nanos as int) {
            Some(image) => is_image_near(images, time, image as int),
            None => has_no_near_image(images, time),
        },
{
    let target = time.nanos as int;
    let found = nearest_image(images, by_time, target);
    let times = embedded_times(images, by_time);
    let next = upper_bound_exists(times, target);
    upper_bound_is(times, target, next);
    if next > 0 {
        assert(by_time[next - 1] < images.len());
    }
    if next < by_time.len() {
        assert(by_time[next] < images.len());
    }
    assert forall|other: int| 0 <= other < images.len() implies match found {
        Some(image) => image < images.len() && {
            let own_gap = gap(images[image as int].embedded_time.nanos as int, target);
            let other_gap = gap((#[trigger] images[other]).embedded_time.nanos as int, target);
            &&& own_gap <= 100_000_000
            &&& own_gap < other_gap || own_gap == other_gap
                && images[image as int].embedded_time.nanos <= images[other].embedded_time.nanos
        },
        None => gap(images[other].embedded_time.nanos as int, target) > 100_000_000,
    } by {
        assert(by_time.contains(other as usize));
        let place = choose|place: int| 0 <= place < by_time.len() && by_time[place] == other;
        nearest_image_is_nearest(images, by_time, target, place);
        assert(times[place] == images[other].embedded_time.nanos);
        if place < next {
            assert(times[place] <= times[next - 1]);
        } else {
            assert(times[next] <= times[place]);
        }
    }
    if found is Some {
        assert(is_image_near(images, time, found->0 as int));
    }
}

/// A recording lists every image by the time at which it was taken.
proof fn recordings_list_every_image(
    recording: RecordingView,
    messages: Seq<MessageView>,
    contents: Seq<MessageContent>,
)
    requires
        is_recording_of(recording, messages, contents),
        messages.len() <= usize::MAX,
    ensures
        is_consistent(recording),
        lists_every_image(recording.images, recording.by_time),
        recording.images.len() <= usize::MAX,
{
    recording_is_consistent(recording, messages, contents);
    stream_images_come_from_messages(messages, contents, messages.len() as int);
    stable_order_exists(image_keys(recording.images));
}

/// Whether the event at a place is a detection with an image time.
pub open spec fn is_timed_detection(event: RecordedEvent) -> bool {
    event.kind is DetectedObjects && event.kind->DetectedObjects_0.image_time is Some
}

/// What is known of the source of a detection.
proof fn timed_detections_have_sources(
    recording: RecordingView,
    messages: Seq<MessageView>,
    contents: Seq<MessageContent>,
    event: int,
)
    requires
        is_recording_of(recording, messages, contents),
        messages.len() <= usize::MAX,
        0 <= event < recording.events.len(),
    ensures
        ({
            let sources = image_sources(messages, contents);
            let events = ordered_events(messages, contents);
            &&& events.len() == recording.events.len()
            &&& recording.events[event] == with_image_time(events[event], sources)
            &&& recording.events[event].kind is DetectedObjects
                <==> events[event].kind is DetectedObjects
            &&& events[event].kind is DetectedObjects ==> {
                let frame = events[event].kind->DetectedObjects_0;
                let filled = recording.events[event].kind->DetectedObjects_0;
                &&& frame.image_time is None
                &&& filled.sequence_number == frame.sequence_number
                &&& filled.image_time is Some <==> sources.contains_key(frame.sequence_number)
                &&& filled.image_time is Some ==> filled.image_time
                    == Some(sources[frame.sequence_number].0)
            }
        }),
{
    let count = messages.len() as int;
    stream_events_come_from_messages(messages, contents, count);
    let stream = stream_events(messages, contents, count);
    stable_order_exists(event_keys(stream));
    let order_of = stable_order_of(event_keys(stream));
    let events = ordered_events(messages, contents);
    assert(order_of[event] < stream.len());
    assert(events[event] == stream[order_of[event] as int]);
}

/// The detection that belongs to an image is one with an image time near to which the image was
/// taken, none being nearer, or there is no image time for it. Where several belong to one image it
/// is the last of them. A detection with an image time belongs to an image exactly if one was taken
/// near that time.
pub proof fn detections_belong_to_the_nearest_image(
    recording: RecordingView,
    messages: Seq<MessageView>,
    contents: Seq<MessageContent>,
    event: int,
)
    requires
        is_recording_of(recording, messages, contents),
        messages.len() <= usize::MAX,
        0 <= event < recording.events.len(),
        is_timed_detection(recording.events[event]),
    ensures
        ({
            let time = recording.events[event].kind->DetectedObjects_0.image_time->0;
            &&& recording.by_image.len() == recording.images.len()
            &&& forall|image: int|
                0 <= image < recording.images.len() && #[trigger] recording.by_image[image] == Some(
                    event as usize,
                ) ==> is_image_near(recording.images, time, image)
            &&& !has_no_near_image(recording.images, time) ==> exists|image: int| #[trigger]
                is_image_near(recording.images, time, image) && recording.by_image[image] is Some
                    && recording.by_image[image]->0 >= event
        }),
{
    recordings_list_every_image(recording, messages, contents);
    timed_detections_have_sources(recording, messages, contents, event);
    let events = ordered_events(messages, contents);
    let sources = image_sources(messages, contents);
    let images = recording.images;
    let by_time = recording.by_time;
    let time = recording.events[event].kind->DetectedObjects_0.image_time->0;
    found_image_is_nearest(images, by_time, time);
    let belongs = detection_image(events, images, by_time, sources, event);
    assert(sources.contains_key(events[event].kind->DetectedObjects_0.sequence_number));
    stream_events_come_from_messages(messages, contents, messages.len() as int);
    assert forall|image: int|
        0 <= image < images.len() && #[trigger] recording.by_image[image] == Some(
            event as usize,
        ) implies is_image_near(images, time, image) by {
        assert(is_last_detection(
            events,
            images,
            by_time,
            sources,
            events.len() as int,
            image,
            recording.by_image[image],
        ));
        assert(!sources.is_empty());
    }
    if !has_no_near_image(images, time) {
        let image = belongs->0;
        assert(is_image_near(images, time, image));
        assert(is_last_detection(
            events,
            images,
            by_time,
            sources,
            events.len() as int,
            image,
            recording.by_image[image],
        ));
    }
}

/// Where a detection with an image time was seen is told exactly if an image was taken near that
/// time, and then by when an image was published than which none was taken nearer.
pub proof fn image_times_are_those_of_the_nearest_image(
    recording: RecordingView,
    messages: Seq<MessageView>,
    contents: Seq<MessageContent>,
    event: int,
)
    requires
        is_recording_of(recording, messages, contents),
        messages.len() <= usize::MAX,
        0 <= event < recording.events.len(),
        recording.events[event].kind is DetectedObjects,
    ensures
        ({
            let frame = recording.events[event].kind->DetectedObjects_0;
            let times = recording.image_times;
            match frame.image_time {
                Some(time) => {
                    &&& times.contains_key(frame.sequence_number) <==> !has_no_near_image(
                        recording.images,
                        time,
                    )
                    &&& times.contains_key(frame.sequence_number) ==> exists|image: int| #[trigger]
                        is_image_near(recording.images, time, image)
                            && times[frame.sequence_number] == recording.images[image].publish_time
                },
                None => !times.contains_key(frame.sequence_number),
            }
        }),
{
    recordings_list_every_image(recording, messages, contents);
    timed_detections_have_sources(recording, messages, contents, event);
    let frame = recording.events[event].kind->DetectedObjects_0;
    if let Some(time) = frame.image_time {
        found_image_is_nearest(recording.images, recording.by_time, time);
        if let Some(image) = nearest_image(
            recording.images,
            recording.by_time,
            time.nanos as int,
        ) {
            assert(is_image_near(recording.images, time, image as int));
        }
    }
}

/// The number of detections among the first `count` events.
pub open spec fn detection_count(events: Seq<RecordedEvent>, count: int) -> nat {
    events.take(count).filter(|event: RecordedEvent| event.kind is DetectedObjects).len()
}

/// Where no detection has an image time, they are counted as they come.
proof fn untimed_detections_are_counted(
    events: Seq<RecordedEvent>,
    filled: Seq<RecordedEvent>,
    count: int,
)
    requires
        0 <= count <= events.len() == filled.len(),
        forall|i: int|
            0 <= i < events.len() ==> ((#[trigger] filled[i]).kind is DetectedObjects
                <==> events[i].kind is DetectedObjects) && (events[i].kind is DetectedObjects
                ==> events[i].kind->DetectedObjects_0.image_time is None),
    ensures
        untimed_detections(events, count) == detection_count(filled, count),
    decreases count,
{
    reveal(Seq::filter);
    let is_detection = |event: RecordedEvent| event.kind is DetectedObjects;
    if count > 0 {
        untimed_detections_are_counted(events, filled, count - 1);
        assert(filled.take(count).drop_last() =~= filled.take(count - 1));
        assert(filled.take(count).last() == filled[count - 1]);
        assert(filled[count - 1].kind is DetectedObjects <==> events[count - 1].kind is
            DetectedObjects);
    }
}

/// A detection without an image time belongs to the image with the same place, counted among the
/// detections, where no image time was told for any detection; else it belongs to none.
pub proof fn other_detections_belong_to_images_in_turn(
    recording: RecordingView,
    messages: Seq<MessageView>,
    contents: Seq<MessageContent>,
    image: int,
)
    requires
        is_recording_of(recording, messages, contents),
        messages.len() <= usize::MAX,
        0 <= image < recording.images.len(),
        recording.by_image[image] is Some,
        !is_timed_detection(recording.events[recording.by_image[image]->0 as int]),
    ensures
        ({
            let event = recording.by_image[image]->0 as int;
            &&& event < recording.events.len()
            &&& recording.events[event].kind is DetectedObjects
            &&& detection_count(recording.events, event) == image
            &&& forall|other: int|
                0 <= other < recording.events.len() ==> !is_timed_detection(
                    #[trigger] recording.events[other],
                )
        }),
{
    recordings_list_every_image(recording, messages, contents);
    let events = ordered_events(messages, contents);
    let sources = image_sources(messages, contents);
    assert(is_last_detection(
        events,
        recording.images,
        recording.by_time,
        sources,
        events.len() as int,
        image,
        recording.by_image[image],
    ));
    let event = recording.by_image[image]->0 as int;
    assert forall|i: int| 0 <= i < events.len() implies ((#[trigger] recording.events[i]).kind is
        DetectedObjects <==> events[i].kind is DetectedObjects) && (events[i].kind is
        DetectedObjects ==> events[i].kind->DetectedObjects_0.image_time is None) by {
        timed_detections_have_sources(recording, messages, contents, i);
    }
    timed_detections_have_sources(recording, messages, contents, event);
    untimed_detections_are_counted(events, recording.events, event);
    assert forall|other: int| 0 <= other < recording.events.len() implies !is_timed_detection(
        #[trigger] recording.events[other],
    ) by {
        timed_detections_have_sources(recording, messages, contents, other);
    }
}

/// By the timestamps inside the messages a motion was measured between those that it tells. By
/// publishing times it was measured between the publishing of the images nearest to them; where
/// no image was taken near to one of them, its times are unknown.
pub proof fn motions_are_measured_between_their_images(
    recording: RecordingView,
    messages: Seq<MessageView>,
    contents: Seq<MessageContent>,
    delta: VisualOdometryDelta,
)
    requires
        is_recording_of(recording, messages, contents),
        messages.len() <= usize::MAX,
    ensures
        match measured_between(recording, delta, TimestampMode::Embedded) {
            Some((start, end)) => start.nanos == delta.previous_time.nanos && end.nanos
                == delta.current_time.nanos,
            None => false,
        },
        match measured_between(recording, delta, TimestampMode::McapPublish) {
            Some((start, end)) => {
                &&& is_published_near(recording.images, delta.previous_time, start)
                &&& is_published_near(recording.images, delta.current_time, end)
            },
            None => has_no_near_image(recording.images, delta.previous_time) || has_no_near_image(
                recording.images,
                delta.current_time,
            ),
        },
{
    near_images_align_times(recording, messages, contents, delta.previous_time);
    near_images_align_times(recording, messages, contents, delta.current_time);
}

/// Whether the image nearest to an instant was published at a time.
pub open spec fn is_published_near(
    images: Seq<StereoImageIndex>,
    time: Time,
    published: WallTime,
) -> bool {
    exists|image: int| #[trigger]
        is_image_near(images, time, image) && images[image].publish_time == published
}

/// The publishing time that goes with an instant is that of the nearest image. There is none exactly
/// if no image was taken near it.
pub proof fn near_images_align_times(
    recording: RecordingView,
    messages: Seq<MessageView>,
    contents: Seq<MessageContent>,
    time: Time,
)
    requires
        is_recording_of(recording, messages, contents),
        messages.len() <= usize::MAX,
    ensures
        match aligned_time(recording, time) {
            Some(published) => is_published_near(recording.images, time, published)
                && !has_no_near_image(recording.images, time),
            None => has_no_near_image(recording.images, time),
        },
{
    recordings_list_every_image(recording, messages, contents);
    found_image_is_nearest(recording.images, recording.by_time, time);
    if let Some(image) = nearest_image(recording.images, recording.by_time, time.nanos as int) {
        assert(is_image_near(recording.images, time, image as int));
    }
}

/// By publishing times a motion that is diagnosed ends when the image nearest to its end was
/// published, or when it was itself where no image was taken near. It starts when the image
/// nearest to its start was published; else where the motion before it ended; else as long before
/// its end as it tells; and its start is unknown where it tells that it started after its end.
pub proof fn diagnosed_motions_are_timed_by_images(
    recording: RecordingView,
    messages: Seq<MessageView>,
    contents: Seq<MessageContent>,
    event: RecordedEvent,
    delta: VisualOdometryDelta,
    previous_end: Option<WallTime>,
)
    requires
        is_recording_of(recording, messages, contents),
        messages.len() <= usize::MAX,
        is_recorded_time(event.publish_time),
    ensures
        ({
            let end = diagnostic_current(recording, event, delta);
            let start = diagnostic_previous(recording, event, delta, previous_end);
            let images = recording.images;
            &&& if has_no_near_image(images, delta.current_time) {
                end == event.publish_time
            } else {
                is_published_near(images, delta.current_time, end)
            }
            &&& if !has_no_near_image(images, delta.previous_time) {
                start is Some && is_published_near(images, delta.previous_time, start->0)
            } else if previous_end is Some {
                start == previous_end
            } else if delta.previous_time.nanos > delta.current_time.nanos {
                start is None
            } else {
                start is Some && start->0.nanos + delta.current_time.nanos == end.nanos
                    + delta.previous_time.nanos
            }
        }),
{
    near_images_align_times(recording, messages, contents, delta.previous_time);
    near_images_align_times(recording, messages, contents, delta.current_time);
    recordings_list_every_image(recording, messages, contents);
    if !has_no_near_image(recording.images, delta.current_time) {
        let image = nearest_image(
            recording.images,
            recording.by_time,
            delta.current_time.nanos as int,
        )->0 as int;
        found_image_is_nearest(recording.images, recording.by_time, delta.current_time);
        assert(is_recorded_time(recording.images[image].publish_time));
    }
}

/// The image that follows an instant was taken then or within a tenth of a second after it, and none
/// was taken in between. There is none exactly if none was taken then.
pub proof fn following_image_is_the_next_one(
    images: Seq<StereoImageIndex>,
    by_time: Seq<usize>,
    time: Time,
)
    requires
        lists_by_embedded_time(images, by_time),
        lists_every_image(images, by_time),
        images.len() <= usize::MAX,
    ensures
        match following_image(images, by_time, time.nanos as int) {
            Some(image) => {
                &&& image < images.len()
                &&& time.nanos <= images[image as int].embedded_time.nanos <= time.nanos
                    + 100_000_000
                &&& forall|other: int|
                    0 <= other < images.len() && time.nanos <= (
                    #[trigger] images[other]).embedded_time.nanos
                        ==> images[image as int].embedded_time.nanos
                        <= images[other].embedded_time.nanos
            },
            None => forall|other: int|
                0 <= other < images.len() ==> !(time.nanos <= (
                #[trigger] images[other]).embedded_time.nanos <= time.nanos + 100_000_000),
        },
{
    let target = time.nanos as int;
    let times = embedded_times(images, by_time);
    let next = upper_bound_exists(times, target - 1);
    assert(is_lower_bound(times, target, next));
    lower_bound_is(times, target, next);
    if next < by_time.len() {
        assert(by_time[next] < images.len());
        assert(times[next] == images[by_time[next] as int].embedded_time.nanos);
    }
    assert forall|other: int| 0 <= other < images.len() implies (#[trigger] images[other]
        ).embedded_time.nanos < target || next < by_time.len() && times[next]
        <= images[other].embedded_time.nanos by {
        assert(by_time.contains(other as usize));
        let place = choose|place: int| 0 <= place < by_time.len() && by_time[place] == other;
        assert(times[place] == images[other].embedded_time.nanos);
        if place >= next {
            assert(times[next] <= times[place]);
        }
    }
}

/// A detection adds to the number of those before it.
proof fn untimed_detections_grow(events: Seq<RecordedEvent>, first: int, second: int)
    requires
        0 <= first < second <= events.len(),
        events[first].kind is DetectedObjects,
        events[first].kind->DetectedObjects_0.image_time is None,
    ensures
        untimed_detections(events, first) < untimed_detections(events, second),
    decreases second,
{
    if second > first + 1 {
        untimed_detections_grow(events, first, second - 1);
    }
}

/// Where no image time is announced and no field marks are associated, the first detection belongs
/// to the first image, the second one to the second, and so on as long as there are images.
pub proof fn detections_belong_to_images_in_turn(
    recording: RecordingView,
    messages: Seq<MessageView>,
    contents: Seq<MessageContent>,
    event: int,
)
    requires
        is_recording_of(recording, messages, contents),
        messages.len() == contents.len() <= usize::MAX,
        forall|i: int|
            0 <= i < contents.len() ==> !((#[trigger] contents[i]) is DetectedObjectsAnnounce
                || contents[i] is FieldMarkAssociations),
        0 <= event < recording.events.len(),
        recording.events[event].kind is DetectedObjects,
        detection_count(recording.events, event) < recording.images.len(),
    ensures
        recording.by_image[detection_count(recording.events, event) as int] == Some(event as usize),
{
    recordings_list_every_image(recording, messages, contents);
    let count = messages.len() as int;
    let events = ordered_events(messages, contents);
    let sources = image_sources(messages, contents);
    let associations = ordered_associations(messages, contents);
    every_association_is_matched(messages, contents);
    if associations.len() > 0 {
        assert(contents[associations[0].order as int] is FieldMarkAssociations);
    }
    assert forall|sequence: i64| !(#[trigger] sources.contains_key(sequence)) by {
        last_announcement_counts(messages, contents, sequence, count);
        if stream_announcements(messages, contents, count).contains_key(sequence) {
            let place = choose|place: int| #[trigger]
                announces_last(contents, sequence, place, count);
            assert(announces(contents[place], sequence));
        }
    }
    assert(sources.is_empty());
    assert forall|i: int| 0 <= i < events.len() implies ((#[trigger] recording.events[i]).kind is
        DetectedObjects <==> events[i].kind is DetectedObjects) && (events[i].kind is
        DetectedObjects ==> events[i].kind->DetectedObjects_0.image_time is None) by {
        timed_detections_have_sources(recording, messages, contents, i);
    }
    timed_detections_have_sources(recording, messages, contents, event);
    untimed_detections_are_counted(events, recording.events, event);
    let image = detection_count(recording.events, event) as int;
    assert(detection_image(events, recording.images, recording.by_time, sources, event) == Some(
        image,
    ));
    let slot = recording.by_image[image];
    assert(is_last_detection(
        events,
        recording.images,
        recording.by_time,
        sources,
        events.len() as int,
        image,
        slot,
    ));
    let other = slot->0 as int;
    timed_detections_have_sources(recording, messages, contents, other);
    if other < event {
        untimed_detections_grow(events, other, event);
    }
    if event < other {
        untimed_detections_grow(events, event, other);
    }
}

} // verus!
