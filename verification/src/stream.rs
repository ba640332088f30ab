//! What the messages of a recording contribute to it, in the order in which they were recorded.

use crate::event::{
    DetectedObjectsFrame, EventKind, FieldMarkAssociationTiming, RecordedEvent, StereoImageIndex,
    VisualOdometryDelta,
};
use crate::messages::{MessageView, RecordedMessage};
use crate::time::{system_time_from_nanos, Time, WallTime};
use crate::topics::{classify_topic, is_same_text, topic_named, topics_are_known_by_name, Topic};
use crate::wire::{cdr_payload_spec, decode_time_prefix, time_prefix, TIME_PREFIX_LENGTH};
use vstd::prelude::*;

verus! {

broadcast use {vstd::std_specs::btree::group_btree_axioms, vstd::laws_cmp::group_laws_cmp};

/// The decoded payload of a message, reduced to what decides how it is aligned in time.
#[derive(Clone, Copy, Debug, PartialEq, Eq, Structural)]
pub enum MessageContent {
    ImuState,
    StereoImagePair,
    StereoCameraInfo,
    RobotKinematics(Time),
    CameraMatrix(Time),
    DetectedObjects,
    DetectedObjectsAnnounce { time: Time, sequence_number: i64 },
    FieldMarkAssociations(Time),
    FieldDimensions,
    Localization { localized: bool },
    VisualOdometry(VisualOdometryDelta),
    CalibratedIntrinsics,
    GlobalLocalizationDebug { present: bool },
    SolveDiagnostics(Time),
    Other,
}

impl MessageContent {
    /// The topic that carries such a payload.
    pub open spec fn topic(self) -> Topic {
        match self {
            MessageContent::ImuState => Topic::ImuState,
            MessageContent::StereoImagePair => Topic::StereoImagePair,
            MessageContent::StereoCameraInfo => Topic::StereoCameraInfo,
            MessageContent::RobotKinematics(_) => Topic::RobotKinematics,
            MessageContent::CameraMatrix(_) => Topic::CameraMatrix,
            MessageContent::DetectedObjects => Topic::DetectedObjects,
            MessageContent::DetectedObjectsAnnounce { .. } => Topic::DetectedObjectsAnnounce,
            MessageContent::FieldMarkAssociations(_) => Topic::FieldMarkAssociations,
            MessageContent::FieldDimensions => Topic::FieldDimensions,
            MessageContent::Localization { .. } => Topic::Localization,
            MessageContent::VisualOdometry(_) => Topic::VisualOdometry,
            MessageContent::CalibratedIntrinsics => Topic::CalibratedIntrinsics,
            MessageContent::GlobalLocalizationDebug { .. } => Topic::GlobalLocalizationDebug,
            MessageContent::SolveDiagnostics(_) => Topic::SolveDiagnostics,
            MessageContent::Other => Topic::Other,
        }
    }
}

/// Whether each payload is one that the topic of its message carries.
pub open spec fn contents_match(
    messages: Seq<MessageView>,
    contents: Seq<MessageContent>,
) -> bool {
    &&& messages.len() == contents.len()
    &&& forall|i: int|
        0 <= i < messages.len() ==> #[trigger] contents[i].topic() == topic_named(messages[i].topic)
}

/// Whether messages of a topic start with a timestamp that is read from their bytes.
pub open spec fn needs_time_prefix(topic: Topic) -> bool {
    topic == Topic::FieldMarkAssociations || topic == Topic::StereoImagePair
}

/// Whether a message is long enough for the timestamp in front of it, where it needs one.
pub open spec fn has_time_prefix(message: MessageView) -> bool {
    needs_time_prefix(topic_named(message.topic)) ==> cdr_payload_spec(message.data).len()
        >= TIME_PREFIX_LENGTH
}

/// The timestamp in front of a message.
pub open spec fn prefix_time(message: MessageView) -> Time {
    Time { nanos: time_prefix(cdr_payload_spec(message.data)) as i64 }
}

/// The wall-clock instant `nanos` nanoseconds after the epoch.
pub open spec fn instant(nanos: u64) -> WallTime {
    WallTime { nanos: nanos as i128 }
}

/// What the event of a message is about, where it makes one.
pub open spec fn event_kind(message: MessageView, content: MessageContent) -> Option<EventKind> {
    match content {
        MessageContent::ImuState => Some(EventKind::Imu),
        MessageContent::VisualOdometry(delta) => Some(EventKind::VisualOdometry(delta)),
        MessageContent::RobotKinematics(time) => Some(EventKind::RobotKinematics(time)),
        MessageContent::CameraMatrix(time) => Some(EventKind::CameraMatrix(time)),
        MessageContent::DetectedObjects => Some(
            EventKind::DetectedObjects(
                DetectedObjectsFrame {
                    image_time: None,
                    publish_time: instant(message.publish_time),
                    announcement_log_time: None,
                    sequence_number: message.sequence as i64,
                },
            ),
        ),
        MessageContent::FieldMarkAssociations(time) => Some(EventKind::FieldMarkAssociations(time)),
        MessageContent::Localization { localized } => Some(
            EventKind::RecordedLocalization { localized },
        ),
        MessageContent::CalibratedIntrinsics => Some(EventKind::CalibratedIntrinsics),
        MessageContent::GlobalLocalizationDebug { present } => Some(
            EventKind::GlobalLocalizationDebug { present },
        ),
        MessageContent::SolveDiagnostics(time) => Some(EventKind::SolveDiagnostics(time)),
        _ => None,
    }
}

/// The events that the first `count` messages make.
pub open spec fn stream_events(
    messages: Seq<MessageView>,
    contents: Seq<MessageContent>,
    count: int,
) -> Seq<RecordedEvent>
    decreases count,
{
    if count <= 0 {
        Seq::empty()
    } else {
        let earlier = stream_events(messages, contents, count - 1);
        let message = messages[count - 1];
        match event_kind(message, contents[count - 1]) {
            Some(kind) => earlier.push(
                RecordedEvent {
                    order: (count - 1) as usize,
                    log_time: instant(message.log_time),
                    publish_time: instant(message.publish_time),
                    kind,
                },
            ),
            None => earlier,
        }
    }
}

/// The images among the first `count` messages.
pub open spec fn stream_images(
    messages: Seq<MessageView>,
    contents: Seq<MessageContent>,
    count: int,
) -> Seq<StereoImageIndex>
    decreases count,
{
    if count <= 0 {
        Seq::empty()
    } else {
        let earlier = stream_images(messages, contents, count - 1);
        let message = messages[count - 1];
        if contents[count - 1] is StereoImagePair {
            earlier.push(
                StereoImageIndex {
                    order: (count - 1) as usize,
                    log_time: instant(message.log_time),
                    publish_time: instant(message.publish_time),
                    embedded_time: prefix_time(message),
                },
            )
        } else {
            earlier
        }
    }
}

/// The image times that the first `count` messages announce.
pub open spec fn stream_announcements(
    messages: Seq<MessageView>,
    contents: Seq<MessageContent>,
    count: int,
) -> Map<i64, (Time, WallTime)>
    decreases count,
{
    if count <= 0 {
        Map::empty()
    } else {
        let earlier = stream_announcements(messages, contents, count - 1);
        match contents[count - 1] {
            MessageContent::DetectedObjectsAnnounce { time, sequence_number } => earlier.insert(
                sequence_number,
                (time, instant(messages[count - 1].log_time)),
            ),
            _ => earlier,
        }
    }
}

/// The timing of the field-mark associations among the first `count` messages.
pub open spec fn stream_associations(
    messages: Seq<MessageView>,
    contents: Seq<MessageContent>,
    count: int,
) -> Seq<FieldMarkAssociationTiming>
    decreases count,
{
    if count <= 0 {
        Seq::empty()
    } else {
        let earlier = stream_associations(messages, contents, count - 1);
        let message = messages[count - 1];
        if contents[count - 1] is FieldMarkAssociations {
            earlier.push(
                FieldMarkAssociationTiming {
                    order: (count - 1) as usize,
                    log_time: instant(message.log_time),
                    source_time: prefix_time(message),
                },
            )
        } else {
            earlier
        }
    }
}

/// The place of the first of the first `count` messages that carries a given payload.
pub open spec fn first_with_topic(
    contents: Seq<MessageContent>,
    topic: Topic,
    count: int,
) -> Option<usize>
    decreases count,
{
    if count <= 0 {
        None
    } else {
        let earlier = first_with_topic(contents, topic, count - 1);
        if earlier is None && contents[count - 1].topic() == topic {
            Some((count - 1) as usize)
        } else {
            earlier
        }
    }
}

/// The place of the last of the first `count` messages that carries a given payload.
pub open spec fn last_with_topic(
    contents: Seq<MessageContent>,
    topic: Topic,
    count: int,
) -> Option<usize>
    decreases count,
{
    if count <= 0 {
        None
    } else if contents[count - 1].topic() == topic {
        Some((count - 1) as usize)
    } else {
        last_with_topic(contents, topic, count - 1)
    }
}

/// The number of the first `count` messages with a given topic.
pub open spec fn topic_messages(messages: Seq<MessageView>, topic: Seq<char>, count: int) -> nat
    decreases count,
{
    if count <= 0 {
        0
    } else {
        topic_messages(messages, topic, count - 1) + if messages[count - 1].topic == topic {
            1nat
        } else {
            0nat
        }
    }
}

/// Topics with the number of their messages.
pub open spec fn topic_count_views(counts: Seq<(String, usize)>) -> Seq<(Seq<char>, nat)> {
    counts.map_values(|entry: (String, usize)| (entry.0@, entry.1 as nat))
}

/// Whether `counts` lists each topic of the first `count` messages once, with the number of its
/// messages.
pub open spec fn counts_topics(
    counts: Seq<(Seq<char>, nat)>,
    messages: Seq<MessageView>,
    count: int,
) -> bool {
    &&& forall|i: int, j: int|
        #![trigger counts[i], counts[j]]
        0 <= i < j < counts.len() ==> counts[i].0 != counts[j].0
    &&& forall|i: int|
        0 <= i < counts.len() ==> #[trigger] counts[i].1 == topic_messages(
            messages,
            counts[i].0,
            count,
        ) && counts[i].1 > 0
    &&& forall|topic: Seq<char>|
        #[trigger] topic_messages(messages, topic, count) > 0 ==> exists|i: int|
            0 <= i < counts.len() && #[trigger] counts[i].0 == topic
}

/// No topic has more messages than there are.
pub proof fn topic_messages_are_bounded(messages: Seq<MessageView>, topic: Seq<char>, count: int)
    requires
        0 <= count,
    ensures
        topic_messages(messages, topic, count) <= count,
    decreases count,
{
    if count > 0 {
        topic_messages_are_bounded(messages, topic, count - 1);
    }
}

/// Why a message cannot be taken up.
#[derive(Clone, Copy, Debug, PartialEq, Eq, Structural)]
pub enum LoadError {
    /// The message at the place `order` is too short for the timestamp in front of it.
    ShortTimePrefix { order: usize },
    /// No message carries a camera matrix.
    NoCameraMatrix,
}

/// Reads the timestamp in front of a message, where its topic needs one.
pub fn read_time_prefix(message: &RecordedMessage, order: usize) -> (time: Result<
    Option<Time>,
    LoadError,
>)
    ensures
        match time {
            Ok(Some(time)) => needs_time_prefix(topic_named(message.topic@)) && has_time_prefix(
                message@,
            ) && time == prefix_time(message@),
            Ok(None) => !needs_time_prefix(topic_named(message.topic@)),
            Err(error) => !has_time_prefix(message@) && error == (LoadError::ShortTimePrefix {
                order,
            }),
        },
{
    match classify_topic(message.topic.as_str()) {
        Topic::FieldMarkAssociations | Topic::StereoImagePair => {
            match decode_time_prefix(message.data.as_slice()) {
                Some(time) => Ok(Some(time)),
                None => Err(LoadError::ShortTimePrefix { order }),
            }
        },
        _ => Ok(None),
    }
}

/// What the event of a message is about, where it makes one.
pub fn read_event_kind(message: &RecordedMessage, content: MessageContent) -> (kind: Option<
    EventKind,
>)
    ensures
        kind == event_kind(message@, content),
{
    match content {
        MessageContent::ImuState => Some(EventKind::Imu),
        MessageContent::VisualOdometry(delta) => Some(EventKind::VisualOdometry(delta)),
        MessageContent::RobotKinematics(time) => Some(EventKind::RobotKinematics(time)),
        MessageContent::CameraMatrix(time) => Some(EventKind::CameraMatrix(time)),
        MessageContent::DetectedObjects => Some(
            EventKind::DetectedObjects(
                DetectedObjectsFrame {
                    image_time: None,
                    publish_time: system_time_from_nanos(message.publish_time),
                    announcement_log_time: None,
                    sequence_number: message.sequence as i64,
                },
            ),
        ),
        MessageContent::FieldMarkAssociations(time) => Some(EventKind::FieldMarkAssociations(time)),
        MessageContent::Localization { localized } => Some(
            EventKind::RecordedLocalization { localized },
        ),
        MessageContent::CalibratedIntrinsics => Some(EventKind::CalibratedIntrinsics),
        MessageContent::GlobalLocalizationDebug { present } => Some(
            EventKind::GlobalLocalizationDebug { present },
        ),
        MessageContent::SolveDiagnostics(time) => Some(EventKind::SolveDiagnostics(time)),
        MessageContent::StereoImagePair => None,
        MessageContent::StereoCameraInfo => None,
        MessageContent::DetectedObjectsAnnounce { .. } => None,
        MessageContent::FieldDimensions => None,
        MessageContent::Other => None,
    }
}

/// Counts one more message of a topic.
pub(crate) fn count_topic(counts: &mut Vec<(String, usize)>, topic: &str, Ghost(messages): Ghost<
    Seq<MessageView>,
>, Ghost(count): Ghost<int>)
    requires
        0 <= count < messages.len() <= usize::MAX,
        messages[count].topic == topic@,
        counts_topics(topic_count_views(old(counts)@), messages, count),
    ensures
        counts_topics(topic_count_views(final(counts)@), messages, count + 1),
{
    proof {
        assert forall|other: Seq<char>|
            #[trigger] topic_messages(messages, other, count) <= count by {
            topic_messages_are_bounded(messages, other, count);
        }
    }
    let ghost before = topic_count_views(counts@);
    let mut index: usize = 0;
    while index < counts.len()
        invariant
            before == topic_count_views(counts@),
            index <= counts@.len(),
            0 <= count < messages.len() <= usize::MAX,
            messages[count].topic == topic@,
            counts_topics(before, messages, count),
            forall|other: Seq<char>|
                #[trigger] topic_messages(messages, other, count) <= count,
            forall|i: int| 0 <= i < index ==> #[trigger] before[i].0 != topic@,
            counts@ == old(counts)@,
        decreases counts@.len() - index,
    {
        if is_same_text(counts[index].0.as_str(), topic) {
            assert(before[index as int].0 == topic@);
            let number: usize = counts[index].1;
            assert(before[index as int].1 == number);
            counts[index].1 = number + 1;
            proof {
                let after = topic_count_views(counts@);
                assert(after =~= before.update(
                    index as int,
                    (topic@, (before[index as int].1 + 1) as nat),
                ));
                assert forall|other: Seq<char>|
                    #[trigger] topic_messages(messages, other, count + 1) > 0 implies exists|i: int|
                    0 <= i < after.len() && #[trigger] after[i].0 == other by {
                    if other == topic@ {
                        assert(after[index as int].0 == other);
                    } else {
                        assert(topic_messages(messages, other, count) > 0);
                        let i = choose|i: int|
                            0 <= i < before.len() && #[trigger] before[i].0 == other;
                        assert(after[i].0 == other);
                    }
                }
            }
            return;
        }
        assert(before[index as int].0 != topic@);
        index = index + 1;
    }
    proof {
        if topic_messages(messages, topic@, count) > 0 {
            let i = choose|i: int| 0 <= i < before.len() && #[trigger] before[i].0 == topic@;
            assert(before[i].0 != topic@);
        }
    }
    counts.push((topic.to_string(), 1));
    proof {
        let after = topic_count_views(counts@);
        assert(after =~= before.push((topic@, 1nat)));
        assert forall|other: Seq<char>|
            #[trigger] topic_messages(messages, other, count + 1) > 0 implies exists|i: int|
            0 <= i < after.len() && #[trigger] after[i].0 == other by {
            if other == topic@ {
                assert(after[before.len() as int].0 == other);
            } else {
                assert(topic_messages(messages, other, count) > 0);
                let i = choose|i: int| 0 <= i < before.len() && #[trigger] before[i].0 == other;
                assert(after[i].0 == other);
            }
        }
    }
}

/// Payloads go by the names of the topics of their messages, and so does whether a message starts
/// with a timestamp: pictures and field-mark associations do.
pub proof fn payloads_go_by_topic_names(
    messages: Seq<MessageView>,
    contents: Seq<MessageContent>,
    i: int,
)
    requires
        contents_match(messages, contents),
        0 <= i < messages.len(),
    ensures
        contents[i] is ImuState <==> messages[i].topic == "inputs/imu_state"@,
        contents[i] is StereoImagePair <==> messages[i].topic == "inputs/stereo_image_pair"@,
        contents[i] is StereoCameraInfo <==> messages[i].topic == "inputs/stereo_camera_info"@,
        contents[i] is RobotKinematics <==> messages[i].topic == "robot_kinematics"@,
        contents[i] is CameraMatrix <==> messages[i].topic == "camera_matrix"@,
        contents[i] is DetectedObjects <==> messages[i].topic == "detected_objects"@,
        contents[i] is DetectedObjectsAnnounce <==> messages[i].topic
            == "detected_objects/announce"@,
        contents[i] is FieldMarkAssociations <==> messages[i].topic
            == "field_mark_association/associations"@,
        contents[i] is FieldDimensions <==> messages[i].topic == "field_dimensions"@,
        contents[i] is Localization <==> messages[i].topic == "localization"@,
        contents[i] is VisualOdometry <==> messages[i].topic
            == "visual_odometry/current_left_camera_to_previous_left_camera"@,
        contents[i] is CalibratedIntrinsics <==> messages[i].topic
            == "debug/calibrated_intrinsics"@,
        contents[i] is GlobalLocalizationDebug <==> messages[i].topic
            == "debug/global_localization"@,
        contents[i] is SolveDiagnostics <==> messages[i].topic == "debug/solve_diagnostics"@,
        has_time_prefix(messages[i]) <==> !(contents[i] is StereoImagePair || contents[i] is
            FieldMarkAssociations) || cdr_payload_spec(messages[i].data).len() >= 12,
{
    topics_are_known_by_name(messages[i].topic);
    assert(contents[i].topic() == topic_named(messages[i].topic));
}

/// The messages of a topic are those under its name.
pub proof fn topic_messages_are_counted(messages: Seq<MessageView>, topic: Seq<char>, count: int)
    requires
        0 <= count <= messages.len(),
    ensures
        topic_messages(messages, topic, count) == messages.take(count).filter(
            |message: MessageView| message.topic == topic,
        ).len(),
    decreases count,
{
    reveal(Seq::filter);
    if count > 0 {
        topic_messages_are_counted(messages, topic, count - 1);
        assert(messages.take(count).drop_last() =~= messages.take(count - 1));
        assert(messages.take(count).last() == messages[count - 1]);
    }
}

} // verus!
