//! A loaded recording.

use crate::detections::{
    detection_image, detection_of, embedded_times, index_detected_objects_by_image,
    index_detected_objects_image_times, is_last_detection, lists_by_embedded_time, nearest_image,
    ImageSources,
};
use crate::event::{
    DetectedObjectsFrame, EventKind, FieldMarkAssociationTiming, RecordedEvent, StereoImageId,
    StereoImageIndex,
};
use crate::matching::{
    index_detected_objects_sources_from_field_mark_associations, match_associations,
};
use crate::messages::{message_views, MessageView, RecordedMessage};
use crate::order::{
    is_chronological, is_stable_order, precedes, sort_by_keys, sorting_keeps_items, stable_order,
    stable_order_exists, stable_order_is_unique, stable_order_of, stably_sorted, SortKey,
};
use crate::snapshot::SnapshotIndex;
use crate::stream::{
    contents_match, count_topic, counts_topics, first_with_topic, has_time_prefix, instant,
    last_with_topic, read_event_kind, read_time_prefix, stream_announcements, stream_associations,
    stream_events, stream_images, topic_count_views, topic_messages, LoadError, MessageContent,
};
use crate::replay::TimestampMode;
use crate::time::{
    is_recorded_time, nanos_since_epoch, nanos_since_epoch_spec, system_time_from_nanos, Time,
    WallTime,
};
use crate::topics::{is_same_text, topic_named, Topic};
use std::collections::BTreeMap;
use vstd::prelude::*;
use vstd::std_specs::iter::IteratorSpec;

verus! {

broadcast use {vstd::std_specs::btree::group_btree_axioms, vstd::laws_cmp::group_laws_cmp};

/// The contents of a recording.
pub struct RecordingView {
    /// Events in the order in which they were recorded.
    pub events: Seq<RecordedEvent>,
    /// Images in the order in which they were taken.
    pub images: Seq<StereoImageIndex>,
    /// Places of the images in the order in which they were taken.
    pub by_time: Seq<usize>,
    /// For each image the event whose detection belongs to it.
    pub by_image: Seq<Option<usize>>,
    /// By sequence number of a detection, when its image was published.
    pub image_times: Map<i64, WallTime>,
    /// The first message with a camera matrix.
    pub first_camera_matrix: usize,
    /// The last message with the stereo camera info.
    pub stereo_camera_info: Option<usize>,
    /// The last message with the field dimensions.
    pub field_dimensions: Option<usize>,
    /// The topics with the number of their messages.
    pub topic_counts: Seq<(Seq<char>, nat)>,
}

/// The key by which an event is sorted: when and where in the stream it was recorded.
pub open spec fn event_key(event: RecordedEvent) -> SortKey {
    (nanos_since_epoch_spec(event.log_time) as i128, event.order)
}

/// The keys by which events are sorted.
pub open spec fn event_keys(events: Seq<RecordedEvent>) -> Seq<SortKey> {
    events.map_values(|event: RecordedEvent| event_key(event))
}

/// The key by which an image is sorted: when it was taken and where in the stream it was recorded.
pub open spec fn image_key(image: StereoImageIndex) -> SortKey {
    (image.embedded_time.nanos as i128, image.order)
}

/// The keys by which images are sorted.
pub open spec fn image_keys(images: Seq<StereoImageIndex>) -> Seq<SortKey> {
    images.map_values(|image: StereoImageIndex| image_key(image))
}

/// The key by which an association is sorted: when and where in the stream it was recorded.
pub open spec fn association_key(association: FieldMarkAssociationTiming) -> SortKey {
    (nanos_since_epoch_spec(association.log_time) as i128, association.order)
}

/// The keys by which associations are sorted.
pub open spec fn association_keys(associations: Seq<FieldMarkAssociationTiming>) -> Seq<SortKey> {
    associations.map_values(|association: FieldMarkAssociationTiming| association_key(association))
}

/// The event with the image time of its detection filled in from `sources`.
pub open spec fn with_image_time(
    event: RecordedEvent,
    sources: Map<i64, (Time, WallTime)>,
) -> RecordedEvent {
    match event.kind {
        EventKind::DetectedObjects(frame) if sources.contains_key(frame.sequence_number) => {
            let source = sources[frame.sequence_number];
            RecordedEvent {
                kind: EventKind::DetectedObjects(
                    DetectedObjectsFrame {
                        image_time: Some(source.0),
                        announcement_log_time: Some(source.1),
                        ..frame
                    },
                ),
                ..event
            }
        },
        _ => event,
    }
}

/// The events with the image times of detections filled in from `sources`.
pub open spec fn with_image_times(
    events: Seq<RecordedEvent>,
    sources: Map<i64, (Time, WallTime)>,
) -> Seq<RecordedEvent> {
    events.map_values(|event: RecordedEvent| with_image_time(event, sources))
}

/// The events that messages make, in the order in which they were recorded.
pub open spec fn ordered_events(
    messages: Seq<MessageView>,
    contents: Seq<MessageContent>,
) -> Seq<RecordedEvent> {
    let events = stream_events(messages, contents, messages.len() as int);
    stably_sorted(events, event_keys(events))
}

/// The images among messages, in the order in which they were taken.
pub open spec fn ordered_images(
    messages: Seq<MessageView>,
    contents: Seq<MessageContent>,
) -> Seq<StereoImageIndex> {
    let images = stream_images(messages, contents, messages.len() as int);
    stably_sorted(images, image_keys(images))
}

/// The associations among messages, in the order in which they were recorded.
pub open spec fn ordered_associations(
    messages: Seq<MessageView>,
    contents: Seq<MessageContent>,
) -> Seq<FieldMarkAssociationTiming> {
    let associations = stream_associations(messages, contents, messages.len() as int);
    stably_sorted(associations, association_keys(associations))
}

/// The image times of detections: as announced, else as told by field-mark associations.
pub open spec fn image_sources(
    messages: Seq<MessageView>,
    contents: Seq<MessageContent>,
) -> Map<i64, (Time, WallTime)> {
    let associations = ordered_associations(messages, contents);
    match_associations(
        ordered_events(messages, contents),
        associations,
        associations.len() as int,
    ).sources.union_prefer_right(
        stream_announcements(messages, contents, messages.len() as int),
    )
}

/// Whether a recording holds what its messages contribute.
pub open spec fn is_recording_of(
    recording: RecordingView,
    messages: Seq<MessageView>,
    contents: Seq<MessageContent>,
) -> bool {
    let events = ordered_events(messages, contents);
    let sources = image_sources(messages, contents);
    let count = messages.len() as int;
    &&& recording.events == with_image_times(events, sources)
    &&& recording.images == ordered_images(messages, contents)
    &&& recording.by_time == stable_order_of(image_keys(recording.images))
    &&& recording.by_image.len() == recording.images.len()
    &&& forall|image: int|
        0 <= image < recording.images.len() ==> is_last_detection(
            events,
            recording.images,
            recording.by_time,
            sources,
            events.len() as int,
            image,
            #[trigger] recording.by_image[image],
        )
    &&& are_image_times(recording.image_times, recording.images, recording.by_time, sources)
    &&& first_with_topic(contents, Topic::CameraMatrix, count) == Some(
        recording.first_camera_matrix,
    )
    &&& recording.stereo_camera_info == last_with_topic(contents, Topic::StereoCameraInfo, count)
    &&& recording.field_dimensions == last_with_topic(contents, Topic::FieldDimensions, count)
    &&& counts_topics(recording.topic_counts, messages, count)
}

/// Whether `times` tells for each detection with a known image when that image was published.
pub open spec fn are_image_times(
    times: Map<i64, WallTime>,
    images: Seq<StereoImageIndex>,
    by_time: Seq<usize>,
    sources: Map<i64, (Time, WallTime)>,
) -> bool {
    &&& forall|sequence: i64|
        #![trigger times.contains_key(sequence)]
        times.contains_key(sequence) <==> sources.contains_key(sequence) && nearest_image(
            images,
            by_time,
            sources[sequence].0.nanos as int,
        ) is Some
    &&& forall|sequence: i64|
        times.contains_key(sequence) ==> #[trigger] times[sequence] == images[nearest_image(
            images,
            by_time,
            sources[sequence].0.nanos as int,
        )->0 as int].publish_time
}

/// The times at which images were taken.
pub open spec fn image_times(images: Seq<StereoImageIndex>) -> Seq<int> {
    Seq::new(images.len(), |i: int| images[i].embedded_time.nanos as int)
}

/// Whether the parts of a recording fit together.
pub open spec fn is_consistent(recording: RecordingView) -> bool {
    &&& is_chronological(image_times(recording.images))
    &&& lists_by_embedded_time(recording.images, recording.by_time)
    &&& recording.by_image.len() == recording.images.len()
    &&& forall|image: int|
        0 <= image < recording.by_image.len() ==> match #[trigger] recording.by_image[image] {
            Some(event) => event < recording.events.len()
                && recording.events[event as int].kind is DetectedObjects,
            None => true,
        }
    &&& forall|i: int|
        #![trigger recording.events[i]]
        0 <= i < recording.events.len() ==> is_recorded_time(recording.events[i].log_time)
            && is_recorded_time(recording.events[i].publish_time) && is_recorded_time(
            recording.events[i].display_time_spec(),
        )
    &&& forall|i: int|
        #![trigger recording.images[i]]
        0 <= i < recording.images.len() ==> is_recorded_time(recording.images[i].log_time)
            && is_recorded_time(recording.images[i].publish_time)
}

/// A loaded recording: its events, its images, and what aligns them in time.
pub struct Recording {
    events: Vec<RecordedEvent>,
    images: Vec<StereoImageIndex>,
    images_by_embedded_time: Vec<usize>,
    detected_objects_by_image: Vec<Option<usize>>,
    detected_objects_image_times: BTreeMap<i64, WallTime>,
    snapshot_index: SnapshotIndex,
    first_camera_matrix: usize,
    stereo_camera_info: Option<usize>,
    field_dimensions: Option<usize>,
    topic_counts: Vec<(String, usize)>,
}

impl View for Recording {
    type V = RecordingView;

    closed spec fn view(&self) -> RecordingView {
        RecordingView {
            events: self.events@,
            images: self.images@,
            by_time: self.images_by_embedded_time@,
            by_image: self.detected_objects_by_image@,
            image_times: self.detected_objects_image_times@,
            first_camera_matrix: self.first_camera_matrix,
            stereo_camera_info: self.stereo_camera_info,
            field_dimensions: self.field_dimensions,
            topic_counts: topic_count_views(self.topic_counts@),
        }
    }
}

/// Sorts events by when and where in the stream they were recorded.
fn sort_events(events: Vec<RecordedEvent>) -> (sorted: Vec<RecordedEvent>)
    ensures
        sorted@ == stably_sorted(events@, event_keys(events@)),
        is_stable_order(event_keys(events@), stable_order_of(event_keys(events@))),
{
    let mut keys: Vec<SortKey> = Vec::new();
    let mut index: usize = 0;
    while index < events.len()
        invariant
            index <= events@.len(),
            keys@.len() == index,
            forall|i: int| 0 <= i < index ==> keys@[i] == event_key(events@[i]),
        decreases events@.len() - index,
    {
        keys.push((nanos_since_epoch(events[index].log_time) as i128, events[index].order));
        index = index + 1;
    }
    assert(keys@ =~= event_keys(events@));
    sort_by_keys(events.as_slice(), keys.as_slice())
}

/// The keys by which images are sorted.
fn collect_image_keys(images: &Vec<StereoImageIndex>) -> (keys: Vec<SortKey>)
    ensures
        keys@ == image_keys(images@),
{
    let mut keys: Vec<SortKey> = Vec::new();
    let mut index: usize = 0;
    while index < images.len()
        invariant
            index <= images@.len(),
            keys@.len() == index,
            forall|i: int| 0 <= i < index ==> keys@[i] == image_key(images@[i]),
        decreases images@.len() - index,
    {
        keys.push((images[index].embedded_time.nanos as i128, images[index].order));
        index = index + 1;
    }
    assert(keys@ =~= image_keys(images@));
    keys
}

/// Sorts associations by when and where in the stream they were recorded.
fn sort_associations(associations: Vec<FieldMarkAssociationTiming>) -> (sorted: Vec<
    FieldMarkAssociationTiming,
>)
    ensures
        sorted@ == stably_sorted(associations@, association_keys(associations@)),
{
    let mut keys: Vec<SortKey> = Vec::new();
    let mut index: usize = 0;
    while index < associations.len()
        invariant
            index <= associations@.len(),
            keys@.len() == index,
            forall|i: int| 0 <= i < index ==> keys@[i] == association_key(associations@[i]),
        decreases associations@.len() - index,
    {
        let association = associations[index];
        keys.push((nanos_since_epoch(association.log_time) as i128, association.order));
        index = index + 1;
    }
    assert(keys@ =~= association_keys(associations@));
    sort_by_keys(associations.as_slice(), keys.as_slice())
}

/// Adds to `announced` the sources of detections that were not announced.
fn merge_sources(announced: ImageSources, matched: &ImageSources) -> (sources: ImageSources)
    ensures
        sources@ == matched@.union_prefer_right(announced@),
{
    let ghost announcements = announced@;
    let mut sources = announced;
    let ghost all = matched.iter().remaining();
    for entry in entries: matched.iter()
        invariant
            all == matched.iter().remaining(),
            entries.seq() == all,
            forall|sequence: i64|
                #![trigger sources@.contains_key(sequence)]
                sources@.contains_key(sequence) ==> announcements.contains_key(sequence)
                    || matched@.contains_key(sequence),
            forall|sequence: i64| #[trigger]
                announcements.contains_key(sequence) ==> sources@.contains_key(sequence)
                    && sources@[sequence] == announcements[sequence],
            forall|sequence: i64|
                #![trigger sources@[sequence]]
                sources@.contains_key(sequence) && !announcements.contains_key(sequence)
                    ==> sources@[sequence] == matched@[sequence],
            forall|i: int|
                0 <= i < entries.index() ==> sources@.contains_key(*(#[trigger] all[i]).0),
    {
        if !sources.contains_key(entry.0) {
            sources.insert(*entry.0, *entry.1);
        }
    }
    proof {
        assert forall|sequence: i64| matched@.contains_key(sequence) implies #[trigger]
            sources@.contains_key(sequence) by {
            let entry = (&sequence, &matched@[sequence]);
            assert(all.contains(entry));
            let i = choose|i: int| 0 <= i < all.len() && all[i] == entry;
            assert(*all[i].0 == sequence);
        }
        assert(sources@ =~= matched@.union_prefer_right(announcements));
    }
    sources
}

/// Fills in the image times of detections.
fn fill_image_times(events: &Vec<RecordedEvent>, sources: &ImageSources) -> (filled: Vec<
    RecordedEvent,
>)
    ensures
        filled@ == with_image_times(events@, sources@),
{
    let mut filled: Vec<RecordedEvent> = Vec::new();
    let mut index: usize = 0;
    while index < events.len()
        invariant
            index <= events@.len(),
            filled@.len() == index,
            forall|i: int| 0 <= i < index ==> filled@[i] == with_image_time(events@[i], sources@),
        decreases events@.len() - index,
    {
        let event = events[index];
        let mut kind = event.kind;
        if let EventKind::DetectedObjects(frame) = event.kind {
            if let Some(source) = sources.get(&frame.sequence_number) {
                kind = EventKind::DetectedObjects(
                    DetectedObjectsFrame {
                        image_time: Some(source.0),
                        publish_time: frame.publish_time,
                        announcement_log_time: Some(source.1),
                        sequence_number: frame.sequence_number,
                    },
                );
            }
        }
        filled.push(
            RecordedEvent {
                order: event.order,
                log_time: event.log_time,
                publish_time: event.publish_time,
                kind,
            },
        );
        index = index + 1;
    }
    assert(filled@ =~= with_image_times(events@, sources@));
    filled
}

/// Every event that messages make has times that can be recorded.
proof fn stream_events_have_recorded_times(
    messages: Seq<MessageView>,
    contents: Seq<MessageContent>,
    count: int,
    index: int,
)
    requires
        0 <= count <= messages.len(),
        0 <= index < stream_events(messages, contents, count).len(),
    ensures
        ({
            let event = stream_events(messages, contents, count)[index];
            &&& is_recorded_time(event.log_time)
            &&& is_recorded_time(event.publish_time)
            &&& is_recorded_time(event.display_time_spec())
        }),
    decreases count,
{
    let earlier = stream_events(messages, contents, count - 1);
    if index < earlier.len() {
        stream_events_have_recorded_times(messages, contents, count - 1, index);
    }
}

/// Every image among messages has times that can be recorded.
proof fn stream_images_have_recorded_times(
    messages: Seq<MessageView>,
    contents: Seq<MessageContent>,
    count: int,
    index: int,
)
    requires
        0 <= count <= messages.len(),
        0 <= index < stream_images(messages, contents, count).len(),
    ensures
        ({
            let image = stream_images(messages, contents, count)[index];
            &&& is_recorded_time(image.log_time)
            &&& is_recorded_time(image.publish_time)
        }),
    decreases count,
{
    let earlier = stream_images(messages, contents, count - 1);
    if index < earlier.len() {
        stream_images_have_recorded_times(messages, contents, count - 1, index);
    }
}

/// Messages make no more events and images than there are messages.
proof fn stream_is_bounded(messages: Seq<MessageView>, contents: Seq<MessageContent>, count: int)
    requires
        0 <= count <= messages.len(),
    ensures
        stream_events(messages, contents, count).len() <= count,
        stream_images(messages, contents, count).len() <= count,
    decreases count,
{
    if count > 0 {
        stream_is_bounded(messages, contents, count - 1);
    }
}

/// A recording of messages is consistent: its images are in the order in which they were taken,
/// and the event listed for an image is a detection.
pub proof fn recording_is_consistent(
    recording: RecordingView,
    messages: Seq<MessageView>,
    contents: Seq<MessageContent>,
)
    requires
        is_recording_of(recording, messages, contents),
        messages.len() <= usize::MAX,
    ensures
        is_consistent(recording),
{
    let count = messages.len() as int;
    let unsorted = stream_events(messages, contents, count);
    stream_is_bounded(messages, contents, count);
    stable_order_exists(event_keys(unsorted));
    stable_order_exists(image_keys(stream_images(messages, contents, count)));
    stable_order_exists(image_keys(recording.images));
    let events = ordered_events(messages, contents);
    let sources = image_sources(messages, contents);
    let event_order = stable_order_of(event_keys(unsorted));
    assert forall|i: int| #![trigger recording.events[i]] 0 <= i < recording.events.len() implies
        is_recorded_time(recording.events[i].log_time) && is_recorded_time(
        recording.events[i].publish_time,
    ) && is_recorded_time(recording.events[i].display_time_spec()) by {
        assert(event_order[i] < unsorted.len());
        assert(events[i] == unsorted[event_order[i] as int]);
        stream_events_have_recorded_times(messages, contents, count, event_order[i] as int);
        assert(recording.events[i] == with_image_time(events[i], sources));
    }
    let unsorted_images = stream_images(messages, contents, count);
    let image_order = stable_order_of(image_keys(unsorted_images));
    let images = recording.images;
    assert forall|i: int| #![trigger images[i]] 0 <= i < images.len() implies is_recorded_time(
        images[i].log_time,
    ) && is_recorded_time(images[i].publish_time) by {
        assert(image_order[i] < unsorted_images.len());
        assert(images[i] == unsorted_images[image_order[i] as int]);
        stream_images_have_recorded_times(messages, contents, count, image_order[i] as int);
    }
    let times = image_times(images);
    assert forall|i: int, j: int| 0 <= i <= j < times.len() implies times[i] <= times[j] by {
        assert(image_order[i] < unsorted_images.len() && image_order[j] < unsorted_images.len());
        assert(images[i] == unsorted_images[image_order[i] as int]);
        assert(images[j] == unsorted_images[image_order[j] as int]);
        if i < j {
            assert(precedes(
                image_keys(unsorted_images),
                image_order[i] as int,
                image_order[j] as int,
            ));
        }
    }
    let by_time = recording.by_time;
    let listed = embedded_times(images, by_time);
    assert forall|i: int| 0 <= i < by_time.len() implies #[trigger] by_time[i] < images.len() by {}
    assert forall|i: int, j: int| 0 <= i <= j < listed.len() implies listed[i] <= listed[j] by {
        assert(by_time[i] < images.len() && by_time[j] < images.len());
        if i < j {
            assert(precedes(image_keys(images), by_time[i] as int, by_time[j] as int));
        }
    }
    assert forall|image: int| 0 <= image < recording.by_image.len() implies (
    match #[trigger] recording.by_image[image] {
        Some(event) => event < recording.events.len() && recording.events[event as int].kind is
            DetectedObjects,
        None => true,
    }) by {
        assert(is_last_detection(
            events,
            images,
            by_time,
            sources,
            events.len() as int,
            image,
            recording.by_image[image],
        ));
        if let Some(event) = recording.by_image[image] {
            assert(detection_image(events, images, by_time, sources, event as int) is Some);
            assert(detection_of(events[event as int]) is Some);
            assert(recording.events[event as int] == with_image_time(
                events[event as int],
                sources,
            ));
        }
    }
}

/// A recording keeps what its messages contribute: its events are those that the messages make,
/// with image times filled in, in the order in which they were recorded, and its images are those
/// among the messages.
pub proof fn recording_keeps_every_event(
    recording: RecordingView,
    messages: Seq<MessageView>,
    contents: Seq<MessageContent>,
)
    requires
        is_recording_of(recording, messages, contents),
        messages.len() <= usize::MAX,
    ensures
        recording.events.to_multiset() == with_image_times(
            stream_events(messages, contents, messages.len() as int),
            image_sources(messages, contents),
        ).to_multiset(),
        recording.images.to_multiset() == stream_images(
            messages,
            contents,
            messages.len() as int,
        ).to_multiset(),
        forall|i: int, j: int|
            #![trigger recording.events[i], recording.events[j]]
            0 <= i <= j < recording.events.len() ==> nanos_since_epoch_spec(
                recording.events[i].log_time,
            ) <= nanos_since_epoch_spec(recording.events[j].log_time),
{
    let count = messages.len() as int;
    stream_is_bounded(messages, contents, count);
    let sources = image_sources(messages, contents);
    let events = stream_events(messages, contents, count);
    let keys = event_keys(events);
    let timed = with_image_times(events, sources);
    sorting_keeps_items(timed, keys);
    stable_order_exists(keys);
    let order = stable_order_of(keys);
    assert forall|i: int| 0 <= i < events.len() implies #[trigger] recording.events[i]
        == stably_sorted(timed, keys)[i] by {
        assert(order[i] < events.len());
    }
    assert(recording.events =~= stably_sorted(timed, keys));
    let images = stream_images(messages, contents, count);
    sorting_keeps_items(images, image_keys(images));
    assert forall|i: int, j: int|
        #![trigger recording.events[i], recording.events[j]]
        0 <= i <= j < recording.events.len() implies nanos_since_epoch_spec(
        recording.events[i].log_time,
    ) <= nanos_since_epoch_spec(recording.events[j].log_time) by {
        assert(order[i] < events.len() && order[j] < events.len());
        stream_events_have_recorded_times(messages, contents, count, order[i] as int);
        stream_events_have_recorded_times(messages, contents, count, order[j] as int);
        if i < j {
            assert(precedes(keys, order[i] as int, order[j] as int));
        }
    }
}

impl Recording {
    #[verifier::type_invariant]
    closed spec fn fits_together(self) -> bool {
        is_consistent(self@) && self.snapshot_index.is_index_of(self.events@)
    }

    /// Builds a recording from its messages and their decoded payloads.
    pub fn load(messages: &[RecordedMessage], contents: &[MessageContent]) -> (result: Result<
        Self,
        LoadError,
    >)
        requires
            contents_match(message_views(messages@), contents@),
        ensures
            match result {
                Ok(recording) => {
                    &&& forall|i: int|
                        0 <= i < messages@.len() ==> has_time_prefix(#[trigger] messages@[i]@)
                    &&& is_recording_of(recording@, message_views(messages@), contents@)
                },
                Err(LoadError::ShortTimePrefix { order }) => {
                    &&& order < messages@.len() && !has_time_prefix(messages@[order as int]@)
                    &&& forall|i: int| 0 <= i < order ==> has_time_prefix(#[trigger] messages@[i]@)
                },
                Err(LoadError::NoCameraMatrix) => {
                    &&& forall|i: int|
                        0 <= i < messages@.len() ==> has_time_prefix(#[trigger] messages@[i]@)
                    &&& first_with_topic(
                        contents@,
                        Topic::CameraMatrix,
                        messages@.len() as int,
                    ) is None
                },
            },
    {
        let ghost views = message_views(messages@);
        let mut events: Vec<RecordedEvent> = Vec::new();
        let mut images: Vec<StereoImageIndex> = Vec::new();
        let mut first_camera_matrix: Option<usize> = None;
        let mut stereo_camera_info: Option<usize> = None;
        let mut field_dimensions: Option<usize> = None;
        let mut topic_counts: Vec<(String, usize)> = Vec::new();
        let mut announcements: ImageSources = BTreeMap::new();
        let mut associations: Vec<FieldMarkAssociationTiming> = Vec::new();
        let mut order: usize = 0;
        assert(views.len() == messages.len());
        while order < messages.len()
            invariant
                views == message_views(messages@),
                views.len() == messages@.len() <= usize::MAX,
                contents_match(views, contents@),
                order <= messages@.len(),
                forall|i: int| 0 <= i < order ==> has_time_prefix(#[trigger] messages@[i]@),
                events@ == stream_events(views, contents@, order as int),
                images@ == stream_images(views, contents@, order as int),
                announcements@ == stream_announcements(views, contents@, order as int),
                associations@ == stream_associations(views, contents@, order as int),
                first_camera_matrix == first_with_topic(
                    contents@,
                    Topic::CameraMatrix,
                    order as int,
                ),
                stereo_camera_info == last_with_topic(
                    contents@,
                    Topic::StereoCameraInfo,
                    order as int,
                ),
                field_dimensions == last_with_topic(
                    contents@,
                    Topic::FieldDimensions,
                    order as int,
                ),
                counts_topics(topic_count_views(topic_counts@), views, order as int),
            decreases messages@.len() - order,
        {
            let message = &messages[order];
            let content = contents[order];
            assert(views[order as int] == message@);
            assert(contents@[order as int].topic() == topic_named(message.topic@));
            count_topic(
                &mut topic_counts,
                message.topic.as_str(),
                Ghost(views),
                Ghost(order as int),
            );
            let embedded_time = match read_time_prefix(message, order) {
                Ok(time) => time,
                Err(error) => {
                    return Err(error);
                },
            };
            let log_time = system_time_from_nanos(message.log_time);
            let publish_time = system_time_from_nanos(message.publish_time);
            if let Some(kind) = read_event_kind(message, content) {
                events.push(RecordedEvent { order, log_time, publish_time, kind });
            }
            match content {
                MessageContent::StereoCameraInfo => {
                    stereo_camera_info = Some(order);
                },
                MessageContent::FieldDimensions => {
                    field_dimensions = Some(order);
                },
                MessageContent::CameraMatrix(_) => {
                    if first_camera_matrix.is_none() {
                        first_camera_matrix = Some(order);
                    }
                },
                MessageContent::DetectedObjectsAnnounce { time, sequence_number } => {
                    announcements.insert(sequence_number, (time, log_time));
                },
                MessageContent::FieldMarkAssociations(_) => {
                    if let Some(source_time) = embedded_time {
                        associations.push(
                            FieldMarkAssociationTiming { order, log_time, source_time },
                        );
                    }
                },
                MessageContent::StereoImagePair => {
                    if let Some(embedded_time) = embedded_time {
                        images.push(
                            StereoImageIndex { order, log_time, publish_time, embedded_time },
                        );
                    }
                },
                _ => {},
            }
            order = order + 1;
        }

        let events = sort_events(events);
        let image_sort_keys = collect_image_keys(&images);
        let images = sort_by_keys(images.as_slice(), image_sort_keys.as_slice());
        let associations = sort_associations(associations);
        let sorted_image_keys = collect_image_keys(&images);
        let images_by_embedded_time = stable_order(sorted_image_keys.as_slice());
        proof {
            stable_order_is_unique(
                image_keys(images@),
                images_by_embedded_time@,
                stable_order_of(image_keys(images@)),
            );
            let listed = embedded_times(images@, images_by_embedded_time@);
            assert forall|i: int, j: int| 0 <= i <= j < listed.len() implies listed[i]
                <= listed[j] by {
                assert(images_by_embedded_time@[i] < images@.len());
                assert(images_by_embedded_time@[j] < images@.len());
                if i < j {
                    assert(precedes(
                        image_keys(images@),
                        images_by_embedded_time@[i] as int,
                        images_by_embedded_time@[j] as int,
                    ));
                }
            }
        }
        let matched = index_detected_objects_sources_from_field_mark_associations(
            events.as_slice(),
            associations.as_slice(),
        );
        let sources = merge_sources(announcements, &matched);
        let detected_objects_by_image = index_detected_objects_by_image(
            events.as_slice(),
            images.as_slice(),
            images_by_embedded_time.as_slice(),
            &sources,
        );
        let detected_objects_image_times = index_detected_objects_image_times(
            images.as_slice(),
            images_by_embedded_time.as_slice(),
            &sources,
        );
        let events = fill_image_times(&events, &sources);
        let snapshot_index = SnapshotIndex::new(events.as_slice());
        let first_camera_matrix = match first_camera_matrix {
            Some(first_camera_matrix) => first_camera_matrix,
            None => {
                return Err(LoadError::NoCameraMatrix);
            },
        };
        proof {
            let view = RecordingView {
                events: events@,
                images: images@,
                by_time: images_by_embedded_time@,
                by_image: detected_objects_by_image@,
                image_times: detected_objects_image_times@,
                first_camera_matrix,
                stereo_camera_info,
                field_dimensions,
                topic_counts: topic_count_views(topic_counts@),
            };
            assert(is_recording_of(view, views, contents@));
            recording_is_consistent(view, views, contents@);
        }
        Ok(
            Recording {
                events,
                images,
                images_by_embedded_time,
                detected_objects_by_image,
                detected_objects_image_times,
                snapshot_index,
                first_camera_matrix,
                stereo_camera_info,
                field_dimensions,
                topic_counts,
            },
        )
    }
}

/// The clocks by which events and images are timed.
#[derive(Clone, Copy, Debug, PartialEq, Eq, Structural)]
pub enum Clock {
    /// When something was recorded.
    Log,
    /// When something was published.
    Publish,
    /// When something is shown.
    Display,
}

/// The time of an event.
pub open spec fn event_time(event: RecordedEvent, clock: Clock) -> WallTime {
    match clock {
        Clock::Log => event.log_time,
        Clock::Publish => event.publish_time,
        Clock::Display => event.display_time_spec(),
    }
}

/// The time of an image.
pub open spec fn image_time(image: StereoImageIndex, clock: Clock) -> WallTime {
    match clock {
        Clock::Log => image.log_time,
        Clock::Publish => image.publish_time,
        Clock::Display => image.display_time_spec(),
    }
}

/// Whether a recording has something at the instant `nanos`.
pub open spec fn has_time(recording: RecordingView, clock: Clock, nanos: int) -> bool {
    ||| exists|i: int|
        0 <= i < recording.events.len() && event_time(#[trigger] recording.events[i], clock).nanos
            == nanos
    ||| exists|i: int|
        0 <= i < recording.images.len() && image_time(#[trigger] recording.images[i], clock).nanos
            == nanos
}

/// Whether nothing in a recording comes before the instant `nanos`.
pub open spec fn none_before(recording: RecordingView, clock: Clock, nanos: int) -> bool {
    &&& forall|i: int|
        0 <= i < recording.events.len() ==> nanos <= event_time(
            #[trigger] recording.events[i],
            clock,
        ).nanos
    &&& forall|i: int|
        0 <= i < recording.images.len() ==> nanos <= image_time(
            #[trigger] recording.images[i],
            clock,
        ).nanos
}

/// Whether nothing in a recording comes after the instant `nanos`.
pub open spec fn none_after(recording: RecordingView, clock: Clock, nanos: int) -> bool {
    &&& forall|i: int|
        0 <= i < recording.events.len() ==> event_time(#[trigger] recording.events[i], clock).nanos
            <= nanos
    &&& forall|i: int|
        0 <= i < recording.images.len() ==> image_time(#[trigger] recording.images[i], clock).nanos
            <= nanos
}

/// Whether a recording has neither events nor images.
pub open spec fn is_empty_recording(recording: RecordingView) -> bool {
    recording.events.len() == 0 && recording.images.len() == 0
}

/// Whether `time` is the first instant of a recording; of an empty one, the epoch.
pub open spec fn is_start(recording: RecordingView, clock: Clock, time: WallTime) -> bool {
    if is_empty_recording(recording) {
        time == WallTime::epoch_spec()
    } else {
        has_time(recording, clock, time.nanos as int) && none_before(
            recording,
            clock,
            time.nanos as int,
        )
    }
}

/// Whether `time` is the last instant of a recording; of an empty one, the epoch.
pub open spec fn is_end(recording: RecordingView, clock: Clock, time: WallTime) -> bool {
    if is_empty_recording(recording) {
        time == WallTime::epoch_spec()
    } else {
        has_time(recording, clock, time.nanos as int) && none_after(
            recording,
            clock,
            time.nanos as int,
        )
    }
}

/// A recording starts at one instant and ends at one, and it ends no earlier than it starts.
pub proof fn recording_spans_time(
    recording: RecordingView,
    clock: Clock,
    start: WallTime,
    other_start: WallTime,
    end: WallTime,
)
    requires
        is_start(recording, clock, start),
        is_start(recording, clock, other_start),
        is_end(recording, clock, end),
    ensures
        start == other_start,
        start.nanos <= end.nanos,
{
}

/// The time of an event.
fn read_event_time(event: &RecordedEvent, clock: Clock) -> (time: WallTime)
    ensures
        time == event_time(*event, clock),
{
    match clock {
        Clock::Log => event.log_time,
        Clock::Publish => event.publish_time,
        Clock::Display => event.display_time(),
    }
}

/// The time of an image.
fn read_image_time(image: &StereoImageIndex, clock: Clock) -> (time: WallTime)
    ensures
        time == image_time(*image, clock),
{
    match clock {
        Clock::Log => image.log_time,
        Clock::Publish => image.publish_time,
        Clock::Display => image.display_time(),
    }
}

impl Recording {
    /// The first and the last instant of the recording; the epoch, where it is empty.
    fn bounds(&self, clock: Clock) -> (bounds: (WallTime, WallTime))
        ensures
            is_start(self@, clock, bounds.0),
            is_end(self@, clock, bounds.1),
            is_recorded_time(bounds.0),
            is_recorded_time(bounds.1),
    {
        proof {
            use_type_invariant(self);
        }
        let events = self.events.as_slice();
        let images = self.images.as_slice();
        if events.len() == 0 && images.len() == 0 {
            return (WallTime::epoch(), WallTime::epoch());
        }
        let initial = if events.len() > 0 {
            assert(events@[0] == self@.events[0]);
            read_event_time(&events[0], clock)
        } else {
            assert(images@[0] == self@.images[0]);
            read_image_time(&images[0], clock)
        };
        let mut first = initial;
        let mut last = initial;
        let mut index: usize = 0;
        while index < events.len()
            invariant
                events@ == self@.events,
                index <= events@.len(),
                has_time(self@, clock, first.nanos as int),
                has_time(self@, clock, last.nanos as int),
                forall|i: int|
                    0 <= i < index ==> first.nanos <= event_time(
                        #[trigger] self@.events[i],
                        clock,
                    ).nanos <= last.nanos,
            decreases events@.len() - index,
        {
            let time = read_event_time(&events[index], clock);
            assert(events@[index as int] == self@.events[index as int]);
            if time.nanos < first.nanos {
                first = time;
            }
            if time.nanos > last.nanos {
                last = time;
            }
            index = index + 1;
        }
        index = 0;
        while index < images.len()
            invariant
                events@ == self@.events,
                images@ == self@.images,
                index <= images@.len(),
                has_time(self@, clock, first.nanos as int),
                has_time(self@, clock, last.nanos as int),
                forall|i: int|
                    0 <= i < events@.len() ==> first.nanos <= event_time(
                        #[trigger] self@.events[i],
                        clock,
                    ).nanos <= last.nanos,
                forall|i: int|
                    0 <= i < index ==> first.nanos <= image_time(
                        #[trigger] self@.images[i],
                        clock,
                    ).nanos <= last.nanos,
            decreases images@.len() - index,
        {
            let time = read_image_time(&images[index], clock);
            assert(images@[index as int] == self@.images[index as int]);
            if time.nanos < first.nanos {
                first = time;
            }
            if time.nanos > last.nanos {
                last = time;
            }
            index = index + 1;
        }
        (first, last)
    }

    /// When the first part of the recording was recorded.
    pub fn start_log_time(&self) -> (time: WallTime)
        ensures
            is_start(self@, Clock::Log, time),
            is_recorded_time(time),
    {
        self.bounds(Clock::Log).0
    }

    /// When the first part of the recording was published.
    pub fn start_source_time(&self) -> (time: WallTime)
        ensures
            is_start(self@, Clock::Publish, time),
            is_recorded_time(time),
    {
        self.bounds(Clock::Publish).0
    }

    /// When the first part of the recording is shown.
    pub fn start_display_time(&self) -> (time: WallTime)
        ensures
            is_start(self@, Clock::Display, time),
            is_recorded_time(time),
    {
        self.bounds(Clock::Display).0
    }

    /// When the last part of the recording was recorded.
    pub fn end_log_time(&self) -> (time: WallTime)
        ensures
            is_end(self@, Clock::Log, time),
            is_recorded_time(time),
    {
        self.bounds(Clock::Log).1
    }

    /// When the last part of the recording is shown.
    pub fn end_display_time(&self) -> (time: WallTime)
        ensures
            is_end(self@, Clock::Display, time),
            is_recorded_time(time),
    {
        self.bounds(Clock::Display).1
    }

    /// When a replay by the given timestamps starts.
    pub fn graph_start_time(&self, timestamp_mode: TimestampMode) -> (time: WallTime)
        ensures
            timestamp_mode is McapPublish ==> is_start(self@, Clock::Publish, time),
            timestamp_mode is Embedded ==> is_start(self@, Clock::Display, time),
            is_recorded_time(time),
    {
        match timestamp_mode {
            TimestampMode::McapPublish => self.start_source_time(),
            TimestampMode::Embedded => self.start_display_time(),
        }
    }

    /// Nanoseconds from the first to the last showing.
    pub fn duration(&self) -> (nanos: u128)
        ensures
            exists|start: WallTime, end: WallTime|
                #[trigger] is_start(self@, Clock::Display, start) && #[trigger] is_end(
                    self@,
                    Clock::Display,
                    end,
                ) && nanos == end.nanos - start.nanos,
    {
        let start = self.start_display_time();
        let end = self.end_display_time();
        proof {
            recording_spans_time(self@, Clock::Display, start, start, end);
        }
        (end.nanos - start.nanos) as u128
    }

    /// The events in the order in which they were recorded.
    pub fn events(&self) -> (events: &[RecordedEvent])
        ensures
            events@ == self@.events,
    {
        self.events.as_slice()
    }

    /// The number of events.
    pub fn event_count(&self) -> (count: usize)
        ensures
            count == self@.events.len(),
    {
        self.events.len()
    }

    /// The number of images.
    pub fn image_count(&self) -> (count: usize)
        ensures
            count == self@.images.len(),
    {
        self.images.len()
    }

    /// Names the image at a place, where there is one.
    pub fn image_id_from_index(&self, index: usize) -> (id: Option<StereoImageId>)
        ensures
            id == (if index < self@.images.len() {
                Some(StereoImageId(index))
            } else {
                None
            }),
    {
        if index < self.images.len() {
            Some(StereoImageId(index))
        } else {
            None
        }
    }

    /// The image with a name.
    pub fn image(&self, image_id: StereoImageId) -> (image: Option<StereoImageIndex>)
        ensures
            image == (if image_id.0 < self@.images.len() {
                Some(self@.images[image_id.0 as int])
            } else {
                None
            }),
    {
        if image_id.index() < self.images.len() {
            Some(self.images[image_id.index()])
        } else {
            None
        }
    }

    /// When an image was recorded.
    pub fn image_log_time(&self, image_id: StereoImageId) -> (time: Option<WallTime>)
        ensures
            time == (if image_id.0 < self@.images.len() {
                Some(self@.images[image_id.0 as int].log_time)
            } else {
                None
            }),
    {
        match self.image(image_id) {
            Some(image) => Some(image.log_time),
            None => None,
        }
    }

    /// When an image is shown.
    pub fn image_display_time(&self, image_id: StereoImageId) -> (time: Option<WallTime>)
        ensures
            time == (if image_id.0 < self@.images.len() {
                Some(self@.images[image_id.0 as int].display_time_spec())
            } else {
                None
            }),
    {
        match self.image(image_id) {
            Some(image) => Some(image.display_time()),
            None => None,
        }
    }

    /// The first message with a camera matrix.
    pub fn first_camera_matrix(&self) -> (order: usize)
        ensures
            order == self@.first_camera_matrix,
    {
        self.first_camera_matrix
    }

    /// The last message with the stereo camera info.
    pub fn stereo_camera_info(&self) -> (order: Option<usize>)
        ensures
            order == self@.stereo_camera_info,
    {
        self.stereo_camera_info
    }

    /// The last message with the field dimensions.
    pub fn field_dimensions(&self) -> (order: Option<usize>)
        ensures
            order == self@.field_dimensions,
    {
        self.field_dimensions
    }

    /// The number of topics.
    pub fn topic_count(&self) -> (count: usize)
        ensures
            count == self@.topic_counts.len(),
    {
        self.topic_counts.len()
    }

    /// The number of messages of a topic.
    pub fn topic_message_count(&self, topic: &str) -> (count: usize)
        ensures
            (exists|i: int|
                0 <= i < self@.topic_counts.len() && #[trigger] self@.topic_counts[i] == (
                    topic@,
                    count as nat,
                )) || (count == 0 && forall|i: int|
                0 <= i < self@.topic_counts.len() ==> (#[trigger] self@.topic_counts[i]).0
                    != topic@),
    {
        let mut index: usize = 0;
        while index < self.topic_counts.len()
            invariant
                index <= self.topic_counts@.len(),
                forall|i: int| 0 <= i < index ==> (#[trigger] self@.topic_counts[i]).0 != topic@,
            decreases self.topic_counts@.len() - index,
        {
            assert(self@.topic_counts[index as int] == (
                self.topic_counts@[index as int].0@,
                self.topic_counts@[index as int].1 as nat,
            ));
            if is_same_text(self.topic_counts[index].0.as_str(), topic) {
                return self.topic_counts[index].1;
            }
            index = index + 1;
        }
        0
    }
}

impl Recording {
    /// The images in the order in which they were taken.
    pub(crate) fn images(&self) -> (images: &[StereoImageIndex])
        ensures
            images@ == self@.images,
            is_consistent(self@),
    {
        proof {
            use_type_invariant(self);
        }
        self.images.as_slice()
    }

    /// The events, with what is known of their times.
    pub(crate) fn timed_events(&self) -> (events: &[RecordedEvent])
        ensures
            events@ == self@.events,
            is_consistent(self@),
    {
        proof {
            use_type_invariant(self);
        }
        self.events.as_slice()
    }

    /// The places of the images in the order in which they were taken.
    pub(crate) fn images_by_embedded_time(&self) -> (by_time: &[usize])
        ensures
            by_time@ == self@.by_time,
            is_consistent(self@),
    {
        proof {
            use_type_invariant(self);
        }
        self.images_by_embedded_time.as_slice()
    }

    /// For each image the event whose detection belongs to it.
    pub(crate) fn detected_objects_by_image(&self) -> (by_image: &[Option<usize>])
        ensures
            by_image@ == self@.by_image,
            is_consistent(self@),
    {
        proof {
            use_type_invariant(self);
        }
        self.detected_objects_by_image.as_slice()
    }

    /// When the image of the detection with a sequence number was published.
    pub(crate) fn detection_publish_time(&self, sequence: i64) -> (time: Option<WallTime>)
        ensures
            time == (if self@.image_times.contains_key(sequence) {
                Some(self@.image_times[sequence])
            } else {
                None
            }),
    {
        match self.detected_objects_image_times.get(&sequence) {
            Some(time) => Some(*time),
            None => None,
        }
    }

    /// The index by which events are looked up.
    pub(crate) fn snapshot_index(&self) -> (index: &SnapshotIndex)
        ensures
            index.is_index_of(self@.events),
    {
        proof {
            use_type_invariant(self);
        }
        &self.snapshot_index
    }
}

/// The number that a recording gives for a topic is the number of the topic's messages, and a
/// recording gives a number for every topic that has messages.
pub proof fn topic_counts_are_message_counts(
    recording: RecordingView,
    messages: Seq<MessageView>,
    contents: Seq<MessageContent>,
    topic: Seq<char>,
)
    requires
        is_recording_of(recording, messages, contents),
    ensures
        forall|place: int|
            0 <= place < recording.topic_counts.len() && #[trigger] recording.topic_counts[place].0
                == topic ==> recording.topic_counts[place].1 == topic_messages(
                messages,
                topic,
                messages.len() as int,
            ),
        (exists|place: int|
            0 <= place < recording.topic_counts.len() && #[trigger] recording.topic_counts[place].0
                == topic) <==> topic_messages(messages, topic, messages.len() as int) > 0,
{
    let counts = recording.topic_counts;
    if exists|i: int| 0 <= i < counts.len() && #[trigger] counts[i].0 == topic {
        let i = choose|i: int| 0 <= i < counts.len() && #[trigger] counts[i].0 == topic;
        assert(counts[i].1 > 0);
    }
}

/// The number of topics of a recording is the number of different topics among its messages.
pub proof fn topic_count_is_number_of_topics(
    recording: RecordingView,
    messages: Seq<MessageView>,
    contents: Seq<MessageContent>,
)
    requires
        is_recording_of(recording, messages, contents),
    ensures
        messages.map_values(|message: MessageView| message.topic).to_set().len()
            == recording.topic_counts.len(),
{
    let counts = recording.topic_counts;
    let listed = counts.map_values(|entry: (Seq<char>, nat)| entry.0);
    let topics = messages.map_values(|message: MessageView| message.topic);
    let count = messages.len() as int;
    assert(listed.no_duplicates()) by {
        assert forall|i: int, j: int|
            0 <= i < listed.len() && 0 <= j < listed.len() && i != j implies listed[i]
            != listed[j] by {
            assert(counts[i].0 != counts[j].0);
        }
    }
    listed.unique_seq_to_set();
    assert forall|topic: Seq<char>| topics.to_set().contains(topic) <==> listed.to_set().contains(
        topic,
    ) by {
        if topics.contains(topic) {
            let i = choose|i: int| 0 <= i < topics.len() && topics[i] == topic;
            topic_messages_include(messages, topic, i, count);
            let place = choose|i: int| 0 <= i < counts.len() && #[trigger] counts[i].0 == topic;
            assert(listed[place] == topic);
        }
        if listed.contains(topic) {
            let place = choose|i: int| 0 <= i < listed.len() && listed[i] == topic;
            assert(counts[place].1 > 0);
            let i = topic_message_exists(messages, topic, count);
            assert(topics[i] == topic);
        }
    }
    assert(topics.to_set() =~= listed.to_set());
}

/// A message adds to the number of its topic's messages.
proof fn topic_messages_include(messages: Seq<MessageView>, topic: Seq<char>, i: int, count: int)
    requires
        0 <= i < count <= messages.len(),
        messages[i].topic == topic,
    ensures
        topic_messages(messages, topic, count) > 0,
    decreases count,
{
    if i < count - 1 {
        topic_messages_include(messages, topic, i, count - 1);
    }
}

/// Where a topic has messages, one of them can be given.
proof fn topic_message_exists(messages: Seq<MessageView>, topic: Seq<char>, count: int) -> (i: int)
    requires
        0 <= count <= messages.len(),
        topic_messages(messages, topic, count) > 0,
    ensures
        0 <= i < count,
        messages[i].topic == topic,
    decreases count,
{
    if messages[count - 1].topic == topic {
        count - 1
    } else {
        topic_message_exists(messages, topic, count - 1)
    }
}

} // verus!
