//! Finding the image that detected objects belong to.

use crate::event::{DetectedObjectsFrame, EventKind, RecordedEvent, StereoImageIndex};
use crate::order::{
    is_chronological, lower_bound, lower_bound_is, nearest_by_distance, nearest_of, partition_point,
    upper_bound, upper_bound_exists, upper_bound_is,
};
use crate::time::{abs_diff, time_abs_diff, Time, WallTime};
use std::collections::BTreeMap;
use vstd::prelude::*;
use vstd::std_specs::iter::IteratorSpec;

verus! {

broadcast use {vstd::std_specs::btree::group_btree_axioms, vstd::laws_cmp::group_laws_cmp};

/// Nanoseconds within which things are taken to belong together.
pub const SNAPSHOT_MAX_TIME_DISTANCE: u64 = 100_000_000;

/// The times of the images in the order in which `by_time` lists them.
pub open spec fn embedded_times(images: Seq<StereoImageIndex>, by_time: Seq<usize>) -> Seq<int> {
    Seq::new(by_time.len(), |i: int| images[by_time[i] as int].embedded_time.nanos as int)
}

/// Whether `by_time` lists images in the order in which they were taken.
pub open spec fn lists_by_embedded_time(
    images: Seq<StereoImageIndex>,
    by_time: Seq<usize>,
) -> bool {
    &&& forall|i: int| 0 <= i < by_time.len() ==> #[trigger] by_time[i] < images.len()
    &&& is_chronological(embedded_times(images, by_time))
}

/// The item at `place` with its distance from `target`, where there is such an item.
pub open spec fn candidate_at(
    by_time: Seq<usize>,
    times: Seq<int>,
    place: int,
    target: int,
) -> Option<(usize, int)> {
    if 0 <= place < by_time.len() {
        Some((by_time[place], abs_diff(times[place], target) as int))
    } else {
        None
    }
}

/// Keeps an image whose time is near `target`.
pub open spec fn keep_near_image(
    images: Seq<StereoImageIndex>,
    candidate: Option<usize>,
    target: int,
) -> Option<usize> {
    match candidate {
        Some(index) if abs_diff(images[index as int].embedded_time.nanos as int, target)
            <= SNAPSHOT_MAX_TIME_DISTANCE => Some(index),
        _ => None,
    }
}

/// The image nearest to `target`, the earlier one of two equally near, where one is near enough.
pub open spec fn nearest_image(
    images: Seq<StereoImageIndex>,
    by_time: Seq<usize>,
    target: int,
) -> Option<usize> {
    let times = embedded_times(images, by_time);
    let next = upper_bound(times, target);
    keep_near_image(
        images,
        nearest_of(
            candidate_at(by_time, times, next - 1, target),
            candidate_at(by_time, times, next, target),
        ),
        target,
    )
}

/// The first image taken at `target` or later, where it is near enough.
pub open spec fn following_image(
    images: Seq<StereoImageIndex>,
    by_time: Seq<usize>,
    target: int,
) -> Option<usize> {
    let next = lower_bound(embedded_times(images, by_time), target);
    if 0 <= next < by_time.len() {
        keep_near_image(images, Some(by_time[next]), target)
    } else {
        None
    }
}

/// The image found for a time is near it, and none is nearer; where none is found, none is near.
pub proof fn nearest_image_is_nearest(
    images: Seq<StereoImageIndex>,
    by_time: Seq<usize>,
    target: int,
    other: int,
)
    requires
        lists_by_embedded_time(images, by_time),
        0 <= other < by_time.len(),
    ensures
        match nearest_image(images, by_time, target) {
            Some(index) => {
                &&& abs_diff(images[index as int].embedded_time.nanos as int, target)
                    <= SNAPSHOT_MAX_TIME_DISTANCE
                &&& abs_diff(images[index as int].embedded_time.nanos as int, target) <= abs_diff(
                    images[by_time[other] as int].embedded_time.nanos as int,
                    target,
                )
            },
            None => abs_diff(images[by_time[other] as int].embedded_time.nanos as int, target)
                > SNAPSHOT_MAX_TIME_DISTANCE,
        },
{
    let times = embedded_times(images, by_time);
    let next = upper_bound_exists(times, target);
    upper_bound_is(times, target, next);
    if other < next {
        assert(times[other] <= times[next - 1]);
    } else {
        assert(times[next] <= times[other]);
    }
}

/// Finds the image nearest to `time`, the earlier one of two equally near, where one is near
/// enough.
pub fn nearest_image_index_by_embedded_time(
    images: &[StereoImageIndex],
    images_by_embedded_time: &[usize],
    time: Time,
) -> (found: Option<usize>)
    requires
        lists_by_embedded_time(images@, images_by_embedded_time@),
    ensures
        found == nearest_image(images@, images_by_embedded_time@, time.nanos as int),
        found is Some ==> found->0 < images@.len(),
{
    let ghost times = embedded_times(images@, images_by_embedded_time@);
    let ghost target = time.nanos as int;
    let before = |i: usize| -> (result: bool)
        requires
            i < images_by_embedded_time@.len(),
            lists_by_embedded_time(images@, images_by_embedded_time@),
        ensures
            result == (images@[images_by_embedded_time@[i as int] as int].embedded_time.nanos
                <= time.nanos),
    {
        let index: usize = images_by_embedded_time[i];
        images[index].embedded_time.nanos <= time.nanos
    };
    let next: usize = partition_point(images_by_embedded_time.len(), before);
    proof {
        upper_bound_is(times, target, next as int);
    }
    let previous_candidate: Option<(usize, u64)> = if next > 0 {
        let index: usize = images_by_embedded_time[next - 1];
        Some((index, time_abs_diff(images[index].embedded_time, time)))
    } else {
        None
    };
    let next_candidate: Option<(usize, u64)> = if next < images_by_embedded_time.len() {
        let index: usize = images_by_embedded_time[next];
        Some((index, time_abs_diff(images[index].embedded_time, time)))
    } else {
        None
    };
    match nearest_by_distance(previous_candidate, next_candidate) {
        Some(index) => {
            if time_abs_diff(images[index].embedded_time, time) <= SNAPSHOT_MAX_TIME_DISTANCE {
                Some(index)
            } else {
                None
            }
        },
        None => None,
    }
}

/// Finds the first image taken at `time` or later, where it is near enough.
pub fn first_image_index_at_or_after_embedded_time(
    images: &[StereoImageIndex],
    images_by_embedded_time: &[usize],
    time: Time,
) -> (found: Option<usize>)
    requires
        lists_by_embedded_time(images@, images_by_embedded_time@),
    ensures
        found == following_image(images@, images_by_embedded_time@, time.nanos as int),
        found is Some ==> found->0 < images@.len(),
{
    let ghost times = embedded_times(images@, images_by_embedded_time@);
    let ghost target = time.nanos as int;
    let before = |i: usize| -> (result: bool)
        requires
            i < images_by_embedded_time@.len(),
            lists_by_embedded_time(images@, images_by_embedded_time@),
        ensures
            result == (images@[images_by_embedded_time@[i as int] as int].embedded_time.nanos
                < time.nanos),
    {
        let index: usize = images_by_embedded_time[i];
        images[index].embedded_time.nanos < time.nanos
    };
    let next: usize = partition_point(images_by_embedded_time.len(), before);
    proof {
        lower_bound_is(times, target, next as int);
    }
    if next >= images_by_embedded_time.len() {
        return None;
    }
    let index: usize = images_by_embedded_time[next];
    if time_abs_diff(images[index].embedded_time, time) <= SNAPSHOT_MAX_TIME_DISTANCE {
        Some(index)
    } else {
        None
    }
}

/// Image times of detections by sequence number: when the image was taken, and when that was
/// recorded.
pub type ImageSources = BTreeMap<i64, (Time, WallTime)>;

/// The detection of an event, where it is one.
pub open spec fn detection_of(event: RecordedEvent) -> Option<DetectedObjectsFrame> {
    match event.kind {
        EventKind::DetectedObjects(frame) => Some(frame),
        _ => None,
    }
}

/// The number of detections without an image time among the first `count` events.
pub open spec fn untimed_detections(events: Seq<RecordedEvent>, count: int) -> nat
    decreases count,
{
    if count <= 0 {
        0
    } else {
        let untimed = match detection_of(events[count - 1]) {
            Some(frame) => frame.image_time is None,
            None => false,
        };
        untimed_detections(events, count - 1) + if untimed {
            1nat
        } else {
            0nat
        }
    }
}

/// The image that the detection at `event` belongs to: the one nearest to its known source time;
/// else the one at or after the image time in the detection; else, where no source time is known
/// at all, the one with the same place in the stream.
pub open spec fn detection_image(
    events: Seq<RecordedEvent>,
    images: Seq<StereoImageIndex>,
    by_time: Seq<usize>,
    sources: Map<i64, (Time, WallTime)>,
    event: int,
) -> Option<int> {
    match detection_of(events[event]) {
        None => None,
        Some(frame) => {
            let sourced = if sources.contains_key(frame.sequence_number) {
                nearest_image(images, by_time, sources[frame.sequence_number].0.nanos as int)
            } else {
                None
            };
            let timed = match frame.image_time {
                Some(time) => following_image(images, by_time, time.nanos as int),
                None => None,
            };
            if sourced is Some {
                Some(sourced->0 as int)
            } else if timed is Some {
                Some(timed->0 as int)
            } else if sources.is_empty() && frame.image_time is None && untimed_detections(
                events,
                event,
            ) < images.len() {
                Some(untimed_detections(events, event) as int)
            } else {
                None
            }
        },
    }
}

/// A detection with a known image time belongs to an image taken near that time; where source
/// times are known at all, so does every detection that belongs to an image.
pub proof fn timed_detections_are_near_their_image(
    events: Seq<RecordedEvent>,
    images: Seq<StereoImageIndex>,
    by_time: Seq<usize>,
    sources: Map<i64, (Time, WallTime)>,
    event: int,
)
    requires
        detection_image(events, images, by_time, sources, event) is Some,
        detection_of(events[event]) is Some,
        !sources.is_empty() || detection_of(events[event])->0.image_time is Some,
    ensures
        ({
            let frame = detection_of(events[event])->0;
            let taken = images[detection_image(
                events,
                images,
                by_time,
                sources,
                event,
            )->0].embedded_time.nanos as int;
            ||| sources.contains_key(frame.sequence_number) && abs_diff(
                taken,
                sources[frame.sequence_number].0.nanos as int,
            ) <= SNAPSHOT_MAX_TIME_DISTANCE
            ||| frame.image_time is Some && abs_diff(taken, frame.image_time->0.nanos as int)
                <= SNAPSHOT_MAX_TIME_DISTANCE
        }),
{
}

/// Whether `slot` holds the last of the first `count` events whose detection belongs to `image`.
pub open spec fn is_last_detection(
    events: Seq<RecordedEvent>,
    images: Seq<StereoImageIndex>,
    by_time: Seq<usize>,
    sources: Map<i64, (Time, WallTime)>,
    count: int,
    image: int,
    slot: Option<usize>,
) -> bool {
    match slot {
        Some(event) => {
            &&& event < count
            &&& detection_image(events, images, by_time, sources, event as int) == Some(image)
            &&& forall|later: int|
                event < later < count ==> #[trigger] detection_image(
                    events,
                    images,
                    by_time,
                    sources,
                    later,
                ) != Some(image)
        },
        None => forall|event: int|
            0 <= event < count ==> #[trigger] detection_image(
                events,
                images,
                by_time,
                sources,
                event,
            ) != Some(image),
    }
}

/// Lists for each image the last event whose detection belongs to it.
pub fn index_detected_objects_by_image(
    events: &[RecordedEvent],
    images: &[StereoImageIndex],
    images_by_embedded_time: &[usize],
    announcements: &ImageSources,
) -> (by_image: Vec<Option<usize>>)
    requires
        lists_by_embedded_time(images@, images_by_embedded_time@),
    ensures
        by_image@.len() == images@.len(),
        forall|image: int|
            0 <= image < images@.len() ==> is_last_detection(
                events@,
                images@,
                images_by_embedded_time@,
                announcements@,
                events@.len() as int,
                image,
                #[trigger] by_image@[image],
            ),
{
    let mut by_image: Vec<Option<usize>> = Vec::new();
    let mut filled: usize = 0;
    while filled < images.len()
        invariant
            filled <= images@.len(),
            by_image@.len() == filled,
            forall|i: int| 0 <= i < filled ==> by_image@[i] is None,
        decreases images@.len() - filled,
    {
        by_image.push(None);
        filled = filled + 1;
    }
    let use_stream_order_fallback = announcements.is_empty();
    let mut fallback_image_index: usize = 0;
    let mut event_index: usize = 0;
    while event_index < events.len()
        invariant
            lists_by_embedded_time(images@, images_by_embedded_time@),
            event_index <= events@.len(),
            fallback_image_index <= event_index,
            use_stream_order_fallback == announcements@.is_empty(),
            use_stream_order_fallback ==> fallback_image_index == untimed_detections(
                events@,
                event_index as int,
            ),
            by_image@.len() == images@.len(),
            forall|image: int|
                0 <= image < images@.len() ==> is_last_detection(
                    events@,
                    images@,
                    images_by_embedded_time@,
                    announcements@,
                    event_index as int,
                    image,
                    #[trigger] by_image@[image],
                ),
        decreases events@.len() - event_index,
    {
        let ghost slots = by_image@;
        let ghost found = detection_image(
            events@,
            images@,
            images_by_embedded_time@,
            announcements@,
            event_index as int,
        );
        let event = events[event_index];
        if let EventKind::DetectedObjects(frame) = event.kind {
            let mut image_index: Option<usize> = match announcements.get(&frame.sequence_number) {
                Some(source) => nearest_image_index_by_embedded_time(
                    images,
                    images_by_embedded_time,
                    source.0,
                ),
                None => None,
            };
            if image_index.is_none() {
                if let Some(time) = frame.image_time {
                    image_index = first_image_index_at_or_after_embedded_time(
                        images,
                        images_by_embedded_time,
                        time,
                    );
                }
            }
            if image_index.is_none() && use_stream_order_fallback && frame.image_time.is_none() {
                if fallback_image_index < images.len() {
                    image_index = Some(fallback_image_index);
                }
            }
            if use_stream_order_fallback && frame.image_time.is_none() {
                fallback_image_index = fallback_image_index + 1;
            }
            assert(found == match image_index {
                Some(index) => Some(index as int),
                None => None,
            });
            if let Some(index) = image_index {
                by_image.set(index, Some(event_index));
            }
        }
        proof {
            assert forall|image: int| 0 <= image < images@.len() implies is_last_detection(
                events@,
                images@,
                images_by_embedded_time@,
                announcements@,
                event_index + 1,
                image,
                #[trigger] by_image@[image],
            ) by {
                assert(is_last_detection(
                    events@,
                    images@,
                    images_by_embedded_time@,
                    announcements@,
                    event_index as int,
                    image,
                    slots[image],
                ));
            }
        }
        event_index = event_index + 1;
    }
    by_image
}

/// Lists by sequence number when the image that a detection belongs to was published.
pub fn index_detected_objects_image_times(
    images: &[StereoImageIndex],
    images_by_embedded_time: &[usize],
    announcements: &ImageSources,
) -> (times: BTreeMap<i64, WallTime>)
    requires
        lists_by_embedded_time(images@, images_by_embedded_time@),
    ensures
        forall|sequence: i64|
            #![trigger times@.contains_key(sequence)]
            times@.contains_key(sequence) <==> announcements@.contains_key(sequence)
                && nearest_image(
                images@,
                images_by_embedded_time@,
                announcements@[sequence].0.nanos as int,
            ) is Some,
        forall|sequence: i64|
            times@.contains_key(sequence) ==> #[trigger] times@[sequence] == images@[nearest_image(
                images@,
                images_by_embedded_time@,
                announcements@[sequence].0.nanos as int,
            )->0 as int].publish_time,
{
    let mut times: BTreeMap<i64, WallTime> = BTreeMap::new();
    let ghost all = announcements.iter().remaining();
    for entry in entries: announcements.iter()
        invariant
            lists_by_embedded_time(images@, images_by_embedded_time@),
            all == announcements.iter().remaining(),
            entries.seq() == all,
            forall|sequence: i64|
                #![trigger times@.contains_key(sequence)]
                times@.contains_key(sequence) ==> announcements@.contains_key(sequence)
                    && nearest_image(
                    images@,
                    images_by_embedded_time@,
                    announcements@[sequence].0.nanos as int,
                ) is Some,
            forall|sequence: i64|
                times@.contains_key(sequence) ==> #[trigger] times@[sequence]
                    == images@[nearest_image(
                    images@,
                    images_by_embedded_time@,
                    announcements@[sequence].0.nanos as int,
                )->0 as int].publish_time,
            forall|i: int|
                0 <= i < entries.index() && nearest_image(
                    images@,
                    images_by_embedded_time@,
                    announcements@[*#[trigger] all[i].0].0.nanos as int,
                ) is Some ==> times@.contains_key(*all[i].0),
    {
        let found = nearest_image_index_by_embedded_time(
            images,
            images_by_embedded_time,
            entry.1.0,
        );
        if let Some(index) = found {
            times.insert(*entry.0, images[index].publish_time);
        }
    }
    proof {
        assert forall|sequence: i64|
            announcements@.contains_key(sequence) && nearest_image(
                images@,
                images_by_embedded_time@,
                announcements@[sequence].0.nanos as int,
            ) is Some implies #[trigger] times@.contains_key(sequence) by {
            let entry = (&sequence, &announcements@[sequence]);
            assert(all.contains(entry));
            let i = choose|i: int| 0 <= i < all.len() && all[i] == entry;
            assert(*all[i].0 == sequence);
        }
    }
    times
}

} // verus!
