//! What a recording shows at a point in time.

use crate::detections::{
    nearest_image, nearest_image_index_by_embedded_time, SNAPSHOT_MAX_TIME_DISTANCE,
};
use crate::event::{DetectedObjectsFrame, EventKind, RecordedEvent, StereoImageId, StereoImageIndex};
use crate::order::{
    is_chronological, nearest_by_distance, nearest_of, partition_point, upper_bound,
    upper_bound_exists, upper_bound_is,
};
use crate::recording::{image_times, Recording, RecordingView};
use crate::snapshot::{indexed_places, is_latest_event, is_nearest_event, SnapshotKind};
use crate::time::{
    abs_diff, abs_duration, is_recorded_time, nanos_abs_diff, nanos_since_epoch_spec, Time,
    WallTime,
};
use vstd::prelude::*;

verus! {

/// The image at `place`, with its distance from `time`.
pub open spec fn image_candidate(
    images: Seq<StereoImageIndex>,
    place: int,
    time: WallTime,
) -> Option<(usize, int)> {
    if 0 <= place < images.len() {
        Some(
            (
                place as usize,
                abs_diff(
                    nanos_since_epoch_spec(images[place].display_time_spec()) as int,
                    nanos_since_epoch_spec(time) as int,
                ) as int,
            ),
        )
    } else {
        None
    }
}

/// The image shown at `time`: the nearest one, the earlier of two equally near, where it is near
/// enough.
pub open spec fn shown_image(
    images: Seq<StereoImageIndex>,
    time: WallTime,
) -> Option<StereoImageId> {
    let next = upper_bound(image_times(images), time.nanos as int);
    match nearest_of(image_candidate(images, next - 1, time), image_candidate(images, next, time)) {
        Some(index) if abs_diff(
            images[index as int].display_time_spec().nanos as int,
            time.nanos as int,
        ) <= SNAPSHOT_MAX_TIME_DISTANCE => Some(StereoImageId(index)),
        _ => None,
    }
}

/// The event whose detection belongs to an image.
pub open spec fn detection_for_image(
    recording: RecordingView,
    image_id: StereoImageId,
) -> Option<RecordedEvent> {
    if image_id.0 < recording.by_image.len() {
        match recording.by_image[image_id.0 as int] {
            Some(event) => Some(recording.events[event as int]),
            None => None,
        }
    } else {
        None
    }
}

/// When a detection is shown that belongs to an image: at its image time, else with the image.
pub open spec fn detection_time_for_image(
    event: RecordedEvent,
    image: StereoImageIndex,
) -> WallTime {
    match event.kind {
        EventKind::DetectedObjects(frame) => match frame.image_time {
            Some(time) => WallTime { nanos: time.nanos as i128 },
            None => image.display_time_spec(),
        },
        _ => image.display_time_spec(),
    }
}

/// When an image taken at a time was published, where such an image is near enough.
pub open spec fn aligned_time(recording: RecordingView, embedded_time: Time) -> Option<WallTime> {
    match nearest_image(recording.images, recording.by_time, embedded_time.nanos as int) {
        Some(index) => Some(recording.images[index as int].publish_time),
        None => None,
    }
}

/// What a recording shows at a point in time. Events stand for the payloads of their messages.
#[derive(Clone, Copy, Debug)]
pub struct RecordingSnapshot {
    pub image_id: Option<StereoImageId>,
    pub image_display_time: Option<WallTime>,
    pub camera_matrix: Option<RecordedEvent>,
    pub detected_objects: Option<RecordedEvent>,
    pub detected_objects_time: Option<WallTime>,
    pub detected_objects_frame: Option<DetectedObjectsFrame>,
    pub recorded_localization: Option<RecordedEvent>,
    pub robot_kinematics: Option<RecordedEvent>,
    pub calibrated_intrinsics: Option<RecordedEvent>,
    pub calibrated_intrinsics_time: Option<WallTime>,
    pub field_mark_associations: Option<RecordedEvent>,
    pub global_localization_debug: Option<RecordedEvent>,
    pub global_localization_debug_time: Option<WallTime>,
    pub solve_diagnostics: Option<RecordedEvent>,
}

/// Whether `found` is the event of a kind shown nearest to `time`.
pub open spec fn shows_nearest(
    recording: RecordingView,
    kind: SnapshotKind,
    time: WallTime,
    found: Option<RecordedEvent>,
) -> bool {
    is_nearest_event(
        recording.events,
        indexed_places(recording.events, kind),
        time,
        SNAPSHOT_MAX_TIME_DISTANCE,
        found,
    )
}

/// Whether `found` is the event of a kind shown last at or before `time`.
pub open spec fn shows_latest(
    recording: RecordingView,
    kind: SnapshotKind,
    time: WallTime,
    found: Option<RecordedEvent>,
) -> bool {
    is_latest_event(
        recording.events,
        indexed_places(recording.events, kind),
        time,
        SNAPSHOT_MAX_TIME_DISTANCE,
        found,
    )
}

/// Keeps a recorded pose that is more than the report that there was none.
pub open spec fn keep_localized(found: Option<RecordedEvent>) -> Option<RecordedEvent> {
    match found {
        Some(event) if event.kind == (EventKind::RecordedLocalization { localized: true }) => found,
        _ => None,
    }
}

/// Keeps a state of the global localization that is more than the report that there was none.
pub open spec fn keep_present(found: Option<RecordedEvent>) -> Option<RecordedEvent> {
    match found {
        Some(event) if event.kind == (EventKind::GlobalLocalizationDebug { present: true }) => found,
        _ => None,
    }
}

/// Whether `localization` is the pose shown at `time`.
pub open spec fn shows_localization(
    recording: RecordingView,
    time: WallTime,
    localization: Option<RecordedEvent>,
) -> bool {
    exists|found: Option<RecordedEvent>|
        #[trigger] shows_latest(recording, SnapshotKind::RecordedLocalization, time, found)
            && localization == keep_localized(found)
}

/// Whether `debug` is the state of the global localization shown at `time`, and `debug_time` the
/// time of the report that it came with.
pub open spec fn shows_global_debug(
    recording: RecordingView,
    time: WallTime,
    debug: Option<RecordedEvent>,
    debug_time: Option<WallTime>,
) -> bool {
    exists|found: Option<RecordedEvent>|
        #[trigger] shows_nearest(recording, SnapshotKind::GlobalLocalizationDebug, time, found)
            && debug == keep_present(found) && debug_time == match found {
            Some(event) => Some(event.display_time_spec()),
            None => None,
        }
}

/// Whether a snapshot shows a recording at a point in time. Poses and solver diagnostics go by
/// that time, everything else by the time of the image that is shown then.
pub open spec fn is_snapshot(
    recording: RecordingView,
    time: WallTime,
    snapshot: RecordingSnapshot,
) -> bool {
    let visual_time = match snapshot.image_display_time {
        Some(image_time) => image_time,
        None => time,
    };
    &&& snapshot.image_id == shown_image(recording.images, time)
    &&& snapshot.image_display_time == match snapshot.image_id {
        Some(image_id) => Some(recording.images[image_id.0 as int].display_time_spec()),
        None => None,
    }
    &&& shows_nearest(recording, SnapshotKind::CameraMatrix, visual_time, snapshot.camera_matrix)
    &&& match snapshot.image_id {
        Some(image_id) => {
            &&& snapshot.detected_objects == detection_for_image(recording, image_id)
            &&& snapshot.detected_objects_time == match snapshot.detected_objects {
                Some(event) => Some(
                    detection_time_for_image(event, recording.images[image_id.0 as int]),
                ),
                None => None,
            }
        },
        None => {
            &&& shows_nearest(
                recording,
                SnapshotKind::DetectedObjects,
                time,
                snapshot.detected_objects,
            )
            &&& snapshot.detected_objects_time == match snapshot.detected_objects {
                Some(event) => Some(event.display_time_spec()),
                None => None,
            }
        },
    }
    &&& snapshot.detected_objects_frame == match snapshot.detected_objects {
        Some(event) => crate::detections::detection_of(event),
        None => None,
    }
    &&& shows_localization(recording, time, snapshot.recorded_localization)
    &&& shows_nearest(
        recording,
        SnapshotKind::RobotKinematics,
        visual_time,
        snapshot.robot_kinematics,
    )
    &&& shows_latest(
        recording,
        SnapshotKind::CalibratedIntrinsics,
        visual_time,
        snapshot.calibrated_intrinsics,
    )
    &&& snapshot.calibrated_intrinsics_time == match snapshot.calibrated_intrinsics {
        Some(event) => Some(event.publish_time),
        None => None,
    }
    &&& shows_nearest(
        recording,
        SnapshotKind::FieldMarkAssociations,
        visual_time,
        snapshot.field_mark_associations,
    )
    &&& shows_global_debug(
        recording,
        visual_time,
        snapshot.global_localization_debug,
        snapshot.global_localization_debug_time,
    )
    &&& shows_latest(recording, SnapshotKind::SolveDiagnostics, time, snapshot.solve_diagnostics)
}

impl Recording {
    /// When an image taken at a time was published, where such an image is near enough.
    pub fn aligned_image_time(&self, embedded_time: Time) -> (time: Option<WallTime>)
        ensures
            time == aligned_time(self@, embedded_time),
            time is Some ==> is_recorded_time(time->0),
    {
        let images = self.images();
        match nearest_image_index_by_embedded_time(
            images,
            self.images_by_embedded_time(),
            embedded_time,
        ) {
            Some(index) => {
                assert(is_recorded_time(self@.images[index as int].publish_time));
                Some(images[index].publish_time)
            },
            None => None,
        }
    }

    /// When the image of a detection was published, where it is known.
    pub fn detected_objects_image_publish_time(&self, event: &RecordedEvent) -> (time: Option<
        WallTime,
    >)
        ensures
            time == match event.kind {
                EventKind::DetectedObjects(frame) => if self@.image_times.contains_key(
                    frame.sequence_number,
                ) {
                    Some(self@.image_times[frame.sequence_number])
                } else {
                    None
                },
                _ => None,
            },
    {
        match event.kind {
            EventKind::DetectedObjects(frame) => self.detection_publish_time(frame.sequence_number),
            _ => None,
        }
    }

    /// Finds the image shown at `display_time`.
    pub fn nearest_image_id(&self, display_time: WallTime) -> (image_id: Option<StereoImageId>)
        ensures
            image_id == shown_image(self@.images, display_time),
            image_id matches Some(found) ==> found.0 < self@.images.len(),
    {
        let images = self.images();
        let before = |i: usize| -> (result: bool)
            requires
                i < images@.len(),
            ensures
                result == (images@[i as int].display_time_spec().nanos <= display_time.nanos),
        {
            images[i].display_time().nanos <= display_time.nanos
        };
        let next: usize = partition_point(images.len(), before);
        proof {
            upper_bound_is(image_times(images@), display_time.nanos as int, next as int);
        }
        let previous_candidate: Option<(usize, u128)> = if next > 0 {
            Some((next - 1, nanos_abs_diff(images[next - 1].display_time(), display_time)))
        } else {
            None
        };
        let next_candidate: Option<(usize, u128)> = if next < images.len() {
            Some((next, nanos_abs_diff(images[next].display_time(), display_time)))
        } else {
            None
        };
        match nearest_by_distance(previous_candidate, next_candidate) {
            Some(index) => {
                let distance: u128 = abs_duration(images[index].display_time(), display_time);
                if distance <= SNAPSHOT_MAX_TIME_DISTANCE as u128 {
                    Some(StereoImageId(index))
                } else {
                    None
                }
            },
            None => None,
        }
    }

    /// Finds the event whose detection belongs to an image, and when it is shown.
    pub fn detected_objects_for_image(&self, image_id: StereoImageId) -> (found: Option<
        (RecordedEvent, WallTime),
    >)
        ensures
            match detection_for_image(self@, image_id) {
                Some(event) => found == Some(
                    (
                        event,
                        detection_time_for_image(event, self@.images[image_id.0 as int]),
                    ),
                ) && event.kind is DetectedObjects,
                None => found is None,
            },
    {
        let by_image = self.detected_objects_by_image();
        let image = match self.image(image_id) {
            Some(image) => image,
            None => {
                return None;
            },
        };
        let event_index: usize = match by_image[image_id.index()] {
            Some(event_index) => event_index,
            None => {
                return None;
            },
        };
        let event = self.events()[event_index];
        match event.kind {
            EventKind::DetectedObjects(frame) => {
                let time = match frame.image_time {
                    Some(time) => time.to_wallclock(),
                    None => image.display_time(),
                };
                Some((event, time))
            },
            _ => None,
        }
    }

    /// What the recording shows at `display_time`.
    pub fn latest_snapshot(&self, display_time: WallTime) -> (snapshot: RecordingSnapshot)
        ensures
            is_snapshot(self@, display_time, snapshot),
    {
        let events = self.events();
        let index = self.snapshot_index();
        proof {
            assert forall|kind: SnapshotKind| #[trigger] index.list(kind) == indexed_places(
                self@.events,
                kind,
            ) by {}
        }
        let image_id = self.nearest_image_id(display_time);
        let image_display_time = match image_id {
            Some(image_id) => self.image_display_time(image_id),
            None => None,
        };
        let visual_time = match image_display_time {
            Some(time) => time,
            None => display_time,
        };
        let detected = match image_id {
            Some(image_id) => self.detected_objects_for_image(image_id),
            None => match index.nearest_detected_objects(events, visual_time) {
                Some(event) => Some((event, event.display_time())),
                None => None,
            },
        };
        let detected_objects = match detected {
            Some((event, _)) => Some(event),
            None => None,
        };
        let detected_objects_time = match detected {
            Some((_, time)) => Some(time),
            None => None,
        };
        let detected_objects_frame = match detected {
            Some((event, _)) => match event.kind {
                EventKind::DetectedObjects(frame) => Some(frame),
                _ => None,
            },
            None => None,
        };
        let localization = index.latest_recorded_localization(events, display_time);
        let recorded_localization = match localization {
            Some(event) => match event.kind {
                EventKind::RecordedLocalization { localized: true } => Some(event),
                _ => None,
            },
            None => None,
        };
        let calibrated_intrinsics = index.latest_calibrated_intrinsics(events, visual_time);
        let calibrated_intrinsics_time = match calibrated_intrinsics {
            Some(event) => Some(event.publish_time),
            None => None,
        };
        let global_debug = index.nearest_global_localization_debug(events, visual_time);
        let global_localization_debug = match global_debug {
            Some(event) => match event.kind {
                EventKind::GlobalLocalizationDebug { present: true } => Some(event),
                _ => None,
            },
            None => None,
        };
        let global_localization_debug_time = match global_debug {
            Some(event) => Some(event.display_time()),
            None => None,
        };
        proof {
            assert(shows_latest(
                self@,
                SnapshotKind::RecordedLocalization,
                display_time,
                localization,
            ));
            assert(shows_nearest(
                self@,
                SnapshotKind::GlobalLocalizationDebug,
                visual_time,
                global_debug,
            ));
        }
        RecordingSnapshot {
            image_id,
            image_display_time,
            camera_matrix: index.nearest_camera_matrix(events, visual_time),
            detected_objects,
            detected_objects_time,
            detected_objects_frame,
            recorded_localization,
            robot_kinematics: index.nearest_robot_kinematics(events, visual_time),
            calibrated_intrinsics,
            calibrated_intrinsics_time,
            field_mark_associations: index.nearest_field_mark_associations(events, visual_time),
            global_localization_debug,
            global_localization_debug_time,
            solve_diagnostics: index.latest_solve_diagnostics(events, display_time),
        }
    }
}

/// The image shown at a time is near it and no image is nearer; where none is shown, none is near.
/// This holds of images taken at the epoch or later.
pub proof fn shown_image_is_nearest(images: Seq<StereoImageIndex>, time: WallTime, other: int)
    requires
        is_chronological(image_times(images)),
        forall|i: int| 0 <= i < images.len() ==> (#[trigger] images[i]).embedded_time.nanos >= 0,
        images.len() <= usize::MAX,
        time.nanos >= 0,
        0 <= other < images.len(),
    ensures
        match shown_image(images, time) {
            Some(image_id) => {
                &&& image_id.0 < images.len()
                &&& abs_diff(
                    images[image_id.0 as int].embedded_time.nanos as int,
                    time.nanos as int,
                ) <= SNAPSHOT_MAX_TIME_DISTANCE
                &&& abs_diff(
                    images[image_id.0 as int].embedded_time.nanos as int,
                    time.nanos as int,
                ) <= abs_diff(images[other].embedded_time.nanos as int, time.nanos as int)
            },
            None => abs_diff(images[other].embedded_time.nanos as int, time.nanos as int)
                > SNAPSHOT_MAX_TIME_DISTANCE,
        },
{
    let times = image_times(images);
    let next = upper_bound_exists(times, time.nanos as int);
    upper_bound_is(times, time.nanos as int, next);
    if other < next {
        assert(times[other] <= times[next - 1]);
    } else {
        assert(times[next] <= times[other]);
    }
    if next > 0 {
        assert(images[next - 1].embedded_time.nanos >= 0);
    }
    if next < images.len() {
        assert(images[next].embedded_time.nanos >= 0);
    }
}

} // verus!
