//! Looking up events by the time at which they are shown.

use crate::detections::SNAPSHOT_MAX_TIME_DISTANCE;
use crate::event::{EventKind, RecordedEvent};
use crate::order::{
    is_chronological, is_upper_bound, nearest_by_distance, nearest_of, partition_point,
    sort_by_keys, stable_order_exists, stable_order_of, stably_sorted, upper_bound_is, SortKey,
};
use crate::time::{
    abs_diff, abs_duration, nanos_abs_diff, nanos_since_epoch, nanos_since_epoch_spec, WallTime,
};
use vstd::prelude::*;

verus! {

/// The kinds of events that are looked up.
pub enum SnapshotKind {
    CameraMatrix,
    DetectedObjects,
    RecordedLocalization,
    RobotKinematics,
    CalibratedIntrinsics,
    FieldMarkAssociations,
    GlobalLocalizationDebug,
    SolveDiagnostics,
}

/// Whether an event is of a kind.
pub open spec fn is_of_kind(event: RecordedEvent, kind: SnapshotKind) -> bool {
    match kind {
        SnapshotKind::CameraMatrix => event.kind is CameraMatrix,
        SnapshotKind::DetectedObjects => event.kind is DetectedObjects,
        SnapshotKind::RecordedLocalization => event.kind is RecordedLocalization,
        SnapshotKind::RobotKinematics => event.kind is RobotKinematics,
        SnapshotKind::CalibratedIntrinsics => event.kind is CalibratedIntrinsics,
        SnapshotKind::FieldMarkAssociations => event.kind is FieldMarkAssociations,
        SnapshotKind::GlobalLocalizationDebug => event.kind is GlobalLocalizationDebug,
        SnapshotKind::SolveDiagnostics => event.kind is SolveDiagnostics,
    }
}

/// The places of the events of a kind among the first `count` events.
pub open spec fn places_of_kind(
    events: Seq<RecordedEvent>,
    kind: SnapshotKind,
    count: int,
) -> Seq<usize>
    decreases count,
{
    if count <= 0 {
        Seq::empty()
    } else {
        let earlier = places_of_kind(events, kind, count - 1);
        if is_of_kind(events[count - 1], kind) {
            earlier.push((count - 1) as usize)
        } else {
            earlier
        }
    }
}

/// Whether every entry is the place of an event.
pub open spec fn are_places(events: Seq<RecordedEvent>, indexes: Seq<usize>) -> bool {
    forall|i: int| 0 <= i < indexes.len() ==> #[trigger] indexes[i] < events.len()
}

/// Whether every entry is the place of an event of a kind.
pub open spec fn are_of_kind(
    events: Seq<RecordedEvent>,
    indexes: Seq<usize>,
    kind: SnapshotKind,
) -> bool {
    forall|i: int|
        0 <= i < indexes.len() ==> is_of_kind(events[#[trigger] indexes[i] as int], kind)
}

/// The key by which the event at `index` is sorted: when it is shown, with instants before the
/// epoch counted as the epoch.
pub open spec fn display_key(events: Seq<RecordedEvent>, index: usize) -> SortKey {
    (nanos_since_epoch_spec(events[index as int].display_time_spec()) as i128, 0)
}

/// The keys by which events are sorted.
pub open spec fn display_keys(events: Seq<RecordedEvent>, indexes: Seq<usize>) -> Seq<SortKey> {
    Seq::new(indexes.len(), |i: int| display_key(events, indexes[i]))
}

/// `indexes` sorted by the time at which their events are shown.
pub open spec fn sorted_by_display(
    events: Seq<RecordedEvent>,
    indexes: Seq<usize>,
) -> Seq<usize> {
    stably_sorted(indexes, display_keys(events, indexes))
}

/// The times at which the listed events are shown.
pub open spec fn display_times(events: Seq<RecordedEvent>, indexes: Seq<usize>) -> Seq<int> {
    Seq::new(indexes.len(), |i: int| events[indexes[i] as int].display_time_spec().nanos as int)
}

/// Nanoseconds between the showing of an event and `time`, with instants before the epoch counted
/// as the epoch.
pub open spec fn display_distance(event: RecordedEvent, time: WallTime) -> int {
    abs_diff(
        nanos_since_epoch_spec(event.display_time_spec()) as int,
        nanos_since_epoch_spec(time) as int,
    ) as int
}

/// The event listed at `place`, with its distance from `time`.
pub open spec fn event_candidate(
    events: Seq<RecordedEvent>,
    indexes: Seq<usize>,
    place: int,
    time: WallTime,
) -> Option<(RecordedEvent, int)> {
    if 0 <= place < indexes.len() {
        let event = events[indexes[place] as int];
        Some((event, display_distance(event, time)))
    } else {
        None
    }
}

/// Keeps an event that is shown at most `max_distance` nanoseconds from `time`.
pub open spec fn keep_near_event(
    candidate: Option<RecordedEvent>,
    time: WallTime,
    max_distance: u64,
) -> Option<RecordedEvent> {
    match candidate {
        Some(event) if abs_diff(event.display_time_spec().nanos as int, time.nanos as int)
            <= max_distance => Some(event),
        _ => None,
    }
}

/// The nearer to `time` of the two events around the place `next`, where it is near enough.
pub open spec fn nearest_around(
    events: Seq<RecordedEvent>,
    indexes: Seq<usize>,
    next: int,
    time: WallTime,
    max_distance: u64,
) -> Option<RecordedEvent> {
    keep_near_event(
        nearest_of(
            event_candidate(events, indexes, next - 1, time),
            event_candidate(events, indexes, next, time),
        ),
        time,
        max_distance,
    )
}

/// The event in front of the place `next`, where it is near enough to `time`.
pub open spec fn latest_before(
    events: Seq<RecordedEvent>,
    indexes: Seq<usize>,
    next: int,
    time: WallTime,
    max_age: u64,
) -> Option<RecordedEvent> {
    if 0 < next <= indexes.len() {
        keep_near_event(Some(events[indexes[next - 1] as int]), time, max_age)
    } else {
        None
    }
}

/// Whether `found` is the nearer to `time` of the two listed events around the place where the
/// listed events pass `time`.
pub open spec fn is_nearest_event(
    events: Seq<RecordedEvent>,
    indexes: Seq<usize>,
    time: WallTime,
    max_distance: u64,
    found: Option<RecordedEvent>,
) -> bool {
    exists|next: int|
        #[trigger] is_upper_bound(display_times(events, indexes), time.nanos as int, next)
            && found == nearest_around(events, indexes, next, time, max_distance)
}

/// Whether `found` is the listed event in front of the place where the listed events pass `time`.
pub open spec fn is_latest_event(
    events: Seq<RecordedEvent>,
    indexes: Seq<usize>,
    time: WallTime,
    max_age: u64,
    found: Option<RecordedEvent>,
) -> bool {
    exists|next: int|
        #[trigger] is_upper_bound(display_times(events, indexes), time.nanos as int, next)
            && found == latest_before(events, indexes, next, time, max_age)
}

/// The place where the listed events pass `time`.
fn find_place(events: &[RecordedEvent], indexes: &[usize], time: WallTime) -> (next: usize)
    requires
        are_places(events@, indexes@),
    ensures
        next <= indexes@.len(),
        is_upper_bound(display_times(events@, indexes@), time.nanos as int, next as int),
{
    let before = |i: usize| -> (result: bool)
        requires
            i < indexes@.len(),
            are_places(events@, indexes@),
        ensures
            result == (events@[indexes@[i as int] as int].display_time_spec().nanos <= time.nanos),
    {
        let index: usize = indexes[i];
        events[index].display_time().nanos <= time.nanos
    };
    partition_point(indexes.len(), before)
}

/// Finds the listed event shown last at or before `time`, where it is near enough.
fn latest_with_max(
    events: &[RecordedEvent],
    indexes: &[usize],
    time: WallTime,
    max_age: u64,
) -> (found: Option<RecordedEvent>)
    requires
        are_places(events@, indexes@),
    ensures
        is_latest_event(events@, indexes@, time, max_age, found),
        found is Some ==> exists|i: int|
            0 <= i < indexes@.len() && found->0 == events@[#[trigger] indexes@[i] as int],
{
    let next: usize = find_place(events, indexes, time);
    if next == 0 {
        return None;
    }
    let index: usize = indexes[next - 1];
    let event = events[index];
    if abs_duration(event.display_time(), time) <= max_age as u128 {
        Some(event)
    } else {
        None
    }
}

/// Finds the listed event shown nearest to `time`, where it is near enough.
fn nearest_with_max(
    events: &[RecordedEvent],
    indexes: &[usize],
    time: WallTime,
    max_distance: u64,
) -> (found: Option<RecordedEvent>)
    requires
        are_places(events@, indexes@),
    ensures
        is_nearest_event(events@, indexes@, time, max_distance, found),
        found is Some ==> exists|i: int|
            0 <= i < indexes@.len() && found->0 == events@[#[trigger] indexes@[i] as int],
{
    let next: usize = find_place(events, indexes, time);
    let previous_candidate: Option<(RecordedEvent, u128)> = if next > 0 {
        let index: usize = indexes[next - 1];
        Some((events[index], nanos_abs_diff(events[index].display_time(), time)))
    } else {
        None
    };
    let next_candidate: Option<(RecordedEvent, u128)> = if next < indexes.len() {
        let index: usize = indexes[next];
        Some((events[index], nanos_abs_diff(events[index].display_time(), time)))
    } else {
        None
    };
    match nearest_by_distance(previous_candidate, next_candidate) {
        Some(event) => {
            if abs_duration(event.display_time(), time) <= max_distance as u128 {
                Some(event)
            } else {
                None
            }
        },
        None => None,
    }
}

/// Sorts `indexes` by the time at which their events are shown.
fn sort_by_display_time(events: &[RecordedEvent], indexes: Vec<usize>) -> (sorted: Vec<usize>)
    requires
        are_places(events@, indexes@),
    ensures
        sorted@ == sorted_by_display(events@, indexes@),
        are_places(events@, sorted@),
        forall|kind: SnapshotKind|
            are_of_kind(events@, indexes@, kind) ==> #[trigger] are_of_kind(
                events@,
                sorted@,
                kind,
            ),
{
    let mut keys: Vec<SortKey> = Vec::new();
    let mut place: usize = 0;
    while place < indexes.len()
        invariant
            are_places(events@, indexes@),
            place <= indexes@.len(),
            keys@.len() == place,
            forall|i: int| 0 <= i < place ==> keys@[i] == display_key(events@, indexes@[i]),
        decreases indexes@.len() - place,
    {
        let index: usize = indexes[place];
        let time = events[index].display_time();
        keys.push((nanos_since_epoch(time) as i128, 0));
        place = place + 1;
    }
    assert(keys@ =~= display_keys(events@, indexes@));
    let sorted = sort_by_keys(indexes.as_slice(), keys.as_slice());
    proof {
        let order = stable_order_of(keys@);
        assert forall|i: int| 0 <= i < sorted@.len() implies #[trigger] sorted@[i]
            == indexes@[order[i] as int] && order[i] < indexes@.len() by {}
    }
    sorted
}

/// Places of events by kind. All lists but that of the robot kinematics are sorted by the time at
/// which the events are shown.
pub struct SnapshotIndex {
    camera_matrices: Vec<usize>,
    detected_objects: Vec<usize>,
    recorded_localizations: Vec<usize>,
    robot_kinematics: Vec<usize>,
    calibrated_intrinsics: Vec<usize>,
    field_mark_associations: Vec<usize>,
    global_localization_debug: Vec<usize>,
    solve_diagnostics: Vec<usize>,
}

/// The places of the events of a kind as an index of `events` lists them.
pub open spec fn indexed_places(events: Seq<RecordedEvent>, kind: SnapshotKind) -> Seq<usize> {
    let places = places_of_kind(events, kind, events.len() as int);
    if kind is RobotKinematics {
        places
    } else {
        sorted_by_display(events, places)
    }
}

impl SnapshotIndex {
    /// The list for a kind.
    pub closed spec fn list(self, kind: SnapshotKind) -> Seq<usize> {
        match kind {
            SnapshotKind::CameraMatrix => self.camera_matrices@,
            SnapshotKind::DetectedObjects => self.detected_objects@,
            SnapshotKind::RecordedLocalization => self.recorded_localizations@,
            SnapshotKind::RobotKinematics => self.robot_kinematics@,
            SnapshotKind::CalibratedIntrinsics => self.calibrated_intrinsics@,
            SnapshotKind::FieldMarkAssociations => self.field_mark_associations@,
            SnapshotKind::GlobalLocalizationDebug => self.global_localization_debug@,
            SnapshotKind::SolveDiagnostics => self.solve_diagnostics@,
        }
    }

    /// Whether this is an index of `events`.
    pub open spec fn is_index_of(self, events: Seq<RecordedEvent>) -> bool {
        forall|kind: SnapshotKind|
            (#[trigger] self.list(kind)) == indexed_places(events, kind) && are_places(
                events,
                self.list(kind),
            ) && are_of_kind(events, self.list(kind), kind)
    }

    /// Lists the places of the events by kind.
    pub fn new(events: &[RecordedEvent]) -> (index: Self)
        ensures
            index.is_index_of(events@),
    {
        let mut camera_matrices: Vec<usize> = Vec::new();
        let mut detected_objects: Vec<usize> = Vec::new();
        let mut recorded_localizations: Vec<usize> = Vec::new();
        let mut robot_kinematics: Vec<usize> = Vec::new();
        let mut calibrated_intrinsics: Vec<usize> = Vec::new();
        let mut field_mark_associations: Vec<usize> = Vec::new();
        let mut global_localization_debug: Vec<usize> = Vec::new();
        let mut solve_diagnostics: Vec<usize> = Vec::new();
        let mut place: usize = 0;
        while place < events.len()
            invariant
                place <= events@.len(),
                camera_matrices@ == places_of_kind(
                    events@,
                    SnapshotKind::CameraMatrix,
                    place as int,
                ),
                detected_objects@ == places_of_kind(
                    events@,
                    SnapshotKind::DetectedObjects,
                    place as int,
                ),
                recorded_localizations@ == places_of_kind(
                    events@,
                    SnapshotKind::RecordedLocalization,
                    place as int,
                ),
                robot_kinematics@ == places_of_kind(
                    events@,
                    SnapshotKind::RobotKinematics,
                    place as int,
                ),
                calibrated_intrinsics@ == places_of_kind(
                    events@,
                    SnapshotKind::CalibratedIntrinsics,
                    place as int,
                ),
                field_mark_associations@ == places_of_kind(
                    events@,
                    SnapshotKind::FieldMarkAssociations,
                    place as int,
                ),
                global_localization_debug@ == places_of_kind(
                    events@,
                    SnapshotKind::GlobalLocalizationDebug,
                    place as int,
                ),
                solve_diagnostics@ == places_of_kind(
                    events@,
                    SnapshotKind::SolveDiagnostics,
                    place as int,
                ),
                are_places(events@, camera_matrices@),
                are_of_kind(events@, camera_matrices@, SnapshotKind::CameraMatrix),
                are_places(events@, detected_objects@),
                are_of_kind(events@, detected_objects@, SnapshotKind::DetectedObjects),
                are_places(events@, recorded_localizations@),
                are_of_kind(events@, recorded_localizations@, SnapshotKind::RecordedLocalization),
                are_places(events@, robot_kinematics@),
                are_of_kind(events@, robot_kinematics@, SnapshotKind::RobotKinematics),
                are_places(events@, calibrated_intrinsics@),
                are_of_kind(events@, calibrated_intrinsics@, SnapshotKind::CalibratedIntrinsics),
                are_places(events@, field_mark_associations@),
                are_of_kind(events@, field_mark_associations@, SnapshotKind::FieldMarkAssociations),
                are_places(events@, global_localization_debug@),
                are_of_kind(
                    events@,
                    global_localization_debug@,
                    SnapshotKind::GlobalLocalizationDebug,
                ),
                are_places(events@, solve_diagnostics@),
                are_of_kind(events@, solve_diagnostics@, SnapshotKind::SolveDiagnostics),
            decreases events@.len() - place,
        {
            match events[place].kind {
                EventKind::CameraMatrix(_) => camera_matrices.push(place),
                EventKind::DetectedObjects(_) => detected_objects.push(place),
                EventKind::RecordedLocalization { .. } => recorded_localizations.push(place),
                EventKind::RobotKinematics(_) => robot_kinematics.push(place),
                EventKind::CalibratedIntrinsics => calibrated_intrinsics.push(place),
                EventKind::FieldMarkAssociations(_) => field_mark_associations.push(place),
                EventKind::GlobalLocalizationDebug { .. } => global_localization_debug.push(place),
                EventKind::SolveDiagnostics(_) => solve_diagnostics.push(place),
                EventKind::Imu => {},
                EventKind::VisualOdometry(_) => {},
            }
            place = place + 1;
        }
        SnapshotIndex {
            camera_matrices: sort_by_display_time(events, camera_matrices),
            detected_objects: sort_by_display_time(events, detected_objects),
            recorded_localizations: sort_by_display_time(events, recorded_localizations),
            robot_kinematics,
            calibrated_intrinsics: sort_by_display_time(events, calibrated_intrinsics),
            field_mark_associations: sort_by_display_time(events, field_mark_associations),
            global_localization_debug: sort_by_display_time(events, global_localization_debug),
            solve_diagnostics: sort_by_display_time(events, solve_diagnostics),
        }
    }

    /// Finds the camera matrix shown nearest to `time`, where it is near enough.
    pub fn nearest_camera_matrix(
        &self,
        events: &[RecordedEvent],
        time: WallTime,
    ) -> (found: Option<RecordedEvent>)
        requires
            self.is_index_of(events@),
        ensures
            is_nearest_event(
                events@,
                self.list(SnapshotKind::CameraMatrix),
                time,
                SNAPSHOT_MAX_TIME_DISTANCE,
                found,
            ),
            found is Some ==> is_of_kind(found->0, SnapshotKind::CameraMatrix),
    {
        assert(are_places(events@, self.list(SnapshotKind::CameraMatrix)));
        assert(are_of_kind(
            events@,
            self.list(SnapshotKind::CameraMatrix),
            SnapshotKind::CameraMatrix,
        ));
        nearest_with_max(
            events,
            self.camera_matrices.as_slice(),
            time,
            SNAPSHOT_MAX_TIME_DISTANCE,
        )
    }

    /// Finds the detection shown nearest to `time`, where it is near enough.
    pub fn nearest_detected_objects(
        &self,
        events: &[RecordedEvent],
        time: WallTime,
    ) -> (found: Option<RecordedEvent>)
        requires
            self.is_index_of(events@),
        ensures
            is_nearest_event(
                events@,
                self.list(SnapshotKind::DetectedObjects),
                time,
                SNAPSHOT_MAX_TIME_DISTANCE,
                found,
            ),
            found is Some ==> is_of_kind(found->0, SnapshotKind::DetectedObjects),
    {
        assert(are_places(events@, self.list(SnapshotKind::DetectedObjects)));
        assert(are_of_kind(
            events@,
            self.list(SnapshotKind::DetectedObjects),
            SnapshotKind::DetectedObjects,
        ));
        nearest_with_max(
            events,
            self.detected_objects.as_slice(),
            time,
            SNAPSHOT_MAX_TIME_DISTANCE,
        )
    }

    /// Finds the recorded pose shown last at or before `time`, where it is near enough.
    pub fn latest_recorded_localization(
        &self,
        events: &[RecordedEvent],
        time: WallTime,
    ) -> (found: Option<RecordedEvent>)
        requires
            self.is_index_of(events@),
        ensures
            is_latest_event(
                events@,
                self.list(SnapshotKind::RecordedLocalization),
                time,
                SNAPSHOT_MAX_TIME_DISTANCE,
                found,
            ),
            found is Some ==> is_of_kind(found->0, SnapshotKind::RecordedLocalization),
    {
        assert(are_places(events@, self.list(SnapshotKind::RecordedLocalization)));
        assert(are_of_kind(
            events@,
            self.list(SnapshotKind::RecordedLocalization),
            SnapshotKind::RecordedLocalization,
        ));
        latest_with_max(
            events,
            self.recorded_localizations.as_slice(),
            time,
            SNAPSHOT_MAX_TIME_DISTANCE,
        )
    }

    /// Finds the robot kinematics shown nearest to `time`, where it is near enough.
    pub fn nearest_robot_kinematics(
        &self,
        events: &[RecordedEvent],
        time: WallTime,
    ) -> (found: Option<RecordedEvent>)
        requires
            self.is_index_of(events@),
        ensures
            is_nearest_event(
                events@,
                self.list(SnapshotKind::RobotKinematics),
                time,
                SNAPSHOT_MAX_TIME_DISTANCE,
                found,
            ),
            found is Some ==> is_of_kind(found->0, SnapshotKind::RobotKinematics),
    {
        assert(are_places(events@, self.list(SnapshotKind::RobotKinematics)));
        assert(are_of_kind(
            events@,
            self.list(SnapshotKind::RobotKinematics),
            SnapshotKind::RobotKinematics,
        ));
        nearest_with_max(
            events,
            self.robot_kinematics.as_slice(),
            time,
            SNAPSHOT_MAX_TIME_DISTANCE,
        )
    }

    /// Finds the calibrated intrinsics shown last at or before `time`, where it is near enough.
    pub fn latest_calibrated_intrinsics(
        &self,
        events: &[RecordedEvent],
        time: WallTime,
    ) -> (found: Option<RecordedEvent>)
        requires
            self.is_index_of(events@),
        ensures
            is_latest_event(
                events@,
                self.list(SnapshotKind::CalibratedIntrinsics),
                time,
                SNAPSHOT_MAX_TIME_DISTANCE,
                found,
            ),
            found is Some ==> is_of_kind(found->0, SnapshotKind::CalibratedIntrinsics),
    {
        assert(are_places(events@, self.list(SnapshotKind::CalibratedIntrinsics)));
        assert(are_of_kind(
            events@,
            self.list(SnapshotKind::CalibratedIntrinsics),
            SnapshotKind::CalibratedIntrinsics,
        ));
        latest_with_max(
            events,
            self.calibrated_intrinsics.as_slice(),
            time,
            SNAPSHOT_MAX_TIME_DISTANCE,
        )
    }

    /// Finds the field-mark associations shown nearest to `time`, where it is near enough.
    pub fn nearest_field_mark_associations(
        &self,
        events: &[RecordedEvent],
        time: WallTime,
    ) -> (found: Option<RecordedEvent>)
        requires
            self.is_index_of(events@),
        ensures
            is_nearest_event(
                events@,
                self.list(SnapshotKind::FieldMarkAssociations),
                time,
                SNAPSHOT_MAX_TIME_DISTANCE,
                found,
            ),
            found is Some ==> is_of_kind(found->0, SnapshotKind::FieldMarkAssociations),
    {
        assert(are_places(events@, self.list(SnapshotKind::FieldMarkAssociations)));
        assert(are_of_kind(
            events@,
            self.list(SnapshotKind::FieldMarkAssociations),
            SnapshotKind::FieldMarkAssociations,
        ));
        nearest_with_max(
            events,
            self.field_mark_associations.as_slice(),
            time,
            SNAPSHOT_MAX_TIME_DISTANCE,
        )
    }

    /// Finds the state of the global localization shown nearest to `time`, where it is near enough.
    pub fn nearest_global_localization_debug(
        &self,
        events: &[RecordedEvent],
        time: WallTime,
    ) -> (found: Option<RecordedEvent>)
        requires
            self.is_index_of(events@),
        ensures
            is_nearest_event(
                events@,
                self.list(SnapshotKind::GlobalLocalizationDebug),
                time,
                SNAPSHOT_MAX_TIME_DISTANCE,
                found,
            ),
            found is Some ==> is_of_kind(found->0, SnapshotKind::GlobalLocalizationDebug),
    {
        assert(are_places(events@, self.list(SnapshotKind::GlobalLocalizationDebug)));
        assert(are_of_kind(
            events@,
            self.list(SnapshotKind::GlobalLocalizationDebug),
            SnapshotKind::GlobalLocalizationDebug,
        ));
        nearest_with_max(
            events,
            self.global_localization_debug.as_slice(),
            time,
            SNAPSHOT_MAX_TIME_DISTANCE,
        )
    }

    /// Finds the solve diagnostics shown last at or before `time`, where it is near enough.
    pub fn latest_solve_diagnostics(
        &self,
        events: &[RecordedEvent],
        time: WallTime,
    ) -> (found: Option<RecordedEvent>)
        requires
            self.is_index_of(events@),
        ensures
            is_latest_event(
                events@,
                self.list(SnapshotKind::SolveDiagnostics),
                time,
                SNAPSHOT_MAX_TIME_DISTANCE,
                found,
            ),
            found is Some ==> is_of_kind(found->0, SnapshotKind::SolveDiagnostics),
    {
        assert(are_places(events@, self.list(SnapshotKind::SolveDiagnostics)));
        assert(are_of_kind(
            events@,
            self.list(SnapshotKind::SolveDiagnostics),
            SnapshotKind::SolveDiagnostics,
        ));
        latest_with_max(
            events,
            self.solve_diagnostics.as_slice(),
            time,
            SNAPSHOT_MAX_TIME_DISTANCE,
        )
    }
}

/// The event found for a time is near it, and no listed event is nearer; where none is found, none
/// is near. This holds of events shown at the epoch or later.
pub proof fn nearest_event_is_nearest(
    events: Seq<RecordedEvent>,
    indexes: Seq<usize>,
    time: WallTime,
    max_distance: u64,
    found: Option<RecordedEvent>,
    other: int,
)
    requires
        is_chronological(display_times(events, indexes)),
        forall|i: int|
            0 <= i < indexes.len() ==> events[#[trigger] indexes[i] as int].display_time_spec().nanos
                >= 0,
        time.nanos >= 0,
        is_nearest_event(events, indexes, time, max_distance, found),
        0 <= other < indexes.len(),
    ensures
        match found {
            Some(event) => {
                &&& abs_diff(event.display_time_spec().nanos as int, time.nanos as int)
                    <= max_distance
                &&& abs_diff(event.display_time_spec().nanos as int, time.nanos as int) <= abs_diff(
                    events[indexes[other] as int].display_time_spec().nanos as int,
                    time.nanos as int,
                )
            },
            None => abs_diff(
                events[indexes[other] as int].display_time_spec().nanos as int,
                time.nanos as int,
            ) > max_distance,
        },
{
    let times = display_times(events, indexes);
    let target = time.nanos as int;
    let next = choose|next: int|
        #[trigger] is_upper_bound(times, target, next) && found == nearest_around(
            events,
            indexes,
            next,
            time,
            max_distance,
        );
    upper_bound_is(times, target, next);
    if other < next {
        assert(times[other] <= times[next - 1]);
    } else {
        assert(times[next] <= times[other]);
    }
    if next > 0 {
        assert(events[indexes[next - 1] as int].display_time_spec().nanos >= 0);
    }
    if next < times.len() {
        assert(events[indexes[next] as int].display_time_spec().nanos >= 0);
    }
}

/// The latest event found for a time is not shown after it, is near it, and no other listed event
/// is shown between the two; where none is found, none is both near and not after it.
pub proof fn latest_event_is_latest(
    events: Seq<RecordedEvent>,
    indexes: Seq<usize>,
    time: WallTime,
    max_age: u64,
    found: Option<RecordedEvent>,
    other: int,
)
    requires
        is_chronological(display_times(events, indexes)),
        is_latest_event(events, indexes, time, max_age, found),
        0 <= other < indexes.len(),
        events[indexes[other] as int].display_time_spec().nanos <= time.nanos,
    ensures
        match found {
            Some(event) => {
                &&& event.display_time_spec().nanos <= time.nanos
                &&& time.nanos - event.display_time_spec().nanos <= max_age
                &&& events[indexes[other] as int].display_time_spec().nanos
                    <= event.display_time_spec().nanos
            },
            None => time.nanos - events[indexes[other] as int].display_time_spec().nanos > max_age,
        },
{
    let times = display_times(events, indexes);
    let target = time.nanos as int;
    let next = choose|next: int|
        #[trigger] is_upper_bound(times, target, next) && found == latest_before(
            events,
            indexes,
            next,
            time,
            max_age,
        );
    upper_bound_is(times, target, next);
    assert(times[other] <= target);
    assert(times[other] <= times[next - 1]);
}

/// A list sorted by showing time is chronological where its events are shown at the epoch or
/// later.
pub proof fn sorted_by_display_is_chronological(
    events: Seq<RecordedEvent>,
    indexes: Seq<usize>,
)
    requires
        indexes.len() <= usize::MAX,
        forall|i: int|
            0 <= i < indexes.len() ==> events[#[trigger] indexes[i] as int].display_time_spec().nanos
                >= 0,
    ensures
        is_chronological(display_times(events, sorted_by_display(events, indexes))),
{
    let keys = display_keys(events, indexes);
    let order = stable_order_of(keys);
    stable_order_exists(keys);
    let sorted = sorted_by_display(events, indexes);
    let times = display_times(events, sorted);
    assert forall|i: int, j: int| 0 <= i <= j < times.len() implies times[i] <= times[j] by {
        assert(order[i] < indexes.len() && order[j] < indexes.len());
        assert(sorted[i] == indexes[order[i] as int] && sorted[j] == indexes[order[j] as int]);
        if i < j {
            assert(crate::order::precedes(keys, order[i] as int, order[j] as int));
        }
    }
}

} // verus!
