//! What is shown of a recording, said of the events themselves.

use crate::event::{EventKind, RecordedEvent, StereoImageIndex};
use crate::order::{
    is_chronological, is_upper_bound, precedes, stable_order_exists, stable_order_of,
    upper_bound_exists, upper_bound_is,
};
use crate::playback::{
    is_snapshot, keep_localized, keep_present, shown_image, shows_latest, shows_nearest,
    RecordingSnapshot,
};
use crate::recording::{image_times, RecordingView};
use crate::snapshot::{
    display_keys, display_times, indexed_places, is_latest_event, is_nearest_event, is_of_kind,
    latest_before, nearest_around, places_of_kind, sorted_by_display, SnapshotKind,
};
use crate::time::WallTime;
use vstd::prelude::*;

verus! {

/// The nanosecond at which an event is shown: that of the camera image of a detection where it is
/// known, that inside the message of a camera matrix, robot kinematics, field-mark associations or
/// solver diagnostics, else that at which the message was published.
pub open spec fn shown_at(event: RecordedEvent) -> int {
    match event.kind {
        EventKind::Imu => event.publish_time.nanos as int,
        EventKind::VisualOdometry(_) => event.publish_time.nanos as int,
        EventKind::RobotKinematics(time) => time.nanos as int,
        EventKind::CameraMatrix(time) => time.nanos as int,
        EventKind::DetectedObjects(frame) => match frame.image_time {
            Some(time) => time.nanos as int,
            None => frame.publish_time.nanos as int,
        },
        EventKind::RecordedLocalization { .. } => event.publish_time.nanos as int,
        EventKind::CalibratedIntrinsics => event.publish_time.nanos as int,
        EventKind::FieldMarkAssociations(time) => time.nanos as int,
        EventKind::GlobalLocalizationDebug { .. } => event.publish_time.nanos as int,
        EventKind::SolveDiagnostics(time) => time.nanos as int,
    }
}

/// Events and images are shown at the times of their own.
pub proof fn display_times_are_those_of_messages(event: RecordedEvent, image: StereoImageIndex)
    ensures
        event.display_time_spec().nanos == shown_at(event),
        event.kind is DetectedObjects
            ==> event.kind->DetectedObjects_0.display_time_spec().nanos == shown_at(event),
        image.display_time_spec().nanos == image.embedded_time.nanos,
{
}

/// The distance of two instants.
pub open spec fn apart(a: int, b: int) -> int {
    if a < b {
        b - a
    } else {
        a - b
    }
}

/// Whether the event at a place is of those asked for and is shown within a tenth of a second of
/// an instant, none of them nearer to it. Of two equally near the one shown earlier counts; of
/// those shown at once the last up to the instant, the first after it.
pub open spec fn is_nearest_at(
    events: Seq<RecordedEvent>,
    asked: spec_fn(RecordedEvent) -> bool,
    time: int,
    place: int,
) -> bool {
    &&& 0 <= place < events.len()
    &&& asked(events[place])
    &&& apart(shown_at(events[place]), time) <= 100_000_000
    &&& forall|other: int|
        0 <= other < events.len() && asked(#[trigger] events[other]) ==> {
            let gap = apart(shown_at(events[place]), time);
            let other_gap = apart(shown_at(events[other]), time);
            ||| gap < other_gap
            ||| gap == other_gap && shown_at(events[place]) < shown_at(events[other])
            ||| gap == other_gap && shown_at(events[place]) == shown_at(events[other]) && (if shown_at(
                events[place],
            ) <= time {
                other <= place
            } else {
                place <= other
            })
        }
}

/// Whether `found` is the nearest event to an instant of those asked for, where one is within a
/// tenth of a second.
pub open spec fn is_nearest_shown(
    events: Seq<RecordedEvent>,
    asked: spec_fn(RecordedEvent) -> bool,
    time: int,
    found: Option<RecordedEvent>,
) -> bool {
    match found {
        Some(event) => exists|place: int| #[trigger]
            is_nearest_at(events, asked, time, place) && event == events[place],
        None => forall|other: int|
            0 <= other < events.len() && asked(#[trigger] events[other]) ==> apart(
                shown_at(events[other]),
                time,
            ) > 100_000_000,
    }
}

/// Whether the event at a place is of those asked for and is shown at an instant or within a tenth
/// of a second before it, none of them in between and none of those shown at once after it.
pub open spec fn is_latest_at(
    events: Seq<RecordedEvent>,
    asked: spec_fn(RecordedEvent) -> bool,
    time: int,
    place: int,
) -> bool {
    &&& 0 <= place < events.len()
    &&& asked(events[place])
    &&& shown_at(events[place]) <= time <= shown_at(events[place]) + 100_000_000
    &&& forall|other: int|
        0 <= other < events.len() && asked(#[trigger] events[other]) && shown_at(events[other])
            <= time ==> {
            ||| shown_at(events[other]) < shown_at(events[place])
            ||| shown_at(events[other]) == shown_at(events[place]) && other <= place
        }
}

/// Whether `found` is the last event of those asked for that is shown at an instant or before it,
/// where one is within a tenth of a second.
pub open spec fn is_latest_shown(
    events: Seq<RecordedEvent>,
    asked: spec_fn(RecordedEvent) -> bool,
    time: int,
    found: Option<RecordedEvent>,
) -> bool {
    match found {
        Some(event) => exists|place: int| #[trigger]
            is_latest_at(events, asked, time, place) && event == events[place],
        None => forall|other: int|
            0 <= other < events.len() && asked(#[trigger] events[other]) ==> !(shown_at(
                events[other],
            ) <= time <= shown_at(events[other]) + 100_000_000),
    }
}

/// Whether a list holds the places of the events asked for, as they are shown.
pub open spec fn lists_as_shown(
    events: Seq<RecordedEvent>,
    asked: spec_fn(RecordedEvent) -> bool,
    places: Seq<usize>,
) -> bool {
    &&& forall|i: int|
        0 <= i < places.len() ==> #[trigger] places[i] < events.len() && asked(
            events[places[i] as int],
        ) && shown_at(events[places[i] as int]) >= 0
    &&& forall|i: int, j: int|
        #![trigger places[i], places[j]]
        0 <= i < j < places.len() ==> shown_at(events[places[i] as int]) <= shown_at(
            events[places[j] as int],
        ) && (shown_at(events[places[i] as int]) == shown_at(events[places[j] as int]) ==> places[i]
            < places[j])
    &&& forall|place: int|
        0 <= place < events.len() && asked(#[trigger] events[place]) ==> places.contains(
            place as usize,
        )
}

/// What is found in such a list as nearest is the nearest event.
proof fn nearest_listed_is_nearest(
    events: Seq<RecordedEvent>,
    asked: spec_fn(RecordedEvent) -> bool,
    places: Seq<usize>,
    time: WallTime,
    max_distance: u64,
    found: Option<RecordedEvent>,
)
    requires
        lists_as_shown(events, asked, places),
        events.len() <= usize::MAX,
        max_distance == 100_000_000,
        is_nearest_event(events, places, time, max_distance, found),
    ensures
        is_nearest_shown(events, asked, time.nanos as int, found),
{
    let times = display_times(events, places);
    let target = time.nanos as int;
    let next = choose|next: int|
        #[trigger] is_upper_bound(times, target, next) && found == nearest_around(
            events,
            places,
            next,
            time,
            max_distance,
        );
    assert forall|i: int| 0 <= i < times.len() implies #[trigger] times[i] == shown_at(
        events[places[i] as int],
    ) by {}
    assert forall|i: int, j: int| 0 <= i <= j < times.len() implies times[i] <= times[j] by {
        assert(times[i] == shown_at(events[places[i] as int]));
        assert(times[j] == shown_at(events[places[j] as int]));
    }
    upper_bound_is(times, target, next);
    let event = if next > 0 && (next >= places.len() || apart(times[next - 1], target) <= apart(
        times[next],
        target,
    )) {
        next - 1
    } else {
        next
    };
    if next > 0 {
        assert(places[next - 1] < events.len());
    }
    if next < places.len() {
        assert(places[next] < events.len());
    }
    if 0 <= event < places.len() {
        let chosen = events[places[event] as int];
        assert(times[event] == shown_at(chosen));
        assert(found is Some ==> found == Some(chosen));
        assert(found is Some <==> apart(shown_at(chosen), target) <= 100_000_000);
    }
    assert forall|other: int| 0 <= other < events.len() && asked(#[trigger] events[other]) implies {
        &&& 0 <= event < places.len()
        &&& {
            let place = places[event] as int;
            let gap = apart(shown_at(events[place]), target);
            let other_gap = apart(shown_at(events[other]), target);
            ||| gap < other_gap
            ||| gap == other_gap && shown_at(events[place]) < shown_at(events[other])
            ||| gap == other_gap && shown_at(events[place]) == shown_at(events[other]) && (if shown_at(
                events[place],
            ) <= target {
                other <= place
            } else {
                place <= other
            })
        }
    } by {
        assert(places.contains(other as usize));
        let listed = choose|listed: int| 0 <= listed < places.len() && places[listed] == other;
        assert(times[listed] == shown_at(events[other]));
        if listed < next {
            assert(times[listed] <= times[next - 1]);
        } else {
            assert(times[next] <= times[listed]);
        }
        if listed < event {
            assert(places[listed] < events.len() && places[event] < events.len());
        }
        if event < listed {
            assert(places[listed] < events.len() && places[event] < events.len());
        }
    }
    if found is Some {
        assert(is_nearest_at(events, asked, target, places[event] as int));
    }
}

/// What is found in such a list as latest is the latest event.
proof fn latest_listed_is_latest(
    events: Seq<RecordedEvent>,
    asked: spec_fn(RecordedEvent) -> bool,
    places: Seq<usize>,
    time: WallTime,
    max_age: u64,
    found: Option<RecordedEvent>,
)
    requires
        lists_as_shown(events, asked, places),
        events.len() <= usize::MAX,
        max_age == 100_000_000,
        is_latest_event(events, places, time, max_age, found),
    ensures
        is_latest_shown(events, asked, time.nanos as int, found),
{
    let times = display_times(events, places);
    let target = time.nanos as int;
    let next = choose|next: int|
        #[trigger] is_upper_bound(times, target, next) && found == latest_before(
            events,
            places,
            next,
            time,
            max_age,
        );
    assert forall|i: int| 0 <= i < times.len() implies #[trigger] times[i] == shown_at(
        events[places[i] as int],
    ) by {}
    assert forall|i: int, j: int| 0 <= i <= j < times.len() implies times[i] <= times[j] by {
        assert(times[i] == shown_at(events[places[i] as int]));
        assert(times[j] == shown_at(events[places[j] as int]));
    }
    upper_bound_is(times, target, next);
    if next > 0 {
        assert(places[next - 1] < events.len());
        assert(times[next - 1] == shown_at(events[places[next - 1] as int]));
    }
    assert forall|other: int|
        0 <= other < events.len() && asked(#[trigger] events[other]) && shown_at(events[other])
            <= target implies next > 0 && {
        let place = places[next - 1] as int;
        ||| shown_at(events[other]) < shown_at(events[place])
        ||| shown_at(events[other]) == shown_at(events[place]) && other <= place
    } by {
        assert(places.contains(other as usize));
        let listed = choose|listed: int| 0 <= listed < places.len() && places[listed] == other;
        assert(times[listed] == shown_at(events[other]));
        assert(listed < next);
        if listed < next - 1 {
            assert(places[listed] < events.len() && places[next - 1] < events.len());
        }
    }
    if found is Some {
        assert(is_latest_at(events, asked, target, places[next - 1] as int));
    }
}

/// The places of a kind are those of the events asked for.
proof fn places_of_kind_are_places(
    events: Seq<RecordedEvent>,
    asked: spec_fn(RecordedEvent) -> bool,
    kind: SnapshotKind,
    count: int,
)
    requires
        0 <= count <= events.len() <= usize::MAX,
        forall|event: RecordedEvent| #[trigger] is_of_kind(event, kind) <==> asked(event),
    ensures
        ({
            let places = places_of_kind(events, kind, count);
            &&& places.len() <= count
            &&& forall|i: int|
                0 <= i < places.len() ==> #[trigger] places[i] < count && asked(
                    events[places[i] as int],
                )
            &&& forall|i: int, j: int|
                #![trigger places[i], places[j]]
                0 <= i < j < places.len() ==> places[i] < places[j]
            &&& forall|place: int|
                0 <= place < count && asked(#[trigger] events[place]) ==> places.contains(
                    place as usize,
                )
        }),
    decreases count,
{
    if count > 0 {
        places_of_kind_are_places(events, asked, kind, count - 1);
        let earlier = places_of_kind(events, kind, count - 1);
        let places = places_of_kind(events, kind, count);
        assert(is_of_kind(events[count - 1], kind) <==> asked(events[count - 1]));
        assert forall|place: int|
            0 <= place < count && asked(#[trigger] events[place]) implies places.contains(
            place as usize,
        ) by {
            if place < count - 1 {
                assert(earlier.contains(place as usize));
                let at = choose|at: int| 0 <= at < earlier.len() && earlier[at] == place;
                assert(places[at] == place);
            } else {
                assert(places[earlier.len() as int] == place);
            }
        }
    }
}

/// Whether the robot kinematics of a recording were recorded in the order in which they were
/// measured.
pub open spec fn has_ordered_kinematics(events: Seq<RecordedEvent>) -> bool {
    forall|i: int, j: int|
        #![trigger events[i], events[j]]
        0 <= i < j < events.len() && events[i].kind is RobotKinematics && events[j].kind is
            RobotKinematics ==> shown_at(events[i]) <= shown_at(events[j])
}

/// The list of a kind holds the places of the events asked for, as they are shown.
proof fn indexed_places_are_as_shown(
    events: Seq<RecordedEvent>,
    asked: spec_fn(RecordedEvent) -> bool,
    kind: SnapshotKind,
)
    requires
        events.len() <= usize::MAX,
        forall|event: RecordedEvent| #[trigger] is_of_kind(event, kind) <==> asked(event),
        forall|i: int| 0 <= i < events.len() ==> shown_at(#[trigger] events[i]) >= 0,
        kind is RobotKinematics ==> has_ordered_kinematics(events) && forall|event: RecordedEvent|
            #[trigger] asked(event) ==> event.kind is RobotKinematics,
    ensures
        lists_as_shown(events, asked, indexed_places(events, kind)),
{
    let places = places_of_kind(events, kind, events.len() as int);
    places_of_kind_are_places(events, asked, kind, events.len() as int);
    if kind is RobotKinematics {
        assert forall|i: int, j: int|
            #![trigger places[i], places[j]]
            0 <= i < j < places.len() implies shown_at(events[places[i] as int]) <= shown_at(
            events[places[j] as int],
        ) by {
            assert(events[places[i] as int].kind is RobotKinematics);
            assert(events[places[j] as int].kind is RobotKinematics);
        }
    } else {
        let keys = display_keys(events, places);
        let order = stable_order_of(keys);
        let sorted = sorted_by_display(events, places);
        stable_order_exists(keys);
        assert forall|i: int| 0 <= i < sorted.len() implies #[trigger] sorted[i] == places[order[i] as int]
            && order[i] < places.len() by {}
        assert forall|i: int, j: int|
            #![trigger sorted[i], sorted[j]]
            0 <= i < j < sorted.len() implies shown_at(events[sorted[i] as int]) <= shown_at(
            events[sorted[j] as int],
        ) && (shown_at(events[sorted[i] as int]) == shown_at(events[sorted[j] as int]) ==> sorted[i]
            < sorted[j]) by {
            assert(sorted[i] == places[order[i] as int] && sorted[j] == places[order[j] as int]);
            assert(shown_at(events[places[order[i] as int] as int]) >= 0);
            assert(shown_at(events[places[order[j] as int] as int]) >= 0);
            assert(precedes(keys, order[i] as int, order[j] as int));
        }
        assert forall|place: int|
            0 <= place < events.len() && asked(#[trigger] events[place]) implies sorted.contains(
            place as usize,
        ) by {
            assert(places.contains(place as usize));
            let at = choose|at: int| 0 <= at < places.len() && places[at] == place;
            assert(order.contains(at as usize));
            let to = choose|to: int| 0 <= to < order.len() && order[to] == at;
            assert(sorted[to] == place);
        }
    }
}

/// What stands in the list of a kind is an event asked for.
proof fn found_is_among_events(
    events: Seq<RecordedEvent>,
    asked: spec_fn(RecordedEvent) -> bool,
    kind: SnapshotKind,
    time: WallTime,
    max_distance: u64,
    found: Option<RecordedEvent>,
)
    requires
        events.len() <= usize::MAX,
        forall|event: RecordedEvent| #[trigger] is_of_kind(event, kind) <==> asked(event),
        is_nearest_event(events, indexed_places(events, kind), time, max_distance, found)
            || is_latest_event(events, indexed_places(events, kind), time, max_distance, found),
    ensures
        found is Some ==> events.contains(found->0) && asked(found->0) && apart(
            shown_at(found->0),
            time.nanos as int,
        ) <= max_distance,
{
    let listed = indexed_places(events, kind);
    let places = places_of_kind(events, kind, events.len() as int);
    places_of_kind_are_places(events, asked, kind, events.len() as int);
    let keys = display_keys(events, places);
    let order = stable_order_of(keys);
    stable_order_exists(keys);
    assert forall|i: int| 0 <= i < listed.len() implies #[trigger] listed[i] < events.len() && asked(
        events[listed[i] as int],
    ) by {
        if !(kind is RobotKinematics) {
            assert(order[i] < places.len());
            assert(listed[i] == places[order[i] as int]);
        }
    }
}

/// Whether the image at a place is shown at an instant: it was taken within a tenth of a second of
/// it, and none was taken nearer to it. Of two equally near the one taken earlier counts; of those
/// taken at once the last up to the instant, the first after it.
pub open spec fn is_image_at(images: Seq<StereoImageIndex>, time: int, place: int) -> bool {
    &&& 0 <= place < images.len()
    &&& apart(images[place].embedded_time.nanos as int, time) <= 100_000_000
    &&& forall|other: int|
        0 <= other < images.len() ==> {
            let taken = images[place].embedded_time.nanos as int;
            let other_taken = (#[trigger] images[other]).embedded_time.nanos as int;
            ||| apart(taken, time) < apart(other_taken, time)
            ||| apart(taken, time) == apart(other_taken, time) && taken < other_taken
            ||| taken == other_taken && (if taken <= time {
                other <= place
            } else {
                place <= other
            })
        }
}

/// The image that is shown at a time is the nearest one, and one is shown exactly if one was taken
/// within a tenth of a second. This holds of images taken at the epoch or later.
pub proof fn nearest_image_is_shown(images: Seq<StereoImageIndex>, time: WallTime)
    requires
        forall|i: int, j: int|
            #![trigger images[i], images[j]]
            0 <= i <= j < images.len() ==> images[i].embedded_time.nanos
                <= images[j].embedded_time.nanos,
        forall|i: int| 0 <= i < images.len() ==> (#[trigger] images[i]).embedded_time.nanos >= 0,
        images.len() <= usize::MAX,
    ensures
        match shown_image(images, time) {
            Some(image) => is_image_at(images, time.nanos as int, image.0 as int),
            None => forall|other: int|
                0 <= other < images.len() ==> apart(
                    (#[trigger] images[other]).embedded_time.nanos as int,
                    time.nanos as int,
                ) > 100_000_000,
        },
{
    let times = image_times(images);
    let target = time.nanos as int;
    assert(is_chronological(times));
    let next = upper_bound_exists(times, target);
    upper_bound_is(times, target, next);
    if next > 0 {
        assert(images[next - 1].embedded_time.nanos >= 0);
    }
    if next < images.len() {
        assert(images[next].embedded_time.nanos >= 0);
    }
    assert forall|other: int| 0 <= other < images.len() implies times[other] == (
    #[trigger] images[other]).embedded_time.nanos && (if other < next {
        times[other] <= times[next - 1] && images[other].embedded_time.nanos
            <= images[next - 1].embedded_time.nanos && times[other] <= target
    } else {
        times[next] <= times[other] && images[next].embedded_time.nanos
            <= images[other].embedded_time.nanos && times[other] > target
    }) by {
        if other < next {
            assert(times[other] <= times[next - 1]);
            assert(images[other].embedded_time.nanos <= images[next - 1].embedded_time.nanos);
        } else {
            assert(times[next] <= times[other]);
            assert(images[next].embedded_time.nanos <= images[other].embedded_time.nanos);
        }
    }
}

/// Whatever a snapshot shows comes from the recording: each event is of the kind it is shown as and
/// is shown within a tenth of a second of the time at which it is looked for. A pose that is shown
/// is one, not the report that there was none; so is a state of the global localization.
pub proof fn snapshots_show_recorded_events(
    recording: RecordingView,
    time: WallTime,
    snapshot: RecordingSnapshot,
)
    requires
        is_snapshot(recording, time, snapshot),
        recording.events.len() <= usize::MAX,
    ensures
        ({
            let events = recording.events;
            let visual_time = match snapshot.image_id {
                Some(image) => recording.images[image.0 as int].embedded_time.nanos as int,
                None => time.nanos as int,
            };
            &&& snapshot.image_display_time is Some <==> snapshot.image_id is Some
            &&& snapshot.image_id is Some ==> snapshot.image_display_time->0.nanos == visual_time
            &&& snapshot.camera_matrix matches Some(event) ==> {
                &&& events.contains(event)
                &&& event.kind is CameraMatrix
                &&& apart(shown_at(event), visual_time) <= 100_000_000
            }
            &&& snapshot.recorded_localization matches Some(event) ==> {
                &&& events.contains(event)
                &&& event.kind == (EventKind::RecordedLocalization { localized: true })
                &&& apart(event.publish_time.nanos as int, time.nanos as int) <= 100_000_000
            }
            &&& snapshot.robot_kinematics matches Some(event) ==> {
                &&& events.contains(event)
                &&& event.kind is RobotKinematics
                &&& apart(shown_at(event), visual_time) <= 100_000_000
            }
            &&& snapshot.calibrated_intrinsics matches Some(event) ==> {
                &&& events.contains(event)
                &&& event.kind is CalibratedIntrinsics
                &&& apart(event.publish_time.nanos as int, visual_time) <= 100_000_000
                &&& snapshot.calibrated_intrinsics_time == Some(event.publish_time)
            }
            &&& snapshot.field_mark_associations matches Some(event) ==> {
                &&& events.contains(event)
                &&& event.kind is FieldMarkAssociations
                &&& apart(shown_at(event), visual_time) <= 100_000_000
            }
            &&& snapshot.global_localization_debug matches Some(event) ==> {
                &&& events.contains(event)
                &&& event.kind == (EventKind::GlobalLocalizationDebug { present: true })
                &&& apart(event.publish_time.nanos as int, visual_time) <= 100_000_000
                &&& snapshot.global_localization_debug_time == Some(event.publish_time)
            }
            &&& snapshot.solve_diagnostics matches Some(event) ==> {
                &&& events.contains(event)
                &&& event.kind is SolveDiagnostics
                &&& apart(shown_at(event), time.nanos as int) <= 100_000_000
            }
            &&& snapshot.calibrated_intrinsics is None ==> snapshot.calibrated_intrinsics_time is None
        }),
{
    let events = recording.events;
    let visual_time = match snapshot.image_display_time {
        Some(image_time) => image_time,
        None => time,
    };
    found_is_among_events(
        events,
        |event: RecordedEvent| event.kind is CameraMatrix,
        SnapshotKind::CameraMatrix,
        visual_time,
        100_000_000,
        snapshot.camera_matrix,
    );
    let pose = choose|found: Option<RecordedEvent>|
        #[trigger] shows_latest(recording, SnapshotKind::RecordedLocalization, time, found)
            && snapshot.recorded_localization == keep_localized(found);
    found_is_among_events(
        events,
        |event: RecordedEvent| event.kind is RecordedLocalization,
        SnapshotKind::RecordedLocalization,
        time,
        100_000_000,
        pose,
    );
    found_is_among_events(
        events,
        |event: RecordedEvent| event.kind is RobotKinematics,
        SnapshotKind::RobotKinematics,
        visual_time,
        100_000_000,
        snapshot.robot_kinematics,
    );
    found_is_among_events(
        events,
        |event: RecordedEvent| event.kind is CalibratedIntrinsics,
        SnapshotKind::CalibratedIntrinsics,
        visual_time,
        100_000_000,
        snapshot.calibrated_intrinsics,
    );
    found_is_among_events(
        events,
        |event: RecordedEvent| event.kind is FieldMarkAssociations,
        SnapshotKind::FieldMarkAssociations,
        visual_time,
        100_000_000,
        snapshot.field_mark_associations,
    );
    let debug = choose|found: Option<RecordedEvent>|
        #[trigger] shows_nearest(
            recording,
            SnapshotKind::GlobalLocalizationDebug,
            visual_time,
            found,
        ) && snapshot.global_localization_debug == keep_present(found)
            && snapshot.global_localization_debug_time == match found {
            Some(event) => Some(event.display_time_spec()),
            None => None,
        };
    found_is_among_events(
        events,
        |event: RecordedEvent| event.kind is GlobalLocalizationDebug,
        SnapshotKind::GlobalLocalizationDebug,
        visual_time,
        100_000_000,
        debug,
    );
    found_is_among_events(
        events,
        |event: RecordedEvent| event.kind is SolveDiagnostics,
        SnapshotKind::SolveDiagnostics,
        time,
        100_000_000,
        snapshot.solve_diagnostics,
    );
}

/// Whether an event is the nearest to an instant that tells of the global localization.
pub open spec fn is_nearest_debug(
    events: Seq<RecordedEvent>,
    time: int,
    nearest: Option<RecordedEvent>,
) -> bool {
    is_nearest_shown(
        events,
        |event: RecordedEvent| event.kind is GlobalLocalizationDebug,
        time,
        nearest,
    )
}

/// Whether an event is the latest at an instant that tells of a pose.
pub open spec fn is_latest_pose(
    events: Seq<RecordedEvent>,
    time: int,
    latest: Option<RecordedEvent>,
) -> bool {
    is_latest_shown(
        events,
        |event: RecordedEvent| event.kind is RecordedLocalization,
        time,
        latest,
    )
}

/// Whether a snapshot shows the state of the global localization nearest to an instant: where the
/// nearest event carries a state that event is shown, where it carries none or there is no such
/// event none is shown. Either way the time is that at which the nearest event was published.
pub open spec fn shows_nearest_debug(
    events: Seq<RecordedEvent>,
    time: int,
    shown: Option<RecordedEvent>,
    shown_time: Option<WallTime>,
) -> bool {
    exists|nearest: Option<RecordedEvent>|
        #[trigger] is_nearest_debug(events, time, nearest) && match nearest {
            Some(event) => {
                &&& event.kind is GlobalLocalizationDebug
                &&& shown_time == Some(event.publish_time)
                &&& if event.kind->GlobalLocalizationDebug_present {
                    shown == Some(event)
                } else {
                    shown is None
                }
            },
            None => shown is None && shown_time is None,
        }
}

/// Whether a snapshot shows the latest pose at an instant: where the latest event carries a pose
/// that event is shown, where it reports that there was none or there is no such event none is
/// shown.
pub open spec fn shows_latest_pose(
    events: Seq<RecordedEvent>,
    time: int,
    shown: Option<RecordedEvent>,
) -> bool {
    exists|latest: Option<RecordedEvent>|
        #[trigger] is_latest_pose(events, time, latest) && match latest {
            Some(event) => {
                &&& event.kind is RecordedLocalization
                &&& if event.kind->RecordedLocalization_localized {
                    shown == Some(event)
                } else {
                    shown is None
                }
            },
            None => shown is None,
        }
}

/// A snapshot shows what is nearest. The camera matrix, the robot kinematics, the field-mark
/// associations and the state of the global localization are those nearest to the image that is
/// shown, or to the time of the snapshot where no image is; the intrinsics are the last ones up to
/// then. The pose and the solver diagnostics are the last ones up to the time of the snapshot. The
/// detection is that of the image, or the nearest one where no image is shown. This holds of events
/// shown at the epoch or later.
pub proof fn snapshots_show_what_is_nearest(
    recording: RecordingView,
    time: WallTime,
    snapshot: RecordingSnapshot,
)
    requires
        is_snapshot(recording, time, snapshot),
        recording.events.len() <= usize::MAX,
        forall|i: int|
            0 <= i < recording.events.len() ==> shown_at(#[trigger] recording.events[i]) >= 0,
    ensures
        ({
            let events = recording.events;
            let now = time.nanos as int;
            let visual_time = match snapshot.image_id {
                Some(image) => recording.images[image.0 as int].embedded_time.nanos as int,
                None => now,
            };
            &&& is_nearest_shown(
                events,
                |event: RecordedEvent| event.kind is CameraMatrix,
                visual_time,
                snapshot.camera_matrix,
            )
            &&& snapshot.image_id is None ==> is_nearest_shown(
                events,
                |event: RecordedEvent| event.kind is DetectedObjects,
                now,
                snapshot.detected_objects,
            )
            &&& shows_latest_pose(events, now, snapshot.recorded_localization)
            &&& has_ordered_kinematics(events) ==> is_nearest_shown(
                events,
                |event: RecordedEvent| event.kind is RobotKinematics,
                visual_time,
                snapshot.robot_kinematics,
            )
            &&& is_latest_shown(
                events,
                |event: RecordedEvent| event.kind is CalibratedIntrinsics,
                visual_time,
                snapshot.calibrated_intrinsics,
            )
            &&& is_nearest_shown(
                events,
                |event: RecordedEvent| event.kind is FieldMarkAssociations,
                visual_time,
                snapshot.field_mark_associations,
            )
            &&& shows_nearest_debug(
                events,
                visual_time,
                snapshot.global_localization_debug,
                snapshot.global_localization_debug_time,
            )
            &&& is_latest_shown(
                events,
                |event: RecordedEvent| event.kind is SolveDiagnostics,
                now,
                snapshot.solve_diagnostics,
            )
        }),
{
    let events = recording.events;
    let visual_time = match snapshot.image_display_time {
        Some(image_time) => image_time,
        None => time,
    };
    let camera_matrix = |event: RecordedEvent| event.kind is CameraMatrix;
    indexed_places_are_as_shown(events, camera_matrix, SnapshotKind::CameraMatrix);
    nearest_listed_is_nearest(
        events,
        camera_matrix,
        indexed_places(events, SnapshotKind::CameraMatrix),
        visual_time,
        100_000_000,
        snapshot.camera_matrix,
    );
    if snapshot.image_id is None {
        let detected_objects = |event: RecordedEvent| event.kind is DetectedObjects;
        indexed_places_are_as_shown(events, detected_objects, SnapshotKind::DetectedObjects);
        nearest_listed_is_nearest(
            events,
            detected_objects,
            indexed_places(events, SnapshotKind::DetectedObjects),
            time,
            100_000_000,
            snapshot.detected_objects,
        );
    }
    let localization = |event: RecordedEvent| event.kind is RecordedLocalization;
    let pose = choose|found: Option<RecordedEvent>|
        #[trigger] shows_latest(recording, SnapshotKind::RecordedLocalization, time, found)
            && snapshot.recorded_localization == keep_localized(found);
    indexed_places_are_as_shown(events, localization, SnapshotKind::RecordedLocalization);
    latest_listed_is_latest(
        events,
        localization,
        indexed_places(events, SnapshotKind::RecordedLocalization),
        time,
        100_000_000,
        pose,
    );
    if has_ordered_kinematics(events) {
        let robot_kinematics = |event: RecordedEvent| event.kind is RobotKinematics;
        indexed_places_are_as_shown(events, robot_kinematics, SnapshotKind::RobotKinematics);
        nearest_listed_is_nearest(
            events,
            robot_kinematics,
            indexed_places(events, SnapshotKind::RobotKinematics),
            visual_time,
            100_000_000,
            snapshot.robot_kinematics,
        );
    }
    let intrinsics = |event: RecordedEvent| event.kind is CalibratedIntrinsics;
    indexed_places_are_as_shown(events, intrinsics, SnapshotKind::CalibratedIntrinsics);
    latest_listed_is_latest(
        events,
        intrinsics,
        indexed_places(events, SnapshotKind::CalibratedIntrinsics),
        visual_time,
        100_000_000,
        snapshot.calibrated_intrinsics,
    );
    let associations = |event: RecordedEvent| event.kind is FieldMarkAssociations;
    indexed_places_are_as_shown(events, associations, SnapshotKind::FieldMarkAssociations);
    nearest_listed_is_nearest(
        events,
        associations,
        indexed_places(events, SnapshotKind::FieldMarkAssociations),
        visual_time,
        100_000_000,
        snapshot.field_mark_associations,
    );
    let global_debug = |event: RecordedEvent| event.kind is GlobalLocalizationDebug;
    let debug = choose|found: Option<RecordedEvent>|
        #[trigger] shows_nearest(
            recording,
            SnapshotKind::GlobalLocalizationDebug,
            visual_time,
            found,
        ) && snapshot.global_localization_debug == keep_present(found)
            && snapshot.global_localization_debug_time == match found {
            Some(event) => Some(event.display_time_spec()),
            None => None,
        };
    indexed_places_are_as_shown(events, global_debug, SnapshotKind::GlobalLocalizationDebug);
    nearest_listed_is_nearest(
        events,
        global_debug,
        indexed_places(events, SnapshotKind::GlobalLocalizationDebug),
        visual_time,
        100_000_000,
        debug,
    );
    assert(is_nearest_debug(events, visual_time.nanos as int, debug));
    assert(is_latest_pose(events, time.nanos as int, pose));
    let diagnostics = |event: RecordedEvent| event.kind is SolveDiagnostics;
    indexed_places_are_as_shown(events, diagnostics, SnapshotKind::SolveDiagnostics);
    latest_listed_is_latest(
        events,
        diagnostics,
        indexed_places(events, SnapshotKind::SolveDiagnostics),
        time,
        100_000_000,
        snapshot.solve_diagnostics,
    );
}

/// The detection of a snapshot with an image is the one that belongs to that image, shown at the
/// time of its image where that is known, else with the image shown. Its frame goes with it.
pub proof fn snapshots_show_the_detection_of_their_image(
    recording: RecordingView,
    time: WallTime,
    snapshot: RecordingSnapshot,
)
    requires
        is_snapshot(recording, time, snapshot),
        recording.by_image.len() == recording.images.len(),
        snapshot.image_id matches Some(image) ==> image.0 < recording.images.len(),
    ensures
        snapshot.image_id matches Some(image) ==> match recording.by_image[image.0 as int] {
            Some(place) => snapshot.detected_objects == Some(recording.events[place as int]),
            None => snapshot.detected_objects is None,
        },
        snapshot.detected_objects is None <==> snapshot.detected_objects_time is None,
        snapshot.detected_objects is None ==> snapshot.detected_objects_frame is None,
        snapshot.detected_objects matches Some(event) ==> match event.kind {
            EventKind::DetectedObjects(frame) => {
                &&& snapshot.detected_objects_frame == Some(frame)
                &&& snapshot.detected_objects_time->0.nanos == match (
                    frame.image_time,
                    snapshot.image_id,
                ) {
                    (None, Some(image)) => recording.images[image.0 as int].embedded_time.nanos as int,
                    _ => shown_at(event),
                }
            },
            _ => snapshot.detected_objects_frame is None,
        },
{
}

} // verus!
