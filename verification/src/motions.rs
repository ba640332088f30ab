//! What becomes of the motions that visual odometry measured, or measures anew.

use crate::camera_matrices::{
    diagnostic_current, diagnostic_previous, is_first_nearest_matrix, matrices_of, nearest_matrix,
    nearest_matrix_is_nearest, NearestCameraMatrix, OnlineCameraMatrix,
};
use crate::diagnostics::{diagnosis, regenerated, DiagnosisView, RegenerationView};
use crate::event::{EventKind, RecordedEvent};
use crate::loading::{has_no_near_image, is_published_near, near_images_align_times};
use crate::messages::MessageView;
use crate::recording::{is_recording_of, RecordingView};
use crate::replay::TimestampMode;
use crate::steps::{is_nearest_place, matrix_gap};
use crate::stream::MessageContent;
use crate::time::{Time, WallTime};
use vstd::prelude::*;

verus! {

/// Whether a camera matrix is the first of those nearest to an instant, given with its distance.
pub open spec fn is_found_for(
    found: NearestCameraMatrix,
    matrices: Seq<OnlineCameraMatrix>,
    time: WallTime,
    mode: TimestampMode,
) -> bool {
    exists|place: int|
        #![trigger is_nearest_place(matrices, time, mode, place)]
        is_nearest_place(matrices, time, mode, place) && found.matrix == matrices[place]
            && found.distance == (if matrix_gap(matrices[place], time, mode) <= u64::MAX {
            matrix_gap(matrices[place], time, mode)
        } else {
            u64::MAX as int
        })
}

/// Where there are camera matrices the first of those nearest to an instant is found, with its
/// distance.
pub proof fn nearest_matrices_are_found(
    matrices: Seq<OnlineCameraMatrix>,
    time: WallTime,
    mode: TimestampMode,
)
    ensures
        match nearest_matrix(matrices, time, mode) {
            Some(found) => is_found_for(found, matrices, time, mode),
            None => matrices.len() == 0,
        },
{
    nearest_matrix_is_nearest(matrices, time, mode);
    if matrices.len() > 0 {
        let place = choose|index: int| is_first_nearest_matrix(matrices, time, mode, index);
        assert(is_first_nearest_matrix(matrices, time, mode, place));
        assert forall|other: int| 0 <= other < matrices.len() implies matrix_gap(
            matrices[place],
            time,
            mode,
        ) <= matrix_gap(#[trigger] matrices[other], time, mode) by {
            assert(matrices[place].distance_spec(time, mode) <= matrices[other].distance_spec(
                time,
                mode,
            ));
        }
        assert forall|other: int| 0 <= other < place implies matrix_gap(
            matrices[place],
            time,
            mode,
        ) < matrix_gap(#[trigger] matrices[other], time, mode) by {
            assert(matrices[place].distance_spec(time, mode) < matrices[other].distance_spec(
                time,
                mode,
            ));
        }
        assert(is_nearest_place(matrices, time, mode, place));
    }
}

/// Whether an event tells of a camera matrix.
pub open spec fn is_matrix_of(matrix: OnlineCameraMatrix, event: RecordedEvent) -> bool {
    &&& event.kind == EventKind::CameraMatrix(matrix.time)
    &&& matrix.order == event.order
    &&& matrix.publish_time == event.publish_time
}

/// The camera matrices of a recording are those of its events, one for each event that tells of
/// one, in the order of the events.
pub proof fn every_camera_matrix_is_collected(events: Seq<RecordedEvent>, count: int)
    requires
        0 <= count <= events.len(),
    ensures
        ({
            let telling = events.take(count).filter(
                |event: RecordedEvent| event.kind is CameraMatrix,
            );
            let matrices = matrices_of(events, count);
            &&& matrices.len() == telling.len()
            &&& forall|i: int|
                0 <= i < matrices.len() ==> is_matrix_of(#[trigger] matrices[i], telling[i])
        }),
    decreases count,
{
    reveal(Seq::filter);
    let tells = |event: RecordedEvent| event.kind is CameraMatrix;
    if count > 0 {
        every_camera_matrix_is_collected(events, count - 1);
        assert(events.take(count).drop_last() =~= events.take(count - 1));
        assert(events.take(count).last() == events[count - 1]);
        let earlier = matrices_of(events, count - 1);
        let matrices = matrices_of(events, count);
        let telling = events.take(count).filter(tells);
        assert forall|i: int| 0 <= i < matrices.len() implies is_matrix_of(
            #[trigger] matrices[i],
            telling[i],
        ) by {
            if i < earlier.len() {
                assert(matrices[i] == earlier[i]);
                assert(telling[i] == events.take(count - 1).filter(tells)[i]);
            }
        }
    }
}

/// Whether a diagnosis goes on from one with a motion between two instants: with a sample that has
/// the camera matrices nearest to them, or with one more that lacks a camera matrix.
pub open spec fn takes_up_motion(
    before: DiagnosisView,
    after: DiagnosisView,
    event: RecordedEvent,
    matrices: Seq<OnlineCameraMatrix>,
    mode: TimestampMode,
    start: WallTime,
    end: WallTime,
) -> bool {
    if matrices.len() == 0 {
        &&& after.samples == before.samples
        &&& after.missing_camera_matrix == before.missing_camera_matrix + 1
    } else {
        &&& after.missing_camera_matrix == before.missing_camera_matrix
        &&& after.samples.len() == before.samples.len() + 1
        &&& after.samples.drop_last() == before.samples
        &&& after.samples.last().order == event.order
        &&& is_found_for(after.samples.last().previous, matrices, start, mode)
        &&& is_found_for(after.samples.last().current, matrices, end, mode)
    }
}

/// A diagnosis takes up every recorded motion in turn and nothing else. A motion has the camera
/// matrices nearest to its start and its end, and lacks one exactly if there are none. By the
/// timestamps inside the messages it starts and ends when it tells. By publishing times it starts
/// and ends as its images tell, and where its start is unknown it is left out; its end is kept for
/// the next one.
pub proof fn every_motion_is_diagnosed(
    recording: RecordingView,
    matrices: Seq<OnlineCameraMatrix>,
    mode: TimestampMode,
    place: int,
)
    requires
        0 <= place < recording.events.len(),
    ensures
        ({
            let first = diagnosis(recording, matrices, mode, 0);
            &&& first.samples.len() == 0
            &&& first.missing_camera_matrix == 0
            &&& first.previous_publish_time is None
        }),
        ({
            let event = recording.events[place];
            let before = diagnosis(recording, matrices, mode, place);
            let after = diagnosis(recording, matrices, mode, place + 1);
            match event.kind {
                EventKind::VisualOdometry(delta) => match mode {
                    TimestampMode::Embedded => {
                        &&& after.previous_publish_time == before.previous_publish_time
                        &&& takes_up_motion(
                            before,
                            after,
                            event,
                            matrices,
                            mode,
                            delta.previous_time.wallclock(),
                            delta.current_time.wallclock(),
                        )
                    },
                    TimestampMode::McapPublish => {
                        let end = diagnostic_current(recording, event, delta);
                        &&& after.previous_publish_time == Some(end)
                        &&& match diagnostic_previous(
                            recording,
                            event,
                            delta,
                            before.previous_publish_time,
                        ) {
                            Some(start) => takes_up_motion(
                                before,
                                after,
                                event,
                                matrices,
                                mode,
                                start,
                                end,
                            ),
                            None => after.samples == before.samples && after.missing_camera_matrix
                                == before.missing_camera_matrix,
                        }
                    },
                },
                _ => after == before,
            }
        }),
{
    let event = recording.events[place];
    let before = diagnosis(recording, matrices, mode, place);
    let after = diagnosis(recording, matrices, mode, place + 1);
    if let EventKind::VisualOdometry(delta) = event.kind {
        nearest_matrices_are_found(matrices, delta.previous_time.wallclock(), mode);
        nearest_matrices_are_found(matrices, delta.current_time.wallclock(), mode);
        nearest_matrices_are_found(matrices, diagnostic_current(recording, event, delta), mode);
        if let Some(start) = diagnostic_previous(
            recording,
            event,
            delta,
            before.previous_publish_time,
        ) {
            nearest_matrices_are_found(matrices, start, mode);
        }
        if after.samples.len() > before.samples.len() {
            assert(after.samples.drop_last() =~= before.samples);
        }
    }
}

/// The number of motions among the first `count` events.
pub open spec fn motion_count(events: Seq<RecordedEvent>, count: int) -> nat {
    events.take(count).filter(|event: RecordedEvent| event.kind is VisualOdometry).len()
}

/// By the timestamps inside the messages every recorded motion is a sample or lacks a camera
/// matrix; by publishing times none is counted twice.
pub proof fn diagnosed_motions_add_up(
    recording: RecordingView,
    matrices: Seq<OnlineCameraMatrix>,
    mode: TimestampMode,
    count: int,
)
    requires
        0 <= count <= recording.events.len(),
    ensures
        ({
            let all = diagnosis(recording, matrices, mode, count);
            let motions = motion_count(recording.events, count);
            &&& all.samples.len() + all.missing_camera_matrix <= motions
            &&& mode is Embedded ==> all.samples.len() + all.missing_camera_matrix == motions
        }),
    decreases count,
{
    reveal(Seq::filter);
    if count > 0 {
        diagnosed_motions_add_up(recording, matrices, mode, count - 1);
        every_motion_is_diagnosed(recording, matrices, mode, count - 1);
        let events = recording.events;
        assert(events.take(count).drop_last() =~= events.take(count - 1));
        assert(events.take(count).last() == events[count - 1]);
    }
}

/// A frame is counted, and what came of it is taken up. The first one starts a motion. Where no
/// motion was found it is counted as failed, and the next frame starts one. Where there is no
/// camera matrix that is counted, and the motion goes on from where it started. Else the motion
/// from the frame before to this one is replayed at the time at which this image was recorded,
/// published when the image nearest to its end was, with the camera matrices nearest to its start
/// and its end; the next one starts here.
pub proof fn every_frame_is_taken_up(
    before: RegenerationView,
    recording: RecordingView,
    messages: Seq<MessageView>,
    contents: Seq<MessageContent>,
    matrices: Seq<OnlineCameraMatrix>,
    current_time: Time,
    found_motion: bool,
)
    requires
        is_recording_of(recording, messages, contents),
        messages.len() <= usize::MAX,
        before.frames < recording.images.len(),
    ensures
        ({
            let (after, action) = regenerated(
                before,
                recording,
                matrices,
                current_time,
                found_motion,
            );
            let kept = RegenerationView { frames: before.frames + 1, ..before };
            match before.previous_time {
                None => {
                    &&& action is Keep
                    &&& after == (RegenerationView {
                        starts: before.starts + 1,
                        previous_time: Some(current_time),
                        ..kept
                    })
                },
                Some(previous_time) => {
                    &&& !found_motion ==> action is ResetTracking && after == (RegenerationView {
                        failed: before.failed + 1,
                        previous_time: None,
                        ..kept
                    })
                    &&& found_motion && matrices.len() == 0 ==> action is Keep && after == (
                    RegenerationView {
                        missing_camera_matrix: before.missing_camera_matrix + 1,
                        ..kept
                    })
                    &&& found_motion && matrices.len() > 0 ==> {
                        &&& action is Measure
                        &&& is_found_for(
                            action->previous,
                            matrices,
                            previous_time.wallclock(),
                            TimestampMode::Embedded,
                        )
                        &&& is_found_for(
                            action->current,
                            matrices,
                            current_time.wallclock(),
                            TimestampMode::Embedded,
                        )
                        &&& after == (RegenerationView {
                            events: after.events,
                            estimates: before.estimates + 1,
                            previous_time: Some(current_time),
                            ..kept
                        })
                        &&& after.events.len() == before.events.len() + 1
                        &&& after.events.drop_last() == before.events
                        &&& after.events.last().delta.previous_time == previous_time
                        &&& after.events.last().delta.current_time == current_time
                        &&& after.events.last().log_time
                            == recording.images[before.frames as int].log_time
                        &&& if has_no_near_image(recording.images, current_time) {
                            after.events.last().publish_time.nanos == current_time.nanos
                        } else {
                            is_published_near(
                                recording.images,
                                current_time,
                                after.events.last().publish_time,
                            )
                        }
                    }
                },
            }
        }),
{
    near_images_align_times(recording, messages, contents, current_time);
    nearest_matrices_are_found(matrices, current_time.wallclock(), TimestampMode::Embedded);
    let after = regenerated(before, recording, matrices, current_time, found_motion).0;
    if let Some(previous_time) = before.previous_time {
        nearest_matrices_are_found(matrices, previous_time.wallclock(), TimestampMode::Embedded);
        if found_motion && matrices.len() > 0 {
            assert(after.events.drop_last() =~= before.events);
        }
    }
}

} // verus!
