//! What every step of a replay does, and what comes of many steps.

use crate::camera_matrices::{measured_between, nearest_matrix_is_nearest, OnlineCameraMatrix};
use crate::course::{
    answered, answering_keeps_order, answers, goes_on, handle_visual_odometry, is_in_order,
    measured_time, proceeded, proceeding_keeps_order, solve_time_after_keeps_cadence,
    visual_odometry_plan, GlobalStatus, Outcome, Phase, ReplayView, SolveResult,
    VisualOdometryPlan,
};
use crate::event::{EventKind, RecordedEvent, StereoImageIndex, VisualOdometryDelta};
use crate::recording::{event_time, image_time, is_end, is_start, Clock, RecordingView};
use crate::replay::{
    ordered_replay_events, ReplayEvent, ReplayParameters, ReplayVisualOdometryEvent, TimestampMode,
};
use crate::resolve::{is_replay_start, ReplayRange};
use crate::shown::shown_at;
use crate::stats::{
    contributed_associations_are_listed, kept_associations, kept_associations_are_bounded,
    AssociationKind, ReplayStats,
};
use crate::time::WallTime;
use vstd::prelude::*;

verus! {

/// Nanoseconds between a camera matrix and an instant, with instants before the epoch counted as
/// the epoch.
pub open spec fn matrix_gap(
    matrix: OnlineCameraMatrix,
    time: WallTime,
    mode: TimestampMode,
) -> int {
    let own = if mode is Embedded {
        matrix.time.nanos as int
    } else {
        matrix.publish_time.nanos as int
    };
    let from = if own > 0 {
        own
    } else {
        0
    };
    let to = if time.nanos > 0 {
        time.nanos as int
    } else {
        0
    };
    if from < to {
        to - from
    } else {
        from - to
    }
}

/// Whether the camera matrix at a place is the first of those nearest to an instant.
pub open spec fn is_nearest_place(
    matrices: Seq<OnlineCameraMatrix>,
    time: WallTime,
    mode: TimestampMode,
    place: int,
) -> bool {
    &&& 0 <= place < matrices.len()
    &&& forall|other: int|
        0 <= other < matrices.len() ==> matrix_gap(matrices[place], time, mode) <= matrix_gap(
            #[trigger] matrices[other],
            time,
            mode,
        )
    &&& forall|other: int|
        0 <= other < place ==> matrix_gap(matrices[place], time, mode) < matrix_gap(
            #[trigger] matrices[other],
            time,
            mode,
        )
}

/// Whether a message holds a camera matrix near an instant, the first of those than which none is
/// nearer.
pub open spec fn is_near_matrix(
    matrices: Seq<OnlineCameraMatrix>,
    time: WallTime,
    mode: TimestampMode,
    order: usize,
) -> bool {
    exists|place: int|
        #![trigger is_nearest_place(matrices, time, mode, place)]
        is_nearest_place(matrices, time, mode, place) && matrices[place].order == order
            && matrix_gap(matrices[place], time, mode) <= 100_000_000
}

/// Whether no camera matrix is near an instant.
pub open spec fn has_no_near_matrix(
    matrices: Seq<OnlineCameraMatrix>,
    time: WallTime,
    mode: TimestampMode,
) -> bool {
    forall|place: int|
        0 <= place < matrices.len() ==> matrix_gap(#[trigger] matrices[place], time, mode)
            > 100_000_000
}

/// A camera matrix that is found for an instant is near it or not, and none is nearer.
proof fn found_matrix_is_near(
    matrices: Seq<OnlineCameraMatrix>,
    time: WallTime,
    mode: TimestampMode,
)
    ensures
        match crate::camera_matrices::nearest_matrix(matrices, time, mode) {
            Some(nearest) => {
                &&& matrices.len() > 0
                &&& nearest.distance <= 100_000_000 ==> is_near_matrix(
                    matrices,
                    time,
                    mode,
                    nearest.matrix.order,
                )
                &&& nearest.distance > 100_000_000 ==> has_no_near_matrix(matrices, time, mode)
            },
            None => matrices.len() == 0,
        },
{
    nearest_matrix_is_nearest(matrices, time, mode);
    if matrices.len() > 0 {
        let place = choose|index: int|
            crate::camera_matrices::is_first_nearest_matrix(matrices, time, mode, index);
        assert(crate::camera_matrices::is_first_nearest_matrix(matrices, time, mode, place));
        assert forall|other: int| 0 <= other < matrices.len() implies matrix_gap(
            matrices[place],
            time,
            mode,
        ) <= matrix_gap(#[trigger] matrices[other], time, mode) by {
            assert(matrices[place].distance_spec(time, mode) <= matrices[other].distance_spec(
                time,
                mode,
            ));
        }
        assert forall|other: int| 0 <= other < place implies matrix_gap(
            matrices[place],
            time,
            mode,
        ) < matrix_gap(#[trigger] matrices[other], time, mode) by {
            assert(matrices[place].distance_spec(time, mode) < matrices[other].distance_spec(
                time,
                mode,
            ));
        }
        assert(matrices[place].distance_spec(time, mode) == matrix_gap(
            matrices[place],
            time,
            mode,
        ));
        assert(is_nearest_place(matrices, time, mode, place));
    }
}

/// A motion is measured with the camera matrices nearest to its start and to its end, each near
/// enough. It is invalid where its times are unknown or do not advance, it lacks a camera matrix
/// where there is none at all, and its camera matrices are stale where none is near to one of its
/// times.
pub proof fn motions_are_measured_with_nearest_matrices(
    recording: RecordingView,
    delta: VisualOdometryDelta,
    mode: TimestampMode,
    matrices: Seq<OnlineCameraMatrix>,
)
    ensures
        ({
            let plan = visual_odometry_plan(recording, delta, mode, matrices);
            match measured_between(recording, delta, mode) {
                Some((start, end)) if start.nanos < end.nanos => match plan {
                    VisualOdometryPlan::Invalid => false,
                    VisualOdometryPlan::MissingCameraMatrix => matrices.len() == 0,
                    VisualOdometryPlan::StaleCameraMatrix => {
                        &&& matrices.len() > 0
                        &&& has_no_near_matrix(matrices, start, mode) || has_no_near_matrix(
                            matrices,
                            end,
                            mode,
                        )
                    },
                    VisualOdometryPlan::Measure(measurement) => {
                        &&& measurement.previous_time == start
                        &&& measurement.current_time == end
                        &&& is_near_matrix(matrices, start, mode, measurement.previous_matrix)
                        &&& is_near_matrix(matrices, end, mode, measurement.current_matrix)
                    },
                },
                _ => plan == VisualOdometryPlan::Invalid,
            }
        }),
{
    if let Some((previous, current)) = measured_between(recording, delta, mode) {
        found_matrix_is_near(matrices, previous, mode);
        found_matrix_is_near(matrices, current, mode);
    }
}

/// The statistics with one more received motion.
pub open spec fn with_received(stats: ReplayStats) -> ReplayStats {
    ReplayStats { vo_received: (stats.vo_received + 1) as usize, ..stats }
}

/// A motion is counted as received. It goes no further where motions are left out, and is counted
/// under what is wrong with it or looked at otherwise. Nothing else changes.
pub proof fn motions_are_counted_by_their_plan(
    replay: ReplayView,
    recording: RecordingView,
    delta: VisualOdometryDelta,
)
    ensures
        ({
            let next = handle_visual_odometry(replay, recording, delta);
            let received = with_received(replay.stats);
            let plan = visual_odometry_plan(
                recording,
                delta,
                replay.parameters.timestamp_mode,
                replay.matrices,
            );
            &&& next == (ReplayView { phase: next.phase, stats: next.stats, ..replay })
            &&& !replay.parameters.include_visual_odometry ==> next.phase == Phase::Report
                && next.stats == received
            &&& replay.parameters.include_visual_odometry ==> match plan {
                VisualOdometryPlan::Invalid => next.phase == Phase::Report && next.stats == (
                ReplayStats {
                    vo_dropped_invalid: (replay.stats.vo_dropped_invalid + 1) as usize,
                    ..received
                }),
                VisualOdometryPlan::MissingCameraMatrix => next.phase == Phase::Report
                    && next.stats == (ReplayStats {
                    vo_skipped_missing_camera_matrix: (
                    replay.stats.vo_skipped_missing_camera_matrix + 1) as usize,
                    ..received
                }),
                VisualOdometryPlan::StaleCameraMatrix => next.phase == Phase::Report && next.stats
                    == (ReplayStats {
                    vo_skipped_stale_camera_matrix: (replay.stats.vo_skipped_stale_camera_matrix
                        + 1) as usize,
                    ..received
                }),
                VisualOdometryPlan::Measure(measurement) => next.phase == Phase::CheckHeadMotion(
                    measurement,
                ) && next.stats == received,
            }
        }),
{
}

/// The event that a replay is about to take up or has taken up.
pub open spec fn event_at_hand(replay: ReplayView) -> ReplayEvent {
    replay.events[replay.index]
}

/// When the event at hand was recorded.
pub open spec fn recorded_at(replay: ReplayView) -> int {
    match event_at_hand(replay) {
        ReplayEvent::Recorded { event, .. } => event.log_time.nanos as int,
        ReplayEvent::VisualOdometryOverride { motion, .. } => motion.log_time.nanos as int,
    }
}

/// Whether the second list of camera matrices is the first with the matrix of an event added.
pub open spec fn adds_matrix_of(
    before: Seq<OnlineCameraMatrix>,
    after: Seq<OnlineCameraMatrix>,
    event: RecordedEvent,
) -> bool {
    &&& after.len() == before.len() + 1
    &&& after.drop_last() == before
    &&& after.last().order == event.order
    &&& after.last().publish_time == event.publish_time
    &&& event.kind == EventKind::CameraMatrix(after.last().time)
}

/// A replay stops behind its last event, at the first event behind its range, or where it is
/// cancelled. Events in front of the range are passed over, except that their camera matrices are
/// taken up. An event in the range is handled; where a solve is due by then and measurements are
/// pending, the solve comes first. The next solve is then due behind the event, at most one cadence
/// later than it.
pub proof fn next_event_is_taken_up(
    replay: ReplayView,
    recording: RecordingView,
    cancelled: bool,
)
    requires
        is_in_order(replay),
        replay.phase is NextEvent,
    ensures
        ({
            let next = proceeded(replay, recording, cancelled);
            let at_end = replay.index >= replay.events.len();
            let time = recorded_at(replay);
            &&& next.stats == replay.stats
            &&& at_end || !cancelled && time > replay.range_end.nanos ==> {
                &&& next == (ReplayView { phase: next.phase, pending: next.pending, ..replay })
                &&& replay.pending ==> next.phase == (Phase::SolveAtEnd { at: replay.range_end })
                    && !next.pending
                &&& !replay.pending ==> next.phase == Phase::Finished && !next.pending
            }
            &&& !at_end && cancelled ==> next == (ReplayView { phase: Phase::Cancelled, ..replay })
            &&& !at_end && !cancelled && time < replay.range_start.nanos ==> {
                &&& next == (ReplayView {
                    index: replay.index + 1,
                    matrices: next.matrices,
                    ..replay
                })
                &&& match event_at_hand(replay) {
                    ReplayEvent::Recorded { event, .. } => if event.kind is CameraMatrix {
                        adds_matrix_of(replay.matrices, next.matrices, event)
                    } else {
                        next.matrices == replay.matrices
                    },
                    ReplayEvent::VisualOdometryOverride { .. } => next.matrices == replay.matrices,
                }
            }
            &&& !at_end && !cancelled && replay.range_start.nanos <= time
                <= replay.range_end.nanos ==> {
                let due = replay.pending && replay.next_solve_time.nanos <= time;
                &&& next == (ReplayView {
                    phase: next.phase,
                    pending: next.pending,
                    next_solve_time: next.next_solve_time,
                    ..replay
                })
                &&& due ==> next.phase == (Phase::SolveForEvent { at: replay.next_solve_time })
                    && !next.pending
                &&& !due ==> next.phase == Phase::HandleEvent && next.pending == replay.pending
                &&& next.next_solve_time.nanos > time
                &&& next.next_solve_time.nanos >= replay.next_solve_time.nanos
                &&& replay.next_solve_time.nanos > time ==> next.next_solve_time
                    == replay.next_solve_time
                &&& next.next_solve_time == replay.next_solve_time
                    || next.next_solve_time.nanos <= time + replay.cadence
                &&& (next.next_solve_time.nanos - replay.range_start.nanos) % replay.cadence == 0
            }
        }),
{
    proceeding_keeps_order(replay, recording, cancelled);
    if replay.index < replay.events.len() {
        let event = event_at_hand(replay);
        assert(event.log_time_spec().nanos == recorded_at(replay));
        assert(crate::course::is_in_reach(event.log_time_spec()));
        solve_time_after_keeps_cadence(
            replay.range_start.nanos as int,
            replay.next_solve_time,
            replay.cadence,
            event.log_time_spec(),
        );
        if let ReplayEvent::Recorded { event, .. } = event {
            if let EventKind::CameraMatrix(time) = event.kind {
                let matrix = OnlineCameraMatrix {
                    order: event.order,
                    publish_time: event.publish_time,
                    time,
                };
                assert(replay.matrices.push(matrix).drop_last() =~= replay.matrices);
            }
        }
    }
}

/// An event is handled by what it is about. IMU measurements and foot heights are taken in unless
/// they are left out. Camera matrices are always taken up. Visual features come from recorded
/// associations or from detections, whichever the replay goes by, and are counted. Motions are
/// looked at, recorded ones as well as those that take their place. Of other events nothing is
/// taken in.
pub proof fn events_are_handled_by_kind(replay: ReplayView, recording: RecordingView)
    requires
        is_in_order(replay),
        replay.phase is HandleEvent,
    ensures
        ({
            let next = proceeded(replay, recording, false);
            let parameters = replay.parameters;
            let passed = ReplayView { phase: Phase::Report, ..replay };
            let counted = ReplayStats {
                global_frames: (replay.stats.global_frames + 1) as usize,
                ..replay.stats
            };
            &&& proceeded(replay, recording, true) == next
            &&& match event_at_hand(replay) {
                ReplayEvent::VisualOdometryOverride { motion, .. } => next
                    == handle_visual_odometry(replay, recording, motion.delta),
                ReplayEvent::Recorded { event, .. } => match event.kind {
                    EventKind::VisualOdometry(delta) => next == handle_visual_odometry(
                        replay,
                        recording,
                        delta,
                    ),
                    EventKind::Imu => next == if parameters.include_imu {
                        ReplayView { phase: Phase::IngestImu, ..replay }
                    } else {
                        passed
                    },
                    EventKind::RobotKinematics(_) => next == if parameters.include_foot_heights {
                        ReplayView { phase: Phase::IngestFootHeights, ..replay }
                    } else {
                        passed
                    },
                    EventKind::CameraMatrix(_) => {
                        &&& next == (ReplayView { matrices: next.matrices, ..passed })
                        &&& adds_matrix_of(replay.matrices, next.matrices, event)
                    },
                    EventKind::FieldMarkAssociations(_) => next == if !parameters.include_global_features
                        || replay.recompute_global_features {
                        passed
                    } else {
                        ReplayView { phase: Phase::ReadAssociations, stats: counted, ..replay }
                    },
                    EventKind::DetectedObjects(_) => next == if !parameters.include_global_features
                        || !replay.recompute_global_features {
                        passed
                    } else {
                        ReplayView { phase: Phase::CountFeatures, stats: counted, ..replay }
                    },
                    EventKind::RecordedLocalization { .. } => next == passed,
                    EventKind::CalibratedIntrinsics => next == passed,
                    EventKind::GlobalLocalizationDebug { .. } => next == passed,
                    EventKind::SolveDiagnostics(_) => next == passed,
                },
            }
        }),
{
    if let ReplayEvent::Recorded { event, .. } = event_at_hand(replay) {
        if let EventKind::CameraMatrix(time) = event.kind {
            let matrix = OnlineCameraMatrix {
                order: event.order,
                publish_time: event.publish_time,
                time,
            };
            assert(replay.matrices.push(matrix).drop_last() =~= replay.matrices);
        }
    }
}

/// Behind an event that was handled comes the next one.
pub proof fn handled_events_are_left_behind(
    replay: ReplayView,
    recording: RecordingView,
    cancelled: bool,
)
    requires
        replay.phase is Report,
    ensures
        proceeded(replay, recording, cancelled) == (ReplayView {
            index: replay.index + 1,
            phase: Phase::NextEvent,
            ..replay
        }),
{
}

/// A measurement that was taken in is counted under its kind and is pending for the next solve.
/// Associations that were taken in are besides the last visual anchor.
pub proof fn ingested_measurements_are_counted(replay: ReplayView, recording: RecordingView)
    ensures
        ({
            let next = answered(replay, recording, Outcome::Ingested);
            let stats = replay.stats;
            let taken = ReplayView { phase: Phase::Report, pending: true, ..replay };
            match replay.phase {
                Phase::IngestImu => next == (ReplayView {
                    stats: ReplayStats { imu_ingested: (stats.imu_ingested + 1) as usize, ..stats },
                    ..taken
                }),
                Phase::IngestFootHeights => next == (ReplayView {
                    stats: ReplayStats {
                        foot_heights_ingested: (stats.foot_heights_ingested + 1) as usize,
                        ..stats
                    },
                    ..taken
                }),
                Phase::IngestVisualOdometry(_) => next == (ReplayView {
                    stats: ReplayStats { vo_ingested: (stats.vo_ingested + 1) as usize, ..stats },
                    ..taken
                }),
                Phase::IngestAssociations { time } => next == (ReplayView {
                    anchor_time: Some(time),
                    ..taken
                }),
                _ => next == replay,
            }
        }),
{
}

/// A motion is taken in where neither the head moved too much nor the motion is too large, with the
/// camera matrices that were found for it; else it is counted under what speaks against it.
pub proof fn judged_motions_go_on_or_are_counted(
    replay: ReplayView,
    recording: RecordingView,
    against: bool,
)
    ensures
        ({
            let next = answered(replay, recording, Outcome::Judged(against));
            let stats = replay.stats;
            match replay.phase {
                Phase::CheckHeadMotion(measurement) => next == if against {
                    ReplayView {
                        phase: Phase::Report,
                        stats: ReplayStats {
                            vo_skipped_head_motion: (stats.vo_skipped_head_motion + 1) as usize,
                            ..stats
                        },
                        ..replay
                    }
                } else {
                    ReplayView { phase: Phase::CheckGate(measurement), ..replay }
                },
                Phase::CheckGate(measurement) => next == if against {
                    ReplayView {
                        phase: Phase::Report,
                        stats: ReplayStats {
                            vo_dropped_gated: (stats.vo_dropped_gated + 1) as usize,
                            ..stats
                        },
                        ..replay
                    }
                } else {
                    ReplayView { phase: Phase::IngestVisualOdometry(measurement), ..replay }
                },
                _ => next == replay,
            }
        }),
{
}

/// When the objects of a detection were seen, by the times that the replay goes by: when their
/// image was taken or else the detection was published; or when their image was published or else
/// the detection was.
pub open spec fn is_seen_at(
    recording: RecordingView,
    event: RecordedEvent,
    mode: TimestampMode,
    time: WallTime,
) -> bool {
    event.kind matches EventKind::DetectedObjects(frame) && if mode is Embedded {
        match frame.image_time {
            Some(taken) => time.nanos == taken.nanos,
            None => time == frame.publish_time,
        }
    } else if recording.image_times.contains_key(frame.sequence_number) {
        time == recording.image_times[frame.sequence_number]
    } else {
        time == event.publish_time
    }
}

/// A detection without features is passed over. One with features is a candidate, and its features
/// are associated where a camera matrix is near to the time at which they were seen, with one than
/// which none is nearer.
pub proof fn counted_features_are_associated(
    replay: ReplayView,
    recording: RecordingView,
    count: usize,
)
    requires
        is_in_order(replay),
        replay.phase is CountFeatures,
    ensures
        ({
            let next = answered(replay, recording, Outcome::Counted(count));
            let event = event_at_hand(replay)->Recorded_event;
            let mode = replay.parameters.timestamp_mode;
            let candidate = ReplayStats {
                global_candidates: (replay.stats.global_candidates + 1) as usize,
                ..replay.stats
            };
            &&& count == 0 ==> next == (ReplayView { phase: Phase::Report, ..replay })
            &&& count > 0 ==> {
                &&& next == (ReplayView { phase: next.phase, stats: candidate, ..replay })
                &&& match next.phase {
                    Phase::Associate { time, matrix } => is_seen_at(recording, event, mode, time)
                        && is_near_matrix(replay.matrices, time, mode, matrix),
                    Phase::Report => exists|time: WallTime|
                        #[trigger] is_seen_at(recording, event, mode, time) && has_no_near_matrix(
                            replay.matrices,
                            time,
                            mode,
                        ),
                    _ => false,
                }
            }
        }),
{
    let event = event_at_hand(replay)->Recorded_event;
    let mode = replay.parameters.timestamp_mode;
    if let EventKind::DetectedObjects(frame) = event.kind {
        let time = crate::course::detection_measurement_time(recording, event, frame, mode);
        assert(is_seen_at(recording, event, mode, time));
        found_matrix_is_near(replay.matrices, time, mode);
    }
}

/// Whether associations contribute nothing: none is by a unique match, and they are too few or none
/// at all.
pub open spec fn contributes_nothing(kinds: Seq<AssociationKind>, min_features: usize) -> bool {
    &&& forall|i: int| 0 <= i < kinds.len() ==> #[trigger] kinds[i] != AssociationKind::GlobalUnique
    &&& kinds.len() < min_features || kinds.len() == 0
}

/// Whether the second statistics are the first with a frame that contributed `count` associations,
/// found by a unique match or near a known pose.
pub open spec fn counts_frame(
    before: ReplayStats,
    after: ReplayStats,
    unique: bool,
    count: int,
) -> bool {
    let frames = ReplayStats {
        global_frames_ingested: (before.global_frames_ingested + 1) as usize,
        global_associations_ingested: (before.global_associations_ingested + count) as usize,
        ..before
    };
    after == if unique {
        ReplayStats {
            global_unique_frames_ingested: (before.global_unique_frames_ingested + 1) as usize,
            global_unique_associations_ingested: (before.global_unique_associations_ingested
                + count) as usize,
            ..frames
        }
    } else {
        ReplayStats {
            pose_hint_frames_ingested: (before.pose_hint_frames_ingested + 1) as usize,
            pose_hint_associations_ingested: (before.pose_hint_associations_ingested
                + count) as usize,
            ..frames
        }
    }
}

/// Whether a replay goes on from `before` with associations that count at `time`: those that
/// contribute are to be taken in, and the frame is counted; where none does, the frame is passed
/// over.
pub open spec fn goes_on_with_associations(
    before: ReplayView,
    next: ReplayView,
    kinds: Seq<AssociationKind>,
    time: WallTime,
) -> bool {
    let min_features = before.parameters.pose_hint_visual_min_features_per_frame;
    if contributes_nothing(kinds, min_features) {
        next == (ReplayView { phase: Phase::Report, ..before })
    } else {
        let unique = exists|i: int|
            0 <= i < kinds.len() && #[trigger] kinds[i] == AssociationKind::GlobalUnique;
        &&& next == (ReplayView {
            phase: Phase::IngestAssociations { time },
            kept: next.kept,
            stats: next.stats,
            ..before
        })
        &&& counts_frame(before.stats, next.stats, unique, next.kept.len() as int)
        &&& forall|place: usize| #[trigger]
            next.kept.contains(place) <==> place < kinds.len() && (unique ==> kinds[place as int]
                == AssociationKind::GlobalUnique)
        &&& forall|i: int, j: int|
            #![trigger next.kept[i], next.kept[j]]
            0 <= i < j < next.kept.len() ==> next.kept[i] < next.kept[j]
    }
}

/// The associations of a frame count at the time of the frame. How the global localization judged a
/// frame is counted where its features were associated anew.
pub proof fn associations_are_taken_up(
    replay: ReplayView,
    recording: RecordingView,
    outcome: Outcome,
)
    requires
        is_in_order(replay),
        answers(replay, outcome),
        replay.phase is ReadAssociations || replay.phase is Associate,
    ensures
        ({
            let next = answered(replay, recording, outcome);
            let stats = replay.stats;
            let kinds = outcome->Associated_kinds@;
            match replay.phase {
                Phase::Associate { time, .. } => {
                    let judged = match outcome->Associated_status {
                        None => ReplayStats {
                            global_none: (stats.global_none + 1) as usize,
                            ..stats
                        },
                        Some(status) => if status == GlobalStatus::Ambiguous {
                            ReplayStats {
                                global_ambiguous: (stats.global_ambiguous + 1) as usize,
                                ..stats
                            }
                        } else {
                            ReplayStats {
                                global_unique_modulo_symmetry: (
                                stats.global_unique_modulo_symmetry + 1) as usize,
                                ..stats
                            }
                        },
                    };
                    goes_on_with_associations(
                        ReplayView { stats: judged, ..replay },
                        next,
                        kinds,
                        time,
                    )
                },
                _ => {
                    let event = event_at_hand(replay)->Recorded_event;
                    let time = if replay.parameters.timestamp_mode is McapPublish {
                        event.publish_time
                    } else {
                        WallTime { nanos: event.kind->FieldMarkAssociations_0.nanos as i128 }
                    };
                    goes_on_with_associations(replay, next, kinds, time)
                },
            }
        }),
{
    let kinds = outcome->Associated_kinds@;
    let min_features = replay.parameters.pose_hint_visual_min_features_per_frame;
    crate::course::vec_length_fits(outcome->Associated_kinds);
    contributed_associations_are_listed(kinds, min_features);
    kept_associations_are_bounded(kinds, min_features);
    let kept = kept_associations(kinds, min_features);
    if kept.len() > 0 {
        assert(kept.contains(kept[0]));
    } else {
        if kinds.len() > 0 && kinds.len() >= min_features {
            assert(kept.contains(0));
        }
    }
}

/// A solution becomes a sample: at the instant of its solve, counted from the start of the
/// recording, with the pose at the instant of the solution, counted from the start of the graph.
/// A rejected pose gives way to one that was accepted before, which is counted. Without a solution
/// nothing is added. Then the event is handled, or the replay is finished.
pub proof fn solutions_become_samples(
    replay: ReplayView,
    recording: RecordingView,
    result: Option<SolveResult>,
)
    requires
        is_in_order(replay),
        answers(replay, Outcome::Solved(result)),
    ensures
        ({
            let next = answered(replay, recording, Outcome::Solved(result));
            let at = if replay.phase is SolveForEvent {
                replay.phase->SolveForEvent_at
            } else {
                replay.phase->SolveAtEnd_at
            };
            let phase = if replay.phase is SolveForEvent {
                Phase::HandleEvent
            } else {
                Phase::Finished
            };
            match result {
                None => next == (ReplayView { phase, ..replay }),
                Some(result) => {
                    let reused = replay.has_pose && result.rejected;
                    let sample = next.samples.last();
                    &&& next == (ReplayView {
                        phase,
                        stats: next.stats,
                        has_pose: next.has_pose,
                        samples: next.samples,
                        ..replay
                    })
                    &&& next.samples.len() == replay.samples.len() + 1
                    &&& next.samples.drop_last() == replay.samples
                    &&& sample.replay_nanos + replay.log_start.nanos == at.nanos
                    &&& sample.graph_nanos + replay.graph_start.nanos == result.time.nanos
                    &&& sample.reused_previous_pose == reused
                    &&& sample.stats == next.stats
                    &&& next.stats == if reused {
                        ReplayStats {
                            pose_updates_reused_unanchored: (
                            replay.stats.pose_updates_reused_unanchored + 1) as usize,
                            ..replay.stats
                        }
                    } else {
                        replay.stats
                    }
                    &&& next.has_pose <==> replay.has_pose || !result.rejected
                },
            }
        }),
{
    let next = answered(replay, recording, Outcome::Solved(result));
    if let Some(result) = result {
        assert(next.samples.drop_last() =~= replay.samples);
    }
}

/// A step of a replay: it goes on by itself, or its question is answered.
pub enum Step {
    Proceed { cancelled: bool },
    Answer { outcome: Outcome },
}

/// Whether a replay can take a step.
pub open spec fn can_take(replay: ReplayView, step: Step) -> bool {
    match step {
        Step::Proceed { .. } => goes_on(replay.phase),
        Step::Answer { outcome } => answers(replay, outcome),
    }
}

/// The replay after a step.
pub open spec fn after_step(
    replay: ReplayView,
    recording: RecordingView,
    step: Step,
) -> ReplayView {
    match step {
        Step::Proceed { cancelled } => proceeded(replay, recording, cancelled),
        Step::Answer { outcome } => answered(replay, recording, outcome),
    }
}

/// The replay after several steps.
pub open spec fn after_steps(
    replay: ReplayView,
    recording: RecordingView,
    steps: Seq<Step>,
) -> ReplayView
    decreases steps.len(),
{
    if steps.len() == 0 {
        replay
    } else {
        after_step(after_steps(replay, recording, steps.drop_last()), recording, steps.last())
    }
}

/// Whether a replay can take several steps, one after the other.
pub open spec fn can_take_all(
    replay: ReplayView,
    recording: RecordingView,
    steps: Seq<Step>,
) -> bool
    decreases steps.len(),
{
    steps.len() == 0 || can_take_all(replay, recording, steps.drop_last()) && can_take(
        after_steps(replay, recording, steps.drop_last()),
        steps.last(),
    )
}

/// A solution, and the instant of the solve that it answers.
pub struct Solution {
    pub at: WallTime,
    pub result: SolveResult,
}

/// The solution that a step brings in, where it brings one.
pub open spec fn solution_of(replay: ReplayView, step: Step) -> Option<Solution> {
    match (replay.phase, step) {
        (Phase::SolveForEvent { at }, Step::Answer { outcome: Outcome::Solved(Some(result)) }) => {
            Some(Solution { at, result })
        },
        (Phase::SolveAtEnd { at }, Step::Answer { outcome: Outcome::Solved(Some(result)) }) => {
            Some(Solution { at, result })
        },
        _ => None,
    }
}

/// The solutions that came in during several steps.
pub open spec fn solutions(
    replay: ReplayView,
    recording: RecordingView,
    steps: Seq<Step>,
) -> Seq<Solution>
    decreases steps.len(),
{
    if steps.len() == 0 {
        Seq::empty()
    } else {
        let earlier = solutions(replay, recording, steps.drop_last());
        match solution_of(after_steps(replay, recording, steps.drop_last()), steps.last()) {
            Some(solution) => earlier.push(solution),
            None => earlier,
        }
    }
}

/// What a replay is of does not change while it runs.
pub open spec fn has_same_subject(replay: ReplayView, other: ReplayView) -> bool {
    &&& replay.parameters == other.parameters
    &&& replay.events == other.events
    &&& replay.recompute_global_features == other.recompute_global_features
    &&& replay.log_start == other.log_start
    &&& replay.graph_start == other.graph_start
    &&& replay.range_start == other.range_start
    &&& replay.range_end == other.range_end
    &&& replay.cadence == other.cadence
}

/// A step changes nothing of what a replay is of, keeps the samples and the camera matrices so far,
/// and never goes back.
pub proof fn steps_keep_the_subject(replay: ReplayView, recording: RecordingView, step: Step)
    ensures
        ({
            let next = after_step(replay, recording, step);
            &&& has_same_subject(replay, next)
            &&& replay.samples.is_prefix_of(next.samples)
            &&& replay.matrices.is_prefix_of(next.matrices)
            &&& replay.index <= next.index
        }),
{
}

/// A step adds a sample where it brings in a solution, and none otherwise.
proof fn steps_add_their_solution(replay: ReplayView, recording: RecordingView, step: Step)
    requires
        is_in_order(replay),
        can_take(replay, step),
    ensures
        ({
            let next = after_step(replay, recording, step);
            &&& is_in_order(next)
            &&& match solution_of(replay, step) {
                Some(solution) => {
                    let sample = next.samples.last();
                    &&& next.samples == replay.samples.push(sample)
                    &&& sample.graph_nanos + replay.graph_start.nanos == solution.result.time.nanos
                    &&& sample.replay_nanos + replay.log_start.nanos == solution.at.nanos
                },
                None => next.samples == replay.samples,
            }
        }),
{
    match step {
        Step::Proceed { cancelled } => {
            proceeding_keeps_order(replay, recording, cancelled);
        },
        Step::Answer { outcome } => {
            answering_keeps_order(replay, recording, outcome);
            if let Outcome::Solved(result) = outcome {
                solutions_become_samples(replay, recording, result);
                let next = answered(replay, recording, outcome);
                if result is Some {
                    assert(next.samples =~= next.samples.drop_last().push(next.samples.last()));
                }
            }
        },
    }
}

/// After any number of steps a replay has one sample for each solution that came in, in the order
/// in which they did: solved at the instant of the solve, and placed in the graph at the instant of
/// the solution.
#[verifier::spinoff_prover]
pub proof fn samples_are_the_solutions(
    start: ReplayView,
    recording: RecordingView,
    steps: Seq<Step>,
)
    requires
        is_in_order(start),
        start.samples.len() == 0,
        can_take_all(start, recording, steps),
    ensures
        ({
            let replay = after_steps(start, recording, steps);
            let found = solutions(start, recording, steps);
            &&& is_in_order(replay)
            &&& has_same_subject(start, replay)
            &&& replay.samples.len() == found.len()
            &&& forall|i: int|
                0 <= i < found.len() ==> {
                    &&& (#[trigger] replay.samples[i]).graph_nanos + start.graph_start.nanos
                        == found[i].result.time.nanos
                    &&& replay.samples[i].replay_nanos + start.log_start.nanos == found[i].at.nanos
                }
        }),
    decreases steps.len(),
{
    if steps.len() > 0 {
        let front = steps.drop_last();
        samples_are_the_solutions(start, recording, front);
        let before = after_steps(start, recording, front);
        steps_keep_the_subject(before, recording, steps.last());
        steps_add_their_solution(before, recording, steps.last());
    }
}

/// Foot heights count at the time inside their kinematics, or when these were published where the
/// replay goes by that.
pub proof fn foot_heights_count_when_they_were_measured(replay: ReplayView)
    requires
        is_in_order(replay),
        replay.phase is IngestFootHeights,
    ensures
        match event_at_hand(replay) {
            ReplayEvent::Recorded { event, .. } => match event.kind {
                EventKind::RobotKinematics(time) => measured_time(replay).nanos == (
                if replay.parameters.timestamp_mode is McapPublish {
                    event.publish_time.nanos as int
                } else {
                    time.nanos as int
                }),
                _ => false,
            },
            ReplayEvent::VisualOdometryOverride { .. } => false,
        },
{
}

/// The first instant of the events and images of a recording, each given by its own.
pub open spec fn is_first_instant(
    recording: RecordingView,
    event_at: spec_fn(RecordedEvent) -> int,
    image_at: spec_fn(StereoImageIndex) -> int,
    first: int,
) -> bool {
    &&& forall|i: int|
        0 <= i < recording.events.len() ==> first <= event_at(#[trigger] recording.events[i])
    &&& forall|i: int|
        0 <= i < recording.images.len() ==> first <= image_at(#[trigger] recording.images[i])
    &&& recording.events.len() > 0 || recording.images.len() > 0 ==> {
        ||| exists|i: int|
            0 <= i < recording.events.len() && event_at(#[trigger] recording.events[i]) == first
        ||| exists|i: int|
            0 <= i < recording.images.len() && image_at(#[trigger] recording.images[i]) == first
    }
    &&& recording.events.len() == 0 && recording.images.len() == 0 ==> first == 0
}

/// The last instant of the events and images of a recording, each given by its own.
pub open spec fn is_last_instant(
    recording: RecordingView,
    event_at: spec_fn(RecordedEvent) -> int,
    image_at: spec_fn(StereoImageIndex) -> int,
    last: int,
) -> bool {
    &&& forall|i: int|
        0 <= i < recording.events.len() ==> event_at(#[trigger] recording.events[i]) <= last
    &&& forall|i: int|
        0 <= i < recording.images.len() ==> image_at(#[trigger] recording.images[i]) <= last
    &&& recording.events.len() > 0 || recording.images.len() > 0 ==> {
        ||| exists|i: int|
            0 <= i < recording.events.len() && event_at(#[trigger] recording.events[i]) == last
        ||| exists|i: int|
            0 <= i < recording.images.len() && image_at(#[trigger] recording.images[i]) == last
    }
    &&& recording.events.len() == 0 && recording.images.len() == 0 ==> last == 0
}

/// A recording starts with the first and ends with the last of its events and images: as they were
/// recorded, as they were published, or as they are shown, images at the time at which they were
/// taken. An empty one starts and ends at the epoch.
pub proof fn recordings_span_their_events_and_images(recording: RecordingView, time: WallTime)
    ensures
        ({
            let logged = |event: RecordedEvent| event.log_time.nanos as int;
            let image_logged = |image: StereoImageIndex| image.log_time.nanos as int;
            let published = |event: RecordedEvent| event.publish_time.nanos as int;
            let image_published = |image: StereoImageIndex| image.publish_time.nanos as int;
            let shown = |event: RecordedEvent| shown_at(event);
            let taken = |image: StereoImageIndex| image.embedded_time.nanos as int;
            let instant = time.nanos as int;
            &&& is_start(recording, Clock::Log, time) <==> is_first_instant(
                recording,
                logged,
                image_logged,
                instant,
            )
            &&& is_start(recording, Clock::Publish, time) <==> is_first_instant(
                recording,
                published,
                image_published,
                instant,
            )
            &&& is_start(recording, Clock::Display, time) <==> is_first_instant(
                recording,
                shown,
                taken,
                instant,
            )
            &&& is_end(recording, Clock::Log, time) <==> is_last_instant(
                recording,
                logged,
                image_logged,
                instant,
            )
            &&& is_end(recording, Clock::Publish, time) <==> is_last_instant(
                recording,
                published,
                image_published,
                instant,
            )
            &&& is_end(recording, Clock::Display, time) <==> is_last_instant(
                recording,
                shown,
                taken,
                instant,
            )
        }),
{
    clock_agrees(
        recording,
        time,
        Clock::Log,
        |event: RecordedEvent| event.log_time.nanos as int,
        |image: StereoImageIndex| image.log_time.nanos as int,
    );
    clock_agrees(
        recording,
        time,
        Clock::Publish,
        |event: RecordedEvent| event.publish_time.nanos as int,
        |image: StereoImageIndex| image.publish_time.nanos as int,
    );
    clock_agrees(
        recording,
        time,
        Clock::Display,
        |event: RecordedEvent| shown_at(event),
        |image: StereoImageIndex| image.embedded_time.nanos as int,
    );
}

/// A clock tells the instants of events and images.
proof fn clock_agrees(
    recording: RecordingView,
    time: WallTime,
    clock: Clock,
    event_at: spec_fn(RecordedEvent) -> int,
    image_at: spec_fn(StereoImageIndex) -> int,
)
    requires
        forall|event: RecordedEvent| #[trigger] event_time(event, clock).nanos == event_at(event),
        forall|image: StereoImageIndex| #[trigger]
            image_time(image, clock).nanos == image_at(image),
    ensures
        is_start(recording, clock, time) <==> is_first_instant(
            recording,
            event_at,
            image_at,
            time.nanos as int,
        ),
        is_end(recording, clock, time) <==> is_last_instant(
            recording,
            event_at,
            image_at,
            time.nanos as int,
        ),
{
    let instant = time.nanos as int;
    assert forall|i: int| 0 <= i < recording.events.len() implies event_time(
        #[trigger] recording.events[i],
        clock,
    ).nanos == event_at(recording.events[i]) by {}
    assert forall|i: int| 0 <= i < recording.images.len() implies image_time(
        #[trigger] recording.images[i],
        clock,
    ).nanos == image_at(recording.images[i]) by {}
}

/// A replay starts with nothing taken in, before its first event. Its range and its solves are
/// counted from the start of the recording, and its graph starts with what was published or shown
/// first, by the times that it goes by. Features are associated anew where that is asked for or no
/// associations were recorded.
pub proof fn replays_start_with_nothing_taken_in(
    replay: ReplayView,
    recording: RecordingView,
    parameters: ReplayParameters,
    range: ReplayRange,
    motions: Option<Seq<ReplayVisualOdometryEvent>>,
)
    requires
        is_replay_start(replay, recording, parameters, range, motions),
    ensures
        replay.parameters == parameters,
        replay.events == ordered_replay_events(recording.events, motions),
        replay.recompute_global_features <==> parameters.recompute_global_features || forall|i: int|
            0 <= i < recording.events.len() ==> !((#[trigger] recording.events[i]).kind is
                FieldMarkAssociations),
        is_first_instant(
            recording,
            |event: RecordedEvent| event.log_time.nanos as int,
            |image: StereoImageIndex| image.log_time.nanos as int,
            replay.log_start.nanos as int,
        ),
        parameters.timestamp_mode is McapPublish ==> is_first_instant(
            recording,
            |event: RecordedEvent| event.publish_time.nanos as int,
            |image: StereoImageIndex| image.publish_time.nanos as int,
            replay.graph_start.nanos as int,
        ),
        parameters.timestamp_mode is Embedded ==> is_first_instant(
            recording,
            |event: RecordedEvent| shown_at(event),
            |image: StereoImageIndex| image.embedded_time.nanos as int,
            replay.graph_start.nanos as int,
        ),
        replay.range_start.nanos - replay.log_start.nanos == range.start,
        replay.range_end.nanos - replay.log_start.nanos == range.end,
        replay.cadence == range.cadence,
        replay.next_solve_time.nanos - replay.log_start.nanos == range.start + range.cadence,
        replay.index == 0,
        replay.phase is NextEvent,
        replay.matrices.len() == 0,
        replay.kept.len() == 0,
        replay.samples.len() == 0,
        !replay.pending,
        replay.anchor_time is None,
        !replay.has_pose,
        ({
            let stats = replay.stats;
            &&& stats.imu_ingested == 0 && stats.foot_heights_ingested == 0
            &&& stats.vo_received == 0 && stats.vo_ingested == 0 && stats.vo_dropped_invalid == 0
            &&& stats.vo_dropped_gated == 0 && stats.vo_skipped_missing_camera_matrix == 0
            &&& stats.vo_skipped_stale_camera_matrix == 0 && stats.vo_skipped_head_motion == 0
            &&& stats.pose_updates_reused_unanchored == 0 && stats.global_frames == 0
            &&& stats.global_candidates == 0 && stats.global_none == 0
            &&& stats.global_ambiguous == 0 && stats.global_unique_modulo_symmetry == 0
            &&& stats.global_frames_ingested == 0 && stats.global_associations_ingested == 0
            &&& stats.global_unique_frames_ingested == 0
            &&& stats.global_unique_associations_ingested == 0
            &&& stats.pose_hint_frames_ingested == 0 && stats.pose_hint_associations_ingested == 0
        }),
{
    recordings_span_their_events_and_images(recording, replay.log_start);
    recordings_span_their_events_and_images(recording, replay.graph_start);
}

} // verus!
