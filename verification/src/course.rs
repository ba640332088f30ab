//! The course of a replay, as a model.
//!
//! A replay goes through its events in the order in which they were recorded. In each phase it
//! either goes on by itself or waits for the outcome of work that the backend does outside. The
//! functions here say what a replay is after each step, and what every step keeps.

use crate::camera_matrices::{
    measured_between, nearest_matrix, OnlineCameraMatrix, CAMERA_MATRIX_MAX_TIME_DISTANCE,
};
use crate::event::{DetectedObjectsFrame, EventKind, RecordedEvent, VisualOdometryDelta};
use crate::recording::RecordingView;
use crate::replay::{ReplayEvent, ReplayParameters, TimestampMode};
use crate::stats::{
    kept_associations, kept_associations_are_bounded, with_ingested_associations, AssociationKind,
    ReplayStats,
};
use crate::time::{is_recorded_time, WallTime};
use vstd::prelude::*;

verus! {

/// Largest number of nanoseconds that times in a replay may lie apart from the epoch.
pub const FARTHEST_NANOS: i128 = 0x10_0000_0000_0000_0000_0000_0000;

/// Whether an instant is near enough to the epoch to be reckoned with.
pub open spec fn is_in_reach(time: WallTime) -> bool {
    -FARTHEST_NANOS <= time.nanos <= FARTHEST_NANOS
}

/// A measured motion with the messages of the camera matrices at its start and its end.
#[derive(Clone, Copy, Debug, PartialEq, Eq, Structural)]
pub struct VisualOdometryMeasurement {
    pub previous_time: WallTime,
    pub current_time: WallTime,
    pub previous_matrix: usize,
    pub current_matrix: usize,
}

/// What becomes of a measured motion before its contents are looked at.
#[derive(Clone, Copy, Debug, PartialEq, Eq, Structural)]
pub enum VisualOdometryPlan {
    /// Its times are unknown or do not advance.
    Invalid,
    /// No camera matrix is known.
    MissingCameraMatrix,
    /// A camera matrix is too far away in time.
    StaleCameraMatrix,
    Measure(VisualOdometryMeasurement),
}

/// What becomes of a measured motion before its contents are looked at.
pub open spec fn visual_odometry_plan(
    recording: RecordingView,
    delta: VisualOdometryDelta,
    mode: TimestampMode,
    matrices: Seq<OnlineCameraMatrix>,
) -> VisualOdometryPlan {
    match measured_between(recording, delta, mode) {
        None => VisualOdometryPlan::Invalid,
        Some((previous_time, current_time)) => if current_time.nanos <= previous_time.nanos {
            VisualOdometryPlan::Invalid
        } else {
            match (
                nearest_matrix(matrices, previous_time, mode),
                nearest_matrix(matrices, current_time, mode),
            ) {
                (Some(previous), Some(current)) => if previous.distance
                    > CAMERA_MATRIX_MAX_TIME_DISTANCE || current.distance
                    > CAMERA_MATRIX_MAX_TIME_DISTANCE {
                    VisualOdometryPlan::StaleCameraMatrix
                } else {
                    VisualOdometryPlan::Measure(
                        VisualOdometryMeasurement {
                            previous_time,
                            current_time,
                            previous_matrix: previous.matrix.order,
                            current_matrix: current.matrix.order,
                        },
                    )
                },
                _ => VisualOdometryPlan::MissingCameraMatrix,
            }
        },
    }
}

/// When the objects of a detection were seen: when their image was published, else when the
/// detection was; or the time inside the message.
pub open spec fn detection_measurement_time(
    recording: RecordingView,
    event: RecordedEvent,
    frame: DetectedObjectsFrame,
    mode: TimestampMode,
) -> WallTime {
    match mode {
        TimestampMode::McapPublish => if recording.image_times.contains_key(
            frame.sequence_number,
        ) {
            recording.image_times[frame.sequence_number]
        } else {
            event.publish_time
        },
        TimestampMode::Embedded => frame.display_time_spec(),
    }
}

/// How the global localization judged a frame.
#[derive(Clone, Copy, Debug, PartialEq, Eq, Structural)]
pub enum GlobalStatus {
    Ambiguous,
    Unique,
    UniqueModuloSymmetry,
}

/// Where a replay stands.
#[derive(Clone, Copy, Debug, PartialEq, Eq, Structural)]
pub enum Phase {
    /// The next event is to be taken up.
    NextEvent,
    /// The event that was taken up is to be handled.
    HandleEvent,
    /// The event has been handled.
    Report,
    /// The backend has to solve before the event is handled.
    SolveForEvent { at: WallTime },
    /// The backend has to solve a last time.
    SolveAtEnd { at: WallTime },
    /// The backend has to take in the IMU measurement of the event.
    IngestImu,
    /// The backend has to take in the foot heights of the event.
    IngestFootHeights,
    /// Whether the head moved too much during a motion is to be found out.
    CheckHeadMotion(VisualOdometryMeasurement),
    /// The motion is to be added to the odometry trajectory, and whether it is too large is to be
    /// found out.
    CheckGate(VisualOdometryMeasurement),
    /// The backend has to take in the motion.
    IngestVisualOdometry(VisualOdometryMeasurement),
    /// The features of the detection are to be counted.
    CountFeatures,
    /// The associations in the event are to be looked at.
    ReadAssociations,
    /// The features of the detection are to be associated, with the camera matrix of a message.
    Associate { time: WallTime, matrix: usize },
    /// The backend has to take in the chosen associations.
    IngestAssociations { time: WallTime },
    Finished,
    Cancelled,
}

/// A solution of the backend.
#[derive(Clone, Copy, Debug, PartialEq, Eq, Structural)]
pub struct SolveResult {
    pub time: WallTime,
    /// Whether the pose moved too far without a recent visual anchor.
    pub rejected: bool,
}

/// What came of the work that a replay asked for.
#[derive(Debug)]
pub enum Outcome {
    /// The measurement was taken in.
    Ingested,
    /// The answer to a question.
    Judged(bool),
    /// The number of features.
    Counted(usize),
    /// How the frame was judged, and how its associations were found.
    Associated { status: Option<GlobalStatus>, kinds: Vec<AssociationKind> },
    /// The solution, where there is one.
    Solved(Option<SolveResult>),
}

/// A solved pose on the trajectory of a replay.
#[derive(Clone, Copy, Debug, PartialEq, Eq, Structural)]
pub struct SolveSample {
    /// Nanoseconds from the start of the recording to the solving.
    pub replay_nanos: i128,
    /// Nanoseconds from the start of the graph to the pose.
    pub graph_nanos: i128,
    /// Whether the pose accepted last stands in for a rejected one.
    pub reused_previous_pose: bool,
    pub stats: ReplayStats,
}

/// How far a replay has come.
#[derive(Clone, Copy, Debug, PartialEq, Eq, Structural)]
pub struct ResolveProgress {
    pub processed_events: usize,
    pub total_events: usize,
    pub solve_count: usize,
}

/// Events after which progress is reported.
pub const PROGRESS_INTERVAL: usize = 250;

/// The state of a replay.
pub struct ReplayView {
    pub parameters: ReplayParameters,
    pub events: Seq<ReplayEvent>,
    pub recompute_global_features: bool,
    pub log_start: WallTime,
    pub graph_start: WallTime,
    pub range_start: WallTime,
    pub range_end: WallTime,
    pub cadence: int,
    pub index: int,
    pub phase: Phase,
    pub next_solve_time: WallTime,
    pub matrices: Seq<OnlineCameraMatrix>,
    pub kept: Seq<usize>,
    pub stats: ReplayStats,
    pub samples: Seq<SolveSample>,
    pub pending: bool,
    pub anchor_time: Option<WallTime>,
    pub has_pose: bool,
}

/// The first instant after `time` among `next` and those that follow it at the given cadence.
pub open spec fn solve_time_after(next: WallTime, cadence: int, time: WallTime) -> WallTime {
    if next.nanos > time.nanos {
        next
    } else {
        WallTime {
            nanos: (next.nanos + ((time.nanos - next.nanos) / cadence + 1) * cadence) as i128,
        }
    }
}

/// The camera matrices with that of an event added, where it has one.
pub open spec fn with_matrix(
    matrices: Seq<OnlineCameraMatrix>,
    event: ReplayEvent,
) -> Seq<OnlineCameraMatrix> {
    match event {
        ReplayEvent::Recorded { event, .. } => match event.kind {
            EventKind::CameraMatrix(time) => matrices.push(
                OnlineCameraMatrix { order: event.order, publish_time: event.publish_time, time },
            ),
            _ => matrices,
        },
        _ => matrices,
    }
}

/// The end of the events is reached: what is pending is solved, else the replay is finished.
pub open spec fn finish(replay: ReplayView) -> ReplayView {
    if replay.pending {
        ReplayView {
            phase: Phase::SolveAtEnd { at: replay.range_end },
            pending: false,
            ..replay
        }
    } else {
        ReplayView { phase: Phase::Finished, ..replay }
    }
}

/// Takes up the next event. Of events in front of the range only camera matrices are kept; events
/// behind it end the replay. Where a solve is due before the event and measurements are pending,
/// it comes first.
pub open spec fn take_up_event(replay: ReplayView, cancelled: bool) -> ReplayView {
    if replay.index >= replay.events.len() {
        finish(replay)
    } else if cancelled {
        ReplayView { phase: Phase::Cancelled, ..replay }
    } else {
        let event = replay.events[replay.index];
        let time = event.log_time_spec();
        let next_solve_time = solve_time_after(replay.next_solve_time, replay.cadence, time);
        if time.nanos > replay.range_end.nanos {
            finish(replay)
        } else if time.nanos < replay.range_start.nanos {
            ReplayView {
                matrices: with_matrix(replay.matrices, event),
                index: replay.index + 1,
                ..replay
            }
        } else if replay.next_solve_time.nanos <= time.nanos && replay.pending {
            ReplayView {
                phase: Phase::SolveForEvent { at: replay.next_solve_time },
                next_solve_time,
                pending: false,
                ..replay
            }
        } else {
            ReplayView { phase: Phase::HandleEvent, next_solve_time, ..replay }
        }
    }
}

/// Handles a measured motion: counts it and decides whether to look at its contents.
pub open spec fn handle_visual_odometry(
    replay: ReplayView,
    recording: RecordingView,
    delta: VisualOdometryDelta,
) -> ReplayView {
    let received = ReplayStats {
        vo_received: (replay.stats.vo_received + 1) as usize,
        ..replay.stats
    };
    if !replay.parameters.include_visual_odometry {
        ReplayView { phase: Phase::Report, stats: received, ..replay }
    } else {
        match visual_odometry_plan(
            recording,
            delta,
            replay.parameters.timestamp_mode,
            replay.matrices,
        ) {
            VisualOdometryPlan::Invalid => ReplayView {
                phase: Phase::Report,
                stats: ReplayStats {
                    vo_dropped_invalid: (received.vo_dropped_invalid + 1) as usize,
                    ..received
                },
                ..replay
            },
            VisualOdometryPlan::MissingCameraMatrix => ReplayView {
                phase: Phase::Report,
                stats: ReplayStats {
                    vo_skipped_missing_camera_matrix: (received.vo_skipped_missing_camera_matrix
                        + 1) as usize,
                    ..received
                },
                ..replay
            },
            VisualOdometryPlan::StaleCameraMatrix => ReplayView {
                phase: Phase::Report,
                stats: ReplayStats {
                    vo_skipped_stale_camera_matrix: (received.vo_skipped_stale_camera_matrix
                        + 1) as usize,
                    ..received
                },
                ..replay
            },
            VisualOdometryPlan::Measure(measurement) => ReplayView {
                phase: Phase::CheckHeadMotion(measurement),
                stats: received,
                ..replay
            },
        }
    }
}

/// Handles the event that was taken up.
pub open spec fn handle_event(replay: ReplayView, recording: RecordingView) -> ReplayView {
    let counted = ReplayStats {
        global_frames: (replay.stats.global_frames + 1) as usize,
        ..replay.stats
    };
    let parameters = replay.parameters;
    match replay.events[replay.index] {
        ReplayEvent::VisualOdometryOverride { motion, .. } => handle_visual_odometry(
            replay,
            recording,
            motion.delta,
        ),
        ReplayEvent::Recorded { event, .. } => match event.kind {
            EventKind::Imu if parameters.include_imu => ReplayView {
                phase: Phase::IngestImu,
                ..replay
            },
            EventKind::CameraMatrix(_) => ReplayView {
                phase: Phase::Report,
                matrices: with_matrix(replay.matrices, replay.events[replay.index]),
                ..replay
            },
            EventKind::RobotKinematics(_) if parameters.include_foot_heights => ReplayView {
                phase: Phase::IngestFootHeights,
                ..replay
            },
            EventKind::VisualOdometry(delta) => handle_visual_odometry(replay, recording, delta),
            EventKind::FieldMarkAssociations(_) if parameters.include_global_features
                && !replay.recompute_global_features => ReplayView {
                phase: Phase::ReadAssociations,
                stats: counted,
                ..replay
            },
            EventKind::DetectedObjects(_) if parameters.include_global_features
                && replay.recompute_global_features => ReplayView {
                phase: Phase::CountFeatures,
                stats: counted,
                ..replay
            },
            _ => ReplayView { phase: Phase::Report, ..replay },
        },
    }
}

/// Goes on where nothing has to be done outside.
pub open spec fn proceeded(
    replay: ReplayView,
    recording: RecordingView,
    cancelled: bool,
) -> ReplayView {
    match replay.phase {
        Phase::NextEvent => take_up_event(replay, cancelled),
        Phase::HandleEvent => handle_event(replay, recording),
        Phase::Report => ReplayView { index: replay.index + 1, phase: Phase::NextEvent, ..replay },
        _ => replay,
    }
}

/// Whether a replay goes on by itself.
pub open spec fn goes_on(phase: Phase) -> bool {
    phase is NextEvent || phase is HandleEvent || phase is Report
}

/// Whether a replay is over.
pub open spec fn is_over(phase: Phase) -> bool {
    phase is Finished || phase is Cancelled
}

/// Takes up a solution: a rejected pose gives way to the one accepted last, where there is one.
pub open spec fn with_solution(
    replay: ReplayView,
    at: WallTime,
    result: Option<SolveResult>,
    phase: Phase,
) -> ReplayView {
    match result {
        None => ReplayView { phase, ..replay },
        Some(result) => {
            let reused = result.rejected && replay.has_pose;
            let stats = if reused {
                ReplayStats {
                    pose_updates_reused_unanchored: (replay.stats.pose_updates_reused_unanchored
                        + 1) as usize,
                    ..replay.stats
                }
            } else {
                replay.stats
            };
            ReplayView {
                phase,
                stats,
                has_pose: replay.has_pose || !result.rejected,
                samples: replay.samples.push(
                    SolveSample {
                        replay_nanos: (at.nanos - replay.log_start.nanos) as i128,
                        graph_nanos: (result.time.nanos - replay.graph_start.nanos) as i128,
                        reused_previous_pose: reused,
                        stats,
                    },
                ),
                ..replay
            }
        },
    }
}

/// A measurement was taken in and is pending.
pub open spec fn with_ingested(replay: ReplayView, stats: ReplayStats) -> ReplayView {
    ReplayView { phase: Phase::Report, stats, pending: true, ..replay }
}

/// Features were counted: where there are some and a camera matrix is near, they are to be
/// associated.
pub open spec fn with_features(
    replay: ReplayView,
    recording: RecordingView,
    count: usize,
) -> ReplayView {
    let stats = ReplayStats {
        global_candidates: (replay.stats.global_candidates + 1) as usize,
        ..replay.stats
    };
    let mode = replay.parameters.timestamp_mode;
    match replay.events[replay.index] {
        ReplayEvent::Recorded {
            event: RecordedEvent { kind: EventKind::DetectedObjects(frame), .. },
            ..
        } => {
            let time = detection_measurement_time(
                recording,
                replay.events[replay.index]->Recorded_event,
                frame,
                mode,
            );
            if count == 0 {
                ReplayView { phase: Phase::Report, ..replay }
            } else {
                match nearest_matrix(replay.matrices, time, mode) {
                    Some(nearest) if nearest.distance <= CAMERA_MATRIX_MAX_TIME_DISTANCE => {
                        ReplayView {
                            phase: Phase::Associate { time, matrix: nearest.matrix.order },
                            stats,
                            ..replay
                        }
                    },
                    _ => ReplayView { phase: Phase::Report, stats, ..replay },
                }
            }
        },
        _ => ReplayView { phase: Phase::Report, ..replay },
    }
}

/// The statistics after the global localization has judged a frame.
pub open spec fn with_status(stats: ReplayStats, status: Option<GlobalStatus>) -> ReplayStats {
    match status {
        None => ReplayStats { global_none: (stats.global_none + 1) as usize, ..stats },
        Some(GlobalStatus::Ambiguous) => ReplayStats {
            global_ambiguous: (stats.global_ambiguous + 1) as usize,
            ..stats
        },
        Some(_) => ReplayStats {
            global_unique_modulo_symmetry: (stats.global_unique_modulo_symmetry + 1) as usize,
            ..stats
        },
    }
}

/// Associations are known: those that are kept are to be taken in.
pub open spec fn with_associations(
    replay: ReplayView,
    stats: ReplayStats,
    kinds: Seq<AssociationKind>,
    time: WallTime,
) -> ReplayView {
    let kept = kept_associations(
        kinds,
        replay.parameters.pose_hint_visual_min_features_per_frame,
    );
    if kept.len() == 0 {
        ReplayView { phase: Phase::Report, stats, ..replay }
    } else {
        ReplayView {
            phase: Phase::IngestAssociations { time },
            kept,
            stats: with_ingested_associations(stats, kinds, kept.len()),
            ..replay
        }
    }
}

/// When the event that was taken up was measured: when it was published, or the time inside it.
pub open spec fn measured_time(replay: ReplayView) -> WallTime {
    match replay.events[replay.index] {
        ReplayEvent::Recorded { event, .. } => match replay.parameters.timestamp_mode {
            TimestampMode::McapPublish => event.publish_time,
            TimestampMode::Embedded => event.display_time_spec(),
        },
        ReplayEvent::VisualOdometryOverride { motion, .. } => motion.publish_time,
    }
}

/// Takes up what came of the work that was asked for.
pub open spec fn answered(
    replay: ReplayView,
    recording: RecordingView,
    outcome: Outcome,
) -> ReplayView {
    let stats = replay.stats;
    match (replay.phase, outcome) {
        (Phase::SolveForEvent { at }, Outcome::Solved(result)) => with_solution(
            replay,
            at,
            result,
            Phase::HandleEvent,
        ),
        (Phase::SolveAtEnd { at }, Outcome::Solved(result)) => with_solution(
            replay,
            at,
            result,
            Phase::Finished,
        ),
        (Phase::IngestImu, Outcome::Ingested) => with_ingested(
            replay,
            ReplayStats { imu_ingested: (stats.imu_ingested + 1) as usize, ..stats },
        ),
        (Phase::IngestFootHeights, Outcome::Ingested) => with_ingested(
            replay,
            ReplayStats {
                foot_heights_ingested: (stats.foot_heights_ingested + 1) as usize,
                ..stats
            },
        ),
        (Phase::CheckHeadMotion(measurement), Outcome::Judged(moved)) => if moved {
            ReplayView {
                phase: Phase::Report,
                stats: ReplayStats {
                    vo_skipped_head_motion: (stats.vo_skipped_head_motion + 1) as usize,
                    ..stats
                },
                ..replay
            }
        } else {
            ReplayView { phase: Phase::CheckGate(measurement), ..replay }
        },
        (Phase::CheckGate(measurement), Outcome::Judged(gated)) => if gated {
            ReplayView {
                phase: Phase::Report,
                stats: ReplayStats {
                    vo_dropped_gated: (stats.vo_dropped_gated + 1) as usize,
                    ..stats
                },
                ..replay
            }
        } else {
            ReplayView { phase: Phase::IngestVisualOdometry(measurement), ..replay }
        },
        (Phase::IngestVisualOdometry(_), Outcome::Ingested) => with_ingested(
            replay,
            ReplayStats { vo_ingested: (stats.vo_ingested + 1) as usize, ..stats },
        ),
        (Phase::CountFeatures, Outcome::Counted(count)) => with_features(replay, recording, count),
        (Phase::ReadAssociations, Outcome::Associated { kinds, .. }) => with_associations(
            replay,
            stats,
            kinds@,
            measured_time(replay),
        ),
        (Phase::Associate { time, .. }, Outcome::Associated { status, kinds }) => {
            with_associations(replay, with_status(stats, status), kinds@, time)
        },
        (Phase::IngestAssociations { time }, Outcome::Ingested) => ReplayView {
            anchor_time: Some(time),
            ..with_ingested(replay, stats)
        },
        _ => replay,
    }
}

/// Whether an outcome answers what a replay asked for, and can be counted.
pub open spec fn answers(replay: ReplayView, outcome: Outcome) -> bool {
    match replay.phase {
        Phase::SolveForEvent { .. } | Phase::SolveAtEnd { .. } => match outcome {
            Outcome::Solved(Some(result)) => is_in_reach(result.time),
            Outcome::Solved(None) => true,
            _ => false,
        },
        Phase::IngestImu
        | Phase::IngestFootHeights
        | Phase::IngestVisualOdometry(_)
        | Phase::IngestAssociations { .. } => outcome is Ingested,
        Phase::CheckHeadMotion(_) | Phase::CheckGate(_) => outcome is Judged,
        Phase::CountFeatures => outcome is Counted,
        Phase::ReadAssociations | Phase::Associate { .. } => match outcome {
            Outcome::Associated { kinds, .. } => replay.stats.global_associations_ingested
                + kinds@.len() <= usize::MAX,
            _ => false,
        },
        _ => false,
    }
}

/// Whether an event is being handled.
pub open spec fn is_in_event(phase: Phase) -> bool {
    !(phase is NextEvent || phase is SolveAtEnd || is_over(phase))
}

/// One where a motion is being looked at, else none.
pub open spec fn motions_under_way(phase: Phase) -> int {
    if phase is CheckHeadMotion || phase is CheckGate || phase is IngestVisualOdometry {
        1
    } else {
        0
    }
}

/// One where the event has been counted already, else none.
pub open spec fn events_counted_early(phase: Phase) -> int {
    match phase {
        Phase::Report
        | Phase::CheckHeadMotion(_)
        | Phase::CheckGate(_)
        | Phase::IngestVisualOdometry(_)
        | Phase::CountFeatures
        | Phase::ReadAssociations
        | Phase::Associate { .. }
        | Phase::IngestAssociations { .. } => 1,
        _ => 0,
    }
}

/// Whether the statistics of a replay add up: every received motion is accounted for, every
/// contributing frame was found in one of two ways, and nothing was counted twice.
pub open spec fn adds_up(replay: ReplayView) -> bool {
    let stats = replay.stats;
    let phase = replay.phase;
    &&& stats.imu_ingested + stats.foot_heights_ingested + stats.vo_received + stats.global_frames
        <= replay.index + events_counted_early(phase)
    &&& replay.parameters.include_visual_odometry ==> stats.vo_received == stats.vo_dropped_invalid
        + stats.vo_skipped_missing_camera_matrix + stats.vo_skipped_stale_camera_matrix
        + stats.vo_skipped_head_motion + stats.vo_dropped_gated + stats.vo_ingested
        + motions_under_way(phase)
    &&& !replay.parameters.include_visual_odometry ==> stats.vo_dropped_invalid
        + stats.vo_skipped_missing_camera_matrix + stats.vo_skipped_stale_camera_matrix
        + stats.vo_skipped_head_motion + stats.vo_dropped_gated + stats.vo_ingested
        + motions_under_way(phase) == 0
    &&& stats.global_candidates + (if phase is CountFeatures {
        1int
    } else {
        0int
    }) <= stats.global_frames
    &&& stats.global_none + stats.global_ambiguous + stats.global_unique_modulo_symmetry + (
    if phase is Associate {
        1int
    } else {
        0int
    }) <= stats.global_candidates
    &&& stats.global_frames_ingested + (if phase is CountFeatures || phase is ReadAssociations
        || phase is Associate {
        1int
    } else {
        0int
    }) <= stats.global_frames
    &&& stats.global_unique_frames_ingested + stats.pose_hint_frames_ingested
        == stats.global_frames_ingested
    &&& stats.global_unique_associations_ingested + stats.pose_hint_associations_ingested
        == stats.global_associations_ingested
    &&& stats.pose_updates_reused_unanchored <= replay.samples.len()
    &&& replay.samples.len() <= replay.index + (if is_in_event(phase) && !(
    phase is SolveForEvent) || is_over(phase) {
        1int
    } else {
        0int
    })
}

/// Whether solving keeps to the cadence: solves lie a multiple of it behind the start of the range,
/// the next one after the event that is being handled, and each one after those before it.
pub open spec fn keeps_cadence(replay: ReplayView) -> bool {
    &&& replay.cadence > 0
    &&& replay.next_solve_time.nanos > replay.range_start.nanos
    &&& (replay.next_solve_time.nanos - replay.range_start.nanos) % replay.cadence == 0
    &&& match replay.phase {
        Phase::SolveForEvent { at } => {
            &&& replay.range_start.nanos < at.nanos
                <= replay.events[replay.index].log_time_spec().nanos
            &&& (at.nanos - replay.range_start.nanos) % replay.cadence == 0
            &&& forall|i: int|
                0 <= i < replay.samples.len() ==> (#[trigger] replay.samples[i]).replay_nanos
                    + replay.log_start.nanos < at.nanos
        },
        Phase::SolveAtEnd { at } => at == replay.range_end,
        _ => true,
    }
    &&& is_in_event(replay.phase) ==> replay.range_start.nanos
        <= replay.events[replay.index].log_time_spec().nanos <= replay.range_end.nanos
        && replay.events[replay.index].log_time_spec().nanos < replay.next_solve_time.nanos
    &&& !(replay.phase is Finished) ==> forall|i: int|
        0 <= i < replay.samples.len() ==> (#[trigger] replay.samples[i]).replay_nanos
            + replay.log_start.nanos < replay.next_solve_time.nanos
    &&& forall|i: int|
        0 <= i < replay.samples.len() ==> (#[trigger] replay.samples[i]).replay_nanos
            + replay.log_start.nanos <= replay.range_end.nanos
    &&& forall|i: int, j: int|
        #![trigger replay.samples[i], replay.samples[j]]
        0 <= i < j < replay.samples.len() ==> replay.samples[i].replay_nanos
            <= replay.samples[j].replay_nanos
}

/// Whether the event that is being handled is one that the phase is about.
pub open spec fn phase_fits_event(replay: ReplayView) -> bool {
    let event = replay.events[replay.index];
    match replay.phase {
        Phase::IngestImu => event is Recorded && event->Recorded_event.kind is Imu,
        Phase::IngestFootHeights => event is Recorded
            && event->Recorded_event.kind is RobotKinematics,
        Phase::CountFeatures | Phase::Associate { .. } => event is Recorded
            && event->Recorded_event.kind is DetectedObjects,
        Phase::ReadAssociations => event is Recorded
            && event->Recorded_event.kind is FieldMarkAssociations,
        _ => true,
    }
}

/// Whether the times of a replay can be reckoned with.
pub open spec fn times_are_in_reach(replay: ReplayView) -> bool {
    &&& replay.cadence <= FARTHEST_NANOS
    &&& is_recorded_time(replay.log_start)
    &&& is_recorded_time(replay.graph_start)
    &&& is_in_reach(replay.range_start)
    &&& is_in_reach(replay.range_end)
    &&& replay.range_start.nanos <= replay.range_end.nanos
    &&& replay.next_solve_time.nanos <= 3 * FARTHEST_NANOS
    &&& forall|i: int|
        0 <= i < replay.events.len() ==> is_in_reach((#[trigger] replay.events[i]).log_time_spec())
}

/// Whether a replay is in order.
pub open spec fn is_in_order(replay: ReplayView) -> bool {
    &&& 0 <= replay.index <= replay.events.len() < usize::MAX
    &&& is_in_event(replay.phase) ==> replay.index < replay.events.len()
    &&& phase_fits_event(replay)
    &&& times_are_in_reach(replay)
    &&& adds_up(replay)
    &&& keeps_cadence(replay)
}

/// The next solve lies after the given time, at most one cadence after it, and a multiple of the
/// cadence behind the start.
pub proof fn solve_time_after_keeps_cadence(
    start: int,
    next: WallTime,
    cadence: int,
    time: WallTime,
)
    requires
        0 < cadence <= FARTHEST_NANOS,
        start < next.nanos <= 3 * FARTHEST_NANOS,
        -FARTHEST_NANOS <= start,
        (next.nanos - start) % cadence == 0,
        is_in_reach(time),
    ensures
        ({
            let after = solve_time_after(next, cadence, time);
            &&& after.nanos > time.nanos
            &&& after.nanos >= next.nanos
            &&& after.nanos == next.nanos || after.nanos <= time.nanos + cadence
            &&& (after.nanos - start) % cadence == 0
            &&& next.nanos <= time.nanos ==> after.nanos == next.nanos + ((time.nanos - next.nanos)
                / cadence + 1) * cadence
        }),
{
    if next.nanos <= time.nanos {
        let gap = time.nanos - next.nanos;
        let steps = gap / cadence + 1;
        vstd::arithmetic::div_mod::lemma_fundamental_div_mod(gap, cadence);
        vstd::arithmetic::div_mod::lemma_mod_bound(gap, cadence);
        assert(steps * cadence == cadence * (gap / cadence) + cadence) by (nonlinear_arith)
            requires
                steps == gap / cadence + 1,
        ;
        vstd::arithmetic::div_mod::lemma_mod_multiples_vanish(
            steps,
            next.nanos - start,
            cadence,
        );
        assert(cadence * steps == steps * cadence) by (nonlinear_arith);
    }
}

/// A replay that is in order stays so when it goes on by itself.
pub proof fn proceeding_keeps_order(
    replay: ReplayView,
    recording: RecordingView,
    cancelled: bool,
)
    requires
        is_in_order(replay),
        goes_on(replay.phase),
    ensures
        is_in_order(proceeded(replay, recording, cancelled)),
{
    match replay.phase {
        Phase::NextEvent => {
            if replay.index < replay.events.len() && !cancelled {
                let time = replay.events[replay.index].log_time_spec();
                assert(is_in_reach(time));
                solve_time_after_keeps_cadence(
                    replay.range_start.nanos as int,
                    replay.next_solve_time,
                    replay.cadence,
                    time,
                );
            }
        },
        Phase::HandleEvent => {},
        _ => {},
    }
}

/// The length of a list fits into a machine word.
pub(crate) proof fn vec_length_fits(kinds: Vec<AssociationKind>)
    ensures
        kinds@.len() <= usize::MAX,
{
    assert(kinds.len() == kinds@.len());
}

/// A replay that is in order stays so when its question is answered.
pub proof fn answering_keeps_order(replay: ReplayView, recording: RecordingView, outcome: Outcome)
    requires
        is_in_order(replay),
        answers(replay, outcome),
    ensures
        is_in_order(answered(replay, recording, outcome)),
{
    match outcome {
        Outcome::Associated { status, kinds } => {
            vec_length_fits(kinds);
            kept_associations_are_bounded(
                kinds@,
                replay.parameters.pose_hint_visual_min_features_per_frame,
            );
        },
        _ => {},
    }
}

/// How much is left to do at a phase of an event.
pub open spec fn phase_rank(phase: Phase) -> nat {
    match phase {
        Phase::NextEvent => 9,
        Phase::SolveForEvent { .. } => 8,
        Phase::HandleEvent => 7,
        Phase::CheckHeadMotion(_) => 6,
        Phase::CheckGate(_) => 5,
        Phase::IngestVisualOdometry(_) => 4,
        Phase::CountFeatures => 6,
        Phase::ReadAssociations => 4,
        Phase::Associate { .. } => 4,
        Phase::IngestAssociations { .. } => 3,
        Phase::IngestImu => 3,
        Phase::IngestFootHeights => 3,
        Phase::Report => 2,
        Phase::SolveAtEnd { .. } => 1,
        Phase::Finished => 0,
        Phase::Cancelled => 0,
    }
}

/// How much is left to do in a replay.
pub open spec fn remaining_work(replay: ReplayView) -> int {
    10 * (replay.events.len() - replay.index) + phase_rank(replay.phase)
}

/// Every step of a replay leaves less to do, so that a replay comes to its end.
pub proof fn replay_comes_to_an_end(
    replay: ReplayView,
    recording: RecordingView,
    cancelled: bool,
    outcome: Outcome,
)
    requires
        is_in_order(replay),
    ensures
        remaining_work(replay) >= 0,
        goes_on(replay.phase) ==> remaining_work(proceeded(replay, recording, cancelled))
            < remaining_work(replay),
        answers(replay, outcome) ==> remaining_work(answered(replay, recording, outcome))
            < remaining_work(replay),
{
}

/// The backend is asked to solve only where measurements were taken in since the last solve, and
/// it is asked for one solve between two events at most.
pub proof fn solves_follow_measurements(
    replay: ReplayView,
    recording: RecordingView,
    cancelled: bool,
)
    requires
        is_in_order(replay),
        goes_on(replay.phase),
    ensures
        ({
            let next = proceeded(replay, recording, cancelled);
            next.phase is SolveForEvent || next.phase is SolveAtEnd ==> {
                &&& replay.pending && !next.pending
                &&& replay.phase is NextEvent
            }
        }),
{
}

/// Every received motion of a finished replay is accounted for: dropped, skipped or taken in.
pub proof fn finished_replay_accounts_for_motions(replay: ReplayView)
    requires
        is_in_order(replay),
        is_over(replay.phase),
        replay.parameters.include_visual_odometry,
    ensures
        replay.stats.vo_received == replay.stats.vo_dropped_invalid
            + replay.stats.vo_skipped_missing_camera_matrix
            + replay.stats.vo_skipped_stale_camera_matrix + replay.stats.vo_skipped_head_motion
            + replay.stats.vo_dropped_gated + replay.stats.vo_ingested,
{
}

} // verus!
