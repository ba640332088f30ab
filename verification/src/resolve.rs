//! The replay of a recording through the backend.
//!
//! A replay decides what the backend has to do next and learns from the outcome; the work itself
//! is done outside. Where nothing has to be done outside, it goes on by itself.

use crate::camera_matrices::{
    held_at_largest, measurement_times, OnlineCameraMatrices, CAMERA_MATRIX_MAX_TIME_DISTANCE,
};
use crate::course::{
    answered, answering_keeps_order, answers, detection_measurement_time, finish, goes_on,
    handle_event, handle_visual_odometry, is_in_order, is_in_reach, measured_time, proceeded,
    proceeding_keeps_order, solve_time_after_keeps_cadence, take_up_event, vec_length_fits,
    visual_odometry_plan, with_associations, with_features, with_ingested, with_solution,
    with_status, GlobalStatus, Outcome, Phase, ReplayView, ResolveProgress, SolveResult,
    SolveSample, VisualOdometryMeasurement, VisualOdometryPlan, PROGRESS_INTERVAL,
};
use crate::event::{DetectedObjectsFrame, EventKind, RecordedEvent, VisualOdometryDelta};
use crate::order::{stable_order_exists, stable_order_of};
use crate::recording::{is_consistent, is_start, Clock, Recording, RecordingView};
use crate::replay::{
    kept_events, merged_replay_events, ordered_replay_events, override_events, override_view,
    replay_key, unordered_replay_events, ReplayEvent, ReplayParameters, ReplayVisualOdometryEvent,
    TimestampMode,
};
use crate::stats::{
    contributing_frame_is_counted_once, kept_associations, kept_associations_are_bounded,
    kept_associations_are_of_one_kind, localization_visual_associations, pick_kinds,
    record_ingested_association_stats, AssociationKind, ReplayStats,
};
use crate::time::{abs_diff, nanos_abs_diff, nanos_since_epoch_spec, WallTime};
use vstd::prelude::*;

verus! {

/// Decides what becomes of a measured motion before its contents are looked at.
pub fn plan_visual_odometry(
    recording: &Recording,
    delta: &VisualOdometryDelta,
    mode: TimestampMode,
    matrices: &OnlineCameraMatrices,
) -> (plan: VisualOdometryPlan)
    ensures
        plan == visual_odometry_plan(recording@, *delta, mode, matrices.matrices@),
{
    let (previous_time, current_time) = match measurement_times(recording, delta, mode) {
        Some(times) => times,
        None => {
            return VisualOdometryPlan::Invalid;
        },
    };
    if current_time.nanos <= previous_time.nanos {
        return VisualOdometryPlan::Invalid;
    }
    let previous = match matrices.nearest(previous_time, mode) {
        Some(previous) => previous,
        None => {
            return VisualOdometryPlan::MissingCameraMatrix;
        },
    };
    let current = match matrices.nearest(current_time, mode) {
        Some(current) => current,
        None => {
            return VisualOdometryPlan::MissingCameraMatrix;
        },
    };
    if previous.distance > CAMERA_MATRIX_MAX_TIME_DISTANCE || current.distance
        > CAMERA_MATRIX_MAX_TIME_DISTANCE {
        return VisualOdometryPlan::StaleCameraMatrix;
    }
    VisualOdometryPlan::Measure(
        VisualOdometryMeasurement {
            previous_time,
            current_time,
            previous_matrix: previous.matrix.order,
            current_matrix: current.matrix.order,
        },
    )
}

/// When the objects of a detection were seen.
pub fn detected_objects_measurement_time(
    recording: &Recording,
    event: &RecordedEvent,
    frame: &DetectedObjectsFrame,
    timestamp_mode: TimestampMode,
) -> (time: WallTime)
    requires
        event.kind == EventKind::DetectedObjects(*frame),
    ensures
        time == detection_measurement_time(recording@, *event, *frame, timestamp_mode),
{
    match timestamp_mode {
        TimestampMode::McapPublish => match recording.detected_objects_image_publish_time(event) {
            Some(time) => time,
            None => event.publish_time,
        },
        TimestampMode::Embedded => frame.display_time(),
    }
}

/// Whether a pose is recent enough to hint at the place of a measurement.
pub fn is_pose_recent(pose_time: WallTime, measurement_time: WallTime, max_age: u128) -> (recent:
    bool)
    ensures
        recent == (held_at_largest(
            abs_diff(
                nanos_since_epoch_spec(pose_time) as int,
                nanos_since_epoch_spec(measurement_time) as int,
            ),
        ) <= max_age),
        0 <= pose_time.nanos <= u64::MAX && 0 <= measurement_time.nanos <= u64::MAX ==> (recent
            <==> pose_time.nanos - measurement_time.nanos <= max_age && measurement_time.nanos
            - pose_time.nanos <= max_age),
{
    let distance: u128 = nanos_abs_diff(pose_time, measurement_time);
    if distance <= u64::MAX as u128 {
        distance <= max_age
    } else {
        u64::MAX as u128 <= max_age
    }
}

/// A replay of a recording.
#[derive(Debug)]
pub struct Replay {
    parameters: ReplayParameters,
    events: Vec<ReplayEvent>,
    recompute_global_features: bool,
    log_start: WallTime,
    graph_start: WallTime,
    range_start: WallTime,
    range_end: WallTime,
    cadence: i128,
    index: usize,
    phase: Phase,
    next_solve_time: WallTime,
    matrices: OnlineCameraMatrices,
    kept: Vec<usize>,
    stats: ReplayStats,
    samples: Vec<SolveSample>,
    pending: bool,
    anchor_time: Option<WallTime>,
    has_pose: bool,
}

impl View for Replay {
    type V = ReplayView;

    closed spec fn view(&self) -> ReplayView {
        ReplayView {
            parameters: self.parameters,
            events: self.events@,
            recompute_global_features: self.recompute_global_features,
            log_start: self.log_start,
            graph_start: self.graph_start,
            range_start: self.range_start,
            range_end: self.range_end,
            cadence: self.cadence as int,
            index: self.index as int,
            phase: self.phase,
            next_solve_time: self.next_solve_time,
            matrices: self.matrices.matrices@,
            kept: self.kept@,
            stats: self.stats,
            samples: self.samples@,
            pending: self.pending,
            anchor_time: self.anchor_time,
            has_pose: self.has_pose,
        }
    }
}

/// The part of a recording that is replayed, in nanoseconds.
#[derive(Clone, Copy, Debug, PartialEq, Eq, Structural)]
pub struct ReplayRange {
    /// From the start of the recording to the start of the range.
    pub start: u128,
    /// From the start of the recording to the end of the range.
    pub end: u128,
    /// Between two solves.
    pub cadence: u128,
}

/// Nanoseconds that a replay may reach behind the start of its recording.
pub const LONGEST_RANGE: u128 = 0x8_0000_0000_0000_0000_0000_0000;

/// Whether a range can be replayed.
pub open spec fn is_replay_range(range: ReplayRange) -> bool {
    range.start <= range.end <= LONGEST_RANGE && 0 < range.cadence <= LONGEST_RANGE
}

/// Whether some event holds field-mark associations.
pub open spec fn has_recorded_associations(events: Seq<RecordedEvent>) -> bool {
    exists|i: int| 0 <= i < events.len() && (#[trigger] events[i]).kind is FieldMarkAssociations
}

/// Whether `replay` is the start of a replay of a range of a recording.
pub open spec fn is_replay_start(
    replay: ReplayView,
    recording: RecordingView,
    parameters: ReplayParameters,
    range: ReplayRange,
    overrides: Option<Seq<ReplayVisualOdometryEvent>>,
) -> bool {
    &&& replay.parameters == parameters
    &&& replay.events == ordered_replay_events(recording.events, overrides)
    &&& replay.recompute_global_features == (parameters.recompute_global_features
        || !has_recorded_associations(recording.events))
    &&& is_start(recording, Clock::Log, replay.log_start)
    &&& is_start(
        recording,
        match parameters.timestamp_mode {
            TimestampMode::McapPublish => Clock::Publish,
            TimestampMode::Embedded => Clock::Display,
        },
        replay.graph_start,
    )
    &&& replay.range_start.nanos == replay.log_start.nanos + range.start
    &&& replay.range_end.nanos == replay.log_start.nanos + range.end
    &&& replay.cadence == range.cadence
    &&& replay.index == 0
    &&& replay.phase is NextEvent
    &&& replay.next_solve_time.nanos == replay.range_start.nanos + range.cadence
    &&& replay.matrices.len() == 0
    &&& replay.kept.len() == 0
    &&& replay.stats == ReplayStats::zero()
    &&& replay.samples.len() == 0
    &&& !replay.pending
    &&& replay.anchor_time is None
    &&& !replay.has_pose
}

/// Whether some event holds field-mark associations.
fn check_recorded_associations(events: &[RecordedEvent]) -> (found: bool)
    ensures
        found == has_recorded_associations(events@),
{
    let mut index: usize = 0;
    while index < events.len()
        invariant
            index <= events@.len(),
            forall|i: int|
                0 <= i < index ==> !((#[trigger] events@[i]).kind is FieldMarkAssociations),
        decreases events@.len() - index,
    {
        if let EventKind::FieldMarkAssociations(_) = events[index].kind {
            return true;
        }
        index = index + 1;
    }
    false
}

/// Replayed events have times that can be reckoned with.
proof fn replay_events_are_in_reach(
    recording: RecordingView,
    overrides: Option<Seq<ReplayVisualOdometryEvent>>,
)
    requires
        is_consistent(recording),
        overrides matches Some(overrides) ==> forall|i: int|
            0 <= i < overrides.len() ==> is_in_reach((#[trigger] overrides[i]).log_time),
        recording.events.len() + (match overrides {
            Some(overrides) => overrides.len(),
            None => 0,
        }) < usize::MAX,
    ensures
        forall|i: int|
            0 <= i < ordered_replay_events(recording.events, overrides).len() ==> is_in_reach(
                (#[trigger] ordered_replay_events(recording.events, overrides)[i]).log_time_spec(),
            ),
        ordered_replay_events(recording.events, overrides).len() < usize::MAX,
{
    let unordered = unordered_replay_events(recording.events, overrides);
    let keys = unordered.map_values(|event: ReplayEvent| replay_key(event));
    let ordered = ordered_replay_events(recording.events, overrides);
    let count = recording.events.len() as int;
    kept_events_are_events(recording.events, true, count);
    kept_events_are_events(recording.events, false, count);
    assert forall|i: int| 0 <= i < unordered.len() implies is_in_reach(
        (#[trigger] unordered[i]).log_time_spec(),
    ) by {
        let replaced = overrides is Some;
        let kept = kept_events(recording.events, replaced, count);
        if i < kept.len() {
            assert(unordered[i] == kept[i]);
            let index = kept[i]->Recorded_index as int;
            assert(kept[i]->Recorded_event == recording.events[index]);
        } else {
            assert(unordered[i] == override_events(overrides->0)[i - kept.len()]);
        }
    }
    stable_order_exists(keys);
    assert forall|i: int| 0 <= i < ordered.len() implies is_in_reach(
        (#[trigger] ordered[i]).log_time_spec(),
    ) by {
        assert(stable_order_of(keys)[i] < unordered.len());
        assert(ordered[i] == unordered[stable_order_of(keys)[i] as int]);
    }
}

/// Kept events are recorded events.
proof fn kept_events_are_events(events: Seq<RecordedEvent>, replaced: bool, count: int)
    requires
        0 <= count <= events.len() <= usize::MAX,
    ensures
        kept_events(events, replaced, count).len() <= count,
        forall|i: int|
            0 <= i < kept_events(events, replaced, count).len() ==> {
                let kept = #[trigger] kept_events(events, replaced, count)[i];
                &&& kept is Recorded
                &&& kept->Recorded_index < count
                &&& kept->Recorded_event == events[kept->Recorded_index as int]
            },
    decreases count,
{
    if count > 0 {
        kept_events_are_events(events, replaced, count - 1);
    }
}

impl Replay {
    /// Starts a replay of a range of a recording. Measured motions that are given take the place
    /// of the recorded ones.
    pub fn new(
        recording: &Recording,
        parameters: ReplayParameters,
        range: ReplayRange,
        visual_odometry_override: Option<&[ReplayVisualOdometryEvent]>,
    ) -> (replay: Self)
        requires
            is_replay_range(range),
            override_view(visual_odometry_override) matches Some(overrides) ==> forall|i: int|
                0 <= i < overrides.len() ==> is_in_reach((#[trigger] overrides[i]).log_time),
            recording@.events.len() + (match override_view(visual_odometry_override) {
                Some(overrides) => overrides.len(),
                None => 0,
            }) < usize::MAX,
        ensures
            is_replay_start(
                replay@,
                recording@,
                parameters,
                range,
                override_view(visual_odometry_override),
            ),
            is_in_order(replay@),
    {
        let recorded = recording.timed_events();
        let events = merged_replay_events(recorded, visual_odometry_override);
        proof {
            replay_events_are_in_reach(
                recording@,
                override_view(visual_odometry_override),
            );
        }
        let log_start = recording.start_log_time();
        let range_start = WallTime { nanos: log_start.nanos + range.start as i128 };
        let range_end = WallTime { nanos: log_start.nanos + range.end as i128 };
        let cadence: i128 = range.cadence as i128;
        proof {
            vstd::arithmetic::div_mod::lemma_mod_self_0(cadence as int);
        }
        Replay {
            parameters,
            events,
            recompute_global_features: parameters.recompute_global_features
                || !check_recorded_associations(recorded),
            log_start,
            graph_start: recording.graph_start_time(parameters.timestamp_mode),
            range_start,
            range_end,
            cadence,
            index: 0,
            phase: Phase::NextEvent,
            next_solve_time: WallTime { nanos: range_start.nanos + cadence },
            matrices: OnlineCameraMatrices::new(),
            kept: Vec::new(),
            stats: ReplayStats::default(),
            samples: Vec::new(),
            pending: false,
            anchor_time: None,
            has_pose: false,
        }
    }

    /// Where the replay stands.
    pub fn phase(&self) -> (phase: Phase)
        ensures
            phase == self@.phase,
    {
        self.phase
    }

    /// The event that was taken up, where there is one.
    pub fn current_event(&self) -> (event: Option<ReplayEvent>)
        ensures
            event == (if self@.index < self@.events.len() {
                Some(self@.events[self@.index])
            } else {
                None
            }),
    {
        if self.index < self.events.len() {
            Some(self.events[self.index])
        } else {
            None
        }
    }

    /// The places of the associations that are to be taken in.
    pub fn kept_associations(&self) -> (kept: &[usize])
        ensures
            kept@ == self@.kept,
    {
        self.kept.as_slice()
    }

    /// When a visual anchor was last taken in.
    pub fn last_visual_anchor_time(&self) -> (time: Option<WallTime>)
        ensures
            time == self@.anchor_time,
    {
        self.anchor_time
    }

    /// What was taken in so far.
    pub fn stats(&self) -> (stats: ReplayStats)
        ensures
            stats == self@.stats,
    {
        self.stats
    }

    /// The solved poses so far.
    pub fn samples(&self) -> (samples: &[SolveSample])
        ensures
            samples@ == self@.samples,
    {
        self.samples.as_slice()
    }

    /// The progress to report: behind every event whose place is a multiple of the interval.
    pub fn progress(&self) -> (progress: Option<ResolveProgress>)
        requires
            is_in_order(self@),
        ensures
            progress == (if self@.phase is Report && self@.index % PROGRESS_INTERVAL as int == 0 {
                Some(
                    ResolveProgress {
                        processed_events: (self@.index + 1) as usize,
                        total_events: self@.events.len() as usize,
                        solve_count: self@.samples.len() as usize,
                    },
                )
            } else {
                None
            }),
            progress is Some <==> self@.phase is Report && self@.index % 250 == 0,
            progress matches Some(progress) ==> progress.processed_events == self@.index + 1
                && progress.total_events == self@.events.len() && progress.solve_count
                == self@.samples.len(),
    {
        match self.phase {
            Phase::Report => {
                if self.index % PROGRESS_INTERVAL == 0 {
                    Some(
                        ResolveProgress {
                            processed_events: self.index + 1,
                            total_events: self.events.len(),
                            solve_count: self.samples.len(),
                        },
                    )
                } else {
                    None
                }
            },
            _ => None,
        }
    }

    /// Ends the replay, with a last solve where measurements are pending.
    fn finish(&mut self)
        ensures
            final(self)@ == finish(old(self)@),
    {
        if self.pending {
            self.phase = Phase::SolveAtEnd { at: self.range_end };
            self.pending = false;
        } else {
            self.phase = Phase::Finished;
        }
    }

    /// Takes up the next event.
    fn take_up_event(&mut self, cancelled: bool)
        requires
            is_in_order(old(self)@),
            old(self)@.phase is NextEvent,
        ensures
            final(self)@ == take_up_event(old(self)@, cancelled),
    {
        if self.index >= self.events.len() {
            self.finish();
            return;
        }
        if cancelled {
            self.phase = Phase::Cancelled;
            return;
        }
        let event = self.events[self.index];
        let time = event.log_time();
        assert(is_in_reach(self@.events[self@.index].log_time_spec()));
        if time.nanos > self.range_end.nanos {
            self.finish();
            return;
        }
        if time.nanos < self.range_start.nanos {
            if let ReplayEvent::Recorded { event, .. } = event {
                if let EventKind::CameraMatrix(matrix_time) = event.kind {
                    self.matrices.push(&event, matrix_time);
                }
            }
            self.index = self.index + 1;
            return;
        }
        let at = self.next_solve_time;
        if at.nanos <= time.nanos {
            let gap: u128 = (time.nanos - at.nanos) as u128;
            let cadence: u128 = self.cadence as u128;
            let steps: u128 = gap / cadence + 1;
            proof {
                solve_time_after_keeps_cadence(
                    self@.range_start.nanos as int,
                    at,
                    self@.cadence,
                    time,
                );
            }
            self.next_solve_time = WallTime { nanos: at.nanos + (steps * cadence) as i128 };
            if self.pending {
                self.phase = Phase::SolveForEvent { at };
                self.pending = false;
                return;
            }
        }
        self.phase = Phase::HandleEvent;
    }

    /// Handles a measured motion.
    fn handle_visual_odometry(&mut self, recording: &Recording, delta: &VisualOdometryDelta)
        requires
            is_in_order(old(self)@),
            old(self)@.phase is HandleEvent,
        ensures
            final(self)@ == handle_visual_odometry(old(self)@, recording@, *delta),
    {
        self.stats.vo_received = self.stats.vo_received + 1;
        if !self.parameters.include_visual_odometry {
            self.phase = Phase::Report;
            return;
        }
        match plan_visual_odometry(
            recording,
            delta,
            self.parameters.timestamp_mode,
            &self.matrices,
        ) {
            VisualOdometryPlan::Invalid => {
                self.stats.vo_dropped_invalid = self.stats.vo_dropped_invalid + 1;
                self.phase = Phase::Report;
            },
            VisualOdometryPlan::MissingCameraMatrix => {
                self.stats.vo_skipped_missing_camera_matrix =
                self.stats.vo_skipped_missing_camera_matrix + 1;
                self.phase = Phase::Report;
            },
            VisualOdometryPlan::StaleCameraMatrix => {
                self.stats.vo_skipped_stale_camera_matrix =
                self.stats.vo_skipped_stale_camera_matrix + 1;
                self.phase = Phase::Report;
            },
            VisualOdometryPlan::Measure(measurement) => {
                self.phase = Phase::CheckHeadMotion(measurement);
            },
        }
    }

    /// Handles the event that was taken up.
    fn handle_event(&mut self, recording: &Recording)
        requires
            is_in_order(old(self)@),
            old(self)@.phase is HandleEvent,
        ensures
            final(self)@ == handle_event(old(self)@, recording@),
    {
        let event = match self.events[self.index] {
            ReplayEvent::VisualOdometryOverride { motion, .. } => {
                self.handle_visual_odometry(recording, &motion.delta);
                return;
            },
            ReplayEvent::Recorded { event, .. } => event,
        };
        match event.kind {
            EventKind::VisualOdometry(delta) => {
                self.handle_visual_odometry(recording, &delta);
            },
            EventKind::Imu if self.parameters.include_imu => {
                self.phase = Phase::IngestImu;
            },
            EventKind::CameraMatrix(time) => {
                self.matrices.push(&event, time);
                self.phase = Phase::Report;
            },
            EventKind::RobotKinematics(_) if self.parameters.include_foot_heights => {
                self.phase = Phase::IngestFootHeights;
            },
            EventKind::FieldMarkAssociations(_) if self.parameters.include_global_features
                && !self.recompute_global_features => {
                self.stats.global_frames = self.stats.global_frames + 1;
                self.phase = Phase::ReadAssociations;
            },
            EventKind::DetectedObjects(_) if self.parameters.include_global_features
                && self.recompute_global_features => {
                self.stats.global_frames = self.stats.global_frames + 1;
                self.phase = Phase::CountFeatures;
            },
            _ => {
                self.phase = Phase::Report;
            },
        }
    }

    /// Goes on where nothing has to be done outside.
    pub fn proceed(&mut self, recording: &Recording, cancelled: bool)
        requires
            is_in_order(old(self)@),
            goes_on(old(self)@.phase),
        ensures
            final(self)@ == proceeded(old(self)@, recording@, cancelled),
            is_in_order(final(self)@),
    {
        proof {
            proceeding_keeps_order(self@, recording@, cancelled);
        }
        match self.phase {
            Phase::NextEvent => {
                self.take_up_event(cancelled);
            },
            Phase::HandleEvent => {
                self.handle_event(recording);
            },
            Phase::Report => {
                self.index = self.index + 1;
                self.phase = Phase::NextEvent;
            },
            _ => {},
        }
    }
}

impl Replay {
    /// Takes up a solution and goes on with `phase`.
    fn take_solution(&mut self, at: WallTime, result: Option<SolveResult>, phase: Phase)
        requires
            is_in_order(old(self)@),
            old(self)@.phase is SolveForEvent || old(self)@.phase is SolveAtEnd,
            is_in_reach(at),
            result matches Some(result) ==> is_in_reach(result.time),
        ensures
            final(self)@ == with_solution(old(self)@, at, result, phase),
    {
        self.phase = phase;
        if let Some(result) = result {
            let reused = result.rejected && self.has_pose;
            if reused {
                self.stats.pose_updates_reused_unanchored =
                self.stats.pose_updates_reused_unanchored + 1;
            }
            if !result.rejected {
                self.has_pose = true;
            }
            self.samples.push(
                SolveSample {
                    replay_nanos: at.nanos - self.log_start.nanos,
                    graph_nanos: result.time.nanos - self.graph_start.nanos,
                    reused_previous_pose: reused,
                    stats: self.stats,
                },
            );
        }
    }

    /// Takes up the number of features of a detection.
    fn take_features(&mut self, recording: &Recording, count: usize)
        requires
            is_in_order(old(self)@),
            old(self)@.phase is CountFeatures,
        ensures
            final(self)@ == with_features(old(self)@, recording@, count),
    {
        let event = match self.events[self.index] {
            ReplayEvent::Recorded { event, .. } => event,
            ReplayEvent::VisualOdometryOverride { .. } => {
                self.phase = Phase::Report;
                return;
            },
        };
        let frame = match event.kind {
            EventKind::DetectedObjects(frame) => frame,
            _ => {
                self.phase = Phase::Report;
                return;
            },
        };
        self.phase = Phase::Report;
        if count == 0 {
            return;
        }
        self.stats.global_candidates = self.stats.global_candidates + 1;
        let mode = self.parameters.timestamp_mode;
        let time = detected_objects_measurement_time(recording, &event, &frame, mode);
        if let Some(nearest) = self.matrices.nearest(time, mode) {
            if nearest.distance <= CAMERA_MATRIX_MAX_TIME_DISTANCE {
                self.phase = Phase::Associate { time, matrix: nearest.matrix.order };
            }
        }
    }

    /// Takes up the associations of a frame.
    fn take_associations(&mut self, kinds: &Vec<AssociationKind>, time: WallTime)
        requires
            old(self)@.stats.global_frames_ingested < usize::MAX,
            old(self)@.stats.global_unique_frames_ingested
                + old(self)@.stats.pose_hint_frames_ingested
                == old(self)@.stats.global_frames_ingested,
            old(self)@.stats.global_unique_associations_ingested
                + old(self)@.stats.pose_hint_associations_ingested
                == old(self)@.stats.global_associations_ingested,
            old(self)@.stats.global_associations_ingested + kinds@.len() <= usize::MAX,
        ensures
            final(self)@ == with_associations(old(self)@, old(self)@.stats, kinds@, time),
    {
        let min_features: usize = self.parameters.pose_hint_visual_min_features_per_frame;
        let kept = localization_visual_associations(kinds.as_slice(), min_features);
        if kept.len() == 0 {
            self.phase = Phase::Report;
            return;
        }
        proof {
            vec_length_fits(*kinds);
            kept_associations_are_bounded(kinds@, min_features);
            contributing_frame_is_counted_once(self.stats, kinds@, min_features);
            assert forall|i: int| 0 <= i < kept@.len() implies #[trigger] kept@[i]
                < kinds@.len() by {
                kept_associations_are_of_one_kind(kinds@, min_features, i);
            }
        }
        let chosen = pick_kinds(kinds.as_slice(), &kept);
        self.stats.global_frames_ingested = self.stats.global_frames_ingested + 1;
        self.stats.global_associations_ingested = self.stats.global_associations_ingested
            + kept.len();
        record_ingested_association_stats(&mut self.stats, chosen.as_slice());
        self.kept = kept;
        self.phase = Phase::IngestAssociations { time };
    }

    /// Counts how the global localization judged a frame.
    fn take_status(&mut self, status: Option<GlobalStatus>)
        requires
            old(self)@.stats.global_none < usize::MAX,
            old(self)@.stats.global_ambiguous < usize::MAX,
            old(self)@.stats.global_unique_modulo_symmetry < usize::MAX,
        ensures
            final(self)@ == (ReplayView {
                stats: with_status(old(self)@.stats, status),
                ..old(self)@
            }),
    {
        match status {
            None => {
                self.stats.global_none = self.stats.global_none + 1;
            },
            Some(GlobalStatus::Ambiguous) => {
                self.stats.global_ambiguous = self.stats.global_ambiguous + 1;
            },
            Some(GlobalStatus::Unique) => {
                self.stats.global_unique_modulo_symmetry =
                self.stats.global_unique_modulo_symmetry + 1;
            },
            Some(GlobalStatus::UniqueModuloSymmetry) => {
                self.stats.global_unique_modulo_symmetry =
                self.stats.global_unique_modulo_symmetry + 1;
            },
        }
    }

    /// Notes that a measurement was taken in.
    fn take_measurement(&mut self)
        ensures
            final(self)@ == with_ingested(old(self)@, old(self)@.stats),
    {
        self.phase = Phase::Report;
        self.pending = true;
    }

    /// When the event that was taken up was measured: when it was published, or the time inside it.
    fn measured_time(&self) -> (time: WallTime)
        requires
            0 <= self@.index < self@.events.len(),
        ensures
            time == measured_time(self@),
    {
        match self.events[self.index] {
            ReplayEvent::Recorded { event, .. } => match self.parameters.timestamp_mode {
                TimestampMode::McapPublish => event.publish_time,
                TimestampMode::Embedded => event.display_time(),
            },
            ReplayEvent::VisualOdometryOverride { motion, .. } => motion.publish_time,
        }
    }

    /// Takes up what came of the work that was asked for.
    pub fn answer(&mut self, recording: &Recording, outcome: Outcome)
        requires
            is_in_order(old(self)@),
            answers(old(self)@, outcome),
        ensures
            final(self)@ == answered(old(self)@, recording@, outcome),
            is_in_order(final(self)@),
    {
        proof {
            answering_keeps_order(self@, recording@, outcome);
        }
        match (self.phase, outcome) {
            (Phase::SolveForEvent { at }, Outcome::Solved(result)) => {
                self.take_solution(at, result, Phase::HandleEvent);
            },
            (Phase::SolveAtEnd { at }, Outcome::Solved(result)) => {
                self.take_solution(at, result, Phase::Finished);
            },
            (Phase::IngestImu, Outcome::Ingested) => {
                self.stats.imu_ingested = self.stats.imu_ingested + 1;
                self.take_measurement();
            },
            (Phase::IngestFootHeights, Outcome::Ingested) => {
                self.stats.foot_heights_ingested = self.stats.foot_heights_ingested + 1;
                self.take_measurement();
            },
            (Phase::CheckHeadMotion(measurement), Outcome::Judged(moved)) => {
                if moved {
                    self.stats.vo_skipped_head_motion = self.stats.vo_skipped_head_motion + 1;
                    self.phase = Phase::Report;
                } else {
                    self.phase = Phase::CheckGate(measurement);
                }
            },
            (Phase::CheckGate(measurement), Outcome::Judged(gated)) => {
                if gated {
                    self.stats.vo_dropped_gated = self.stats.vo_dropped_gated + 1;
                    self.phase = Phase::Report;
                } else {
                    self.phase = Phase::IngestVisualOdometry(measurement);
                }
            },
            (Phase::IngestVisualOdometry(_), Outcome::Ingested) => {
                self.stats.vo_ingested = self.stats.vo_ingested + 1;
                self.take_measurement();
            },
            (Phase::CountFeatures, Outcome::Counted(count)) => {
                self.take_features(recording, count);
            },
            (Phase::ReadAssociations, Outcome::Associated { kinds, .. }) => {
                let time = self.measured_time();
                self.take_associations(&kinds, time);
            },
            (Phase::Associate { time, .. }, Outcome::Associated { status, kinds }) => {
                self.take_status(status);
                self.take_associations(&kinds, time);
            },
            (Phase::IngestAssociations { time }, Outcome::Ingested) => {
                self.take_measurement();
                self.anchor_time = Some(time);
            },
            _ => {},
        }
    }

    /// When the measurement of the event that was taken up counts, for an event that holds robot
    /// kinematics.
    pub fn foot_heights_time(&self) -> (time: Option<WallTime>)
        requires
            is_in_order(self@),
        ensures
            time == (if self@.phase is IngestFootHeights {
                Some(measured_time(self@))
            } else {
                None
            }),
    {
        match self.phase {
            Phase::IngestFootHeights => Some(self.measured_time()),
            _ => None,
        }
    }
}

} // verus!
