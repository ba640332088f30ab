//! Visual odometry taken apart: the recorded one for inspection, and one computed anew from the
//! recorded images.

use crate::camera_matrices::{
    diagnostic_current, diagnostic_measurement_times, diagnostic_previous, measured_between,
    nearest_matrix, NearestCameraMatrix, OnlineCameraMatrices, OnlineCameraMatrix,
};
use crate::event::{EventKind, RecordedEvent, StereoImageId, VisualOdometryDelta};
use crate::playback::aligned_time;
use crate::recording::{is_consistent, Recording, RecordingView};
use crate::replay::{ReplayVisualOdometryEvent, TimestampMode};
use crate::time::{Time, WallTime};
use vstd::prelude::*;

verus! {

/// A recorded motion with the camera matrices nearest to its start and its end.
#[derive(Clone, Copy, Debug, PartialEq, Eq, Structural)]
pub struct DiagnosticSample {
    /// The message with the motion.
    pub order: usize,
    pub previous: NearestCameraMatrix,
    pub current: NearestCameraMatrix,
}

/// The contents of a diagnosis.
pub struct DiagnosisView {
    pub samples: Seq<DiagnosticSample>,
    pub missing_camera_matrix: nat,
    /// The end of the motion before, by publishing times.
    pub previous_publish_time: Option<WallTime>,
}

/// The times of a recorded motion for a diagnosis, and the end of it by publishing times.
pub open spec fn diagnostic_times(
    recording: RecordingView,
    event: RecordedEvent,
    delta: VisualOdometryDelta,
    mode: TimestampMode,
    previous: Option<WallTime>,
) -> (Option<(WallTime, WallTime)>, Option<WallTime>) {
    match mode {
        TimestampMode::Embedded => (measured_between(recording, delta, mode), previous),
        TimestampMode::McapPublish => {
            let current = diagnostic_current(recording, event, delta);
            (
                match diagnostic_previous(recording, event, delta, previous) {
                    Some(previous) => Some((previous, current)),
                    None => None,
                },
                Some(current),
            )
        },
    }
}

/// The diagnosis of the motions among the first `count` events.
pub open spec fn diagnosis(
    recording: RecordingView,
    matrices: Seq<OnlineCameraMatrix>,
    mode: TimestampMode,
    count: int,
) -> DiagnosisView
    decreases count,
{
    if count <= 0 {
        DiagnosisView {
            samples: Seq::empty(),
            missing_camera_matrix: 0,
            previous_publish_time: None,
        }
    } else {
        let before = diagnosis(recording, matrices, mode, count - 1);
        let event = recording.events[count - 1];
        match event.kind {
            EventKind::VisualOdometry(delta) => {
                let (times, previous_publish_time) = diagnostic_times(
                    recording,
                    event,
                    delta,
                    mode,
                    before.previous_publish_time,
                );
                match times {
                    None => DiagnosisView { previous_publish_time, ..before },
                    Some((previous_time, current_time)) => match (
                        nearest_matrix(matrices, previous_time, mode),
                        nearest_matrix(matrices, current_time, mode),
                    ) {
                        (Some(previous), Some(current)) => DiagnosisView {
                            samples: before.samples.push(
                                DiagnosticSample { order: event.order, previous, current },
                            ),
                            previous_publish_time,
                            ..before
                        },
                        _ => DiagnosisView {
                            missing_camera_matrix: before.missing_camera_matrix + 1,
                            previous_publish_time,
                            ..before
                        },
                    },
                }
            },
            _ => before,
        }
    }
}

/// What can be said of the recorded visual odometry.
#[derive(Debug)]
pub struct VoDiagnosis {
    pub samples: Vec<DiagnosticSample>,
    pub missing_camera_matrix: usize,
}

/// Finds the camera matrices for all recorded motions.
pub fn diagnose_visual_odometry(
    recording: &Recording,
    matrices: &OnlineCameraMatrices,
    mode: TimestampMode,
) -> (result: VoDiagnosis)
    ensures
        ({
            let all = diagnosis(
                recording@,
                matrices.matrices@,
                mode,
                recording@.events.len() as int,
            );
            &&& result.samples@ == all.samples
            &&& result.missing_camera_matrix == all.missing_camera_matrix
        }),
{
    let events = recording.timed_events();
    let mut samples: Vec<DiagnosticSample> = Vec::new();
    let mut missing_camera_matrix: usize = 0;
    let mut previous_publish_time: Option<WallTime> = None;
    let mut index: usize = 0;
    while index < events.len()
        invariant
            events@ == recording@.events,
            is_consistent(recording@),
            index <= events@.len(),
            missing_camera_matrix <= index,
            ({
                let so_far = diagnosis(recording@, matrices.matrices@, mode, index as int);
                &&& samples@ == so_far.samples
                &&& missing_camera_matrix == so_far.missing_camera_matrix
                &&& previous_publish_time == so_far.previous_publish_time
            }),
        decreases events@.len() - index,
    {
        let event = events[index];
        assert(event == recording@.events[index as int]);
        if let EventKind::VisualOdometry(delta) = event.kind {
            if let Some((previous_time, current_time)) = diagnostic_measurement_times(
                recording,
                &event,
                &delta,
                mode,
                &mut previous_publish_time,
            ) {
                let previous = matrices.nearest(previous_time, mode);
                let current = matrices.nearest(current_time, mode);
                match (previous, current) {
                    (Some(previous), Some(current)) => {
                        samples.push(DiagnosticSample { order: event.order, previous, current });
                    },
                    _ => {
                        missing_camera_matrix = missing_camera_matrix + 1;
                    },
                }
            }
        }
        index = index + 1;
    }
    VoDiagnosis { samples, missing_camera_matrix }
}

/// Why visual odometry cannot be computed anew.
#[derive(Clone, Copy, Debug, PartialEq, Eq, Structural)]
pub enum RegenerationError {
    /// The recording has no images.
    NoImages,
    /// The distance of the two cameras is not a positive number.
    InvalidBaseline,
}

/// Whether visual odometry can be computed anew from a recording.
pub fn check_regeneration(recording: &Recording, baseline_is_positive: bool) -> (result: Result<
    (),
    RegenerationError,
>)
    ensures
        result == (if recording@.images.len() == 0 {
            Err(RegenerationError::NoImages)
        } else if !baseline_is_positive {
            Err(RegenerationError::InvalidBaseline)
        } else {
            Ok(())
        }),
        result is Ok <==> recording@.images.len() > 0 && baseline_is_positive,
        result == Err::<(), RegenerationError>(RegenerationError::NoImages)
            <==> recording@.images.len() == 0,
{
    if recording.image_count() == 0 {
        Err(RegenerationError::NoImages)
    } else if !baseline_is_positive {
        Err(RegenerationError::InvalidBaseline)
    } else {
        Ok(())
    }
}

/// How far the computation of visual odometry has come.
pub struct RegenerationView {
    pub events: Seq<ReplayVisualOdometryEvent>,
    pub frames: nat,
    pub estimates: nat,
    pub failed: nat,
    pub missing_camera_matrix: nat,
    /// The frames from which a motion could start, none having gone before.
    pub starts: nat,
    /// The time of the frame from which the next motion starts.
    pub previous_time: Option<Time>,
}

/// What to do with a frame.
#[derive(Clone, Copy, Debug, PartialEq, Eq, Structural)]
pub enum FrameAction {
    /// Nothing.
    Keep,
    /// Forget the frame before.
    ResetTracking,
    /// Take up the motion since the frame before.
    Measure { previous: NearestCameraMatrix, current: NearestCameraMatrix },
}

/// The motion that ends with a frame, as it is replayed.
pub open spec fn regenerated_event(
    recording: RecordingView,
    image: int,
    previous_time: Time,
    current_time: Time,
) -> ReplayVisualOdometryEvent {
    let publish_time = match aligned_time(recording, current_time) {
        Some(time) => time,
        None => WallTime { nanos: current_time.nanos as i128 },
    };
    ReplayVisualOdometryEvent {
        log_time: if 0 <= image < recording.images.len() {
            recording.images[image].log_time
        } else {
            publish_time
        },
        publish_time,
        delta: VisualOdometryDelta { previous_time, current_time },
    }
}

/// The state and what to do after a frame was processed. Where no motion is found the start of the
/// motion is forgotten; where a camera matrix is missing it is kept.
pub open spec fn regenerated(
    before: RegenerationView,
    recording: RecordingView,
    matrices: Seq<OnlineCameraMatrix>,
    current_time: Time,
    found_motion: bool,
) -> (RegenerationView, FrameAction) {
    let counted = RegenerationView { frames: before.frames + 1, ..before };
    match before.previous_time {
        None => (
            RegenerationView {
                starts: before.starts + 1,
                previous_time: Some(current_time),
                ..counted
            },
            FrameAction::Keep,
        ),
        Some(previous_time) => if !found_motion {
            (
                RegenerationView { failed: before.failed + 1, previous_time: None, ..counted },
                FrameAction::ResetTracking,
            )
        } else {
            match (
                nearest_matrix(
                    matrices,
                    WallTime { nanos: previous_time.nanos as i128 },
                    TimestampMode::Embedded,
                ),
                nearest_matrix(
                    matrices,
                    WallTime { nanos: current_time.nanos as i128 },
                    TimestampMode::Embedded,
                ),
            ) {
                (Some(previous), Some(current)) => (
                    RegenerationView {
                        events: before.events.push(
                            regenerated_event(
                                recording,
                                before.frames as int,
                                previous_time,
                                current_time,
                            ),
                        ),
                        estimates: before.estimates + 1,
                        previous_time: Some(current_time),
                        ..counted
                    },
                    FrameAction::Measure { previous, current },
                ),
                _ => (
                    RegenerationView {
                        missing_camera_matrix: before.missing_camera_matrix + 1,
                        ..counted
                    },
                    FrameAction::Keep,
                ),
            }
        },
    }
}

/// Whether every frame is accounted for: a start, a failure, one without camera matrix, or an
/// estimate; and every estimate has its event.
pub open spec fn frames_add_up(state: RegenerationView) -> bool {
    &&& state.frames == state.starts + state.failed + state.missing_camera_matrix + state.estimates
    &&& state.events.len() == state.estimates
}

/// Frames stay accounted for.
pub proof fn regeneration_adds_up(
    before: RegenerationView,
    recording: RecordingView,
    matrices: Seq<OnlineCameraMatrix>,
    current_time: Time,
    found_motion: bool,
)
    requires
        frames_add_up(before),
    ensures
        frames_add_up(regenerated(before, recording, matrices, current_time, found_motion).0),
{
}

/// Visual odometry computed anew from the images of a recording.
#[derive(Debug)]
pub struct RegeneratedVisualOdometry {
    events: Vec<ReplayVisualOdometryEvent>,
    frames: usize,
    estimates: usize,
    failed: usize,
    missing_camera_matrix: usize,
    starts: usize,
    previous_time: Option<Time>,
}

impl View for RegeneratedVisualOdometry {
    type V = RegenerationView;

    closed spec fn view(&self) -> RegenerationView {
        RegenerationView {
            events: self.events@,
            frames: self.frames as nat,
            estimates: self.estimates as nat,
            failed: self.failed as nat,
            missing_camera_matrix: self.missing_camera_matrix as nat,
            starts: self.starts as nat,
            previous_time: self.previous_time,
        }
    }
}

impl RegeneratedVisualOdometry {
    /// Before the first frame.
    pub fn new() -> (state: Self)
        ensures
            state@ == (RegenerationView {
                events: Seq::empty(),
                frames: 0,
                estimates: 0,
                failed: 0,
                missing_camera_matrix: 0,
                starts: 0,
                previous_time: None,
            }),
            frames_add_up(state@),
    {
        RegeneratedVisualOdometry {
            events: Vec::new(),
            frames: 0,
            estimates: 0,
            failed: 0,
            missing_camera_matrix: 0,
            starts: 0,
            previous_time: None,
        }
    }

    /// The image to process next, where one is left.
    pub fn next_image(&self, recording: &Recording) -> (image_id: Option<StereoImageId>)
        ensures
            image_id == (if self@.frames < recording@.images.len() {
                Some(StereoImageId(self@.frames as usize))
            } else {
                None
            }),
    {
        recording.image_id_from_index(self.frames)
    }

    /// Takes up what came of the next frame: its time, and whether a motion was found.
    pub fn take_frame(
        &mut self,
        recording: &Recording,
        matrices: &OnlineCameraMatrices,
        current_time: Time,
        found_motion: bool,
    ) -> (action: FrameAction)
        requires
            frames_add_up(old(self)@),
            old(self)@.frames < recording@.images.len(),
        ensures
            (final(self)@, action) == regenerated(
                old(self)@,
                recording@,
                matrices.matrices@,
                current_time,
                found_motion,
            ),
            frames_add_up(final(self)@),
    {
        let image: usize = self.frames;
        let image_count: usize = recording.image_count();
        assert(image < image_count);
        self.frames = self.frames + 1;
        let previous_time = match self.previous_time {
            Some(previous_time) => previous_time,
            None => {
                self.starts = self.starts + 1;
                self.previous_time = Some(current_time);
                return FrameAction::Keep;
            },
        };
        if !found_motion {
            self.failed = self.failed + 1;
            self.previous_time = None;
            return FrameAction::ResetTracking;
        }
        let mode = TimestampMode::Embedded;
        let current_wallclock = current_time.to_wallclock();
        let previous = match matrices.nearest(previous_time.to_wallclock(), mode) {
            Some(previous) => previous,
            None => {
                self.missing_camera_matrix = self.missing_camera_matrix + 1;
                return FrameAction::Keep;
            },
        };
        let current = match matrices.nearest(current_wallclock, mode) {
            Some(current) => current,
            None => {
                self.missing_camera_matrix = self.missing_camera_matrix + 1;
                return FrameAction::Keep;
            },
        };
        let publish_time = match recording.aligned_image_time(current_time) {
            Some(time) => time,
            None => current_wallclock,
        };
        let log_time = match recording.image_log_time(StereoImageId(image)) {
            Some(time) => time,
            None => publish_time,
        };
        self.events.push(
            ReplayVisualOdometryEvent {
                log_time,
                publish_time,
                delta: VisualOdometryDelta { previous_time, current_time },
            },
        );
        self.estimates = self.estimates + 1;
        self.previous_time = Some(current_time);
        FrameAction::Measure { previous, current }
    }

    /// The motions found so far.
    pub fn events(&self) -> (events: &[ReplayVisualOdometryEvent])
        ensures
            events@ == self@.events,
    {
        self.events.as_slice()
    }

    /// The number of frames, of motions found, and of motions not found.
    pub fn counts(&self) -> (counts: (usize, usize, usize))
        ensures
            counts.0 == self@.frames,
            counts.1 == self@.estimates,
            counts.2 == self@.failed,
    {
        (self.frames, self.estimates, self.failed)
    }

    /// The number of motions without a camera matrix.
    pub fn missing_camera_matrix(&self) -> (count: usize)
        ensures
            count == self@.missing_camera_matrix,
    {
        self.missing_camera_matrix
    }
}

} // verus!
