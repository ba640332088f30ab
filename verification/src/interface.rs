//! The state of the user interface: what is cached, what is shown, and what has to be sent to the
//! scene.

use crate::course::ResolveProgress;
use crate::event::StereoImageId;
use crate::images::{CameraImage, StereoFrame};
use crate::recording::{is_end, is_start, Clock, Recording};
use crate::scene::{SceneFrameSequence, SceneVersion};
use crate::time::{nanos_since_epoch, nanos_since_epoch_spec, Time, WallTime};
use vstd::prelude::*;

verus! {

/// The camera whose picture is shown.
#[derive(Clone, Copy, Debug, PartialEq, Eq, Structural)]
pub enum StereoSide {
    Left,
    Right,
}

/// A decoded pair of pictures with the name of its image.
#[derive(Debug)]
pub struct CachedStereoFrame {
    pub image_id: StereoImageId,
    pub frame: StereoFrame,
}

impl CachedStereoFrame {
    /// The picture of one camera.
    pub fn active(&self, side: StereoSide) -> (image: &CameraImage)
        ensures
            *image == (match side {
                StereoSide::Left => self.frame.left,
                StereoSide::Right => self.frame.right,
            }),
    {
        match side {
            StereoSide::Left => &self.frame.left,
            StereoSide::Right => &self.frame.right,
        }
    }
}

/// What to do about the pictures when an image is to be shown.
#[derive(Clone, Copy, Debug, PartialEq, Eq, Structural)]
pub enum PictureAction {
    /// Drop the pictures.
    Clear,
    /// Leave them as they are.
    Keep,
    /// Decode those of an image.
    Decode(StereoImageId),
}

/// Which image is decoded, and which could not be.
#[derive(Clone, Copy, Debug, PartialEq, Eq, Structural)]
pub struct PictureCache {
    pub cached: Option<StereoImageId>,
    pub failed: Option<StereoImageId>,
}

/// What to do about the pictures when an image is to be shown: it is decoded unless it is decoded
/// already or could not be.
pub open spec fn picture_action(
    cache: PictureCache,
    image_id: Option<StereoImageId>,
) -> PictureAction {
    match image_id {
        None => PictureAction::Clear,
        Some(image_id) => if cache.cached == Some(image_id) || cache.failed == Some(image_id) {
            PictureAction::Keep
        } else {
            PictureAction::Decode(image_id)
        },
    }
}

impl PictureCache {
    /// Nothing is decoded.
    pub fn new() -> (cache: Self)
        ensures
            cache == (PictureCache { cached: None, failed: None }),
    {
        PictureCache { cached: None, failed: None }
    }

    /// Decides what to do when an image is to be shown. Without an image everything is forgotten.
    pub fn show(&mut self, image_id: Option<StereoImageId>) -> (action: PictureAction)
        ensures
            action == picture_action(*old(self), image_id),
            *final(self) == (if image_id is None {
                PictureCache { cached: None, failed: None }
            } else {
                *old(self)
            }),
    {
        match image_id {
            None => {
                self.cached = None;
                self.failed = None;
                PictureAction::Clear
            },
            Some(image_id) => {
                if self.cached == Some(image_id) || self.failed == Some(image_id) {
                    PictureAction::Keep
                } else {
                    PictureAction::Decode(image_id)
                }
            },
        }
    }

    /// Takes up whether an image could be decoded.
    pub fn decoded(&mut self, image_id: StereoImageId, succeeded: bool)
        ensures
            *final(self) == (if succeeded {
                PictureCache { cached: Some(image_id), failed: None }
            } else {
                PictureCache { cached: None, failed: Some(image_id) }
            }),
            picture_action(*final(self), Some(image_id)) is Keep,
            final(self).cached == Some(image_id) <==> succeeded,
            final(self).failed == Some(image_id) <==> !succeeded,
    {
        if succeeded {
            self.cached = Some(image_id);
            self.failed = None;
        } else {
            self.cached = None;
            self.failed = Some(image_id);
        }
    }

    /// The place of the decoded image, else the first.
    pub fn current_frame_index(&self) -> (index: usize)
        ensures
            index == (match self.cached {
                Some(image_id) => image_id.0,
                None => 0,
            }),
    {
        match self.cached {
            Some(image_id) => image_id.index(),
            None => 0,
        }
    }
}

/// An image is decoded once: whether that succeeds or not, showing it again does nothing.
pub proof fn images_are_decoded_once(image_id: StereoImageId, succeeded: bool)
    ensures
        ({
            let cache = if succeeded {
                PictureCache { cached: Some(image_id), failed: None }
            } else {
                PictureCache { cached: None, failed: Some(image_id) }
            };
            picture_action(cache, Some(image_id)) is Keep
        }),
{
}

/// The image that lies `offset` images from the current one, the first or the last where that is
/// beyond them.
pub fn step_frame(recording: &Recording, current: usize, offset: isize) -> (next: Option<usize>)
    ensures
        next == (if recording@.images.len() == 0 {
            None
        } else if offset < 0 {
            Some((if current + offset >= 0 {
                current + offset
            } else {
                0
            }) as usize)
        } else {
            Some((if current + offset < recording@.images.len() {
                current + offset
            } else {
                recording@.images.len() - 1
            }) as usize)
        }),
        next is None <==> recording@.images.len() == 0,
        0 <= current + offset < recording@.images.len() ==> next == Some(
            (current + offset) as usize,
        ),
        recording@.images.len() > 0 && current + offset <= 0 ==> next == Some(0usize),
        offset >= 0 && next is Some ==> next->0 < recording@.images.len(),
        offset >= 0 && recording@.images.len() > 0 && current + offset >= recording@.images.len()
            ==> next->0 + 1 == recording@.images.len(),
{
    let count: usize = recording.image_count();
    if count == 0 {
        return None;
    }
    let last: usize = count - 1;
    if offset < 0 {
        let back: i128 = -(offset as i128);
        if current as i128 >= back {
            Some((current as i128 - back) as usize)
        } else {
            Some(0)
        }
    } else {
        let target: u128 = current as u128 + offset as u128;
        if target <= last as u128 {
            Some(target as usize)
        } else {
            Some(last)
        }
    }
}

/// Nanoseconds from the start of a recording to the showing of an image, held within the
/// recording.
pub fn frame_position(recording: &Recording, frame_index: usize) -> (position: Option<u128>)
    ensures
        frame_index >= recording@.images.len() ==> position is None,
        frame_index < recording@.images.len() ==> exists|start: WallTime, end: WallTime|
            #[trigger] is_start(recording@, Clock::Display, start) && #[trigger] is_end(
                recording@,
                Clock::Display,
                end,
            ) && position == Some(
                held_within(
                    recording@.images[frame_index as int].display_time_spec().nanos - start.nanos,
                    end.nanos - start.nanos,
                ) as u128,
            ),
        position is Some <==> frame_index < recording@.images.len(),
        position matches Some(position) ==> exists|start: WallTime|
            #[trigger] is_start(recording@, Clock::Display, start) && start.nanos + position
                == recording@.images[frame_index as int].embedded_time.nanos,
{
    let image_id = match recording.image_id_from_index(frame_index) {
        Some(image_id) => image_id,
        None => {
            return None;
        },
    };
    let time = match recording.image_display_time(image_id) {
        Some(time) => time,
        None => {
            return None;
        },
    };
    let start = recording.start_display_time();
    let end = recording.end_display_time();
    proof {
        crate::recording::recording_spans_time(recording@, Clock::Display, start, start, end);
    }
    let offset: i128 = time.nanos - start.nanos;
    let duration: i128 = end.nanos - start.nanos;
    if offset < 0 {
        Some(0)
    } else if offset > duration {
        Some(duration as u128)
    } else {
        Some(offset as u128)
    }
}

/// A number held between zero and a largest one.
pub open spec fn held_within(number: int, largest: int) -> int {
    if number < 0 {
        0
    } else if number > largest {
        largest
    } else {
        number
    }
}

/// Identifies a camera matrix with the intrinsics that were put in.
#[derive(Clone, Copy, Debug, PartialEq, Eq, Structural)]
pub struct CameraMatrixKey {
    pub time_nanos: i64,
    pub calibrated_intrinsics_time_nanos: Option<u128>,
}

/// Nanoseconds from the epoch to a time, where it is known.
pub open spec fn optional_nanos(time: Option<WallTime>) -> Option<u128> {
    match time {
        Some(time) => Some(nanos_since_epoch_spec(time) as u128),
        None => None,
    }
}

/// Nanoseconds from the epoch to a time, where it is known.
fn read_optional_nanos(time: Option<WallTime>) -> (nanos: Option<u128>)
    ensures
        nanos == optional_nanos(time),
{
    match time {
        Some(time) => Some(nanos_since_epoch(time)),
        None => None,
    }
}

/// Identifies the camera matrix that is shown.
pub fn camera_matrix_key(
    matrix_time: Option<Time>,
    calibrated_intrinsics_time: Option<WallTime>,
) -> (key: Option<CameraMatrixKey>)
    ensures
        key == (match matrix_time {
            Some(time) => Some(
                CameraMatrixKey {
                    time_nanos: time.nanos,
                    calibrated_intrinsics_time_nanos: optional_nanos(calibrated_intrinsics_time),
                },
            ),
            None => None,
        }),
        key is Some <==> matrix_time is Some,
        key is Some ==> key->0.time_nanos == matrix_time->0.nanos && (
        key->0.calibrated_intrinsics_time_nanos is Some <==> calibrated_intrinsics_time is Some),
{
    match matrix_time {
        Some(time) => Some(
            CameraMatrixKey {
                time_nanos: time.as_nanos(),
                calibrated_intrinsics_time_nanos: read_optional_nanos(calibrated_intrinsics_time),
            },
        ),
        None => None,
    }
}

/// Identifies the inputs of the global localization, up to its parameters.
#[derive(Clone, Copy, Debug, PartialEq, Eq, Structural)]
pub struct GlobalDebugKey {
    pub camera_matrix_key: Option<CameraMatrixKey>,
    pub detected_objects_time_nanos: Option<u128>,
    pub recorded_debug_time_nanos: Option<u128>,
    pub pose_revision: SceneVersion,
}

/// Identifies the inputs of the global localization; there is nothing to identify where nothing was
/// recorded and no camera matrix is known.
pub fn global_debug_key(
    has_recorded_debug: bool,
    camera_matrix_key: Option<CameraMatrixKey>,
    detected_objects_time: Option<WallTime>,
    recorded_debug_time: Option<WallTime>,
    pose_revision: SceneVersion,
) -> (key: Option<GlobalDebugKey>)
    ensures
        key == (if has_recorded_debug || camera_matrix_key is Some {
            Some(
                GlobalDebugKey {
                    camera_matrix_key,
                    detected_objects_time_nanos: optional_nanos(detected_objects_time),
                    recorded_debug_time_nanos: optional_nanos(recorded_debug_time),
                    pose_revision,
                },
            )
        } else {
            None
        }),
        key is None <==> !has_recorded_debug && camera_matrix_key is None,
        key matches Some(key) ==> key.camera_matrix_key == camera_matrix_key && key.pose_revision
            == pose_revision && (key.detected_objects_time_nanos is Some
            <==> detected_objects_time is Some) && (key.recorded_debug_time_nanos is Some
            <==> recorded_debug_time is Some),
{
    if has_recorded_debug || camera_matrix_key.is_some() {
        Some(
            GlobalDebugKey {
                camera_matrix_key,
                detected_objects_time_nanos: read_optional_nanos(detected_objects_time),
                recorded_debug_time_nanos: read_optional_nanos(recorded_debug_time),
                pose_revision,
            },
        )
    } else {
        None
    }
}

/// A value that is kept as long as its key stays the same, with the number of its changes.
#[derive(Clone, Copy, Debug, PartialEq, Eq, Structural)]
pub struct VersionedKey<Key> {
    pub key: Option<Key>,
    pub version: SceneVersion,
}

/// The camera matrix that was last sent to the scene.
pub type CameraMatrixVersion = VersionedKey<CameraMatrixKey>;

/// Takes up the key of the camera matrix. The version counts the changes of the key.
pub fn update_camera_key(state: &mut CameraMatrixVersion, key: Option<CameraMatrixKey>)
    ensures
        final(state).key == key,
        final(state).version == (if old(state).key == key {
            old(state).version
        } else {
            old(state).version.next_spec()
        }),
        final(state).version == old(state).version <==> old(state).key == key,
{
    let is_same = match (state.key, key) {
        (Some(known), Some(key)) => known == key,
        (None, None) => true,
        _ => false,
    };
    if !is_same {
        state.key = key;
        state.version = state.version.next();
    }
}

/// The result of the global localization that was kept last.
pub type GlobalDebugVersion = VersionedKey<GlobalDebugKey>;

/// Takes up the key of the global localization, and tells whether it has to be computed anew: when
/// the key has changed, or its parameters where there is a key.
pub fn update_global_debug_key(
    state: &mut GlobalDebugVersion,
    key: Option<GlobalDebugKey>,
    same_parameters: bool,
) -> (changed: bool)
    ensures
        changed == (old(state).key != key || key is Some && !same_parameters),
        final(state).key == key,
        final(state).version == (if changed {
            old(state).version.next_spec()
        } else {
            old(state).version
        }),
        final(state).version == old(state).version <==> !changed,
        !changed <==> old(state).key == key && (key is None || same_parameters),
{
    let changed = match (state.key, key) {
        (Some(known), Some(key)) => !(known == key) || !same_parameters,
        (None, None) => false,
        _ => true,
    };
    if changed {
        state.key = key;
        state.version = state.version.next();
    }
    changed
}

/// Fewest features for which the global localization is computed for display.
pub const FEWEST_DEBUG_FEATURES: usize = 3;

/// Whether there are enough features to compute the global localization for display.
pub fn has_enough_features(feature_count: usize, min_inliers: usize) -> (enough: bool)
    ensures
        enough == (feature_count >= min_inliers && feature_count >= FEWEST_DEBUG_FEATURES),
        !enough <==> feature_count < 3 || feature_count < min_inliers,
{
    feature_count >= min_inliers && feature_count >= FEWEST_DEBUG_FEATURES
}

/// Picks the first known pose: that of the replay, the recorded one, the one nearest on the
/// recorded trajectory, else the initial one.
pub fn choose_pose<Pose>(
    resolved: Option<Pose>,
    recorded: Option<Pose>,
    nearest: Option<Pose>,
    initial: Pose,
) -> (pose: Pose)
    ensures
        pose == (match resolved {
            Some(pose) => pose,
            None => match recorded {
                Some(pose) => pose,
                None => match nearest {
                    Some(pose) => pose,
                    None => initial,
                },
            },
        }),
        resolved is Some ==> resolved == Some(pose),
        resolved is None && recorded is Some ==> recorded == Some(pose),
        resolved is None && recorded is None && nearest is Some ==> nearest == Some(pose),
        resolved is None && recorded is None && nearest is None ==> pose == initial,
{
    if let Some(pose) = resolved {
        return pose;
    }
    if let Some(pose) = recorded {
        return pose;
    }
    if let Some(pose) = nearest {
        return pose;
    }
    initial
}

/// What a running replay reports.
#[derive(Debug)]
pub enum ResolveMessage<R> {
    Progress(ResolveProgress),
    Finished(R),
    Failed(String),
    Cancelled,
}

/// The last report of a replay: its result, that it was cancelled, or why it failed.
pub fn last_message<R>(result: Result<Option<R>, String>) -> (message: ResolveMessage<R>)
    ensures
        message == (match result {
            Ok(Some(result)) => ResolveMessage::Finished(result),
            Ok(None) => ResolveMessage::Cancelled,
            Err(error) => ResolveMessage::Failed(error),
        }),
        message is Cancelled <==> result is Ok && result->Ok_0 is None,
        message is Finished ==> result == Ok::<Option<R>, String>(Some(message->Finished_0)),
        message is Failed ==> result == Err::<Option<R>, String>(message->Failed_0),
        !(message is Progress),
{
    match result {
        Ok(Some(result)) => ResolveMessage::Finished(result),
        Ok(None) => ResolveMessage::Cancelled,
        Err(error) => ResolveMessage::Failed(error),
    }
}

/// The reports of a replay since they were last looked at: the last one of each kind.
#[derive(Debug)]
pub struct ResolveReports<R> {
    pub progress: Option<ResolveProgress>,
    pub finished: Option<R>,
    pub failed: Option<String>,
    pub cancelled: bool,
}

/// What becomes of a replay after its reports were looked at.
#[derive(Debug)]
pub enum ResolveUpdate<R> {
    /// It goes on.
    Running,
    Finished(R),
    Failed(String),
    Cancelled,
}

impl<R> ResolveReports<R> {
    /// No reports.
    pub fn new() -> (reports: Self)
        ensures
            reports == (ResolveReports::<R> {
                progress: None,
                finished: None,
                failed: None,
                cancelled: false,
            }),
    {
        ResolveReports { progress: None, finished: None, failed: None, cancelled: false }
    }

    /// Takes up one more report.
    pub fn take(&mut self, message: ResolveMessage<R>)
        ensures
            *final(self) == (match message {
                ResolveMessage::Progress(progress) => ResolveReports {
                    progress: Some(progress),
                    ..*old(self)
                },
                ResolveMessage::Finished(result) => ResolveReports {
                    finished: Some(result),
                    ..*old(self)
                },
                ResolveMessage::Failed(error) => ResolveReports {
                    failed: Some(error),
                    ..*old(self)
                },
                ResolveMessage::Cancelled => ResolveReports { cancelled: true, ..*old(self) },
            }),
    {
        match message {
            ResolveMessage::Progress(progress) => {
                self.progress = Some(progress);
            },
            ResolveMessage::Finished(result) => {
                self.finished = Some(result);
            },
            ResolveMessage::Failed(error) => {
                self.failed = Some(error);
            },
            ResolveMessage::Cancelled => {
                self.cancelled = true;
            },
        }
    }

    /// Decides what becomes of the replay: a result counts before a failure, and a failure before
    /// the report that it was cancelled.
    pub fn update(self) -> (update: ResolveUpdate<R>)
        ensures
            update == (match self.finished {
                Some(result) => ResolveUpdate::Finished(result),
                None => match self.failed {
                    Some(error) => ResolveUpdate::Failed(error),
                    None => if self.cancelled {
                        ResolveUpdate::Cancelled
                    } else {
                        ResolveUpdate::Running
                    },
                },
            }),
            update is Running <==> self.finished is None && self.failed is None && !self.cancelled,
            self.finished is Some <==> update is Finished,
            update is Finished ==> self.finished == Some(update->Finished_0),
            update is Failed <==> self.finished is None && self.failed is Some,
            update is Failed ==> self.failed == Some(update->Failed_0),
    {
        if let Some(result) = self.finished {
            return ResolveUpdate::Finished(result);
        }
        if let Some(error) = self.failed {
            return ResolveUpdate::Failed(error);
        }
        if self.cancelled {
            ResolveUpdate::Cancelled
        } else {
            ResolveUpdate::Running
        }
    }
}

/// A color with a byte for each channel.
#[derive(Clone, Copy, Debug, PartialEq, Eq, Structural)]
pub struct Rgb {
    pub red: u8,
    pub green: u8,
    pub blue: u8,
}

/// The number of colors of kept trajectories.
pub const TRACE_COLOR_COUNT: usize = 10;

/// The color of the kept trajectory with a given place; the colors repeat.
pub open spec fn trace_color_spec(index: usize) -> Rgb {
    let place = index % TRACE_COLOR_COUNT;
    if place == 0 {
        Rgb { red: 255, green: 205, blue: 86 }
    } else if place == 1 {
        Rgb { red: 54, green: 162, blue: 235 }
    } else if place == 2 {
        Rgb { red: 255, green: 99, blue: 132 }
    } else if place == 3 {
        Rgb { red: 75, green: 192, blue: 120 }
    } else if place == 4 {
        Rgb { red: 200, green: 132, blue: 255 }
    } else if place == 5 {
        Rgb { red: 255, green: 159, blue: 64 }
    } else if place == 6 {
        Rgb { red: 96, green: 225, blue: 210 }
    } else if place == 7 {
        Rgb { red: 230, green: 230, blue: 85 }
    } else if place == 8 {
        Rgb { red: 170, green: 210, blue: 255 }
    } else {
        Rgb { red: 255, green: 145, blue: 220 }
    }
}

/// The color of the kept trajectory with a given place.
pub fn trace_color(index: usize) -> (color: Rgb)
    ensures
        color == trace_color_spec(index),
{
    match index % TRACE_COLOR_COUNT {
        0 => Rgb { red: 255, green: 205, blue: 86 },
        1 => Rgb { red: 54, green: 162, blue: 235 },
        2 => Rgb { red: 255, green: 99, blue: 132 },
        3 => Rgb { red: 75, green: 192, blue: 120 },
        4 => Rgb { red: 200, green: 132, blue: 255 },
        5 => Rgb { red: 255, green: 159, blue: 64 },
        6 => Rgb { red: 96, green: 225, blue: 210 },
        7 => Rgb { red: 230, green: 230, blue: 85 },
        8 => Rgb { red: 170, green: 210, blue: 255 },
        _ => Rgb { red: 255, green: 145, blue: 220 },
    }
}

/// A trajectory that is kept for comparison.
#[derive(Debug)]
pub struct PathTrace<Point> {
    pub label: String,
    pub trajectory: Vec<Point>,
    pub color: Rgb,
}

/// Fewest points of a trajectory that is kept.
pub const FEWEST_TRACE_POINTS: usize = 2;

/// The trajectories that are kept for comparison, with the number of changes.
#[derive(Debug)]
pub struct TraceHistory<Point> {
    pub traces: Vec<PathTrace<Point>>,
    pub version: SceneVersion,
}

impl<Point> TraceHistory<Point> {
    /// No trajectories.
    pub fn new() -> (history: Self)
        ensures
            history.traces@ == Seq::<PathTrace<Point>>::empty(),
            history.version == SceneVersion(0),
    {
        TraceHistory { traces: Vec::new(), version: SceneVersion(0) }
    }

    /// Keeps a trajectory under the next color, unless it is too short to be drawn.
    pub fn keep(&mut self, label: String, trajectory: Vec<Point>)
        ensures
            trajectory@.len() < FEWEST_TRACE_POINTS ==> final(self).traces@ == old(self).traces@
                && final(self).version == old(self).version,
            trajectory@.len() >= FEWEST_TRACE_POINTS ==> final(self).version
                == old(self).version.next_spec() && final(self).traces@ == old(self).traces@.push(
                PathTrace {
                    label,
                    trajectory,
                    color: trace_color_spec(old(self).traces@.len() as usize),
                },
            ),
            trajectory@.len() < 2 <==> final(self).traces@.len() == old(self).traces@.len(),
            trajectory@.len() >= 2 ==> final(self).traces@.last().label == label
                && final(self).traces@.last().trajectory == trajectory,
    {
        if trajectory.len() < FEWEST_TRACE_POINTS {
            return;
        }
        let color = trace_color(self.traces.len());
        self.traces.push(PathTrace { label, trajectory, color });
        self.version = self.version.next();
    }

    /// Drops all trajectories.
    pub fn clear(&mut self)
        ensures
            final(self).traces@ == Seq::<PathTrace<Point>>::empty(),
            final(self).version == old(self).version.next_spec(),
            final(self).version != old(self).version,
    {
        self.traces.clear();
        self.version = self.version.next();
    }

    /// Notes that the trajectories are shown or hidden.
    pub fn touch(&mut self)
        ensures
            final(self).traces@ == old(self).traces@,
            final(self).version == old(self).version.next_spec(),
            final(self).version != old(self).version,
    {
        self.version = self.version.next();
    }
}

/// What the user can change and the next picture depends on, up to the position and the settings
/// of a replay.
#[derive(Clone, Copy, Debug, PartialEq, Eq, Structural)]
pub struct DrawnState {
    pub selected_camera: StereoSide,
    pub resolve_version: SceneVersion,
    pub playing: bool,
    pub use_global_debug_pose: bool,
    pub project_robot_marker: bool,
}

/// Whether the next picture has to be drawn without waiting for the user: while the recording is
/// played or a replay runs, and after the user has changed what is drawn.
pub fn needs_repaint(
    before: &DrawnState,
    after: &DrawnState,
    is_same_position: bool,
    has_same_settings: bool,
    is_replay_running: bool,
) -> (repaint: bool)
    ensures
        repaint == (after.playing || is_replay_running || *before != *after || !is_same_position
            || !has_same_settings),
        !repaint <==> !after.playing && !is_replay_running && is_same_position && has_same_settings
            && before.selected_camera == after.selected_camera && before.resolve_version
            == after.resolve_version && before.playing == after.playing
            && before.use_global_debug_pose == after.use_global_debug_pose
            && before.project_robot_marker == after.project_robot_marker,
{
    after.playing || is_replay_running || *before != *after || !is_same_position
        || !has_same_settings
}

/// The versions of the parts of the scene.
#[derive(Clone, Copy, Debug, PartialEq, Eq, Structural)]
pub struct SceneVersions {
    pub frame: Option<SceneFrameSequence>,
    pub field_dimensions: SceneVersion,
    pub camera: SceneVersion,
    pub recorded_trajectory: SceneVersion,
    pub resolved_trajectory: SceneVersion,
    pub trace_trajectories: SceneVersion,
    pub global_debug: SceneVersion,
}

/// What the interface wants the scene to show.
#[derive(Clone, Copy, Debug, PartialEq, Eq, Structural)]
pub struct SceneInputs {
    pub frame: Option<SceneFrameSequence>,
    pub camera_version: SceneVersion,
    pub resolve_version: SceneVersion,
    pub trace_version: SceneVersion,
    pub global_debug_version: SceneVersion,
    pub show_recorded_trajectory: bool,
    pub show_vo_only: bool,
    pub has_result: bool,
}

/// The switches at the time when the scene was last updated.
#[derive(Clone, Copy, Debug, PartialEq, Eq, Structural)]
pub struct SentSwitches {
    pub show_recorded_trajectory: bool,
    pub show_vo_only: bool,
}

/// The trajectory to show of a replay.
#[derive(Clone, Copy, Debug, PartialEq, Eq, Structural)]
pub enum ResolvedTrajectory {
    Nothing,
    VisualOdometry,
    Solver,
}

/// What has to be set in the scene. A trajectory is set where there is one to choose.
#[derive(Clone, Copy, Debug, PartialEq, Eq, Structural)]
pub struct SceneUpdate {
    pub field_dimensions: bool,
    pub camera_matrix: bool,
    pub camera_frame: bool,
    /// Whether to show the recorded trajectory, or none in its place.
    pub recorded_trajectory: Option<bool>,
    pub resolved_trajectory: Option<ResolvedTrajectory>,
    pub trace_trajectories: bool,
    pub global_debug: bool,
}

/// The trajectory of a replay that is shown.
pub open spec fn shown_trajectory(has_result: bool, show_vo_only: bool) -> ResolvedTrajectory {
    if !has_result {
        ResolvedTrajectory::Nothing
    } else if show_vo_only {
        ResolvedTrajectory::VisualOdometry
    } else {
        ResolvedTrajectory::Solver
    }
}

/// Whether a switch for trajectories was turned since the scene was last updated.
pub open spec fn switches_turned(sent: SentSwitches, inputs: SceneInputs) -> bool {
    sent.show_vo_only != inputs.show_vo_only || sent.show_recorded_trajectory
        != inputs.show_recorded_trajectory
}

/// What has to be set in the scene: each part whose version is not the wanted one, and all
/// trajectories where a switch was turned.
pub open spec fn scene_update(
    scene: SceneVersions,
    inputs: SceneInputs,
    sent: SentSwitches,
) -> SceneUpdate {
    let turned = switches_turned(sent, inputs);
    SceneUpdate {
        field_dimensions: scene.field_dimensions != SceneVersion(1),
        camera_matrix: scene.camera != inputs.camera_version,
        camera_frame: scene.frame != inputs.frame,
        recorded_trajectory: if scene.recorded_trajectory != SceneVersion(1) || turned {
            Some(inputs.show_recorded_trajectory && !inputs.show_vo_only)
        } else {
            None
        },
        resolved_trajectory: if scene.resolved_trajectory != inputs.resolve_version || turned {
            Some(shown_trajectory(inputs.has_result, inputs.show_vo_only))
        } else {
            None
        },
        trace_trajectories: scene.trace_trajectories != inputs.trace_version || turned,
        global_debug: scene.global_debug != inputs.global_debug_version,
    }
}

/// Decides what has to be set in the scene.
pub fn plan_scene_update(
    scene: &SceneVersions,
    inputs: &SceneInputs,
    sent: &SentSwitches,
) -> (update: SceneUpdate)
    ensures
        update == scene_update(*scene, *inputs, *sent),
{
    let turned = sent.show_vo_only != inputs.show_vo_only || sent.show_recorded_trajectory
        != inputs.show_recorded_trajectory;
    let same_frame = match (scene.frame, inputs.frame) {
        (Some(shown), Some(wanted)) => shown == wanted,
        (None, None) => true,
        _ => false,
    };
    SceneUpdate {
        field_dimensions: scene.field_dimensions != SceneVersion::ready(),
        camera_matrix: scene.camera != inputs.camera_version,
        camera_frame: !same_frame,
        recorded_trajectory: if scene.recorded_trajectory != SceneVersion::ready() || turned {
            Some(inputs.show_recorded_trajectory && !inputs.show_vo_only)
        } else {
            None
        },
        resolved_trajectory: if scene.resolved_trajectory != inputs.resolve_version || turned {
            if !inputs.has_result {
                Some(ResolvedTrajectory::Nothing)
            } else if inputs.show_vo_only {
                Some(ResolvedTrajectory::VisualOdometry)
            } else {
                Some(ResolvedTrajectory::Solver)
            }
        } else {
            None
        },
        trace_trajectories: scene.trace_trajectories != inputs.trace_version || turned,
        global_debug: scene.global_debug != inputs.global_debug_version,
    }
}

/// A scene whose parts have the wanted versions, with no switch turned, is left as it is.
pub proof fn settled_scene_is_left_alone(
    scene: SceneVersions,
    inputs: SceneInputs,
    sent: SentSwitches,
)
    requires
        scene.field_dimensions == SceneVersion(1),
        scene.recorded_trajectory == SceneVersion(1),
        scene.camera == inputs.camera_version,
        scene.frame == inputs.frame,
        scene.resolved_trajectory == inputs.resolve_version,
        scene.trace_trajectories == inputs.trace_version,
        scene.global_debug == inputs.global_debug_version,
        !switches_turned(sent, inputs),
    ensures
        scene_update(scene, inputs, sent) == (SceneUpdate {
            field_dimensions: false,
            camera_matrix: false,
            camera_frame: false,
            recorded_trajectory: None,
            resolved_trajectory: None,
            trace_trajectories: false,
            global_debug: false,
        }),
{
}

/// An image that is to be shown is decoded unless it is the one that is decoded or the one that could
/// not be; nothing else is decoded. Without an image the pictures are dropped.
pub proof fn images_are_decoded_when_they_are_new(cache: PictureCache, image_id: StereoImageId)
    ensures
        picture_action(cache, None) is Clear,
        cache.cached != Some(image_id) && cache.failed != Some(image_id) ==> picture_action(
            cache,
            Some(image_id),
        ) == PictureAction::Decode(image_id),
        cache.cached == Some(image_id) || cache.failed == Some(image_id) ==> picture_action(
            cache,
            Some(image_id),
        ) is Keep,
{
}

/// A number within bounds stays as it is, and one beyond them becomes the bound that it is beyond.
pub proof fn numbers_are_held_within_bounds(number: int, largest: int)
    requires
        0 <= largest,
    ensures
        0 <= held_within(number, largest) <= largest,
        0 <= number <= largest ==> held_within(number, largest) == number,
        number <= 0 ==> held_within(number, largest) == 0,
        number >= largest ==> held_within(number, largest) == largest,
{
}

/// A known time counts its nanoseconds since the epoch.
pub proof fn known_times_are_counted(time: WallTime)
    ensures
        optional_nanos(None) is None,
        time.nanos >= 0 ==> optional_nanos(Some(time)) == Some(time.nanos as u128),
        time.nanos < 0 ==> optional_nanos(Some(time)) == Some(0u128),
{
}

/// Two kept trajectories have the same color exactly if their places differ by a multiple of ten.
pub proof fn trace_colors_repeat(first: usize, second: usize)
    ensures
        trace_color_spec(first) == trace_color_spec(second) <==> first % 10 == second % 10,
{
}

/// Each part of the scene is set when its version is not the wanted one. The trajectories are set as
/// well when one of their switches was turned since. The recorded one is shown where it is wanted
/// and not only visual odometry is. Of a replay with a result the motions are shown where only
/// visual odometry is wanted, else the solved poses.
pub proof fn changed_parts_are_set(scene: SceneVersions, inputs: SceneInputs, sent: SentSwitches)
    ensures
        ({
            let update = scene_update(scene, inputs, sent);
            let turned = sent.show_vo_only != inputs.show_vo_only || sent.show_recorded_trajectory
                != inputs.show_recorded_trajectory;
            &&& switches_turned(sent, inputs) == turned
            &&& update.field_dimensions <==> scene.field_dimensions.0 != 1
            &&& update.camera_matrix <==> scene.camera != inputs.camera_version
            &&& update.camera_frame <==> scene.frame != inputs.frame
            &&& update.recorded_trajectory is Some <==> turned || scene.recorded_trajectory.0 != 1
            &&& update.recorded_trajectory == Some(true) ==> inputs.show_recorded_trajectory
                && !inputs.show_vo_only
            &&& update.recorded_trajectory == Some(false) ==> !inputs.show_recorded_trajectory
                || inputs.show_vo_only
            &&& update.resolved_trajectory is Some <==> turned || scene.resolved_trajectory
                != inputs.resolve_version
            &&& update.resolved_trajectory matches Some(shown) ==> {
                &&& shown is Nothing <==> !inputs.has_result
                &&& shown is VisualOdometry <==> inputs.has_result && inputs.show_vo_only
                &&& shown is Solver <==> inputs.has_result && !inputs.show_vo_only
            }
            &&& update.trace_trajectories <==> turned || scene.trace_trajectories
                != inputs.trace_version
            &&& update.global_debug <==> scene.global_debug != inputs.global_debug_version
        }),
{
}

} // verus!
