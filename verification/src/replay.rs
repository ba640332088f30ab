//! What is replayed through a localization backend, and with which settings.

use crate::event::{EventKind, RecordedEvent, VisualOdometryDelta};
use crate::order::{
    precedes, sort_by_keys, sorting_keeps_items, stable_order_exists, stable_order_of,
    stably_sorted, SortKey,
};
use crate::time::{nanos_since_epoch, nanos_since_epoch_spec, WallTime};
use vstd::prelude::*;

verus! {

/// Which timestamps a replay goes by.
#[derive(Clone, Copy, Debug, PartialEq, Eq, Structural)]
pub enum TimestampMode {
    /// Those at which messages were published.
    McapPublish,
    /// Those inside the messages.
    Embedded,
}

/// Smallest number of pose-hint features in a frame that is used, unless set otherwise.
pub const DEFAULT_POSE_HINT_VISUAL_MIN_FEATURES_PER_FRAME: usize = 3;

/// The settings that decide what is replayed.
#[derive(Clone, Copy, Debug, PartialEq, Eq, Structural)]
pub struct ReplayParameters {
    pub timestamp_mode: TimestampMode,
    pub optimizer_iterations: usize,
    pub pose_hint_visual_min_features_per_frame: usize,
    pub override_visual_odometry_covariance: bool,
    pub include_visual_odometry: bool,
    pub include_global_features: bool,
    pub include_imu: bool,
    pub include_imu_kinematics: bool,
    pub include_imu_roll_pitch: bool,
    pub include_imu_yaw: bool,
    pub include_current_spline_orientation: bool,
    pub include_foot_heights: bool,
    pub recompute_global_features: bool,
}

impl ReplayParameters {
    /// Everything is replayed by the timestamps inside the messages, with the recorded
    /// associations.
    pub open spec fn default_spec() -> Self {
        ReplayParameters {
            timestamp_mode: TimestampMode::Embedded,
            optimizer_iterations: 5,
            pose_hint_visual_min_features_per_frame:
                DEFAULT_POSE_HINT_VISUAL_MIN_FEATURES_PER_FRAME,
            override_visual_odometry_covariance: false,
            include_visual_odometry: true,
            include_global_features: true,
            include_imu: true,
            include_imu_kinematics: true,
            include_imu_roll_pitch: true,
            include_imu_yaw: true,
            include_current_spline_orientation: true,
            include_foot_heights: true,
            recompute_global_features: false,
        }
    }

    /// Settings under which only the orientation measured by the IMU is replayed.
    pub fn orientation_only() -> (parameters: Self)
        ensures
            parameters == (ReplayParameters {
                include_visual_odometry: false,
                include_global_features: false,
                include_foot_heights: false,
                include_imu: true,
                include_imu_kinematics: false,
                ..Self::default_spec()
            }),
            !parameters.include_visual_odometry && !parameters.include_global_features
                && !parameters.include_foot_heights && !parameters.include_imu_kinematics,
            parameters.include_imu && parameters.include_imu_roll_pitch
                && parameters.include_imu_yaw && parameters.include_current_spline_orientation,
    {
        ReplayParameters {
            include_visual_odometry: false,
            include_global_features: false,
            include_foot_heights: false,
            include_imu: true,
            include_imu_kinematics: false,
            ..ReplayParameters::default()
        }
    }
}

impl Default for ReplayParameters {
    fn default() -> (parameters: Self)
        ensures
            parameters == Self::default_spec(),
    {
        ReplayParameters {
            timestamp_mode: TimestampMode::Embedded,
            optimizer_iterations: 5,
            pose_hint_visual_min_features_per_frame:
                DEFAULT_POSE_HINT_VISUAL_MIN_FEATURES_PER_FRAME,
            override_visual_odometry_covariance: false,
            include_visual_odometry: true,
            include_global_features: true,
            include_imu: true,
            include_imu_kinematics: true,
            include_imu_roll_pitch: true,
            include_imu_yaw: true,
            include_current_spline_orientation: true,
            include_foot_heights: true,
            recompute_global_features: false,
        }
    }
}

/// Settings asked for on the command line. The numbers that go to the solver and those that go to
/// the association of features have types of their own, of which nothing is required.
#[derive(Clone, Copy, Debug)]
pub struct ReplayRequest<Wide, Narrow> {
    pub recompute_global_features: bool,
    pub no_visual_odometry: bool,
    pub no_global_features: bool,
    pub no_imu: bool,
    pub no_foot_heights: bool,
    pub pose_hint_min_features: Option<usize>,
    pub visual_odometry_covariance: Option<Wide>,
    pub max_visual_odometry_translation: Option<Narrow>,
    /// In radians.
    pub max_visual_odometry_rotation: Option<Narrow>,
    pub pose_hint_noise: Option<Wide>,
    pub visual_noise: Option<Wide>,
    pub recovery_frames: Option<usize>,
    pub recovery_max_distance: Option<Narrow>,
    /// In radians.
    pub recovery_max_angle: Option<Narrow>,
    pub global_rms_threshold: Option<Narrow>,
    pub global_min_inliers: Option<usize>,
    pub pose_hint_healthy_rmse: Option<Narrow>,
    pub pose_hint_margin: Option<Narrow>,
}

/// The numbers of a replay that can be asked for.
#[derive(Clone, Copy, Debug, PartialEq)]
pub struct ReplayNumbers<Wide, Narrow> {
    pub visual_odometry_covariance: Wide,
    pub max_visual_odometry_translation: Option<Narrow>,
    pub max_visual_odometry_rotation: Option<Narrow>,
    pub pose_hint_visual_feature_noise_variance: Wide,
    pub visual_feature_noise_variance: Wide,
    pub recovery_frames: usize,
    pub recovery_max_pose_distance: Narrow,
    pub recovery_max_pose_angle: Narrow,
    pub rms_threshold: Narrow,
    pub min_inliers: usize,
    pub healthy_max_rmse_px: Narrow,
    pub second_best_reprojection_margin_px: Narrow,
}

/// The request in which nothing is asked for.
pub open spec fn no_request<Wide, Narrow>() -> ReplayRequest<Wide, Narrow> {
    ReplayRequest {
        recompute_global_features: false,
        no_visual_odometry: false,
        no_global_features: false,
        no_imu: false,
        no_foot_heights: false,
        pose_hint_min_features: None,
        visual_odometry_covariance: None,
        max_visual_odometry_translation: None,
        max_visual_odometry_rotation: None,
        pose_hint_noise: None,
        visual_noise: None,
        recovery_frames: None,
        recovery_max_distance: None,
        recovery_max_angle: None,
        global_rms_threshold: None,
        global_min_inliers: None,
        pose_hint_healthy_rmse: None,
        pose_hint_margin: None,
    }
}

/// The default settings with what was asked for put in.
pub open spec fn requested_parameters<Wide, Narrow>(
    request: ReplayRequest<Wide, Narrow>,
) -> ReplayParameters {
    ReplayParameters {
        recompute_global_features: request.recompute_global_features,
        override_visual_odometry_covariance: request.visual_odometry_covariance is Some,
        include_visual_odometry: !request.no_visual_odometry,
        include_global_features: !request.no_global_features,
        include_imu: !request.no_imu,
        include_foot_heights: !request.no_foot_heights,
        pose_hint_visual_min_features_per_frame: requested(
            request.pose_hint_min_features,
            DEFAULT_POSE_HINT_VISUAL_MIN_FEATURES_PER_FRAME,
        ),
        ..ReplayParameters::default_spec()
    }
}

/// What was asked for, or else the default.
pub open spec fn requested<T>(option: Option<T>, default: T) -> T {
    match option {
        Some(value) => value,
        None => default,
    }
}

/// How many frames a recovery takes where this many are asked for: at least one.
pub open spec fn recovery_frames_of(frames: usize) -> usize {
    if frames >= 1 {
        frames
    } else {
        1
    }
}

/// The default numbers with what was asked for put in.
pub open spec fn requested_numbers<Wide, Narrow>(
    defaults: ReplayNumbers<Wide, Narrow>,
    request: ReplayRequest<Wide, Narrow>,
) -> ReplayNumbers<Wide, Narrow> {
    ReplayNumbers {
        visual_odometry_covariance: requested(
            request.visual_odometry_covariance,
            defaults.visual_odometry_covariance,
        ),
        max_visual_odometry_translation: if request.max_visual_odometry_translation is Some {
            request.max_visual_odometry_translation
        } else {
            defaults.max_visual_odometry_translation
        },
        max_visual_odometry_rotation: if request.max_visual_odometry_rotation is Some {
            request.max_visual_odometry_rotation
        } else {
            defaults.max_visual_odometry_rotation
        },
        pose_hint_visual_feature_noise_variance: requested(
            request.pose_hint_noise,
            defaults.pose_hint_visual_feature_noise_variance,
        ),
        visual_feature_noise_variance: requested(
            request.visual_noise,
            defaults.visual_feature_noise_variance,
        ),
        recovery_frames: match request.recovery_frames {
            Some(frames) => recovery_frames_of(frames),
            None => defaults.recovery_frames,
        },
        recovery_max_pose_distance: requested(
            request.recovery_max_distance,
            defaults.recovery_max_pose_distance,
        ),
        recovery_max_pose_angle: requested(
            request.recovery_max_angle,
            defaults.recovery_max_pose_angle,
        ),
        rms_threshold: requested(request.global_rms_threshold, defaults.rms_threshold),
        min_inliers: requested(request.global_min_inliers, defaults.min_inliers),
        healthy_max_rmse_px: requested(
            request.pose_hint_healthy_rmse,
            defaults.healthy_max_rmse_px,
        ),
        second_best_reprojection_margin_px: requested(
            request.pose_hint_margin,
            defaults.second_best_reprojection_margin_px,
        ),
    }
}

/// The default settings with what was asked for put in.
pub fn replay_parameters<Wide, Narrow>(request: &ReplayRequest<Wide, Narrow>) -> (parameters:
    ReplayParameters)
    ensures
        parameters == requested_parameters(*request),
{
    let mut parameters = ReplayParameters::default();
    parameters.recompute_global_features = request.recompute_global_features;
    if request.visual_odometry_covariance.is_some() {
        parameters.override_visual_odometry_covariance = true;
    }
    if request.no_visual_odometry {
        parameters.include_visual_odometry = false;
    }
    if request.no_global_features {
        parameters.include_global_features = false;
    }
    if request.no_imu {
        parameters.include_imu = false;
    }
    if request.no_foot_heights {
        parameters.include_foot_heights = false;
    }
    if let Some(features) = request.pose_hint_min_features {
        parameters.pose_hint_visual_min_features_per_frame = features;
    }
    parameters
}

/// The default numbers with what was asked for put in.
pub fn replay_numbers<Wide: Copy, Narrow: Copy>(
    defaults: ReplayNumbers<Wide, Narrow>,
    request: &ReplayRequest<Wide, Narrow>,
) -> (numbers: ReplayNumbers<Wide, Narrow>)
    ensures
        numbers == requested_numbers(defaults, *request),
{
    let mut numbers = defaults;
    if let Some(covariance) = request.visual_odometry_covariance {
        numbers.visual_odometry_covariance = covariance;
    }
    if let Some(translation) = request.max_visual_odometry_translation {
        numbers.max_visual_odometry_translation = Some(translation);
    }
    if let Some(rotation) = request.max_visual_odometry_rotation {
        numbers.max_visual_odometry_rotation = Some(rotation);
    }
    if let Some(noise) = request.pose_hint_noise {
        numbers.pose_hint_visual_feature_noise_variance = noise;
    }
    if let Some(noise) = request.visual_noise {
        numbers.visual_feature_noise_variance = noise;
    }
    if let Some(frames) = request.recovery_frames {
        numbers.recovery_frames = if frames >= 1 {
            frames
        } else {
            1
        };
    }
    if let Some(distance) = request.recovery_max_distance {
        numbers.recovery_max_pose_distance = distance;
    }
    if let Some(angle) = request.recovery_max_angle {
        numbers.recovery_max_pose_angle = angle;
    }
    if let Some(threshold) = request.global_rms_threshold {
        numbers.rms_threshold = threshold;
    }
    if let Some(inliers) = request.global_min_inliers {
        numbers.min_inliers = inliers;
    }
    if let Some(rmse) = request.pose_hint_healthy_rmse {
        numbers.healthy_max_rmse_px = rmse;
    }
    if let Some(margin) = request.pose_hint_margin {
        numbers.second_best_reprojection_margin_px = margin;
    }
    numbers
}

/// Where nothing is asked for, every setting has its default. Each option changes its own setting
/// alone, whatever else is asked for, and that setting has the value that was given: a part that
/// is not wanted is left out, and a recovery takes at least one frame. A covariance for visual
/// odometry also takes the place of the measured one.
pub proof fn options_change_their_own_settings<Wide, Narrow>(
    defaults: ReplayNumbers<Wide, Narrow>,
    request: ReplayRequest<Wide, Narrow>,
    count: usize,
    wide: Wide,
    narrow: Narrow,
)
    ensures
        requested_parameters(no_request::<Wide, Narrow>()) == ReplayParameters::default_spec(),
        requested_numbers(defaults, no_request::<Wide, Narrow>()) == defaults,
        ({
            let changed = ReplayRequest { recompute_global_features: true, ..request };
            &&& requested_parameters(changed) == (ReplayParameters {
                recompute_global_features: true,
                ..requested_parameters(request)
            })
            &&& requested_numbers(defaults, changed) == requested_numbers(defaults, request)
        }),
        ({
            let changed = ReplayRequest { no_visual_odometry: true, ..request };
            &&& requested_parameters(changed) == (ReplayParameters {
                include_visual_odometry: false,
                ..requested_parameters(request)
            })
            &&& requested_numbers(defaults, changed) == requested_numbers(defaults, request)
        }),
        ({
            let changed = ReplayRequest { no_global_features: true, ..request };
            &&& requested_parameters(changed) == (ReplayParameters {
                include_global_features: false,
                ..requested_parameters(request)
            })
            &&& requested_numbers(defaults, changed) == requested_numbers(defaults, request)
        }),
        ({
            let changed = ReplayRequest { no_imu: true, ..request };
            &&& requested_parameters(changed) == (ReplayParameters {
                include_imu: false,
                ..requested_parameters(request)
            })
            &&& requested_numbers(defaults, changed) == requested_numbers(defaults, request)
        }),
        ({
            let changed = ReplayRequest { no_foot_heights: true, ..request };
            &&& requested_parameters(changed) == (ReplayParameters {
                include_foot_heights: false,
                ..requested_parameters(request)
            })
            &&& requested_numbers(defaults, changed) == requested_numbers(defaults, request)
        }),
        ({
            let changed = ReplayRequest { pose_hint_min_features: Some(count), ..request };
            &&& requested_parameters(changed) == (ReplayParameters {
                pose_hint_visual_min_features_per_frame: count,
                ..requested_parameters(request)
            })
            &&& requested_numbers(defaults, changed) == requested_numbers(defaults, request)
        }),
        ({
            let changed = ReplayRequest { visual_odometry_covariance: Some(wide), ..request };
            &&& requested_parameters(changed) == (ReplayParameters {
                override_visual_odometry_covariance: true,
                ..requested_parameters(request)
            })
            &&& requested_numbers(defaults, changed) == (ReplayNumbers {
                visual_odometry_covariance: wide,
                ..requested_numbers(defaults, request)
            })
        }),
        ({
            let changed = ReplayRequest { max_visual_odometry_translation: Some(narrow), ..request };
            &&& requested_parameters(changed) == requested_parameters(request)
            &&& requested_numbers(defaults, changed) == (ReplayNumbers {
                max_visual_odometry_translation: Some(narrow),
                ..requested_numbers(defaults, request)
            })
        }),
        ({
            let changed = ReplayRequest { max_visual_odometry_rotation: Some(narrow), ..request };
            &&& requested_parameters(changed) == requested_parameters(request)
            &&& requested_numbers(defaults, changed) == (ReplayNumbers {
                max_visual_odometry_rotation: Some(narrow),
                ..requested_numbers(defaults, request)
            })
        }),
        ({
            let changed = ReplayRequest { pose_hint_noise: Some(wide), ..request };
            &&& requested_parameters(changed) == requested_parameters(request)
            &&& requested_numbers(defaults, changed) == (ReplayNumbers {
                pose_hint_visual_feature_noise_variance: wide,
                ..requested_numbers(defaults, request)
            })
        }),
        ({
            let changed = ReplayRequest { visual_noise: Some(wide), ..request };
            &&& requested_parameters(changed) == requested_parameters(request)
            &&& requested_numbers(defaults, changed) == (ReplayNumbers {
                visual_feature_noise_variance: wide,
                ..requested_numbers(defaults, request)
            })
        }),
        ({
            let changed = ReplayRequest { recovery_frames: Some(count), ..request };
            &&& requested_parameters(changed) == requested_parameters(request)
            &&& requested_numbers(defaults, changed) == (ReplayNumbers {
                recovery_frames: recovery_frames_of(count),
                ..requested_numbers(defaults, request)
            })
        }),
        ({
            let changed = ReplayRequest { recovery_max_distance: Some(narrow), ..request };
            &&& requested_parameters(changed) == requested_parameters(request)
            &&& requested_numbers(defaults, changed) == (ReplayNumbers {
                recovery_max_pose_distance: narrow,
                ..requested_numbers(defaults, request)
            })
        }),
        ({
            let changed = ReplayRequest { recovery_max_angle: Some(narrow), ..request };
            &&& requested_parameters(changed) == requested_parameters(request)
            &&& requested_numbers(defaults, changed) == (ReplayNumbers {
                recovery_max_pose_angle: narrow,
                ..requested_numbers(defaults, request)
            })
        }),
        ({
            let changed = ReplayRequest { global_rms_threshold: Some(narrow), ..request };
            &&& requested_parameters(changed) == requested_parameters(request)
            &&& requested_numbers(defaults, changed) == (ReplayNumbers {
                rms_threshold: narrow,
                ..requested_numbers(defaults, request)
            })
        }),
        ({
            let changed = ReplayRequest { global_min_inliers: Some(count), ..request };
            &&& requested_parameters(changed) == requested_parameters(request)
            &&& requested_numbers(defaults, changed) == (ReplayNumbers {
                min_inliers: count,
                ..requested_numbers(defaults, request)
            })
        }),
        ({
            let changed = ReplayRequest { pose_hint_healthy_rmse: Some(narrow), ..request };
            &&& requested_parameters(changed) == requested_parameters(request)
            &&& requested_numbers(defaults, changed) == (ReplayNumbers {
                healthy_max_rmse_px: narrow,
                ..requested_numbers(defaults, request)
            })
        }),
        ({
            let changed = ReplayRequest { pose_hint_margin: Some(narrow), ..request };
            &&& requested_parameters(changed) == requested_parameters(request)
            &&& requested_numbers(defaults, changed) == (ReplayNumbers {
                second_best_reprojection_margin_px: narrow,
                ..requested_numbers(defaults, request)
            })
        }),
{
}

/// The settings of the backend that follow from those of a replay.
#[derive(Clone, Copy, Debug, PartialEq, Eq, Structural)]
pub struct BackendSwitches {
    pub optimizer_max_iterations: usize,
    pub override_visual_odometry_noise: bool,
    pub use_imu_kinematics: bool,
    pub use_imu_roll_pitch: bool,
    pub use_imu_yaw: bool,
    pub use_current_spline_orientation: bool,
}

/// The settings of the backend: at least one iteration, and nothing of the IMU where it is left
/// out.
pub fn backend_config(parameters: &ReplayParameters) -> (switches: BackendSwitches)
    ensures
        switches.optimizer_max_iterations == (if parameters.optimizer_iterations >= 1 {
            parameters.optimizer_iterations
        } else {
            1
        }),
        switches.override_visual_odometry_noise == parameters.override_visual_odometry_covariance,
        switches.use_imu_kinematics == (parameters.include_imu
            && parameters.include_imu_kinematics),
        switches.use_imu_roll_pitch == (parameters.include_imu
            && parameters.include_imu_roll_pitch),
        switches.use_imu_yaw == (parameters.include_imu && parameters.include_imu_yaw),
        switches.use_current_spline_orientation == (parameters.include_imu
            && parameters.include_current_spline_orientation),
        switches.optimizer_max_iterations >= 1,
        parameters.optimizer_iterations >= 1 ==> switches.optimizer_max_iterations
            == parameters.optimizer_iterations,
        switches.optimizer_max_iterations > 1 ==> switches.optimizer_max_iterations
            == parameters.optimizer_iterations,
        !parameters.include_imu ==> !switches.use_imu_kinematics && !switches.use_imu_roll_pitch
            && !switches.use_imu_yaw && !switches.use_current_spline_orientation,
        parameters.include_imu ==> switches.use_imu_kinematics == parameters.include_imu_kinematics
            && switches.use_imu_roll_pitch == parameters.include_imu_roll_pitch
            && switches.use_imu_yaw == parameters.include_imu_yaw
            && switches.use_current_spline_orientation
            == parameters.include_current_spline_orientation,
{
    BackendSwitches {
        optimizer_max_iterations: if parameters.optimizer_iterations >= 1 {
            parameters.optimizer_iterations
        } else {
            1
        },
        override_visual_odometry_noise: parameters.override_visual_odometry_covariance,
        use_imu_kinematics: parameters.include_imu && parameters.include_imu_kinematics,
        use_imu_roll_pitch: parameters.include_imu && parameters.include_imu_roll_pitch,
        use_imu_yaw: parameters.include_imu && parameters.include_imu_yaw,
        use_current_spline_orientation: parameters.include_imu
            && parameters.include_current_spline_orientation,
    }
}

/// A motion measured by visual odometry that takes the place of the recorded ones.
#[derive(Clone, Copy, Debug, PartialEq, Eq, Structural)]
pub struct ReplayVisualOdometryEvent {
    pub log_time: WallTime,
    pub publish_time: WallTime,
    pub delta: VisualOdometryDelta,
}

/// An event to replay, with its place among the recorded events or among those that take the place
/// of recorded ones.
#[derive(Clone, Copy, Debug, PartialEq, Eq, Structural)]
pub enum ReplayEvent {
    Recorded { index: usize, event: RecordedEvent },
    VisualOdometryOverride { index: usize, motion: ReplayVisualOdometryEvent },
}

impl ReplayEvent {
    /// When the event was recorded.
    pub open spec fn log_time_spec(self) -> WallTime {
        match self {
            ReplayEvent::Recorded { event, .. } => event.log_time,
            ReplayEvent::VisualOdometryOverride { motion, .. } => motion.log_time,
        }
    }

    /// When the event was recorded.
    pub fn log_time(&self) -> (time: WallTime)
        ensures
            time == self.log_time_spec(),
    {
        match self {
            ReplayEvent::Recorded { event, .. } => event.log_time,
            ReplayEvent::VisualOdometryOverride { motion, .. } => motion.log_time,
        }
    }
}

/// The first `count` recorded events, without visual odometry where that is replaced.
pub open spec fn kept_events(
    events: Seq<RecordedEvent>,
    replaced: bool,
    count: int,
) -> Seq<ReplayEvent>
    decreases count,
{
    if count <= 0 {
        Seq::empty()
    } else {
        let earlier = kept_events(events, replaced, count - 1);
        if replaced && events[count - 1].kind is VisualOdometry {
            earlier
        } else {
            earlier.push(
                ReplayEvent::Recorded { index: (count - 1) as usize, event: events[count - 1] },
            )
        }
    }
}

/// The events that take the place of recorded visual odometry.
pub open spec fn override_events(overrides: Seq<ReplayVisualOdometryEvent>) -> Seq<ReplayEvent> {
    Seq::new(
        overrides.len(),
        |i: int|
            ReplayEvent::VisualOdometryOverride { index: i as usize, motion: overrides[i] },
    )
}

/// The events to replay, in no particular order yet.
pub open spec fn unordered_replay_events(
    events: Seq<RecordedEvent>,
    overrides: Option<Seq<ReplayVisualOdometryEvent>>,
) -> Seq<ReplayEvent> {
    match overrides {
        Some(overrides) => kept_events(events, true, events.len() as int) + override_events(
            overrides,
        ),
        None => kept_events(events, false, events.len() as int),
    }
}

/// The key by which a replayed event is sorted: when it was recorded.
pub open spec fn replay_key(event: ReplayEvent) -> SortKey {
    (nanos_since_epoch_spec(event.log_time_spec()) as i128, 0)
}

/// The events to replay in the order in which they were recorded.
pub open spec fn ordered_replay_events(
    events: Seq<RecordedEvent>,
    overrides: Option<Seq<ReplayVisualOdometryEvent>>,
) -> Seq<ReplayEvent> {
    let unordered = unordered_replay_events(events, overrides);
    stably_sorted(unordered, unordered.map_values(|event: ReplayEvent| replay_key(event)))
}

/// The given list of overrides, where there is one.
pub open spec fn override_view(
    overrides: Option<&[ReplayVisualOdometryEvent]>,
) -> Option<Seq<ReplayVisualOdometryEvent>> {
    match overrides {
        Some(overrides) => Some(overrides@),
        None => None,
    }
}

/// Kept events are recorded events, without visual odometry where that is replaced.
proof fn kept_events_are_kept(events: Seq<RecordedEvent>, replaced: bool, count: int)
    requires
        0 <= count <= events.len(),
    ensures
        kept_events(events, replaced, count).len() <= count,
        forall|i: int|
            0 <= i < kept_events(events, replaced, count).len() ==> match #[trigger] kept_events(
                events,
                replaced,
                count,
            )[i] {
                ReplayEvent::Recorded { event, .. } => !(replaced && event.kind is VisualOdometry),
                ReplayEvent::VisualOdometryOverride { .. } => false,
            },
    decreases count,
{
    if count > 0 {
        kept_events_are_kept(events, replaced, count - 1);
    }
}

/// The events of a replay are the recorded ones and the motions that take the place of recorded
/// ones, none more and none less, in the order in which they were recorded. Where motions are
/// given, no recorded motion is replayed.
pub proof fn replay_takes_every_event(
    events: Seq<RecordedEvent>,
    overrides: Option<Seq<ReplayVisualOdometryEvent>>,
)
    requires
        unordered_replay_events(events, overrides).len() <= usize::MAX,
    ensures
        ordered_replay_events(events, overrides).to_multiset() == unordered_replay_events(
            events,
            overrides,
        ).to_multiset(),
        forall|i: int, j: int|
            #![trigger ordered_replay_events(events, overrides)[i], ordered_replay_events(events, overrides)[j]]
            0 <= i <= j < ordered_replay_events(events, overrides).len()
                ==> nanos_since_epoch_spec(
                ordered_replay_events(events, overrides)[i].log_time_spec(),
            ) <= nanos_since_epoch_spec(
                ordered_replay_events(events, overrides)[j].log_time_spec(),
            ),
        overrides is Some ==> forall|i: int|
            0 <= i < ordered_replay_events(events, overrides).len() ==> match
            #[trigger] ordered_replay_events(events, overrides)[i] {
                ReplayEvent::Recorded { event, .. } => !(event.kind is VisualOdometry),
                ReplayEvent::VisualOdometryOverride { .. } => true,
            },
{
    let unordered = unordered_replay_events(events, overrides);
    let keys = unordered.map_values(|event: ReplayEvent| replay_key(event));
    let ordered = ordered_replay_events(events, overrides);
    let order = stable_order_of(keys);
    sorting_keeps_items(unordered, keys);
    stable_order_exists(keys);
    kept_events_are_kept(events, overrides is Some, events.len() as int);
    assert forall|i: int, j: int|
        #![trigger ordered[i], ordered[j]]
        0 <= i <= j < ordered.len() implies nanos_since_epoch_spec(ordered[i].log_time_spec())
        <= nanos_since_epoch_spec(ordered[j].log_time_spec()) by {
        assert(order[i] < unordered.len() && order[j] < unordered.len());
        if i < j {
            assert(precedes(keys, order[i] as int, order[j] as int));
        }
    }
    if overrides is Some {
        let kept = kept_events(events, true, events.len() as int);
        assert forall|i: int| 0 <= i < ordered.len() implies match #[trigger] ordered[i] {
            ReplayEvent::Recorded { event, .. } => !(event.kind is VisualOdometry),
            ReplayEvent::VisualOdometryOverride { .. } => true,
        } by {
            let place = order[i] as int;
            assert(order[i] < unordered.len());
            assert(ordered[i] == unordered[place]);
            if place < kept.len() {
                assert(unordered[place] == kept[place]);
            } else {
                assert(unordered[place] == override_events(overrides->0)[place - kept.len()]);
            }
        }
    }
}

/// Whether an item stands at one place of a list and no other.
pub open spec fn occurs_once<T>(items: Seq<T>, item: T) -> bool {
    exists|place: int| #[trigger] occurs_only_at(items, item, place)
}

/// Whether an item stands at a place of a list and at no other.
pub open spec fn occurs_only_at<T>(items: Seq<T>, item: T, place: int) -> bool {
    &&& 0 <= place < items.len()
    &&& items[place] == item
    &&& forall|other: int| 0 <= other < items.len() && #[trigger] items[other] == item ==> other == place
}

/// Whether a replayed event is a recorded one at its place, or a given motion at its place.
pub open spec fn stands_for_input(
    events: Seq<RecordedEvent>,
    motions: Option<Seq<ReplayVisualOdometryEvent>>,
    replayed: ReplayEvent,
) -> bool {
    match replayed {
        ReplayEvent::Recorded { index, event } => {
            &&& index < events.len()
            &&& event == events[index as int]
            &&& motions is Some ==> !(event.kind is VisualOdometry)
        },
        ReplayEvent::VisualOdometryOverride { index, motion } => {
            &&& motions is Some
            &&& index < motions->0.len()
            &&& motion == motions->0[index as int]
        },
    }
}

/// The number of a replayed event: recorded events by their place, and after them given motions
/// by theirs.
pub open spec fn replay_number(events: Seq<RecordedEvent>, replayed: ReplayEvent) -> int {
    match replayed {
        ReplayEvent::Recorded { index, .. } => index as int,
        ReplayEvent::VisualOdometryOverride { index, .. } => events.len() + index,
    }
}

/// The instant of a replayed event, instants before the epoch counted as the epoch.
pub open spec fn replay_instant(replayed: ReplayEvent) -> int {
    let nanos = match replayed {
        ReplayEvent::Recorded { event, .. } => event.log_time.nanos,
        ReplayEvent::VisualOdometryOverride { motion, .. } => motion.log_time.nanos,
    };
    if nanos < 0 {
        0
    } else {
        nanos as int
    }
}

/// Where the kept events come from.
proof fn kept_events_stand_for_recorded(events: Seq<RecordedEvent>, replaced: bool, count: int)
    requires
        0 <= count <= events.len() <= usize::MAX,
    ensures
        ({
            let kept = kept_events(events, replaced, count);
            &&& forall|i: int|
                0 <= i < kept.len() ==> match #[trigger] kept[i] {
                    ReplayEvent::Recorded { index, event } => {
                        &&& index < count
                        &&& event == events[index as int]
                        &&& replaced ==> !(event.kind is VisualOdometry)
                    },
                    ReplayEvent::VisualOdometryOverride { .. } => false,
                }
            &&& forall|i: int, j: int|
                #![trigger kept[i], kept[j]]
                0 <= i < j < kept.len() ==> replay_number(events, kept[i]) < replay_number(
                    events,
                    kept[j],
                )
            &&& forall|index: int|
                0 <= index < count && (!replaced || !((#[trigger] events[index]).kind is
                    VisualOdometry)) ==> kept.contains(
                    ReplayEvent::Recorded { index: index as usize, event: events[index] },
                )
        }),
    decreases count,
{
    if count > 0 {
        kept_events_stand_for_recorded(events, replaced, count - 1);
        let earlier = kept_events(events, replaced, count - 1);
        let kept = kept_events(events, replaced, count);
        assert forall|index: int|
            0 <= index < count && (!replaced || !((#[trigger] events[index]).kind is
                VisualOdometry)) implies kept.contains(
            ReplayEvent::Recorded { index: index as usize, event: events[index] },
        ) by {
            let item = ReplayEvent::Recorded { index: index as usize, event: events[index] };
            if index < count - 1 {
                assert(earlier.contains(item));
                let place = choose|place: int|
                    0 <= place < earlier.len() && earlier[place] == item;
                assert(kept[place] == item);
            } else {
                assert(kept[earlier.len() as int] == item);
            }
        }
    }
}

/// Every recorded event that is not visual odometry is replayed, once, whether or not motions are
/// given; where none are given, so is every recorded event. Every given motion is replayed once.
/// Nothing else is replayed. Events are replayed in the order in which they were recorded; of
/// those recorded at the same instant a recorded one comes before a given motion, and of two of
/// the same sort that which comes first among those given.
pub proof fn every_event_is_replayed_once(
    events: Seq<RecordedEvent>,
    motions: Option<Seq<ReplayVisualOdometryEvent>>,
)
    requires
        events.len() + (if motions is Some { motions->0.len() } else { 0 }) <= usize::MAX,
    ensures
        ({
            let replayed = ordered_replay_events(events, motions);
            &&& forall|index: int|
                0 <= index < events.len() && !((#[trigger] events[index]).kind is VisualOdometry)
                    ==> occurs_once(
                    replayed,
                    ReplayEvent::Recorded { index: index as usize, event: events[index] },
                )
            &&& motions is None ==> forall|index: int|
                0 <= index < events.len() ==> occurs_once(
                    replayed,
                    ReplayEvent::Recorded {
                        index: index as usize,
                        event: #[trigger] events[index],
                    },
                )
            &&& motions is Some ==> forall|index: int|
                0 <= index < motions->0.len() ==> occurs_once(
                    replayed,
                    ReplayEvent::VisualOdometryOverride {
                        index: index as usize,
                        motion: #[trigger] motions->0[index],
                    },
                )
            &&& forall|i: int|
                0 <= i < replayed.len() ==> stands_for_input(
                    events,
                    motions,
                    #[trigger] replayed[i],
                )
            &&& forall|i: int, j: int|
                #![trigger replayed[i], replayed[j]]
                0 <= i < j < replayed.len() ==> replay_instant(replayed[i]) < replay_instant(
                    replayed[j],
                ) || replay_instant(replayed[i]) == replay_instant(replayed[j]) && replay_number(
                    events,
                    replayed[i],
                ) < replay_number(events, replayed[j])
        }),
{
    let replaced = motions is Some;
    let kept = kept_events(events, replaced, events.len() as int);
    let given = if replaced {
        override_events(motions->0)
    } else {
        Seq::<ReplayEvent>::empty()
    };
    let unordered = unordered_replay_events(events, motions);
    kept_events_stand_for_recorded(events, replaced, events.len() as int);
    kept_events_are_kept(events, replaced, events.len() as int);
    assert(unordered =~= kept + given);
    let keys = unordered.map_values(|event: ReplayEvent| replay_key(event));
    let order = stable_order_of(keys);
    let replayed = ordered_replay_events(events, motions);
    stable_order_exists(keys);
    assert forall|i: int| 0 <= i < unordered.len() implies stands_for_input(
        events,
        motions,
        #[trigger] unordered[i],
    ) by {
        if i < kept.len() {
            assert(unordered[i] == kept[i]);
        } else {
            assert(unordered[i] == given[i - kept.len()]);
        }
    }
    assert forall|i: int, j: int|
        #![trigger unordered[i], unordered[j]]
        0 <= i < j < unordered.len() implies replay_number(events, unordered[i]) < replay_number(
        events,
        unordered[j],
    ) by {
        if j < kept.len() {
            assert(unordered[i] == kept[i] && unordered[j] == kept[j]);
        } else {
            assert(unordered[j] == given[j - kept.len()]);
            if i < kept.len() {
                assert(unordered[i] == kept[i]);
            } else {
                assert(unordered[i] == given[i - kept.len()]);
            }
        }
    }
    assert forall|i: int, j: int|
        #![trigger replayed[i], replayed[j]]
        0 <= i < j < replayed.len() implies replay_instant(replayed[i]) < replay_instant(
        replayed[j],
    ) || replay_instant(replayed[i]) == replay_instant(replayed[j]) && replay_number(
        events,
        replayed[i],
    ) < replay_number(events, replayed[j]) by {
        assert(order[i] < unordered.len() && order[j] < unordered.len());
        assert(precedes(keys, order[i] as int, order[j] as int));
        assert(replayed[i] == unordered[order[i] as int]);
        assert(replayed[j] == unordered[order[j] as int]);
    }
    assert forall|i: int| 0 <= i < replayed.len() implies stands_for_input(
        events,
        motions,
        #[trigger] replayed[i],
    ) by {
        assert(order[i] < unordered.len());
        assert(replayed[i] == unordered[order[i] as int]);
    }
    assert forall|item: ReplayEvent| #[trigger] unordered.contains(item) implies occurs_once(
        replayed,
        item,
    ) by {
        let from = choose|from: int| 0 <= from < unordered.len() && unordered[from] == item;
        assert(order.contains(from as usize));
        let place = choose|place: int| 0 <= place < order.len() && order[place] == from;
        assert(replayed[place] == item);
        assert(occurs_only_at(replayed, item, place));
    }
    assert forall|index: int|
        0 <= index < events.len() && (!replaced || !((#[trigger] events[index]).kind is
            VisualOdometry)) implies occurs_once(
        replayed,
        ReplayEvent::Recorded { index: index as usize, event: events[index] },
    ) by {
        let item = ReplayEvent::Recorded { index: index as usize, event: events[index] };
        assert(kept.contains(item));
        let place = choose|place: int| 0 <= place < kept.len() && kept[place] == item;
        assert(unordered[place] == item);
        assert(unordered.contains(item));
    }
    if replaced {
        assert forall|index: int| 0 <= index < motions->0.len() implies occurs_once(
            replayed,
            ReplayEvent::VisualOdometryOverride {
                index: index as usize,
                motion: #[trigger] motions->0[index],
            },
        ) by {
            let item = ReplayEvent::VisualOdometryOverride {
                index: index as usize,
                motion: motions->0[index],
            };
            assert(given[index] == item);
            assert(unordered[kept.len() + index] == item);
            assert(unordered.contains(item));
        }
    }
}

/// Puts the events to replay in the order in which they were recorded.
pub fn merged_replay_events(
    events: &[RecordedEvent],
    visual_odometry_override: Option<&[ReplayVisualOdometryEvent]>,
) -> (merged: Vec<ReplayEvent>)
    ensures
        merged@ == ordered_replay_events(events@, override_view(visual_odometry_override)),
{
    let replaced = visual_odometry_override.is_some();
    let mut unordered: Vec<ReplayEvent> = Vec::new();
    let mut index: usize = 0;
    while index < events.len()
        invariant
            index <= events@.len(),
            unordered@ == kept_events(events@, replaced, index as int),
        decreases events@.len() - index,
    {
        let event = events[index];
        let is_visual_odometry = match event.kind {
            EventKind::VisualOdometry(_) => true,
            _ => false,
        };
        if !(replaced && is_visual_odometry) {
            unordered.push(ReplayEvent::Recorded { index, event });
        }
        index = index + 1;
    }
    if let Some(overrides) = visual_odometry_override {
        let ghost kept = unordered@;
        let mut place: usize = 0;
        while place < overrides.len()
            invariant
                place <= overrides@.len(),
                unordered@ == kept + override_events(overrides@).subrange(0, place as int),
            decreases overrides@.len() - place,
        {
            unordered.push(
                ReplayEvent::VisualOdometryOverride { index: place, motion: overrides[place] },
            );
            place = place + 1;
        }
        assert(unordered@ =~= kept + override_events(overrides@));
    }
    let mut keys: Vec<SortKey> = Vec::new();
    let mut place: usize = 0;
    while place < unordered.len()
        invariant
            place <= unordered@.len(),
            keys@.len() == place,
            forall|i: int| 0 <= i < place ==> keys@[i] == replay_key(unordered@[i]),
        decreases unordered@.len() - place,
    {
        keys.push((nanos_since_epoch(unordered[place].log_time()) as i128, 0));
        place = place + 1;
    }
    assert(keys@ =~= unordered@.map_values(|event: ReplayEvent| replay_key(event)));
    sort_by_keys(unordered.as_slice(), keys.as_slice())
}

/// Unless asked otherwise everything is replayed by the timestamps inside the messages, in five
/// iterations, with the recorded associations, the measured covariances, and three features of a
/// frame at least.
pub proof fn everything_is_replayed_by_default()
    ensures
        ({
            let parameters = ReplayParameters::default_spec();
            &&& parameters.timestamp_mode is Embedded
            &&& parameters.optimizer_iterations == 5
            &&& parameters.pose_hint_visual_min_features_per_frame == 3
            &&& !parameters.override_visual_odometry_covariance
            &&& parameters.include_visual_odometry
            &&& parameters.include_global_features
            &&& parameters.include_imu
            &&& parameters.include_imu_kinematics
            &&& parameters.include_imu_roll_pitch
            &&& parameters.include_imu_yaw
            &&& parameters.include_current_spline_orientation
            &&& parameters.include_foot_heights
            &&& !parameters.recompute_global_features
        }),
{
}

/// A part is replayed exactly if it is not asked to be left out. Associations are computed anew, and
/// a covariance takes the place of the measured ones, exactly if that is asked for. What cannot be
/// asked for has its default.
pub proof fn requests_decide_what_is_replayed<Wide, Narrow>(request: ReplayRequest<Wide, Narrow>)
    ensures
        ({
            let parameters = requested_parameters(request);
            let defaults = ReplayParameters::default_spec();
            &&& parameters.include_visual_odometry <==> !request.no_visual_odometry
            &&& parameters.include_global_features <==> !request.no_global_features
            &&& parameters.include_imu <==> !request.no_imu
            &&& parameters.include_foot_heights <==> !request.no_foot_heights
            &&& parameters.recompute_global_features <==> request.recompute_global_features
            &&& parameters.override_visual_odometry_covariance
                <==> request.visual_odometry_covariance is Some
            &&& parameters.pose_hint_visual_min_features_per_frame == (
            match request.pose_hint_min_features {
                Some(features) => features,
                None => 3,
            })
            &&& parameters.timestamp_mode == defaults.timestamp_mode
            &&& parameters.optimizer_iterations == defaults.optimizer_iterations
            &&& parameters.include_imu_kinematics == defaults.include_imu_kinematics
            &&& parameters.include_imu_roll_pitch == defaults.include_imu_roll_pitch
            &&& parameters.include_imu_yaw == defaults.include_imu_yaw
            &&& parameters.include_current_spline_orientation
                == defaults.include_current_spline_orientation
        }),
        no_request::<Wide, Narrow>().recovery_frames is None,
        recovery_frames_of(0) == 1,
        forall|frames: usize| frames > 0 ==> #[trigger] recovery_frames_of(frames) == frames,
{
}

} // verus!
