//! Which parts of the localization take part in a replay, and what the result is called.

use crate::replay::ReplayParameters;
use vstd::prelude::*;
use vstd::string::StringExecFns;

verus! {

/// Selections of parts that can be chosen at once.
#[derive(Clone, Copy, Debug, PartialEq, Eq, Structural)]
pub enum ComponentPreset {
    Full,
    VisualOdometryOnly,
    GlobalFeaturesOnly,
    VisualAssociationsOnly,
    ImuRollPitchOnly,
    ImuYawOnly,
    ImuOrientationOnly,
    ImuKinematicsOnly,
    FootHeightsOnly,
    VisualOdometryAndImu,
    VisualOdometryAndFootHeights,
    VisualOdometryAndVisual,
}

impl ComponentPreset {
    /// Whether visual odometry takes part.
    pub open spec fn has_visual_odometry(self) -> bool {
        self is Full || self is VisualOdometryOnly || self is VisualOdometryAndImu
            || self is VisualOdometryAndFootHeights || self is VisualOdometryAndVisual
    }

    /// Whether visual features take part.
    pub open spec fn has_global_features(self) -> bool {
        self is Full || self is GlobalFeaturesOnly || self is VisualAssociationsOnly
            || self is VisualOdometryAndVisual
    }

    /// Whether visual features near a known pose take part.
    pub open spec fn has_pose_hint(self) -> bool {
        self is Full || self is VisualAssociationsOnly
    }

    /// Whether foot heights take part.
    pub open spec fn has_foot_heights(self) -> bool {
        self is Full || self is FootHeightsOnly || self is VisualOdometryAndFootHeights
    }

    /// Whether roll and pitch of the IMU take part.
    pub open spec fn has_roll_pitch(self) -> bool {
        self is Full || self is ImuRollPitchOnly || self is ImuOrientationOnly
            || self is VisualOdometryAndImu
    }

    /// Whether the yaw of the IMU takes part.
    pub open spec fn has_yaw(self) -> bool {
        self is Full || self is ImuYawOnly || self is ImuOrientationOnly
            || self is VisualOdometryAndImu
    }

    /// Whether the current orientation takes part.
    pub open spec fn has_current_orientation(self) -> bool {
        self is Full || self is ImuOrientationOnly || self is VisualOdometryAndImu
    }

    /// Whether the rates and accelerations of the IMU take part.
    pub open spec fn has_imu_kinematics(self) -> bool {
        self is Full || self is ImuKinematicsOnly || self is VisualOdometryAndImu
    }
}

/// The settings with the parts of a preset selected and the rest as it was.
pub open spec fn with_preset(
    parameters: ReplayParameters,
    preset: ComponentPreset,
) -> ReplayParameters {
    ReplayParameters {
        include_visual_odometry: preset.has_visual_odometry(),
        include_global_features: preset.has_global_features(),
        include_foot_heights: preset.has_foot_heights(),
        include_imu_roll_pitch: preset.has_roll_pitch(),
        include_imu_yaw: preset.has_yaw(),
        include_current_spline_orientation: preset.has_current_orientation(),
        include_imu_kinematics: preset.has_imu_kinematics(),
        include_imu: preset.has_roll_pitch() || preset.has_yaw() || preset.has_current_orientation()
            || preset.has_imu_kinematics(),
        ..parameters
    }
}

/// A preset leaves nothing of the one before, and the full preset gives back the default settings.
pub proof fn presets_replace_each_other(
    parameters: ReplayParameters,
    first: ComponentPreset,
    second: ComponentPreset,
)
    ensures
        with_preset(with_preset(parameters, first), second) == with_preset(parameters, second),
        with_preset(with_preset(ReplayParameters::default_spec(), first), ComponentPreset::Full)
            == ReplayParameters::default_spec(),
{
}

/// Selects the parts of a preset and leaves the other settings as they are. Tells besides whether
/// visual features near a known pose are used.
pub fn apply_component_preset(parameters: &mut ReplayParameters, preset: ComponentPreset) -> (
    pose_hint_enabled: bool)
    ensures
        *final(parameters) == with_preset(*old(parameters), preset),
        pose_hint_enabled == preset.has_pose_hint(),
{
    parameters.include_visual_odometry = matches!(
        preset,
        ComponentPreset::Full
            | ComponentPreset::VisualOdometryOnly
            | ComponentPreset::VisualOdometryAndImu
            | ComponentPreset::VisualOdometryAndFootHeights
            | ComponentPreset::VisualOdometryAndVisual
    );
    parameters.include_global_features = matches!(
        preset,
        ComponentPreset::Full
            | ComponentPreset::GlobalFeaturesOnly
            | ComponentPreset::VisualAssociationsOnly
            | ComponentPreset::VisualOdometryAndVisual
    );
    parameters.include_foot_heights = matches!(
        preset,
        ComponentPreset::Full
            | ComponentPreset::FootHeightsOnly
            | ComponentPreset::VisualOdometryAndFootHeights
    );
    parameters.include_imu_roll_pitch = matches!(
        preset,
        ComponentPreset::Full
            | ComponentPreset::ImuRollPitchOnly
            | ComponentPreset::ImuOrientationOnly
            | ComponentPreset::VisualOdometryAndImu
    );
    parameters.include_imu_yaw = matches!(
        preset,
        ComponentPreset::Full
            | ComponentPreset::ImuYawOnly
            | ComponentPreset::ImuOrientationOnly
            | ComponentPreset::VisualOdometryAndImu
    );
    parameters.include_current_spline_orientation = matches!(
        preset,
        ComponentPreset::Full
            | ComponentPreset::ImuOrientationOnly
            | ComponentPreset::VisualOdometryAndImu
    );
    parameters.include_imu_kinematics = matches!(
        preset,
        ComponentPreset::Full
            | ComponentPreset::ImuKinematicsOnly
            | ComponentPreset::VisualOdometryAndImu
    );
    parameters.include_imu = parameters.include_imu_roll_pitch || parameters.include_imu_yaw
        || parameters.include_current_spline_orientation || parameters.include_imu_kinematics;
    matches!(preset, ComponentPreset::Full | ComponentPreset::VisualAssociationsOnly)
}

/// Texts with a separator between them.
pub open spec fn joined(parts: Seq<Seq<char>>, separator: Seq<char>) -> Seq<char>
    decreases parts.len(),
{
    if parts.len() == 0 {
        Seq::empty()
    } else if parts.len() == 1 {
        parts[0]
    } else {
        joined(parts.drop_last(), separator) + separator + parts.last()
    }
}

/// The texts of strings.
pub open spec fn texts(parts: Seq<String>) -> Seq<Seq<char>> {
    parts.map_values(|part: String| part@)
}

/// A list with one more text where a condition holds.
pub open spec fn with_part(parts: Seq<Seq<char>>, condition: bool, part: Seq<char>) -> Seq<
    Seq<char>,
> {
    if condition {
        parts.push(part)
    } else {
        parts
    }
}

/// Joins texts with a separator between them.
fn join(parts: &Vec<String>, separator: &str) -> (text: String)
    ensures
        text@ == joined(texts(parts@), separator@),
{
    let mut text = String::new();
    let mut index: usize = 0;
    while index < parts.len()
        invariant
            index <= parts@.len(),
            text@ == joined(texts(parts@).take(index as int), separator@),
        decreases parts@.len() - index,
    {
        proof {
            let all = texts(parts@);
            assert(all.take(index + 1).drop_last() =~= all.take(index as int));
            assert(all.take(index + 1).last() == parts@[index as int]@);
        }
        if index > 0 {
            text.append(separator);
        }
        text.append(parts[index].as_str());
        index = index + 1;
    }
    assert(texts(parts@).take(parts@.len() as int) =~= texts(parts@));
    text
}

/// Adds a text where a condition holds.
fn push_part(parts: &mut Vec<String>, condition: bool, part: &str)
    ensures
        texts(final(parts)@) == with_part(texts(old(parts)@), condition, part@),
{
    if condition {
        parts.push(part.to_string());
    }
    assert(texts(parts@) =~= with_part(texts(old(parts)@), condition, part@));
}

/// The names of the parts of the IMU that take part.
pub open spec fn imu_parts(parameters: ReplayParameters) -> Seq<Seq<char>> {
    with_part(
        with_part(
            with_part(
                with_part(Seq::empty(), parameters.include_imu_roll_pitch, "rp"@),
                parameters.include_imu_yaw,
                "yaw"@,
            ),
            parameters.include_current_spline_orientation,
            "cur"@,
        ),
        parameters.include_imu_kinematics,
        "kin"@,
    )
}

/// The names of the parts that take part.
pub open spec fn component_parts(
    parameters: ReplayParameters,
    pose_hint_enabled: bool,
) -> Seq<Seq<char>> {
    let imu = imu_parts(parameters);
    with_part(
        with_part(
            with_part(
                with_part(Seq::empty(), parameters.include_visual_odometry, "VO"@),
                parameters.include_global_features,
                if pose_hint_enabled {
                    "visual+hint"@
                } else {
                    "global"@
                },
            ),
            parameters.include_imu && imu.len() > 0,
            "IMU["@ + joined(imu, ","@) + "]"@,
        ),
        parameters.include_foot_heights,
        "foot"@,
    )
}

/// What the result of a replay is called.
pub open spec fn trace_label(
    parameters: ReplayParameters,
    pose_hint_enabled: bool,
    raw_vo: bool,
) -> Seq<char> {
    let parts = component_parts(parameters, pose_hint_enabled);
    if raw_vo {
        "raw VO"@
    } else if parts.len() == 0 {
        "prior only"@
    } else {
        joined(parts, " + "@)
    }
}

/// What the result of a replay is called: the parts that took part.
pub fn component_trace_label(
    parameters: &ReplayParameters,
    pose_hint_enabled: bool,
    raw_vo: bool,
) -> (label: String)
    ensures
        label@ == trace_label(*parameters, pose_hint_enabled, raw_vo),
{
    if raw_vo {
        return "raw VO".to_string();
    }
    let mut parts: Vec<String> = Vec::new();
    assert(texts(parts@) =~= Seq::<Seq<char>>::empty());
    push_part(&mut parts, parameters.include_visual_odometry, "VO");
    push_part(
        &mut parts,
        parameters.include_global_features,
        if pose_hint_enabled {
            "visual+hint"
        } else {
            "global"
        },
    );
    let mut imu: Vec<String> = Vec::new();
    assert(texts(imu@) =~= Seq::<Seq<char>>::empty());
    push_part(&mut imu, parameters.include_imu_roll_pitch, "rp");
    push_part(&mut imu, parameters.include_imu_yaw, "yaw");
    push_part(&mut imu, parameters.include_current_spline_orientation, "cur");
    push_part(&mut imu, parameters.include_imu_kinematics, "kin");
    let mut imu_label = "IMU[".to_string();
    imu_label.append(join(&imu, ",").as_str());
    imu_label.append("]");
    push_part(&mut parts, parameters.include_imu && imu.len() > 0, imu_label.as_str());
    push_part(&mut parts, parameters.include_foot_heights, "foot");
    if parts.len() == 0 {
        "prior only".to_string()
    } else {
        join(&parts, " + ")
    }
}

/// The parts that take part: visual odometry, visual features, visual features near a known pose,
/// foot heights, and of the IMU roll and pitch, yaw, the current orientation, rates and
/// accelerations.
pub open spec fn parts_of(parameters: ReplayParameters, preset: ComponentPreset) -> Seq<bool> {
    seq![
        parameters.include_visual_odometry,
        parameters.include_global_features,
        preset.has_pose_hint(),
        parameters.include_foot_heights,
        parameters.include_imu_roll_pitch,
        parameters.include_imu_yaw,
        parameters.include_current_spline_orientation,
        parameters.include_imu_kinematics,
    ]
}

/// A preset selects the parts that it is named after and no other. The IMU takes part exactly if
/// something of it does. What is no part stays as it was.
pub proof fn presets_select_their_parts(parameters: ReplayParameters, preset: ComponentPreset)
    ensures
        ({
            let selected = with_preset(parameters, preset);
            let parts = parts_of(selected, preset);
            &&& preset is Full ==> parts == seq![
                true,
                true,
                true,
                true,
                true,
                true,
                true,
                true,
            ]
            &&& preset is VisualOdometryOnly ==> parts == seq![
                true,
                false,
                false,
                false,
                false,
                false,
                false,
                false,
            ]
            &&& preset is GlobalFeaturesOnly ==> parts == seq![
                false,
                true,
                false,
                false,
                false,
                false,
                false,
                false,
            ]
            &&& preset is VisualAssociationsOnly ==> parts == seq![
                false,
                true,
                true,
                false,
                false,
                false,
                false,
                false,
            ]
            &&& preset is ImuRollPitchOnly ==> parts == seq![
                false,
                false,
                false,
                false,
                true,
                false,
                false,
                false,
            ]
            &&& preset is ImuYawOnly ==> parts == seq![
                false,
                false,
                false,
                false,
                false,
                true,
                false,
                false,
            ]
            &&& preset is ImuOrientationOnly ==> parts == seq![
                false,
                false,
                false,
                false,
                true,
                true,
                true,
                false,
            ]
            &&& preset is ImuKinematicsOnly ==> parts == seq![
                false,
                false,
                false,
                false,
                false,
                false,
                false,
                true,
            ]
            &&& preset is FootHeightsOnly ==> parts == seq![
                false,
                false,
                false,
                true,
                false,
                false,
                false,
                false,
            ]
            &&& preset is VisualOdometryAndImu ==> parts == seq![
                true,
                false,
                false,
                false,
                true,
                true,
                true,
                true,
            ]
            &&& preset is VisualOdometryAndFootHeights ==> parts == seq![
                true,
                false,
                false,
                true,
                false,
                false,
                false,
                false,
            ]
            &&& preset is VisualOdometryAndVisual ==> parts == seq![
                true,
                true,
                false,
                false,
                false,
                false,
                false,
                false,
            ]
            &&& selected.include_imu <==> selected.include_imu_roll_pitch
                || selected.include_imu_yaw || selected.include_current_spline_orientation
                || selected.include_imu_kinematics
            &&& selected.timestamp_mode == parameters.timestamp_mode
            &&& selected.optimizer_iterations == parameters.optimizer_iterations
            &&& selected.pose_hint_visual_min_features_per_frame
                == parameters.pose_hint_visual_min_features_per_frame
            &&& selected.override_visual_odometry_covariance
                == parameters.override_visual_odometry_covariance
            &&& selected.recompute_global_features == parameters.recompute_global_features
        }),
{
}

/// The name of the result of a replay lists the parts that took part, in their order: the name of a
/// part comes behind those of the parts before it. Without any it is that of the prior alone, and
/// for the raw motions their own.
pub proof fn labels_list_the_parts(
    parameters: ReplayParameters,
    pose_hint_enabled: bool,
    raw_vo: bool,
)
    ensures
        raw_vo ==> trace_label(parameters, pose_hint_enabled, raw_vo) == "raw VO"@,
        !raw_vo && component_parts(parameters, pose_hint_enabled).len() == 0 ==> trace_label(
            parameters,
            pose_hint_enabled,
            raw_vo,
        ) == "prior only"@,
        !raw_vo && component_parts(parameters, pose_hint_enabled).len() > 0 ==> trace_label(
            parameters,
            pose_hint_enabled,
            raw_vo,
        ) == joined(component_parts(parameters, pose_hint_enabled), " + "@),
        ({
            let odometry = if parameters.include_visual_odometry {
                seq!["VO"@]
            } else {
                Seq::empty()
            };
            let visual = if !parameters.include_global_features {
                Seq::empty()
            } else if pose_hint_enabled {
                seq!["visual+hint"@]
            } else {
                seq!["global"@]
            };
            let has_imu = parameters.include_imu && (parameters.include_imu_roll_pitch
                || parameters.include_imu_yaw || parameters.include_current_spline_orientation
                || parameters.include_imu_kinematics);
            let imu = if has_imu {
                seq!["IMU["@ + joined(imu_parts(parameters), ","@) + "]"@]
            } else {
                Seq::empty()
            };
            let foot = if parameters.include_foot_heights {
                seq!["foot"@]
            } else {
                Seq::empty()
            };
            component_parts(parameters, pose_hint_enabled) == odometry + visual + imu + foot
        }),
        ({
            let roll_pitch = if parameters.include_imu_roll_pitch {
                seq!["rp"@]
            } else {
                Seq::empty()
            };
            let yaw = if parameters.include_imu_yaw {
                seq!["yaw"@]
            } else {
                Seq::empty()
            };
            let current = if parameters.include_current_spline_orientation {
                seq!["cur"@]
            } else {
                Seq::empty()
            };
            let kinematics = if parameters.include_imu_kinematics {
                seq!["kin"@]
            } else {
                Seq::empty()
            };
            imu_parts(parameters) == roll_pitch + yaw + current + kinematics
        }),
{
    let none = Seq::<Seq<char>>::empty();
    assert(none + none =~= none);
}

/// Texts are joined in their order with the separator between two of them.
pub proof fn texts_are_joined_in_order(parts: Seq<Seq<char>>, part: Seq<char>, separator: Seq<char>)
    ensures
        parts.len() == 0 ==> joined(parts, separator) == Seq::<char>::empty(),
        parts.len() == 0 ==> joined(parts.push(part), separator) == part,
        parts.len() > 0 ==> joined(parts.push(part), separator) == joined(parts, separator)
            + separator + part,
{
    assert(parts.push(part).drop_last() =~= parts);
}

} // verus!
