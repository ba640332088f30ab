//! Topics of a recording.

use vstd::prelude::*;

verus! {

pub const TOPIC_IMU_STATE: &'static str = "inputs/imu_state";
pub const TOPIC_STEREO_IMAGE_PAIR: &'static str = "inputs/stereo_image_pair";
pub const TOPIC_STEREO_CAMERA_INFO: &'static str = "inputs/stereo_camera_info";
pub const TOPIC_ROBOT_KINEMATICS: &'static str = "robot_kinematics";
pub const TOPIC_CAMERA_MATRIX: &'static str = "camera_matrix";
pub const TOPIC_DETECTED_OBJECTS: &'static str = "detected_objects";
pub const TOPIC_DETECTED_OBJECTS_ANNOUNCE: &'static str = "detected_objects/announce";
pub const TOPIC_FIELD_MARK_ASSOCIATIONS: &'static str = "field_mark_association/associations";
pub const TOPIC_FIELD_DIMENSIONS: &'static str = "field_dimensions";
pub const TOPIC_LOCALIZATION: &'static str = "localization";
pub const TOPIC_VISUAL_ODOMETRY: &'static str =
    "visual_odometry/current_left_camera_to_previous_left_camera";
pub const TOPIC_CALIBRATED_INTRINSICS: &'static str = "debug/calibrated_intrinsics";
pub const TOPIC_GLOBAL_LOCALIZATION_DEBUG: &'static str = "debug/global_localization";
pub const TOPIC_SOLVE_DIAGNOSTICS: &'static str = "debug/solve_diagnostics";

/// The topics that are read from a recording.
#[derive(Clone, Copy, Debug, PartialEq, Eq, Structural)]
pub enum Topic {
    ImuState,
    StereoImagePair,
    StereoCameraInfo,
    RobotKinematics,
    CameraMatrix,
    DetectedObjects,
    DetectedObjectsAnnounce,
    FieldMarkAssociations,
    FieldDimensions,
    Localization,
    VisualOdometry,
    CalibratedIntrinsics,
    GlobalLocalizationDebug,
    SolveDiagnostics,
    Other,
}

/// The topic with a given name.
pub open spec fn topic_named(name: Seq<char>) -> Topic {
    if name == TOPIC_IMU_STATE@ {
        Topic::ImuState
    } else if name == TOPIC_STEREO_CAMERA_INFO@ {
        Topic::StereoCameraInfo
    } else if name == TOPIC_VISUAL_ODOMETRY@ {
        Topic::VisualOdometry
    } else if name == TOPIC_ROBOT_KINEMATICS@ {
        Topic::RobotKinematics
    } else if name == TOPIC_CAMERA_MATRIX@ {
        Topic::CameraMatrix
    } else if name == TOPIC_DETECTED_OBJECTS@ {
        Topic::DetectedObjects
    } else if name == TOPIC_DETECTED_OBJECTS_ANNOUNCE@ {
        Topic::DetectedObjectsAnnounce
    } else if name == TOPIC_FIELD_MARK_ASSOCIATIONS@ {
        Topic::FieldMarkAssociations
    } else if name == TOPIC_FIELD_DIMENSIONS@ {
        Topic::FieldDimensions
    } else if name == TOPIC_LOCALIZATION@ {
        Topic::Localization
    } else if name == TOPIC_CALIBRATED_INTRINSICS@ {
        Topic::CalibratedIntrinsics
    } else if name == TOPIC_GLOBAL_LOCALIZATION_DEBUG@ {
        Topic::GlobalLocalizationDebug
    } else if name == TOPIC_SOLVE_DIAGNOSTICS@ {
        Topic::SolveDiagnostics
    } else if name == TOPIC_STEREO_IMAGE_PAIR@ {
        Topic::StereoImagePair
    } else {
        Topic::Other
    }
}

/// Whether two texts are the same.
pub fn is_same_text(a: &str, b: &str) -> (same: bool)
    ensures
        same == (a@ == b@),
{
    let a_bytes: &[u8] = a.as_bytes();
    let b_bytes: &[u8] = b.as_bytes();
    proof {
        vstd::utf8::encode_utf8_decode_utf8(a@);
        vstd::utf8::encode_utf8_decode_utf8(b@);
    }
    if a_bytes.len() != b_bytes.len() {
        return false;
    }
    let mut index: usize = 0;
    while index < a_bytes.len()
        invariant
            a_bytes@ == vstd::utf8::encode_utf8(a@),
            b_bytes@ == vstd::utf8::encode_utf8(b@),
            a_bytes@.len() == b_bytes@.len(),
            index <= a_bytes@.len(),
            forall|i: int| 0 <= i < index ==> a_bytes@[i] == b_bytes@[i],
        decreases a_bytes@.len() - index,
    {
        if a_bytes[index] != b_bytes[index] {
            return false;
        }
        index = index + 1;
    }
    assert(a_bytes@ =~= b_bytes@);
    true
}

/// Finds the topic with a given name.
pub fn classify_topic(name: &str) -> (topic: Topic)
    ensures
        topic == topic_named(name@),
{
    if is_same_text(name, TOPIC_IMU_STATE) {
        Topic::ImuState
    } else if is_same_text(name, TOPIC_STEREO_CAMERA_INFO) {
        Topic::StereoCameraInfo
    } else if is_same_text(name, TOPIC_VISUAL_ODOMETRY) {
        Topic::VisualOdometry
    } else if is_same_text(name, TOPIC_ROBOT_KINEMATICS) {
        Topic::RobotKinematics
    } else if is_same_text(name, TOPIC_CAMERA_MATRIX) {
        Topic::CameraMatrix
    } else if is_same_text(name, TOPIC_DETECTED_OBJECTS) {
        Topic::DetectedObjects
    } else if is_same_text(name, TOPIC_DETECTED_OBJECTS_ANNOUNCE) {
        Topic::DetectedObjectsAnnounce
    } else if is_same_text(name, TOPIC_FIELD_MARK_ASSOCIATIONS) {
        Topic::FieldMarkAssociations
    } else if is_same_text(name, TOPIC_FIELD_DIMENSIONS) {
        Topic::FieldDimensions
    } else if is_same_text(name, TOPIC_LOCALIZATION) {
        Topic::Localization
    } else if is_same_text(name, TOPIC_CALIBRATED_INTRINSICS) {
        Topic::CalibratedIntrinsics
    } else if is_same_text(name, TOPIC_GLOBAL_LOCALIZATION_DEBUG) {
        Topic::GlobalLocalizationDebug
    } else if is_same_text(name, TOPIC_SOLVE_DIAGNOSTICS) {
        Topic::SolveDiagnostics
    } else if is_same_text(name, TOPIC_STEREO_IMAGE_PAIR) {
        Topic::StereoImagePair
    } else {
        Topic::Other
    }
}

/// A topic is known by its name: each of those that are read has one name, and messages under any
/// other name are of no such topic.
pub proof fn topics_are_known_by_name(name: Seq<char>)
    ensures
        topic_named(name) == Topic::ImuState <==> name == "inputs/imu_state"@,
        topic_named(name) == Topic::StereoImagePair <==> name == "inputs/stereo_image_pair"@,
        topic_named(name) == Topic::StereoCameraInfo <==> name == "inputs/stereo_camera_info"@,
        topic_named(name) == Topic::RobotKinematics <==> name == "robot_kinematics"@,
        topic_named(name) == Topic::CameraMatrix <==> name == "camera_matrix"@,
        topic_named(name) == Topic::DetectedObjects <==> name == "detected_objects"@,
        topic_named(name) == Topic::DetectedObjectsAnnounce <==> name
            == "detected_objects/announce"@,
        topic_named(name) == Topic::FieldMarkAssociations <==> name
            == "field_mark_association/associations"@,
        topic_named(name) == Topic::FieldDimensions <==> name == "field_dimensions"@,
        topic_named(name) == Topic::Localization <==> name == "localization"@,
        topic_named(name) == Topic::VisualOdometry <==> name
            == "visual_odometry/current_left_camera_to_previous_left_camera"@,
        topic_named(name) == Topic::CalibratedIntrinsics <==> name
            == "debug/calibrated_intrinsics"@,
        topic_named(name) == Topic::GlobalLocalizationDebug <==> name
            == "debug/global_localization"@,
        topic_named(name) == Topic::SolveDiagnostics <==> name == "debug/solve_diagnostics"@,
{
    reveal_strlit("inputs/imu_state");
    reveal_strlit("inputs/stereo_image_pair");
    reveal_strlit("inputs/stereo_camera_info");
    reveal_strlit("robot_kinematics");
    reveal_strlit("camera_matrix");
    reveal_strlit("detected_objects");
    reveal_strlit("detected_objects/announce");
    reveal_strlit("field_mark_association/associations");
    reveal_strlit("field_dimensions");
    reveal_strlit("localization");
    reveal_strlit("visual_odometry/current_left_camera_to_previous_left_camera");
    reveal_strlit("debug/calibrated_intrinsics");
    reveal_strlit("debug/global_localization");
    reveal_strlit("debug/solve_diagnostics");
    assert("inputs/imu_state"@.len() == 16);
    assert("inputs/imu_state"@[2] == 'p');
    assert("inputs/stereo_image_pair"@.len() == 24);
    assert("inputs/stereo_camera_info"@.len() == 25);
    assert("inputs/stereo_camera_info"@[2] == 'p');
    assert("robot_kinematics"@.len() == 16);
    assert("robot_kinematics"@[2] == 'b');
    assert("camera_matrix"@.len() == 13);
    assert("detected_objects"@.len() == 16);
    assert("detected_objects"@[2] == 't');
    assert("detected_objects/announce"@.len() == 25);
    assert("detected_objects/announce"@[2] == 't');
    assert("field_mark_association/associations"@.len() == 35);
    assert("field_dimensions"@.len() == 16);
    assert("field_dimensions"@[2] == 'e');
    assert("localization"@.len() == 12);
    assert("visual_odometry/current_left_camera_to_previous_left_camera"@.len() == 59);
    assert("debug/calibrated_intrinsics"@.len() == 27);
    assert("debug/global_localization"@.len() == 25);
    assert("debug/global_localization"@[2] == 'b');
    assert("debug/solve_diagnostics"@.len() == 23);
}

} // verus!
