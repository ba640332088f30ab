use localization_mcap_visualizer::labels::{
    apply_component_preset, component_trace_label, ComponentPreset,
};
use localization_mcap_visualizer::replay::{
    backend_config, replay_numbers, replay_parameters, ReplayNumbers, ReplayParameters,
    ReplayRequest, TimestampMode,
};

fn no_request() -> ReplayRequest<f64, f32> {
    ReplayRequest {
        recompute_global_features: false,
        no_visual_odometry: false,
        no_global_features: false,
        no_imu: false,
        no_foot_heights: false,
        pose_hint_min_features: None,
        visual_odometry_covariance: None,
        max_visual_odometry_translation: None,
        max_visual_odometry_rotation: None,
        pose_hint_noise: None,
        visual_noise: None,
        recovery_frames: None,
        recovery_max_distance: None,
        recovery_max_angle: None,
        global_rms_threshold: None,
        global_min_inliers: None,
        pose_hint_healthy_rmse: None,
        pose_hint_margin: None,
    }
}

fn default_numbers() -> ReplayNumbers<f64, f32> {
    ReplayNumbers {
        visual_odometry_covariance: 0.01,
        max_visual_odometry_translation: None,
        max_visual_odometry_rotation: None,
        pose_hint_visual_feature_noise_variance: 2.0,
        visual_feature_noise_variance: 3.0,
        recovery_frames: 4,
        recovery_max_pose_distance: 5.0,
        recovery_max_pose_angle: 6.0,
        rms_threshold: 7.0,
        min_inliers: 8,
        healthy_max_rmse_px: 9.0,
        second_best_reprojection_margin_px: 10.0,
    }
}

#[test]
fn defaults_replay_everything() {
    let parameters = ReplayParameters::default();

    assert_eq!(parameters.timestamp_mode, TimestampMode::Embedded);
    assert_eq!(parameters.optimizer_iterations, 5);
    assert_eq!(parameters.pose_hint_visual_min_features_per_frame, 3);
    assert!(parameters.include_visual_odometry && parameters.include_global_features);
    assert!(parameters.include_imu && parameters.include_foot_heights);
    assert!(!parameters.recompute_global_features);
    assert_eq!(replay_parameters(&no_request()), parameters);
}

#[test]
fn requests_change_the_defaults() {
    let request = ReplayRequest {
        recompute_global_features: true,
        visual_odometry_covariance: Some(0.5),
        no_visual_odometry: true,
        no_imu: true,
        pose_hint_min_features: Some(7),
        ..no_request()
    };

    assert_eq!(
        replay_parameters(&request),
        ReplayParameters {
            recompute_global_features: true,
            override_visual_odometry_covariance: true,
            include_visual_odometry: false,
            include_imu: false,
            pose_hint_visual_min_features_per_frame: 7,
            ..ReplayParameters::default()
        }
    );
    let request =
        ReplayRequest { no_global_features: true, no_foot_heights: true, ..no_request() };
    assert_eq!(
        replay_parameters(&request),
        ReplayParameters {
            include_global_features: false,
            include_foot_heights: false,
            ..ReplayParameters::default()
        }
    );
}

#[test]
fn orientation_only_leaves_out_the_rest() {
    let parameters = ReplayParameters::orientation_only();

    assert!(parameters.include_imu);
    assert!(!parameters.include_visual_odometry);
    assert!(!parameters.include_global_features);
    assert!(!parameters.include_foot_heights);
    assert!(!parameters.include_imu_kinematics);
    assert_eq!(
        parameters,
        ReplayParameters {
            include_visual_odometry: false,
            include_global_features: false,
            include_foot_heights: false,
            include_imu_kinematics: false,
            ..ReplayParameters::default()
        }
    );
    let switches = backend_config(&parameters);
    assert!(switches.use_imu_roll_pitch && switches.use_imu_yaw);
    assert!(!switches.use_imu_kinematics);
}

#[test]
fn each_number_can_be_asked_for() {
    assert_eq!(replay_numbers(default_numbers(), &no_request()), default_numbers());
    let request = ReplayRequest {
        visual_odometry_covariance: Some(0.5),
        max_visual_odometry_translation: Some(11.0),
        max_visual_odometry_rotation: Some(12.0),
        pose_hint_noise: Some(13.0),
        visual_noise: Some(14.0),
        recovery_frames: Some(15),
        recovery_max_distance: Some(16.0),
        recovery_max_angle: Some(17.0),
        global_rms_threshold: Some(18.0),
        global_min_inliers: Some(19),
        pose_hint_healthy_rmse: Some(20.0),
        pose_hint_margin: Some(21.0),
        ..no_request()
    };

    assert_eq!(
        replay_numbers(default_numbers(), &request),
        ReplayNumbers {
            visual_odometry_covariance: 0.5,
            max_visual_odometry_translation: Some(11.0),
            max_visual_odometry_rotation: Some(12.0),
            pose_hint_visual_feature_noise_variance: 13.0,
            visual_feature_noise_variance: 14.0,
            recovery_frames: 15,
            recovery_max_pose_distance: 16.0,
            recovery_max_pose_angle: 17.0,
            rms_threshold: 18.0,
            min_inliers: 19,
            healthy_max_rmse_px: 20.0,
            second_best_reprojection_margin_px: 21.0,
        }
    );
}

#[test]
fn an_option_changes_its_own_setting_alone() {
    let request = ReplayRequest { recovery_frames: Some(0), ..no_request() };
    assert_eq!(replay_parameters(&request), ReplayParameters::default());
    assert_eq!(
        replay_numbers(default_numbers(), &request),
        ReplayNumbers { recovery_frames: 1, ..default_numbers() }
    );

    let request = ReplayRequest { global_min_inliers: Some(0), ..no_request() };
    assert_eq!(replay_parameters(&request), ReplayParameters::default());
    assert_eq!(
        replay_numbers(default_numbers(), &request),
        ReplayNumbers { min_inliers: 0, ..default_numbers() }
    );

    let request = ReplayRequest { visual_odometry_covariance: Some(0.25), ..no_request() };
    assert_eq!(
        replay_parameters(&request),
        ReplayParameters {
            override_visual_odometry_covariance: true,
            ..ReplayParameters::default()
        }
    );
    assert_eq!(
        replay_numbers(default_numbers(), &request),
        ReplayNumbers { visual_odometry_covariance: 0.25, ..default_numbers() }
    );

    let request = ReplayRequest { no_imu: true, ..no_request() };
    assert_eq!(
        replay_parameters(&request),
        ReplayParameters { include_imu: false, ..ReplayParameters::default() }
    );
    assert_eq!(replay_numbers(default_numbers(), &request), default_numbers());
}

#[test]
fn the_backend_iterates_at_least_once() {
    let parameters = ReplayParameters {
        optimizer_iterations: 0,
        include_imu: false,
        ..ReplayParameters::default()
    };

    let switches = backend_config(&parameters);

    assert_eq!(switches.optimizer_max_iterations, 1);
    assert!(!switches.use_imu_kinematics && !switches.use_imu_roll_pitch);
    assert!(!switches.use_imu_yaw && !switches.use_current_spline_orientation);
    let switches = backend_config(&ReplayParameters::default());
    assert_eq!(switches.optimizer_max_iterations, 5);
    assert!(switches.use_imu_kinematics && switches.use_imu_yaw);
    assert!(!switches.override_visual_odometry_noise);
}

#[test]
fn presets_select_parts() {
    let mut parameters = ReplayParameters::default();

    assert!(!apply_component_preset(&mut parameters, ComponentPreset::VisualOdometryOnly));
    assert!(parameters.include_visual_odometry && !parameters.include_imu);
    assert!(!parameters.include_global_features && !parameters.include_foot_heights);
    assert_eq!(component_trace_label(&parameters, false, false), "VO");

    assert!(apply_component_preset(&mut parameters, ComponentPreset::VisualAssociationsOnly));
    assert_eq!(component_trace_label(&parameters, true, false), "visual+hint");

    assert!(!apply_component_preset(&mut parameters, ComponentPreset::ImuYawOnly));
    assert!(parameters.include_imu && parameters.include_imu_yaw);
    assert!(!parameters.include_imu_roll_pitch);
    assert_eq!(component_trace_label(&parameters, false, false), "IMU[yaw]");

    assert!(apply_component_preset(&mut parameters, ComponentPreset::Full));
    assert_eq!(parameters, ReplayParameters::default());
}

#[test]
fn results_are_named_by_their_parts() {
    let parameters = ReplayParameters::default();

    assert_eq!(
        component_trace_label(&parameters, true, false),
        "VO + visual+hint + IMU[rp,yaw,cur,kin] + foot"
    );
    assert_eq!(
        component_trace_label(&parameters, false, false),
        "VO + global + IMU[rp,yaw,cur,kin] + foot"
    );
    assert_eq!(component_trace_label(&parameters, true, true), "raw VO");
    let nothing = ReplayParameters {
        include_visual_odometry: false,
        include_global_features: false,
        include_imu_roll_pitch: false,
        include_imu_yaw: false,
        include_current_spline_orientation: false,
        include_imu_kinematics: false,
        include_foot_heights: false,
        ..parameters
    };
    assert_eq!(component_trace_label(&nothing, true, false), "prior only");
}
