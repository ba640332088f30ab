use localization_mcap_visualizer::course::ResolveProgress;
use localization_mcap_visualizer::event::StereoImageId;
use localization_mcap_visualizer::images::{CameraImage, StereoFrame};
use localization_mcap_visualizer::interface::{
    camera_matrix_key, choose_pose, global_debug_key, has_enough_features, last_message,
    needs_repaint, plan_scene_update, trace_color, update_camera_key, update_global_debug_key,
    CachedStereoFrame, CameraMatrixKey, CameraMatrixVersion, DrawnState, GlobalDebugVersion,
    PictureAction,
    PictureCache, ResolveMessage, ResolveReports, ResolveUpdate, ResolvedTrajectory, Rgb,
    SceneInputs, SceneUpdate, SceneVersions, SentSwitches, StereoSide, TraceHistory,
};
use localization_mcap_visualizer::scene::{SceneFrameSequence, SceneVersion};
use localization_mcap_visualizer::time::{Time, WallTime};

#[test]
fn pictures_are_decoded_once() {
    let mut cache = PictureCache::new();
    let image = StereoImageId(4);
    assert_eq!(cache.current_frame_index(), 0);

    assert_eq!(cache.show(Some(image)), PictureAction::Decode(image));
    cache.decoded(image, true);
    assert_eq!(cache.show(Some(image)), PictureAction::Keep);
    assert_eq!(cache.current_frame_index(), 4);

    let broken = StereoImageId(5);
    assert_eq!(cache.show(Some(broken)), PictureAction::Decode(broken));
    cache.decoded(broken, false);
    assert_eq!(cache.show(Some(broken)), PictureAction::Keep);
    assert_eq!(cache.show(Some(image)), PictureAction::Decode(image));

    assert_eq!(cache.show(None), PictureAction::Clear);
    assert_eq!(cache, PictureCache { cached: None, failed: None });
}

#[test]
fn either_picture_of_a_pair_can_be_shown() {
    let picture = |width: u32| CameraImage { width, height: 1, rgba: vec![] };
    let cached = CachedStereoFrame {
        image_id: StereoImageId(0),
        frame: StereoFrame {
            sequence: 0,
            source_time: Time::from_nanos(0),
            log_time: WallTime::epoch(),
            publish_time: WallTime::epoch(),
            left: picture(1),
            right: picture(2),
        },
    };

    assert_eq!(cached.active(StereoSide::Left).width, 1);
    assert_eq!(cached.active(StereoSide::Right).width, 2);
}

#[test]
fn camera_matrices_are_told_apart_by_their_times() {
    let key = camera_matrix_key(Some(Time::from_nanos(5)), Some(WallTime { nanos: 7 }));
    assert_eq!(
        key,
        Some(CameraMatrixKey { time_nanos: 5, calibrated_intrinsics_time_nanos: Some(7) })
    );
    assert_eq!(camera_matrix_key(None, Some(WallTime { nanos: 7 })), None);

    let mut state = CameraMatrixVersion { key: None, version: SceneVersion(0) };
    update_camera_key(&mut state, None);
    assert_eq!(state.version, SceneVersion(0));
    update_camera_key(&mut state, key);
    assert_eq!(state.version, SceneVersion(1));
    update_camera_key(&mut state, key);
    assert_eq!(state.version, SceneVersion(1));
    update_camera_key(&mut state, camera_matrix_key(Some(Time::from_nanos(5)), None));
    assert_eq!(state.version, SceneVersion(2));
    update_camera_key(&mut state, None);
    assert_eq!(state.version, SceneVersion(3));
    assert_eq!(state.key, None);
}

#[test]
fn the_global_localization_is_computed_when_its_inputs_change() {
    let matrix = camera_matrix_key(Some(Time::from_nanos(5)), None);
    let revision = SceneVersion(3);
    assert_eq!(global_debug_key(false, None, None, None, revision), None);
    assert!(global_debug_key(true, None, None, None, revision).is_some());
    let key = global_debug_key(false, matrix, Some(WallTime { nanos: 8 }), None, revision);
    assert_eq!(key.and_then(|key| key.detected_objects_time_nanos), Some(8));

    let mut state = GlobalDebugVersion { key: None, version: SceneVersion(0) };
    assert!(!update_global_debug_key(&mut state, None, false));
    assert!(update_global_debug_key(&mut state, key, true));
    assert!(!update_global_debug_key(&mut state, key, true));
    assert!(update_global_debug_key(&mut state, key, false));
    assert_eq!(state.version, SceneVersion(2));
    let moved = global_debug_key(false, matrix, Some(WallTime { nanos: 8 }), None, revision.next());
    assert!(update_global_debug_key(&mut state, moved, true));
    assert!(has_enough_features(3, 0) && !has_enough_features(2, 0));
    assert!(has_enough_features(5, 5) && !has_enough_features(4, 5));
}

#[test]
fn the_first_known_pose_is_chosen() {
    assert_eq!(choose_pose(Some(1), Some(2), Some(3), 4), 1);
    assert_eq!(choose_pose(None, Some(2), Some(3), 4), 2);
    assert_eq!(choose_pose(None, None, Some(3), 4), 3);
    assert_eq!(choose_pose(None, None, None, 4), 4);
}

#[test]
fn a_result_counts_before_a_failure() {
    let progress = ResolveProgress { processed_events: 1, total_events: 2, solve_count: 0 };
    let mut reports = ResolveReports::<u8>::new();
    reports.take(ResolveMessage::Progress(progress));
    assert_eq!(reports.progress, Some(progress));
    assert!(matches!(reports.update(), ResolveUpdate::Running));

    let mut reports = ResolveReports::new();
    reports.take(last_message(Ok(None)));
    reports.take(last_message(Err("no solution".to_string())));
    reports.take(last_message(Ok(Some(7u8))));
    assert!(matches!(reports.update(), ResolveUpdate::Finished(7)));

    let mut reports = ResolveReports::<u8>::new();
    reports.take(last_message(Ok(None)));
    reports.take(last_message(Err("no solution".to_string())));
    match reports.update() {
        ResolveUpdate::Failed(error) => assert_eq!(error, "no solution"),
        other => panic!("unexpected update {other:?}"),
    }

    let mut reports = ResolveReports::<u8>::new();
    reports.take(last_message(Ok(None)));
    assert!(matches!(reports.update(), ResolveUpdate::Cancelled));
}

#[test]
fn kept_trajectories_have_colors_of_their_own() {
    let mut history = TraceHistory::new();
    history.keep("short".to_string(), vec![1]);
    assert!(history.traces.is_empty());
    assert_eq!(history.version, SceneVersion(0));

    history.keep("first".to_string(), vec![1, 2]);
    history.keep("second".to_string(), vec![3, 4]);
    history.touch();
    assert_eq!(history.traces.len(), 2);
    assert_eq!(history.traces[1].label, "second");
    assert_eq!(history.traces[1].color, Rgb { red: 54, green: 162, blue: 235 });
    assert_eq!(history.version, SceneVersion(3));
    history.clear();
    assert!(history.traces.is_empty());
    assert_eq!(history.version, SceneVersion(4));
}

#[test]
fn trace_colors_repeat() {
    let expected = [
        (255, 205, 86),
        (54, 162, 235),
        (255, 99, 132),
        (75, 192, 120),
        (200, 132, 255),
        (255, 159, 64),
        (96, 225, 210),
        (230, 230, 85),
        (170, 210, 255),
        (255, 145, 220),
    ];
    for (place, (red, green, blue)) in expected.into_iter().enumerate() {
        assert_eq!(trace_color(place), Rgb { red, green, blue });
        assert_eq!(trace_color(place + 10), Rgb { red, green, blue });
    }
}

fn settled_scene() -> (SceneVersions, SceneInputs, SentSwitches) {
    let scene = SceneVersions {
        frame: Some(SceneFrameSequence(2)),
        field_dimensions: SceneVersion(1),
        camera: SceneVersion(4),
        recorded_trajectory: SceneVersion(1),
        resolved_trajectory: SceneVersion(5),
        trace_trajectories: SceneVersion(6),
        global_debug: SceneVersion(7),
    };
    let inputs = SceneInputs {
        frame: Some(SceneFrameSequence(2)),
        camera_version: SceneVersion(4),
        resolve_version: SceneVersion(5),
        trace_version: SceneVersion(6),
        global_debug_version: SceneVersion(7),
        show_recorded_trajectory: true,
        show_vo_only: false,
        has_result: true,
    };
    let sent = SentSwitches { show_recorded_trajectory: true, show_vo_only: false };
    (scene, inputs, sent)
}

#[test]
fn a_settled_scene_is_left_alone() {
    let (scene, inputs, sent) = settled_scene();

    assert_eq!(
        plan_scene_update(&scene, &inputs, &sent),
        SceneUpdate {
            field_dimensions: false,
            camera_matrix: false,
            camera_frame: false,
            recorded_trajectory: None,
            resolved_trajectory: None,
            trace_trajectories: false,
            global_debug: false,
        }
    );
}

#[test]
fn turned_switches_set_all_trajectories() {
    let (scene, mut inputs, sent) = settled_scene();
    inputs.show_vo_only = true;

    let update = plan_scene_update(&scene, &inputs, &sent);

    assert_eq!(update.recorded_trajectory, Some(false));
    assert_eq!(update.resolved_trajectory, Some(ResolvedTrajectory::VisualOdometry));
    assert!(update.trace_trajectories);
    assert!(!update.camera_frame && !update.camera_matrix && !update.field_dimensions);

    inputs.show_vo_only = false;
    inputs.show_recorded_trajectory = false;
    let update = plan_scene_update(&scene, &inputs, &sent);
    assert_eq!(update.recorded_trajectory, Some(false));
    assert_eq!(update.resolved_trajectory, Some(ResolvedTrajectory::Solver));
}

#[test]
fn a_new_scene_is_filled() {
    let (_, mut inputs, sent) = settled_scene();
    inputs.has_result = false;
    let scene = SceneVersions {
        frame: None,
        field_dimensions: SceneVersion(0),
        camera: SceneVersion(0),
        recorded_trajectory: SceneVersion(0),
        resolved_trajectory: SceneVersion(0),
        trace_trajectories: SceneVersion(0),
        global_debug: SceneVersion(0),
    };

    assert_eq!(
        plan_scene_update(&scene, &inputs, &sent),
        SceneUpdate {
            field_dimensions: true,
            camera_matrix: true,
            camera_frame: true,
            recorded_trajectory: Some(true),
            resolved_trajectory: Some(ResolvedTrajectory::Nothing),
            trace_trajectories: true,
            global_debug: true,
        }
    );
}

#[test]
fn changes_are_drawn() {
    let before = DrawnState {
        selected_camera: StereoSide::Left,
        resolve_version: SceneVersion(3),
        playing: false,
        use_global_debug_pose: false,
        project_robot_marker: true,
    };
    let changes = [
        DrawnState { selected_camera: StereoSide::Right, ..before },
        DrawnState { resolve_version: SceneVersion(4), ..before },
        DrawnState { playing: true, ..before },
        DrawnState { use_global_debug_pose: true, ..before },
        DrawnState { project_robot_marker: false, ..before },
    ];

    assert!(!needs_repaint(&before, &before, true, true, false));
    assert!(needs_repaint(&before, &before, false, true, false));
    assert!(needs_repaint(&before, &before, true, false, false));
    assert!(needs_repaint(&before, &before, true, true, true));
    for after in changes {
        assert!(needs_repaint(&before, &after, true, true, false));
    }
    let playing = DrawnState { playing: true, ..before };
    assert!(needs_repaint(&playing, &playing, true, true, false));
}
