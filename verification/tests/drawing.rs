use localization_mcap_visualizer::images::CameraImage;
use localization_mcap_visualizer::joints::{BodyJoints, HeadJoints, Joints};
use localization_mcap_visualizer::mesh::{
    arc_segments, parse_binary_stl, trajectory_lines, FieldMarkingMesh, StlError,
    TrajectoryVertex, VectorBits,
};
use localization_mcap_visualizer::scene::{
    CameraGeometry, SceneCameraFrame, SceneCameraSide, SceneData, SceneFrameSequence,
    SceneTrajectoryTrace, SceneVersion, ViewportChange,
};

type Scene = SceneData<u8, u16, u32, u64, i8, i16, i32>;

fn stl(triangles: &[[f32; 12]], claimed: u32) -> Vec<u8> {
    let mut bytes = vec![0; 80];
    bytes.extend_from_slice(&claimed.to_le_bytes());
    for triangle in triangles {
        for number in triangle {
            bytes.extend_from_slice(&number.to_le_bytes());
        }
        bytes.extend_from_slice(&[0, 0]);
    }
    bytes
}

#[test]
fn triangles_are_read_from_a_file() {
    let mut numbers = [0.0; 12];
    for (place, number) in numbers.iter_mut().enumerate() {
        *number = place as f32 + 0.5;
    }

    let triangles = parse_binary_stl(&stl(&[numbers, numbers], 2)).expect("the file is whole");

    let bits = |x: f32, y: f32, z: f32| VectorBits { x: x.to_bits(), y: y.to_bits(), z: z.to_bits() };
    assert_eq!(triangles.len(), 2);
    assert_eq!(triangles[1].normal, bits(0.5, 1.5, 2.5));
    assert_eq!(triangles[1].first, bits(3.5, 4.5, 5.5));
    assert_eq!(triangles[1].second, bits(6.5, 7.5, 8.5));
    assert_eq!(triangles[1].third, bits(9.5, 10.5, 11.5));
}

#[test]
fn incomplete_files_are_refused() {
    assert_eq!(parse_binary_stl(&[0; 83]), Err(StlError::TooShort));
    assert_eq!(
        parse_binary_stl(&stl(&[[0.0; 12]], 2)),
        Err(StlError::MissingTriangles { expected_length: 184, triangle_count: 2, length: 134 })
    );
    assert_eq!(parse_binary_stl(&stl(&[[0.0; 12]], 0)), Ok(vec![]));
}

#[test]
fn shapes_are_made_of_triangles() {
    let mut mesh = FieldMarkingMesh::new();
    mesh.add_quad(['a', 'b', 'c', 'd']);
    mesh.add_triangle(['e', 'f', 'g']);

    assert_eq!(mesh.positions, vec!['a', 'b', 'c', 'd', 'e', 'f', 'g']);
    assert_eq!(mesh.indices, vec![0, 1, 2, 0, 2, 3, 4, 5, 6]);
}

#[test]
fn arcs_have_a_bounded_number_of_segments() {
    assert_eq!(arc_segments(0), arc_segments(1));
    assert!(arc_segments(0) < arc_segments(usize::MAX));
    assert_eq!(arc_segments(arc_segments(0) + 1), arc_segments(0) + 1);
}

#[test]
fn lines_join_points_of_one_segment() {
    let vertex = |segment_id: u64, nanos: i128| TrajectoryVertex { segment_id, nanos };

    assert_eq!(
        trajectory_lines(&[
            vertex(0, 0),
            vertex(0, 100_000_000),
            vertex(1, 200_000_000),
            vertex(1, 700_000_001),
            vertex(1, 1_200_000_001),
        ]),
        vec![1, 4]
    );
    assert_eq!(trajectory_lines(&[]), Vec::<usize>::new());
}

#[test]
fn setting_a_part_of_the_scene_changes_its_version() {
    let mut scene = Scene::new(1);
    scene.set_field_dimensions(2);
    scene.set_camera_matrix(Some(3));
    scene.set_camera_matrix(None);
    scene.set_recorded_trajectory(vec![4]);
    scene.set_resolved_trajectory(vec![5, 6]);
    scene.set_trace_trajectories(vec![SceneTrajectoryTrace { trajectory: vec![7], color: 8 }]);
    scene.set_global_debug(Some(9));
    scene.set_project_robot_marker_to_ground(true);

    assert_eq!(*scene.field_dimensions(), 2);
    assert_eq!(scene.field_dimensions_version(), SceneVersion::ready());
    assert_eq!(scene.camera_version(), SceneVersion(2));
    assert_eq!(scene.camera_matrix(), None);
    assert_eq!(scene.recorded_trajectory(), [4].as_slice());
    assert_eq!(scene.recorded_trajectory_version(), SceneVersion(1));
    assert_eq!(scene.resolved_trajectory(), [5, 6].as_slice());
    assert_eq!(scene.resolved_trajectory_version(), SceneVersion(1));
    assert_eq!(scene.trace_trajectories()[0].color, 8);
    assert_eq!(scene.trace_trajectories_version(), SceneVersion(1));
    assert_eq!(scene.global_debug(), Some(&9));
    assert_eq!(scene.global_debug_version(), SceneVersion(1));
    assert!(scene.project_robot_marker_to_ground());
    assert_eq!(SceneVersion(u64::MAX).next(), SceneVersion::default());
}

#[test]
fn the_robot_is_shown_by_its_links_where_they_are_known() {
    let mut scene = Scene::new(1);
    assert!(!scene.shows_robot_marker() && !scene.shows_robot_links());

    scene.set_current_robot_to_field(Some(5));
    assert!(scene.shows_robot_marker() && !scene.shows_robot_links());
    assert_eq!(scene.current_robot_to_field(), Some(&5));

    scene.set_robot_kinematics(Some(6));
    assert!(!scene.shows_robot_marker() && scene.shows_robot_links());
    assert_eq!(scene.robot_kinematics(), Some(&6));
}

#[test]
fn the_camera_view_is_drawn_anew_when_its_geometry_changes() {
    let mut scene = Scene::new(1);
    let drawn = CameraGeometry::default();
    assert_eq!(scene.camera_viewport(drawn), ViewportChange::Hide);

    scene.set_camera_matrix(Some(3));
    assert_eq!(scene.camera_viewport(drawn), ViewportChange::Leave);

    scene.set_current_robot_to_field(Some(5));
    let sequence = SceneFrameSequence::stereo(4, SceneCameraSide::Left);
    let image = CameraImage { width: 0, height: 0, rgba: vec![] };
    scene.set_camera_frame(Some(SceneCameraFrame { sequence, image }));
    let geometry = CameraGeometry { version: SceneVersion(1), sequence: Some(sequence) };
    assert_eq!(
        scene.camera_viewport(drawn),
        ViewportChange::Show { rebuild: true, geometry }
    );
    assert_eq!(
        scene.camera_viewport(geometry),
        ViewportChange::Show { rebuild: false, geometry }
    );
    assert_eq!(sequence, SceneFrameSequence(8));
    assert_eq!(scene.camera_frame_sequence(), Some(sequence));
    assert!(scene.new_camera_picture(None).is_some());
    assert!(scene.new_camera_picture(Some(sequence)).is_none());
}

#[test]
fn joints_are_read_from_a_list() {
    let angles: Vec<f32> = (0..26).map(|angle| angle as f32).collect();

    let joints = Joints::from_angles(&angles);

    assert_eq!((joints.head.yaw, joints.head.pitch), (0.0, 1.0));
    assert_eq!(joints.left_arm.shoulder_pitch, 2.0);
    assert_eq!(joints.right_arm.elbow, 9.0);
    let head = HeadJoints::from(joints);
    assert_eq!(head.pitch, 1.0);
    let doubled = joints.map(&|angle: f32| angle * 2.0);
    assert_eq!(doubled.right_arm.elbow, 18.0);
    let sum = joints.zip(doubled, &|left: f32, right: f32| left + right);
    assert_eq!(sum.left_arm.shoulder_pitch, 6.0);
    let body = BodyJoints::from(sum);
    assert_eq!(body.right_arm.elbow, 27.0);
}
