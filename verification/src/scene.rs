//! What the scene shows, and which parts of it have to be drawn anew.

use crate::images::CameraImage;
use vstd::prelude::*;

verus! {

/// Counts the changes of a part of the scene.
#[derive(Clone, Copy, Debug, PartialEq, Eq, Structural)]
pub struct SceneVersion(pub u64);

impl SceneVersion {
    /// The version after the first change.
    pub fn ready() -> (version: Self)
        ensures
            version == SceneVersion(1),
    {
        SceneVersion(1)
    }

    /// The version after one more change; behind the largest comes zero.
    pub open spec fn next_spec(self) -> Self {
        SceneVersion(
            if self.0 == u64::MAX {
                0
            } else {
                (self.0 + 1) as u64
            },
        )
    }

    /// The version after one more change; behind the largest comes zero.
    pub fn next(self) -> (version: Self)
        ensures
            version == self.next_spec(),
            version != self,
    {
        SceneVersion(self.0.wrapping_add(1))
    }
}

impl Default for SceneVersion {
    fn default() -> (version: Self)
        ensures
            version == SceneVersion(0),
    {
        SceneVersion(0)
    }
}

/// The camera that the scene shows.
#[derive(Clone, Copy, Debug, PartialEq, Eq, Structural)]
pub enum SceneCameraSide {
    Left,
}

/// Names one camera picture.
#[derive(Clone, Copy, Debug, PartialEq, Eq, Structural)]
pub struct SceneFrameSequence(pub u64);

impl SceneFrameSequence {
    /// Names the picture of one camera of a pair.
    pub fn stereo(stereo_sequence: u64, side: SceneCameraSide) -> (sequence: Self)
        requires
            2 * stereo_sequence <= u64::MAX,
        ensures
            sequence.0 == 2 * stereo_sequence,
    {
        let side_offset: u64 = match side {
            SceneCameraSide::Left => 0,
        };
        SceneFrameSequence(stereo_sequence * 2 + side_offset)
    }
}

/// A camera picture with its name.
#[derive(Debug)]
pub struct SceneCameraFrame {
    pub sequence: SceneFrameSequence,
    pub image: CameraImage,
}

/// A trajectory with its color.
#[derive(Debug)]
pub struct SceneTrajectoryTrace<Point, Color> {
    pub trajectory: Vec<Point>,
    pub color: Color,
}

/// What the scene shows. Parts that are expensive to draw have a version.
#[derive(Debug)]
pub struct SceneData<Dimensions, Pose, Kinematics, Matrix, Point, Color, Detail> {
    field_dimensions: Dimensions,
    field_dimensions_version: SceneVersion,
    current_robot_to_field: Option<Pose>,
    project_robot_marker_to_ground: bool,
    robot_kinematics: Option<Kinematics>,
    camera_matrix: Option<Matrix>,
    camera_version: SceneVersion,
    camera_frame: Option<SceneCameraFrame>,
    recorded_trajectory: Vec<Point>,
    recorded_trajectory_version: SceneVersion,
    resolved_trajectory: Vec<Point>,
    resolved_trajectory_version: SceneVersion,
    trace_trajectories: Vec<SceneTrajectoryTrace<Point, Color>>,
    trace_trajectories_version: SceneVersion,
    global_debug: Option<Detail>,
    global_debug_version: SceneVersion,
}

/// The contents of a scene.
pub struct SceneView<Dimensions, Pose, Kinematics, Matrix, Point, Color, Detail> {
    pub field_dimensions: Dimensions,
    pub field_dimensions_version: SceneVersion,
    pub current_robot_to_field: Option<Pose>,
    pub project_robot_marker_to_ground: bool,
    pub robot_kinematics: Option<Kinematics>,
    pub camera_matrix: Option<Matrix>,
    pub camera_version: SceneVersion,
    pub camera_frame: Option<SceneCameraFrame>,
    pub recorded_trajectory: Seq<Point>,
    pub recorded_trajectory_version: SceneVersion,
    pub resolved_trajectory: Seq<Point>,
    pub resolved_trajectory_version: SceneVersion,
    pub trace_trajectories: Seq<SceneTrajectoryTrace<Point, Color>>,
    pub trace_trajectories_version: SceneVersion,
    pub global_debug: Option<Detail>,
    pub global_debug_version: SceneVersion,
}

impl<Dimensions, Pose, Kinematics, Matrix, Point, Color, Detail> View for SceneData<
    Dimensions,
    Pose,
    Kinematics,
    Matrix,
    Point,
    Color,
    Detail,
> {
    type V = SceneView<Dimensions, Pose, Kinematics, Matrix, Point, Color, Detail>;

    closed spec fn view(&self) -> Self::V {
        SceneView {
            field_dimensions: self.field_dimensions,
            field_dimensions_version: self.field_dimensions_version,
            current_robot_to_field: self.current_robot_to_field,
            project_robot_marker_to_ground: self.project_robot_marker_to_ground,
            robot_kinematics: self.robot_kinematics,
            camera_matrix: self.camera_matrix,
            camera_version: self.camera_version,
            camera_frame: self.camera_frame,
            recorded_trajectory: self.recorded_trajectory@,
            recorded_trajectory_version: self.recorded_trajectory_version,
            resolved_trajectory: self.resolved_trajectory@,
            resolved_trajectory_version: self.resolved_trajectory_version,
            trace_trajectories: self.trace_trajectories@,
            trace_trajectories_version: self.trace_trajectories_version,
            global_debug: self.global_debug,
            global_debug_version: self.global_debug_version,
        }
    }
}

impl<Dimensions, Pose, Kinematics, Matrix, Point, Color, Detail> SceneData<
    Dimensions,
    Pose,
    Kinematics,
    Matrix,
    Point,
    Color,
    Detail,
> {
    /// A scene in which nothing has been set.
    pub fn new(field_dimensions: Dimensions) -> (scene: Self)
        ensures
            scene@ == (SceneView::<Dimensions, Pose, Kinematics, Matrix, Point, Color, Detail> {
                field_dimensions,
                field_dimensions_version: SceneVersion(0),
                current_robot_to_field: None,
                project_robot_marker_to_ground: false,
                robot_kinematics: None,
                camera_matrix: None,
                camera_version: SceneVersion(0),
                camera_frame: None,
                recorded_trajectory: Seq::empty(),
                recorded_trajectory_version: SceneVersion(0),
                resolved_trajectory: Seq::empty(),
                resolved_trajectory_version: SceneVersion(0),
                trace_trajectories: Seq::empty(),
                trace_trajectories_version: SceneVersion(0),
                global_debug: None,
                global_debug_version: SceneVersion(0),
            }),
    {
        SceneData {
            field_dimensions,
            field_dimensions_version: SceneVersion(0),
            current_robot_to_field: None,
            project_robot_marker_to_ground: false,
            robot_kinematics: None,
            camera_matrix: None,
            camera_version: SceneVersion(0),
            camera_frame: None,
            recorded_trajectory: Vec::new(),
            recorded_trajectory_version: SceneVersion(0),
            resolved_trajectory: Vec::new(),
            resolved_trajectory_version: SceneVersion(0),
            trace_trajectories: Vec::new(),
            trace_trajectories_version: SceneVersion(0),
            global_debug: None,
            global_debug_version: SceneVersion(0),
        }
    }

    /// The name of the picture that is shown.
    pub fn camera_frame_sequence(&self) -> (sequence: Option<SceneFrameSequence>)
        ensures
            sequence == frame_sequence(self@.camera_frame),
    {
        match &self.camera_frame {
            Some(frame) => Some(frame.sequence),
            None => None,
        }
    }

    /// The version of the field dimensions.
    pub fn field_dimensions_version(&self) -> (version: SceneVersion)
        ensures
            version == self@.field_dimensions_version,
    {
        self.field_dimensions_version
    }

    /// The version of the camera matrix.
    pub fn camera_version(&self) -> (version: SceneVersion)
        ensures
            version == self@.camera_version,
    {
        self.camera_version
    }

    /// The version of the recorded trajectory.
    pub fn recorded_trajectory_version(&self) -> (version: SceneVersion)
        ensures
            version == self@.recorded_trajectory_version,
    {
        self.recorded_trajectory_version
    }

    /// The version of the resolved trajectory.
    pub fn resolved_trajectory_version(&self) -> (version: SceneVersion)
        ensures
            version == self@.resolved_trajectory_version,
    {
        self.resolved_trajectory_version
    }

    /// The version of the kept trajectories.
    pub fn trace_trajectories_version(&self) -> (version: SceneVersion)
        ensures
            version == self@.trace_trajectories_version,
    {
        self.trace_trajectories_version
    }

    /// The version of the state of the global localization.
    pub fn global_debug_version(&self) -> (version: SceneVersion)
        ensures
            version == self@.global_debug_version,
    {
        self.global_debug_version
    }

    /// The field dimensions.
    pub fn field_dimensions(&self) -> (value: &Dimensions)
        ensures
            *value == self@.field_dimensions,
    {
        &self.field_dimensions
    }

    /// The pose of the robot, where it is known.
    pub fn current_robot_to_field(&self) -> (value: Option<&Pose>)
        ensures
            value == (match self@.current_robot_to_field {
                Some(value) => Some(&value),
                None => None,
            }),
    {
        match &self.current_robot_to_field {
            Some(value) => Some(value),
            None => None,
        }
    }

    /// The kinematics of the robot, where it is known.
    pub fn robot_kinematics(&self) -> (value: Option<&Kinematics>)
        ensures
            value == (match self@.robot_kinematics {
                Some(value) => Some(&value),
                None => None,
            }),
    {
        match &self.robot_kinematics {
            Some(value) => Some(value),
            None => None,
        }
    }

    /// The camera matrix, where it is known.
    pub fn camera_matrix(&self) -> (value: Option<&Matrix>)
        ensures
            value == (match self@.camera_matrix {
                Some(value) => Some(&value),
                None => None,
            }),
    {
        match &self.camera_matrix {
            Some(value) => Some(value),
            None => None,
        }
    }

    /// The state of the global localization, where it is known.
    pub fn global_debug(&self) -> (value: Option<&Detail>)
        ensures
            value == (match self@.global_debug {
                Some(value) => Some(&value),
                None => None,
            }),
    {
        match &self.global_debug {
            Some(value) => Some(value),
            None => None,
        }
    }

    /// The recorded trajectory.
    pub fn recorded_trajectory(&self) -> (value: &[Point])
        ensures
            value@ == self@.recorded_trajectory,
    {
        self.recorded_trajectory.as_slice()
    }

    /// The resolved trajectory.
    pub fn resolved_trajectory(&self) -> (value: &[Point])
        ensures
            value@ == self@.resolved_trajectory,
    {
        self.resolved_trajectory.as_slice()
    }

    /// The kept trajectories.
    pub fn trace_trajectories(&self) -> (value: &[SceneTrajectoryTrace<Point, Color>])
        ensures
            value@ == self@.trace_trajectories,
    {
        self.trace_trajectories.as_slice()
    }

    /// Whether the marker that stands for the robot is turned upright on the ground.
    pub fn project_robot_marker_to_ground(&self) -> (value: bool)
        ensures
            value == self@.project_robot_marker_to_ground,
    {
        self.project_robot_marker_to_ground
    }

    /// Sets the field dimensions.
    pub fn set_field_dimensions(&mut self, field_dimensions: Dimensions)
        ensures
            final(self)@ == (SceneView {
                field_dimensions: field_dimensions,
                field_dimensions_version: old(self)@.field_dimensions_version.next_spec(),
                ..old(self)@
            }),
            final(self)@.field_dimensions_version != old(self)@.field_dimensions_version,
    {
        self.field_dimensions = field_dimensions;
        self.field_dimensions_version = self.field_dimensions_version.next();
    }

    /// Sets the pose of the robot.
    pub fn set_current_robot_to_field(&mut self, current_robot_to_field: Option<Pose>)
        ensures
            final(self)@ == (SceneView {
                current_robot_to_field: current_robot_to_field,
                ..old(self)@
            }),
    {
        self.current_robot_to_field = current_robot_to_field;
    }

    /// Sets the way in which the marker is turned.
    pub fn set_project_robot_marker_to_ground(&mut self, project_to_ground: bool)
        ensures
            final(self)@ == (SceneView {
                project_robot_marker_to_ground: project_to_ground,
                ..old(self)@
            }),
    {
        self.project_robot_marker_to_ground = project_to_ground;
    }

    /// Sets the kinematics of the robot.
    pub fn set_robot_kinematics(&mut self, robot_kinematics: Option<Kinematics>)
        ensures
            final(self)@ == (SceneView {
                robot_kinematics: robot_kinematics,
                ..old(self)@
            }),
    {
        self.robot_kinematics = robot_kinematics;
    }

    /// Sets the camera matrix.
    pub fn set_camera_matrix(&mut self, camera_matrix: Option<Matrix>)
        ensures
            final(self)@ == (SceneView {
                camera_matrix: camera_matrix,
                camera_version: old(self)@.camera_version.next_spec(),
                ..old(self)@
            }),
            final(self)@.camera_version != old(self)@.camera_version,
    {
        self.camera_matrix = camera_matrix;
        self.camera_version = self.camera_version.next();
    }

    /// Sets the picture that is shown.
    pub fn set_camera_frame(&mut self, camera_frame: Option<SceneCameraFrame>)
        ensures
            final(self)@ == (SceneView {
                camera_frame: camera_frame,
                ..old(self)@
            }),
    {
        self.camera_frame = camera_frame;
    }

    /// Sets the recorded trajectory.
    pub fn set_recorded_trajectory(&mut self, trajectory: Vec<Point>)
        ensures
            final(self)@ == (SceneView {
                recorded_trajectory: trajectory@,
                recorded_trajectory_version: old(self)@.recorded_trajectory_version.next_spec(),
                ..old(self)@
            }),
            final(self)@.recorded_trajectory_version != old(self)@.recorded_trajectory_version,
    {
        self.recorded_trajectory = trajectory;
        self.recorded_trajectory_version = self.recorded_trajectory_version.next();
    }

    /// Sets the resolved trajectory.
    pub fn set_resolved_trajectory(&mut self, trajectory: Vec<Point>)
        ensures
            final(self)@ == (SceneView {
                resolved_trajectory: trajectory@,
                resolved_trajectory_version: old(self)@.resolved_trajectory_version.next_spec(),
                ..old(self)@
            }),
            final(self)@.resolved_trajectory_version != old(self)@.resolved_trajectory_version,
    {
        self.resolved_trajectory = trajectory;
        self.resolved_trajectory_version = self.resolved_trajectory_version.next();
    }

    /// Sets the kept trajectories.
    pub fn set_trace_trajectories(&mut self, trajectories: Vec<SceneTrajectoryTrace<Point, Color>>)
        ensures
            final(self)@ == (SceneView {
                trace_trajectories: trajectories@,
                trace_trajectories_version: old(self)@.trace_trajectories_version.next_spec(),
                ..old(self)@
            }),
            final(self)@.trace_trajectories_version != old(self)@.trace_trajectories_version,
    {
        self.trace_trajectories = trajectories;
        self.trace_trajectories_version = self.trace_trajectories_version.next();
    }

    /// Sets the state of the global localization.
    pub fn set_global_debug(&mut self, global_debug: Option<Detail>)
        ensures
            final(self)@ == (SceneView {
                global_debug: global_debug,
                global_debug_version: old(self)@.global_debug_version.next_spec(),
                ..old(self)@
            }),
            final(self)@.global_debug_version != old(self)@.global_debug_version,
    {
        self.global_debug = global_debug;
        self.global_debug_version = self.global_debug_version.next();
    }

    /// Whether the marker that stands for the robot is shown: where its pose is known and its
    /// links are not.
    pub fn shows_robot_marker(&self) -> (shown: bool)
        ensures
            shown == (self@.robot_kinematics is None && self@.current_robot_to_field is Some),
    {
        self.robot_kinematics.is_none() && self.current_robot_to_field.is_some()
    }

    /// Whether the links of the robot are shown: where its pose and its kinematics are known.
    pub fn shows_robot_links(&self) -> (shown: bool)
        ensures
            shown == (self@.robot_kinematics is Some && self@.current_robot_to_field is Some),
    {
        self.robot_kinematics.is_some() && self.current_robot_to_field.is_some()
    }

    /// What becomes of the view of the camera, given the geometry for which it was drawn last.
    pub fn camera_viewport(&self, drawn: CameraGeometry) -> (change: ViewportChange)
        ensures
            change == viewport_change(
                self@.camera_matrix is Some,
                self@.current_robot_to_field is Some,
                drawn,
                CameraGeometry {
                    version: self@.camera_version,
                    sequence: frame_sequence(self@.camera_frame),
                },
            ),
    {
        if self.camera_matrix.is_none() {
            return ViewportChange::Hide;
        }
        if self.current_robot_to_field.is_none() {
            return ViewportChange::Leave;
        }
        let geometry = CameraGeometry {
            version: self.camera_version,
            sequence: self.camera_frame_sequence(),
        };
        ViewportChange::Show { rebuild: drawn != geometry, geometry }
    }

    /// The picture that has to be uploaded, given the one that was uploaded last.
    pub fn new_camera_picture(&self, uploaded: Option<SceneFrameSequence>) -> (picture: Option<
        &SceneCameraFrame,
    >)
        ensures
            picture == (match self@.camera_frame {
                Some(frame) if uploaded != Some(frame.sequence) => Some(&frame),
                _ => None,
            }),
    {
        match &self.camera_frame {
            Some(frame) => {
                let is_uploaded = match uploaded {
                    Some(sequence) => sequence == frame.sequence,
                    None => false,
                };
                if is_uploaded {
                    None
                } else {
                    Some(frame)
                }
            },
            None => None,
        }
    }
}

/// The name of the picture in a frame.
pub open spec fn frame_sequence(frame: Option<SceneCameraFrame>) -> Option<SceneFrameSequence> {
    match frame {
        Some(frame) => Some(frame.sequence),
        None => None,
    }
}

/// The inputs for which the view of the camera is drawn.
#[derive(Clone, Copy, Debug, PartialEq, Eq, Structural)]
pub struct CameraGeometry {
    pub version: SceneVersion,
    pub sequence: Option<SceneFrameSequence>,
}

impl Default for CameraGeometry {
    fn default() -> (geometry: Self)
        ensures
            geometry == (CameraGeometry { version: SceneVersion(0), sequence: None }),
    {
        CameraGeometry { version: SceneVersion(0), sequence: None }
    }
}

/// What becomes of the view of the camera.
#[derive(Clone, Copy, Debug, PartialEq, Eq, Structural)]
pub enum ViewportChange {
    Hide,
    /// It stays as it is.
    Leave,
    /// It is shown, and drawn anew where its geometry has changed.
    Show { rebuild: bool, geometry: CameraGeometry },
}

/// What becomes of the view of the camera: it is hidden without a camera matrix and stays as it is
/// without a pose.
pub open spec fn viewport_change(
    has_matrix: bool,
    has_pose: bool,
    drawn: CameraGeometry,
    geometry: CameraGeometry,
) -> ViewportChange {
    if !has_matrix {
        ViewportChange::Hide
    } else if !has_pose {
        ViewportChange::Leave
    } else {
        ViewportChange::Show { rebuild: drawn != geometry, geometry }
    }
}

/// The view of the camera is hidden exactly without a camera matrix. It stays as it is exactly with
/// one and without a pose. Else it is shown for the geometry at hand, and drawn anew exactly if it
/// was drawn for another camera matrix or another picture.
pub proof fn views_are_drawn_when_geometry_changes(
    has_matrix: bool,
    has_pose: bool,
    drawn: CameraGeometry,
    geometry: CameraGeometry,
)
    ensures
        ({
            let change = viewport_change(has_matrix, has_pose, drawn, geometry);
            &&& change is Hide <==> !has_matrix
            &&& change is Leave <==> has_matrix && !has_pose
            &&& change is Show ==> change->geometry == geometry
            &&& change is Show ==> (change->rebuild <==> drawn.version != geometry.version
                || drawn.sequence != geometry.sequence)
        }),
{
}

/// Every change gives another version, and no version comes twice until all have come.
pub proof fn versions_count_changes(version: SceneVersion, other: SceneVersion)
    ensures
        version.next_spec() != version,
        version.next_spec() == other.next_spec() <==> version == other,
        version.0 < u64::MAX ==> version.next_spec().0 == version.0 + 1,
        version.0 == u64::MAX ==> version.next_spec().0 == 0,
{
}

/// The name of a frame is that of its picture.
pub proof fn frames_are_named_after_their_picture(frame: SceneCameraFrame)
    ensures
        frame_sequence(Some(frame)) == Some(frame.sequence),
        frame_sequence(None) is None,
{
}

} // verus!
