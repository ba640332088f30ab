//! Joint positions of the robot, with any kind of number for an angle.

use vstd::prelude::*;
use vstd::std_specs::convert::FromSpec;

verus! {

/// Angles of the joints in a list of a whole robot.
pub const ANGLE_COUNT: usize = 26;

/// The joints of the head.
#[derive(Clone, Copy, Debug)]
pub struct HeadJoints<A> {
    pub yaw: A,
    pub pitch: A,
}

impl<A: Copy> HeadJoints<A> {
    /// Whether `change` takes every angle to that of `changed`.
    pub open spec fn is_mapped<B, F: Fn(A) -> B>(self, change: F, changed: HeadJoints<B>) -> bool {
        &&& call_ensures(change, (self.yaw,), changed.yaw)
        &&& call_ensures(change, (self.pitch,), changed.pitch)
    }

    /// Whether `combine` takes every angle and that of `right` to that of `combined`.
    pub open spec fn is_zipped<F: Fn(A, A) -> A>(
        self,
        right: Self,
        combine: F,
        combined: Self,
    ) -> bool {
        &&& call_ensures(combine, (self.yaw, right.yaw), combined.yaw)
        &&& call_ensures(combine, (self.pitch, right.pitch), combined.pitch)
    }

    /// Changes every angle.
    pub fn map<B, F: Fn(A) -> B>(self, change: &F) -> (changed: HeadJoints<B>)
        requires
            forall|angle: A| call_requires(change, (angle,)),
        ensures
            self.is_mapped(*change, changed),
    {
        HeadJoints {
            yaw: change(self.yaw),
            pitch: change(self.pitch),
        }
    }

    /// Combines every angle with the same one of `right`.
    pub fn zip<F: Fn(A, A) -> A>(self, right: Self, combine: &F) -> (combined: Self)
        requires
            forall|angle: A, other: A| call_requires(combine, (angle, other)),
        ensures
            self.is_zipped(right, *combine, combined),
    {
        HeadJoints {
            yaw: combine(self.yaw, right.yaw),
            pitch: combine(self.pitch, right.pitch),
        }
    }
}

/// The joints of one arm.
#[derive(Clone, Copy, Debug)]
pub struct ArmJoints<A> {
    pub shoulder_pitch: A,
    pub shoulder_roll: A,
    pub shoulder_yaw: A,
    pub elbow: A,
}

impl<A: Copy> ArmJoints<A> {
    /// Whether `change` takes every angle to that of `changed`.
    pub open spec fn is_mapped<B, F: Fn(A) -> B>(self, change: F, changed: ArmJoints<B>) -> bool {
        &&& call_ensures(change, (self.shoulder_pitch,), changed.shoulder_pitch)
        &&& call_ensures(change, (self.shoulder_roll,), changed.shoulder_roll)
        &&& call_ensures(change, (self.shoulder_yaw,), changed.shoulder_yaw)
        &&& call_ensures(change, (self.elbow,), changed.elbow)
    }

    /// Whether `combine` takes every angle and that of `right` to that of `combined`.
    pub open spec fn is_zipped<F: Fn(A, A) -> A>(
        self,
        right: Self,
        combine: F,
        combined: Self,
    ) -> bool {
        &&& call_ensures(
            combine,
            (self.shoulder_pitch, right.shoulder_pitch),
            combined.shoulder_pitch,
        )
        &&& call_ensures(combine, (self.shoulder_roll, right.shoulder_roll), combined.shoulder_roll)
        &&& call_ensures(combine, (self.shoulder_yaw, right.shoulder_yaw), combined.shoulder_yaw)
        &&& call_ensures(combine, (self.elbow, right.elbow), combined.elbow)
    }

    /// Changes every angle.
    pub fn map<B, F: Fn(A) -> B>(self, change: &F) -> (changed: ArmJoints<B>)
        requires
            forall|angle: A| call_requires(change, (angle,)),
        ensures
            self.is_mapped(*change, changed),
    {
        ArmJoints {
            shoulder_pitch: change(self.shoulder_pitch),
            shoulder_roll: change(self.shoulder_roll),
            shoulder_yaw: change(self.shoulder_yaw),
            elbow: change(self.elbow),
        }
    }

    /// Combines every angle with the same one of `right`.
    pub fn zip<F: Fn(A, A) -> A>(self, right: Self, combine: &F) -> (combined: Self)
        requires
            forall|angle: A, other: A| call_requires(combine, (angle, other)),
        ensures
            self.is_zipped(right, *combine, combined),
    {
        ArmJoints {
            shoulder_pitch: combine(self.shoulder_pitch, right.shoulder_pitch),
            shoulder_roll: combine(self.shoulder_roll, right.shoulder_roll),
            shoulder_yaw: combine(self.shoulder_yaw, right.shoulder_yaw),
            elbow: combine(self.elbow, right.elbow),
        }
    }
}

/// The joints of one leg.
#[derive(Clone, Copy, Debug)]
pub struct LegJoints<A> {
    pub hip_pitch: A,
    pub hip_roll: A,
    pub hip_yaw: A,
    pub knee: A,
    pub ankle_up: A,
    pub ankle_down: A,
}

impl<A: Copy> LegJoints<A> {
    /// Whether `change` takes every angle to that of `changed`.
    pub open spec fn is_mapped<B, F: Fn(A) -> B>(self, change: F, changed: LegJoints<B>) -> bool {
        &&& call_ensures(change, (self.hip_pitch,), changed.hip_pitch)
        &&& call_ensures(change, (self.hip_roll,), changed.hip_roll)
        &&& call_ensures(change, (self.hip_yaw,), changed.hip_yaw)
        &&& call_ensures(change, (self.knee,), changed.knee)
        &&& call_ensures(change, (self.ankle_up,), changed.ankle_up)
        &&& call_ensures(change, (self.ankle_down,), changed.ankle_down)
    }

    /// Whether `combine` takes every angle and that of `right` to that of `combined`.
    pub open spec fn is_zipped<F: Fn(A, A) -> A>(
        self,
        right: Self,
        combine: F,
        combined: Self,
    ) -> bool {
        &&& call_ensures(combine, (self.hip_pitch, right.hip_pitch), combined.hip_pitch)
        &&& call_ensures(combine, (self.hip_roll, right.hip_roll), combined.hip_roll)
        &&& call_ensures(combine, (self.hip_yaw, right.hip_yaw), combined.hip_yaw)
        &&& call_ensures(combine, (self.knee, right.knee), combined.knee)
        &&& call_ensures(combine, (self.ankle_up, right.ankle_up), combined.ankle_up)
        &&& call_ensures(combine, (self.ankle_down, right.ankle_down), combined.ankle_down)
    }

    /// Changes every angle.
    pub fn map<B, F: Fn(A) -> B>(self, change: &F) -> (changed: LegJoints<B>)
        requires
            forall|angle: A| call_requires(change, (angle,)),
        ensures
            self.is_mapped(*change, changed),
    {
        LegJoints {
            hip_pitch: change(self.hip_pitch),
            hip_roll: change(self.hip_roll),
            hip_yaw: change(self.hip_yaw),
            knee: change(self.knee),
            ankle_up: change(self.ankle_up),
            ankle_down: change(self.ankle_down),
        }
    }

    /// Combines every angle with the same one of `right`.
    pub fn zip<F: Fn(A, A) -> A>(self, right: Self, combine: &F) -> (combined: Self)
        requires
            forall|angle: A, other: A| call_requires(combine, (angle, other)),
        ensures
            self.is_zipped(right, *combine, combined),
    {
        LegJoints {
            hip_pitch: combine(self.hip_pitch, right.hip_pitch),
            hip_roll: combine(self.hip_roll, right.hip_roll),
            hip_yaw: combine(self.hip_yaw, right.hip_yaw),
            knee: combine(self.knee, right.knee),
            ankle_up: combine(self.ankle_up, right.ankle_up),
            ankle_down: combine(self.ankle_down, right.ankle_down),
        }
    }
}

/// The joints below the head.
#[derive(Clone, Copy, Debug)]
pub struct BodyJoints<A> {
    pub left_arm: ArmJoints<A>,
    pub right_arm: ArmJoints<A>,
    pub left_leg: LegJoints<A>,
    pub right_leg: LegJoints<A>,
}

impl<A: Copy> BodyJoints<A> {
    /// Whether `change` takes every angle to that of `changed`.
    pub open spec fn is_mapped<B, F: Fn(A) -> B>(self, change: F, changed: BodyJoints<B>) -> bool {
        &&& self.left_arm.is_mapped(change, changed.left_arm)
        &&& self.right_arm.is_mapped(change, changed.right_arm)
        &&& self.left_leg.is_mapped(change, changed.left_leg)
        &&& self.right_leg.is_mapped(change, changed.right_leg)
    }

    /// Whether `combine` takes every angle and that of `right` to that of `combined`.
    pub open spec fn is_zipped<F: Fn(A, A) -> A>(
        self,
        right: Self,
        combine: F,
        combined: Self,
    ) -> bool {
        &&& self.left_arm.is_zipped(right.left_arm, combine, combined.left_arm)
        &&& self.right_arm.is_zipped(right.right_arm, combine, combined.right_arm)
        &&& self.left_leg.is_zipped(right.left_leg, combine, combined.left_leg)
        &&& self.right_leg.is_zipped(right.right_leg, combine, combined.right_leg)
    }

    /// Changes every angle.
    pub fn map<B, F: Fn(A) -> B>(self, change: &F) -> (changed: BodyJoints<B>)
        requires
            forall|angle: A| call_requires(change, (angle,)),
        ensures
            self.is_mapped(*change, changed),
    {
        BodyJoints {
            left_arm: self.left_arm.map(change),
            right_arm: self.right_arm.map(change),
            left_leg: self.left_leg.map(change),
            right_leg: self.right_leg.map(change),
        }
    }

    /// Combines every angle with the same one of `right`.
    pub fn zip<F: Fn(A, A) -> A>(self, right: Self, combine: &F) -> (combined: Self)
        requires
            forall|angle: A, other: A| call_requires(combine, (angle, other)),
        ensures
            self.is_zipped(right, *combine, combined),
    {
        BodyJoints {
            left_arm: self.left_arm.zip(right.left_arm, combine),
            right_arm: self.right_arm.zip(right.right_arm, combine),
            left_leg: self.left_leg.zip(right.left_leg, combine),
            right_leg: self.right_leg.zip(right.right_leg, combine),
        }
    }
}

/// All joints of the robot.
#[derive(Clone, Copy, Debug)]
pub struct Joints<A> {
    pub head: HeadJoints<A>,
    pub left_arm: ArmJoints<A>,
    pub right_arm: ArmJoints<A>,
    pub left_leg: LegJoints<A>,
    pub right_leg: LegJoints<A>,
}

impl<A: Copy> Joints<A> {
    /// Whether `change` takes every angle to that of `changed`.
    pub open spec fn is_mapped<B, F: Fn(A) -> B>(self, change: F, changed: Joints<B>) -> bool {
        &&& self.head.is_mapped(change, changed.head)
        &&& self.left_arm.is_mapped(change, changed.left_arm)
        &&& self.right_arm.is_mapped(change, changed.right_arm)
        &&& self.left_leg.is_mapped(change, changed.left_leg)
        &&& self.right_leg.is_mapped(change, changed.right_leg)
    }

    /// Whether `combine` takes every angle and that of `right` to that of `combined`.
    pub open spec fn is_zipped<F: Fn(A, A) -> A>(
        self,
        right: Self,
        combine: F,
        combined: Self,
    ) -> bool {
        &&& self.head.is_zipped(right.head, combine, combined.head)
        &&& self.left_arm.is_zipped(right.left_arm, combine, combined.left_arm)
        &&& self.right_arm.is_zipped(right.right_arm, combine, combined.right_arm)
        &&& self.left_leg.is_zipped(right.left_leg, combine, combined.left_leg)
        &&& self.right_leg.is_zipped(right.right_leg, combine, combined.right_leg)
    }

    /// Changes every angle.
    pub fn map<B, F: Fn(A) -> B>(self, change: &F) -> (changed: Joints<B>)
        requires
            forall|angle: A| call_requires(change, (angle,)),
        ensures
            self.is_mapped(*change, changed),
    {
        Joints {
            head: self.head.map(change),
            left_arm: self.left_arm.map(change),
            right_arm: self.right_arm.map(change),
            left_leg: self.left_leg.map(change),
            right_leg: self.right_leg.map(change),
        }
    }

    /// Combines every angle with the same one of `right`.
    pub fn zip<F: Fn(A, A) -> A>(self, right: Self, combine: &F) -> (combined: Self)
        requires
            forall|angle: A, other: A| call_requires(combine, (angle, other)),
        ensures
            self.is_zipped(right, *combine, combined),
    {
        Joints {
            head: self.head.zip(right.head, combine),
            left_arm: self.left_arm.zip(right.left_arm, combine),
            right_arm: self.right_arm.zip(right.right_arm, combine),
            left_leg: self.left_leg.zip(right.left_leg, combine),
            right_leg: self.right_leg.zip(right.right_leg, combine),
        }
    }
}

impl<A> From<Joints<A>> for HeadJoints<A> {
    fn from(joints: Joints<A>) -> (head: Self) {
        joints.head
    }
}

impl<A> vstd::std_specs::convert::FromSpecImpl<Joints<A>> for HeadJoints<A> {
    open spec fn obeys_from_spec() -> bool {
        true
    }

    open spec fn from_spec(joints: Joints<A>) -> Self {
        joints.head
    }
}

impl<A> From<Joints<A>> for BodyJoints<A> {
    fn from(joints: Joints<A>) -> (body: Self) {
        BodyJoints {
            left_arm: joints.left_arm,
            right_arm: joints.right_arm,
            left_leg: joints.left_leg,
            right_leg: joints.right_leg,
        }
    }
}

impl<A> vstd::std_specs::convert::FromSpecImpl<Joints<A>> for BodyJoints<A> {
    open spec fn obeys_from_spec() -> bool {
        true
    }

    open spec fn from_spec(joints: Joints<A>) -> Self {
        BodyJoints {
            left_arm: joints.left_arm,
            right_arm: joints.right_arm,
            left_leg: joints.left_leg,
            right_leg: joints.right_leg,
        }
    }
}

/// The arm whose angles start at `start`.
pub open spec fn arm_at<A>(angles: Seq<A>, start: int) -> ArmJoints<A> {
    ArmJoints {
        shoulder_pitch: angles[start],
        shoulder_roll: angles[start + 1],
        shoulder_yaw: angles[start + 2],
        elbow: angles[start + 3],
    }
}

/// The leg whose angles start at `start`.
pub open spec fn leg_at<A>(angles: Seq<A>, start: int) -> LegJoints<A> {
    LegJoints {
        hip_pitch: angles[start],
        hip_roll: angles[start + 1],
        hip_yaw: angles[start + 2],
        knee: angles[start + 3],
        ankle_up: angles[start + 4],
        ankle_down: angles[start + 5],
    }
}

/// Reads the arm whose angles start at `start`.
fn read_arm<A: Copy>(angles: &[A], start: usize) -> (arm: ArmJoints<A>)
    requires
        start + 4 <= angles@.len(),
    ensures
        arm == arm_at(angles@, start as int),
{
    assert(angles.len() == angles@.len());
    ArmJoints {
        shoulder_pitch: angles[start],
        shoulder_roll: angles[start + 1],
        shoulder_yaw: angles[start + 2],
        elbow: angles[start + 3],
    }
}

/// Reads the leg whose angles start at `start`.
fn read_leg<A: Copy>(angles: &[A], start: usize) -> (leg: LegJoints<A>)
    requires
        start + 6 <= angles@.len(),
    ensures
        leg == leg_at(angles@, start as int),
{
    assert(angles.len() == angles@.len());
    LegJoints {
        hip_pitch: angles[start],
        hip_roll: angles[start + 1],
        hip_yaw: angles[start + 2],
        knee: angles[start + 3],
        ankle_up: angles[start + 4],
        ankle_down: angles[start + 5],
    }
}

impl<A: Copy> Joints<A> {
    /// Reads the joints from a list of angles: head, left and right arm, left and right leg.
    pub fn from_angles(angles: &[A]) -> (joints: Self)
        requires
            angles@.len() >= ANGLE_COUNT,
        ensures
            joints.head == (HeadJoints { yaw: angles@[0], pitch: angles@[1] }),
            joints.left_arm == arm_at(angles@, 2),
            joints.right_arm == arm_at(angles@, 6),
            joints.left_leg == leg_at(angles@, 10),
            joints.right_leg == leg_at(angles@, 16),
            listed_angles(joints) == angles@.take(22),
    {
        let joints = Joints {
            head: HeadJoints { yaw: angles[0], pitch: angles[1] },
            left_arm: read_arm(angles, 2),
            right_arm: read_arm(angles, 6),
            left_leg: read_leg(angles, 10),
            right_leg: read_leg(angles, 16),
        };
        proof {
            joints_are_read_in_order(angles@, joints);
        }
        joints
    }
}

/// The angles of all joints, in the order in which a list of a whole robot has them.
pub open spec fn listed_angles<A>(joints: Joints<A>) -> Seq<A> {
    seq![
        joints.head.yaw,
        joints.head.pitch,
        joints.left_arm.shoulder_pitch,
        joints.left_arm.shoulder_roll,
        joints.left_arm.shoulder_yaw,
        joints.left_arm.elbow,
        joints.right_arm.shoulder_pitch,
        joints.right_arm.shoulder_roll,
        joints.right_arm.shoulder_yaw,
        joints.right_arm.elbow,
        joints.left_leg.hip_pitch,
        joints.left_leg.hip_roll,
        joints.left_leg.hip_yaw,
        joints.left_leg.knee,
        joints.left_leg.ankle_up,
        joints.left_leg.ankle_down,
        joints.right_leg.hip_pitch,
        joints.right_leg.hip_roll,
        joints.right_leg.hip_yaw,
        joints.right_leg.knee,
        joints.right_leg.ankle_up,
        joints.right_leg.ankle_down,
    ]
}

/// Joints that are read from a list have its angles in the order of the list.
pub proof fn joints_are_read_in_order<A>(angles: Seq<A>, joints: Joints<A>)
    requires
        angles.len() >= ANGLE_COUNT,
        joints.head == (HeadJoints { yaw: angles[0], pitch: angles[1] }),
        joints.left_arm == arm_at(angles, 2),
        joints.right_arm == arm_at(angles, 6),
        joints.left_leg == leg_at(angles, 10),
        joints.right_leg == leg_at(angles, 16),
    ensures
        listed_angles(joints) == angles.take(22),
{
    assert(listed_angles(joints) =~= angles.take(22));
}

/// Changing joints changes each angle, and combining joints combines each angle with the one of the
/// same joint.
pub proof fn joints_are_changed_one_by_one<A: Copy, B, F: Fn(A) -> B, G: Fn(A, A) -> A>(
    joints: Joints<A>,
    right: Joints<A>,
    change: F,
    changed: Joints<B>,
    combine: G,
    combined: Joints<A>,
    place: int,
)
    requires
        0 <= place < 22,
    ensures
        joints.is_mapped(change, changed) ==> call_ensures(
            change,
            (listed_angles(joints)[place],),
            listed_angles(changed)[place],
        ),
        joints.is_zipped(right, combine, combined) ==> call_ensures(
            combine,
            (listed_angles(joints)[place], listed_angles(right)[place]),
            listed_angles(combined)[place],
        ),
        HeadJoints::<A>::from_spec(joints) == joints.head,
        ({
            let body = BodyJoints::<A>::from_spec(joints);
            &&& body.left_arm == joints.left_arm
            &&& body.right_arm == joints.right_arm
            &&& body.left_leg == joints.left_leg
            &&& body.right_leg == joints.right_leg
        }),
{
}

/// The angles of the joints below the head.
pub open spec fn listed_body<A>(body: BodyJoints<A>) -> Seq<A> {
    seq![
        body.left_arm.shoulder_pitch,
        body.left_arm.shoulder_roll,
        body.left_arm.shoulder_yaw,
        body.left_arm.elbow,
        body.right_arm.shoulder_pitch,
        body.right_arm.shoulder_roll,
        body.right_arm.shoulder_yaw,
        body.right_arm.elbow,
        body.left_leg.hip_pitch,
        body.left_leg.hip_roll,
        body.left_leg.hip_yaw,
        body.left_leg.knee,
        body.left_leg.ankle_up,
        body.left_leg.ankle_down,
        body.right_leg.hip_pitch,
        body.right_leg.hip_roll,
        body.right_leg.hip_yaw,
        body.right_leg.knee,
        body.right_leg.ankle_up,
        body.right_leg.ankle_down,
    ]
}

/// Changing the joints below the head changes each angle, and combining them combines each angle
/// with the one of the same joint.
pub proof fn body_is_changed_one_by_one<A: Copy, B, F: Fn(A) -> B, G: Fn(A, A) -> A>(
    body: BodyJoints<A>,
    right: BodyJoints<A>,
    change: F,
    changed: BodyJoints<B>,
    combine: G,
    combined: BodyJoints<A>,
    place: int,
)
    requires
        0 <= place < 20,
    ensures
        body.is_mapped(change, changed) ==> call_ensures(
            change,
            (listed_body(body)[place],),
            listed_body(changed)[place],
        ),
        body.is_zipped(right, combine, combined) ==> call_ensures(
            combine,
            (listed_body(body)[place], listed_body(right)[place]),
            listed_body(combined)[place],
        ),
{
}

} // verus!
