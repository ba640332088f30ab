//! Meshes: reading them from files and building them from shapes.

use crate::trajectory::{check_wide_gap, is_wide_gap};
use crate::wire::{le32_at, read_le32};
use vstd::prelude::*;

verus! {

/// Bytes in front of the triangles of a binary STL file.
pub const STL_HEADER_LENGTH: usize = 84;

/// Bytes of one triangle of a binary STL file.
pub const STL_TRIANGLE_LENGTH: usize = 50;

/// Three numbers, each as the bits of a 32-bit floating-point number.
#[derive(Clone, Copy, Debug, PartialEq, Eq, Structural)]
pub struct VectorBits {
    pub x: u32,
    pub y: u32,
    pub z: u32,
}

/// A triangle of a binary STL file.
#[derive(Clone, Copy, Debug, PartialEq, Eq, Structural)]
pub struct StlTriangle {
    pub normal: VectorBits,
    pub first: VectorBits,
    pub second: VectorBits,
    pub third: VectorBits,
}

/// Why a file is not a binary STL file.
#[derive(Clone, Copy, Debug, PartialEq, Eq, Structural)]
pub enum StlError {
    /// It ends before its triangles.
    TooShort,
    /// It ends before the last of its triangles.
    MissingTriangles { expected_length: u64, triangle_count: u32, length: usize },
}

/// The vector at `at`.
pub open spec fn vector_at(bytes: Seq<u8>, at: int) -> VectorBits {
    VectorBits {
        x: le32_at(bytes, at) as u32,
        y: le32_at(bytes, at + 4) as u32,
        z: le32_at(bytes, at + 8) as u32,
    }
}

/// The triangle with a given place in a file.
pub open spec fn triangle_at(bytes: Seq<u8>, place: int) -> StlTriangle {
    let at = STL_HEADER_LENGTH + STL_TRIANGLE_LENGTH * place;
    StlTriangle {
        normal: vector_at(bytes, at),
        first: vector_at(bytes, at + 12),
        second: vector_at(bytes, at + 24),
        third: vector_at(bytes, at + 36),
    }
}

/// The number of triangles that a file claims to hold.
pub open spec fn stl_triangle_count(bytes: Seq<u8>) -> nat {
    le32_at(bytes, 80)
}

/// The length that a file needs for its triangles.
pub open spec fn stl_length(bytes: Seq<u8>) -> nat {
    STL_HEADER_LENGTH as nat + STL_TRIANGLE_LENGTH as nat * stl_triangle_count(bytes)
}

/// Reads the vector at `at`.
pub fn read_vec3(bytes: &[u8], at: usize) -> (vector: VectorBits)
    requires
        at + 12 <= bytes@.len(),
    ensures
        vector == vector_at(bytes@, at as int),
{
    assert(bytes.len() == bytes@.len());
    VectorBits {
        x: read_le32(bytes, at),
        y: read_le32(bytes, at + 4),
        z: read_le32(bytes, at + 8),
    }
}

/// Reads the triangles of a binary STL file.
pub fn parse_binary_stl(bytes: &[u8]) -> (result: Result<Vec<StlTriangle>, StlError>)
    ensures
        match result {
            Ok(triangles) => {
                &&& STL_HEADER_LENGTH <= bytes@.len() && stl_length(bytes@) <= bytes@.len()
                &&& triangles@.len() == stl_triangle_count(bytes@)
                &&& forall|i: int|
                    0 <= i < triangles@.len() ==> #[trigger] triangles@[i] == triangle_at(bytes@, i)
            },
            Err(StlError::TooShort) => bytes@.len() < STL_HEADER_LENGTH,
            Err(StlError::MissingTriangles { expected_length, triangle_count, length }) => {
                &&& STL_HEADER_LENGTH <= bytes@.len() < stl_length(bytes@)
                &&& expected_length == stl_length(bytes@)
                &&& triangle_count == stl_triangle_count(bytes@)
                &&& length == bytes@.len()
            },
        },
{
    if bytes.len() < STL_HEADER_LENGTH {
        return Err(StlError::TooShort);
    }
    let triangle_count: u32 = read_le32(bytes, 80);
    let expected_length: u64 = STL_HEADER_LENGTH as u64 + STL_TRIANGLE_LENGTH as u64
        * triangle_count as u64;
    if (bytes.len() as u64) < expected_length {
        return Err(
            StlError::MissingTriangles { expected_length, triangle_count, length: bytes.len() },
        );
    }
    let mut triangles: Vec<StlTriangle> = Vec::new();
    let mut place: u32 = 0;
    while place < triangle_count
        invariant
            place <= triangle_count,
            triangle_count == stl_triangle_count(bytes@),
            stl_length(bytes@) <= bytes@.len() <= usize::MAX,
            triangles@.len() == place,
            forall|i: int| 0 <= i < place ==> #[trigger] triangles@[i] == triangle_at(bytes@, i),
        decreases triangle_count - place,
    {
        let at: usize = STL_HEADER_LENGTH + STL_TRIANGLE_LENGTH * place as usize;
        triangles.push(
            StlTriangle {
                normal: read_vec3(bytes, at),
                first: read_vec3(bytes, at + 12),
                second: read_vec3(bytes, at + 24),
                third: read_vec3(bytes, at + 36),
            },
        );
        place = place + 1;
    }
    Ok(triangles)
}

/// A mesh of triangles: points, and for each triangle three of them.
#[derive(Debug)]
pub struct FieldMarkingMesh<P> {
    pub positions: Vec<P>,
    pub indices: Vec<u32>,
}

impl<P: Copy> FieldMarkingMesh<P> {
    /// Whether every triangle has three points of the mesh.
    pub open spec fn is_mesh(self) -> bool {
        &&& self.indices@.len() % 3 == 0
        &&& forall|i: int|
            0 <= i < self.indices@.len() ==> #[trigger] self.indices@[i] < self.positions@.len()
    }

    /// A mesh without triangles.
    pub fn new() -> (mesh: Self)
        ensures
            mesh.positions@ == Seq::<P>::empty(),
            mesh.indices@ == Seq::<u32>::empty(),
            mesh.is_mesh(),
    {
        FieldMarkingMesh { positions: Vec::new(), indices: Vec::new() }
    }

    /// Adds a quadrilateral as two triangles with a common diagonal.
    pub fn add_quad(&mut self, points: [P; 4])
        requires
            old(self).is_mesh(),
            old(self).positions@.len() + 4 <= u32::MAX,
        ensures
            final(self).is_mesh(),
            final(self).positions@ == old(self).positions@ + points@,
            final(self).indices@ == ({
                let base = old(self).positions@.len() as u32;
                old(self).indices@ + seq![
                    base,
                    (base + 1) as u32,
                    (base + 2) as u32,
                    base,
                    (base + 2) as u32,
                    (base + 3) as u32,
                ]
            }),
            ({
                let mesh = *final(self);
                let at = old(self).indices@.len() as int;
                &&& mesh.indices@.len() == at + 6
                &&& mesh.positions@[mesh.indices@[at] as int] == points@[0]
                &&& mesh.positions@[mesh.indices@[at + 1] as int] == points@[1]
                &&& mesh.positions@[mesh.indices@[at + 2] as int] == points@[2]
                &&& mesh.positions@[mesh.indices@[at + 3] as int] == points@[0]
                &&& mesh.positions@[mesh.indices@[at + 4] as int] == points@[2]
                &&& mesh.positions@[mesh.indices@[at + 5] as int] == points@[3]
            }),
    {
        let base: u32 = self.positions.len() as u32;
        self.positions.push(points[0]);
        self.positions.push(points[1]);
        self.positions.push(points[2]);
        self.positions.push(points[3]);
        self.indices.push(base);
        self.indices.push(base + 1);
        self.indices.push(base + 2);
        self.indices.push(base);
        self.indices.push(base + 2);
        self.indices.push(base + 3);
    }

    /// Adds a triangle.
    pub fn add_triangle(&mut self, points: [P; 3])
        requires
            old(self).is_mesh(),
            old(self).positions@.len() + 3 <= u32::MAX,
        ensures
            final(self).is_mesh(),
            final(self).positions@ == old(self).positions@ + points@,
            final(self).indices@ == ({
                let base = old(self).positions@.len() as u32;
                old(self).indices@ + seq![base, (base + 1) as u32, (base + 2) as u32]
            }),
            ({
                let mesh = *final(self);
                let at = old(self).indices@.len() as int;
                &&& mesh.indices@.len() == at + 3
                &&& mesh.positions@[mesh.indices@[at] as int] == points@[0]
                &&& mesh.positions@[mesh.indices@[at + 1] as int] == points@[1]
                &&& mesh.positions@[mesh.indices@[at + 2] as int] == points@[2]
            }),
    {
        let base: u32 = self.positions.len() as u32;
        self.positions.push(points[0]);
        self.positions.push(points[1]);
        self.positions.push(points[2]);
        self.indices.push(base);
        self.indices.push(base + 1);
        self.indices.push(base + 2);
    }
}

/// Fewest straight pieces of an arc.
pub const FEWEST_ARC_SEGMENTS: usize = 8;

/// Most straight pieces of an arc.
pub const MOST_ARC_SEGMENTS: usize = 96;

/// The number of straight pieces of an arc for which `wanted` would be right.
pub fn arc_segments(wanted: usize) -> (segments: usize)
    ensures
        segments == (if wanted < FEWEST_ARC_SEGMENTS {
            FEWEST_ARC_SEGMENTS
        } else if wanted > MOST_ARC_SEGMENTS {
            MOST_ARC_SEGMENTS
        } else {
            wanted
        }),
        8 <= segments <= 96,
        8 <= wanted <= 96 ==> segments == wanted,
        wanted <= 8 ==> segments == 8,
        wanted >= 96 ==> segments == 96,
{
    if wanted < FEWEST_ARC_SEGMENTS {
        FEWEST_ARC_SEGMENTS
    } else if wanted > MOST_ARC_SEGMENTS {
        MOST_ARC_SEGMENTS
    } else {
        wanted
    }
}

/// A point of a drawn trajectory.
#[derive(Clone, Copy, Debug, PartialEq, Eq, Structural)]
pub struct TrajectoryVertex {
    pub segment_id: u64,
    /// Nanoseconds from the start of the recording to the point.
    pub nanos: i128,
}

/// Whether a point of a trajectory is joined with the one before it: both are of one segment, and
/// the gap between them is not wide.
pub open spec fn is_joined(points: Seq<TrajectoryVertex>, place: int) -> bool {
    &&& points[place - 1].segment_id == points[place].segment_id
    &&& !is_wide_gap(points[place - 1].nanos, points[place].nanos)
}

/// The places among the first `count` points of those that are joined with the one before.
pub open spec fn joined_places(points: Seq<TrajectoryVertex>, count: int) -> Seq<usize>
    decreases count,
{
    if count <= 1 {
        Seq::empty()
    } else {
        let earlier = joined_places(points, count - 1);
        if is_joined(points, count - 1) {
            earlier.push((count - 1) as usize)
        } else {
            earlier
        }
    }
}

/// Finds the points of a trajectory that a line joins with the one before.
pub fn trajectory_lines(points: &[TrajectoryVertex]) -> (places: Vec<usize>)
    ensures
        places@ == joined_places(points@, points@.len() as int),
{
    let mut places: Vec<usize> = Vec::new();
    let mut place: usize = 1;
    while place < points.len()
        invariant
            1 <= place,
            place <= points@.len() || points@.len() == 0 && place == 1,
            places@ == joined_places(points@, place as int),
        decreases points@.len() - place,
    {
        let before = points[place - 1];
        let point = points[place];
        if before.segment_id == point.segment_id && !check_wide_gap(before.nanos, point.nanos) {
            places.push(place);
        }
        place = place + 1;
    }
    places
}

/// The triangles of a file follow each other behind a header of 84 bytes, each with its normal and
/// its three corners in twelve numbers of four bytes and two bytes more. Their number stands behind
/// the first 80 bytes.
pub proof fn triangles_follow_each_other(bytes: Seq<u8>, place: int)
    requires
        0 <= place < stl_triangle_count(bytes),
    ensures
        stl_triangle_count(bytes) == bytes[80] + 0x100 * bytes[81] + 0x1_0000 * bytes[82]
            + 0x100_0000 * bytes[83],
        stl_length(bytes) == 84 + 50 * stl_triangle_count(bytes),
        ({
            let at = 84 + 50 * place;
            let triangle = triangle_at(bytes, place);
            &&& triangle.normal.x == le32_at(bytes, at)
            &&& triangle.normal.y == le32_at(bytes, at + 4)
            &&& triangle.normal.z == le32_at(bytes, at + 8)
            &&& triangle.first.x == le32_at(bytes, at + 12)
            &&& triangle.first.y == le32_at(bytes, at + 16)
            &&& triangle.first.z == le32_at(bytes, at + 20)
            &&& triangle.second.x == le32_at(bytes, at + 24)
            &&& triangle.second.y == le32_at(bytes, at + 28)
            &&& triangle.second.z == le32_at(bytes, at + 32)
            &&& triangle.third.x == le32_at(bytes, at + 36)
            &&& triangle.third.y == le32_at(bytes, at + 40)
            &&& triangle.third.z == le32_at(bytes, at + 44)
        }),
{
}

/// Whether a point of a trajectory is of the segment of the one before it, and comes no more than
/// half a second later.
pub open spec fn belongs_to_previous(points: Seq<TrajectoryVertex>, place: int) -> bool {
    &&& points[place].segment_id == points[place - 1].segment_id
    &&& points[place].nanos - points[place - 1].nanos <= 500_000_000
}

/// A line joins a point of a trajectory with the one before it exactly if both are of one segment
/// and no more than half a second apart. The lines come in the order of the points.
pub proof fn points_of_one_segment_are_joined(points: Seq<TrajectoryVertex>, count: int)
    requires
        0 <= count <= points.len() <= usize::MAX,
    ensures
        ({
            let places = joined_places(points, count);
            &&& forall|place: int|
                0 < place < count ==> (places.contains(place as usize)
                    <==> #[trigger] belongs_to_previous(points, place))
            &&& forall|i: int| 0 <= i < places.len() ==> 0 < #[trigger] places[i] < count
            &&& forall|i: int, j: int|
                #![trigger places[i], places[j]]
                0 <= i < j < places.len() ==> places[i] < places[j]
        }),
    decreases count,
{
    if count > 1 {
        points_of_one_segment_are_joined(points, count - 1);
        let earlier = joined_places(points, count - 1);
        let places = joined_places(points, count);
        assert forall|place: int| 0 < place < count implies (places.contains(place as usize)
            <==> #[trigger] belongs_to_previous(points, place)) by {
            if place < count - 1 {
                if earlier.contains(place as usize) {
                    let at = choose|at: int| 0 <= at < earlier.len() && earlier[at] == place;
                    assert(places[at] == place);
                }
                if places.contains(place as usize) {
                    let at = choose|at: int| 0 <= at < places.len() && places[at] == place;
                    assert(earlier[at] == place);
                }
            } else {
                if is_joined(points, place) {
                    assert(places[earlier.len() as int] == place);
                } else {
                    assert(places == earlier);
                }
            }
        }
    }
}

} // verus!
