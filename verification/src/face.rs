//! Faces of voxels and their geometry: the four corners, normals and texture
//! coordinates of a face's quad and the six indices of its two triangles.
//!
//! All geometry is in whole numbers: a voxel is a cube of `voxel_size` units,
//! and a corner of a face lies `0` or `1` voxels from the voxel's position on
//! each axis.

use vstd::prelude::*;
use crate::chunk::{IVec3, UVec3};

verus! {

/// A direction along one axis.
///
/// The order is fixed and is the order in which a voxel's faces are listed:
/// `0 = Left (-x)`, `1 = Right (+x)`, `2 = Bottom (-y)`, `3 = Top (+y)`,
/// `4 = Front (-z)`, `5 = Back (+z)`.
#[derive(Clone, Copy, Debug, PartialEq, Eq, Structural)]
pub enum Side {
    Left,
    Right,
    Bottom,
    Top,
    Front,
    Back,
}

/// The three components of a vector of signed integers.
pub open spec fn triple_i32(a: [i32; 3]) -> (int, int, int) {
    (a[0] as int, a[1] as int, a[2] as int)
}

/// The three components of a vector of unsigned integers.
pub open spec fn triple_u32(a: [u32; 3]) -> (int, int, int) {
    (a[0] as int, a[1] as int, a[2] as int)
}

/// The three components of a vertex position.
pub open spec fn triple_u64(a: [u64; 3]) -> (int, int, int) {
    (a[0] as int, a[1] as int, a[2] as int)
}

/// The two components of a texture coordinate.
pub open spec fn pair_u32(a: [u32; 2]) -> (int, int) {
    (a[0] as int, a[1] as int)
}

/// The indices of the two triangles of a quad whose first vertex is `start`.
pub open spec fn quad_indices(start: int) -> Seq<int> {
    seq![start, start + 2, start + 1, start + 1, start + 2, start + 3]
}

/// The texture coordinates of a quad's four corners, the same on every side.
pub open spec fn quad_uvs() -> Seq<(int, int)> {
    seq![(0, 0), (1, 0), (0, 1), (1, 1)]
}

impl Side {
    /// The place of this side in the fixed order.
    pub open spec fn spec_index(self) -> int {
        match self {
            Side::Left => 0,
            Side::Right => 1,
            Side::Bottom => 2,
            Side::Top => 3,
            Side::Front => 4,
            Side::Back => 5,
        }
    }

    /// The side at a place in the fixed order.
    pub open spec fn spec_from_index(value: int) -> Side {
        if value == 0 {
            Side::Left
        } else if value == 1 {
            Side::Right
        } else if value == 2 {
            Side::Bottom
        } else if value == 3 {
            Side::Top
        } else if value == 4 {
            Side::Front
        } else {
            Side::Back
        }
    }

    /// The unit vector that points out of a voxel through this side.
    pub open spec fn spec_normal(self) -> (int, int, int) {
        match self {
            Side::Left => (-1, 0, 0),
            Side::Right => (1, 0, 0),
            Side::Bottom => (0, -1, 0),
            Side::Top => (0, 1, 0),
            Side::Front => (0, 0, -1),
            Side::Back => (0, 0, 1),
        }
    }

    /// The four corners of this side of the unit cube, in the order in which
    /// the quad's vertices are emitted.
    pub open spec fn spec_positions(self) -> Seq<(int, int, int)> {
        match self {
            Side::Right => seq![(1, 0, 0), (1, 0, 1), (1, 1, 0), (1, 1, 1)],
            Side::Left => seq![(0, 0, 1), (0, 0, 0), (0, 1, 1), (0, 1, 0)],
            Side::Top => seq![(0, 1, 1), (0, 1, 0), (1, 1, 1), (1, 1, 0)],
            Side::Bottom => seq![(0, 0, 1), (1, 0, 1), (0, 0, 0), (1, 0, 0)],
            Side::Back => seq![(1, 0, 1), (0, 0, 1), (1, 1, 1), (0, 1, 1)],
            Side::Front => seq![(0, 0, 0), (1, 0, 0), (0, 1, 0), (1, 1, 0)],
        }
    }

    /// The side at place `value` of the fixed order.
    pub fn from_index(value: usize) -> (r: Side)
        requires
            value < 6,
        ensures
            r == Side::spec_from_index(value as int),
            r.spec_index() == value,
    {
        if value == 0 {
            Side::Left
        } else if value == 1 {
            Side::Right
        } else if value == 2 {
            Side::Bottom
        } else if value == 3 {
            Side::Top
        } else if value == 4 {
            Side::Front
        } else {
            Side::Back
        }
    }

    /// The place of this side in the fixed order.
    pub fn index(self) -> (r: usize)
        ensures
            r == self.spec_index(),
            r < 6,
    {
        match self {
            Side::Left => 0,
            Side::Right => 1,
            Side::Bottom => 2,
            Side::Top => 3,
            Side::Front => 4,
            Side::Back => 5,
        }
    }

    /// The position next to `pos` on this side.
    pub open spec fn spec_neighbor(self, pos: IVec3) -> IVec3 {
        IVec3 {
            x: (pos.x + self.spec_normal().0) as i32,
            y: (pos.y + self.spec_normal().1) as i32,
            z: (pos.z + self.spec_normal().2) as i32,
        }
    }

    /// The step from a voxel to its neighbour on this side.
    pub fn offset(self) -> (r: IVec3)
        ensures
            (r.x as int, r.y as int, r.z as int) == self.spec_normal(),
    {
        match self {
            Side::Left => IVec3::new(-1, 0, 0),
            Side::Right => IVec3::new(1, 0, 0),
            Side::Bottom => IVec3::new(0, -1, 0),
            Side::Top => IVec3::new(0, 1, 0),
            Side::Front => IVec3::new(0, 0, -1),
            Side::Back => IVec3::new(0, 0, 1),
        }
    }

    /// The position next to `pos` on this side.
    pub fn neighbor(self, pos: IVec3) -> (r: IVec3)
        requires
            i32::MIN < pos.x < i32::MAX,
            i32::MIN < pos.y < i32::MAX,
            i32::MIN < pos.z < i32::MAX,
        ensures
            r == self.spec_neighbor(pos),
            r.x == pos.x + self.spec_normal().0,
            r.y == pos.y + self.spec_normal().1,
            r.z == pos.z + self.spec_normal().2,
    {
        pos.plus(self.offset())
    }

    /// The six indices of a quad whose four vertices start at `start`.
    pub fn indices(&self, start: u32) -> (r: [u32; 6])
        requires
            start + 3 <= u32::MAX,
        ensures
            r@.map_values(|v: u32| v as int) == quad_indices(start as int),
    {
        let r = [start, start + 2, start + 1, start + 1, start + 2, start + 3];
        assert(r@.map_values(|v: u32| v as int) =~= quad_indices(start as int));
        r
    }

    /// The unit vector that points out of a voxel through this side.
    pub fn normal(&self) -> (r: [i32; 3])
        ensures
            triple_i32(r) == self.spec_normal(),
    {
        match self {
            Side::Right => [1, 0, 0],
            Side::Left => [-1, 0, 0],
            Side::Top => [0, 1, 0],
            Side::Bottom => [0, -1, 0],
            Side::Back => [0, 0, 1],
            Side::Front => [0, 0, -1],
        }
    }

    /// The normal of each of the quad's four vertices: the side's own.
    pub fn normals(&self) -> (r: [[i32; 3]; 4])
        ensures
            forall|j: int| 0 <= j < 4 ==> triple_i32(#[trigger] r[j]) == self.spec_normal(),
    {
        let n = self.normal();
        [n, n, n, n]
    }

    /// The texture coordinates of the quad's four vertices.
    pub fn uvs(&self) -> (r: [[u32; 2]; 4])
        ensures
            forall|j: int| 0 <= j < 4 ==> pair_u32(#[trigger] r[j]) == quad_uvs()[j],
    {
        [[0, 0], [1, 0], [0, 1], [1, 1]]
    }

    /// The four corners of this side of the unit cube.
    pub fn positions(&self) -> (r: [[u32; 3]; 4])
        ensures
            forall|j: int| 0 <= j < 4 ==> triple_u32(#[trigger] r[j]) == self.spec_positions()[j],
    {
        match self {
            Side::Right => [[1, 0, 0], [1, 0, 1], [1, 1, 0], [1, 1, 1]],
            Side::Left => [[0, 0, 1], [0, 0, 0], [0, 1, 1], [0, 1, 0]],
            Side::Top => [[0, 1, 1], [0, 1, 0], [1, 1, 1], [1, 1, 0]],
            Side::Bottom => [[0, 0, 1], [1, 0, 1], [0, 0, 0], [1, 0, 0]],
            Side::Back => [[1, 0, 1], [0, 0, 1], [1, 1, 1], [0, 1, 1]],
            Side::Front => [[0, 0, 0], [1, 0, 0], [0, 1, 0], [1, 1, 0]],
        }
    }
}

/// A side of the voxel at a position: one quad of a mesh.
#[derive(Clone, Copy, Debug, PartialEq, Eq, Structural)]
pub struct Face {
    pub position: UVec3,
    pub side: Side,
}

impl Face {
    /// Corner `j` of this face's quad, for voxels of `voxel_size` units: the
    /// voxel's position plus the side's corner, scaled.
    pub open spec fn spec_position(self, voxel_size: int, j: int) -> (int, int, int) {
        let corner = self.side.spec_positions()[j];
        (
            (self.position.x + corner.0) * voxel_size,
            (self.position.y + corner.1) * voxel_size,
            (self.position.z + corner.2) * voxel_size,
        )
    }

    /// The six indices of this face's quad, whose vertices start at `start`.
    pub fn indices(&self, start: u32) -> (r: [u32; 6])
        requires
            start + 3 <= u32::MAX,
        ensures
            r@.map_values(|v: u32| v as int) == quad_indices(start as int),
    {
        self.side.indices(start)
    }

    /// The four corners of this face's quad, for voxels of `voxel_size` units.
    pub fn positions(&self, voxel_size: u32) -> (r: [[u64; 3]; 4])
        ensures
            forall|j: int|
                0 <= j < 4 ==> triple_u64(#[trigger] r[j]) == self.spec_position(
                    voxel_size as int,
                    j,
                ),
    {
        let corners = self.side.positions();
        let c0 = scaled_corner(self.position, corners[0], voxel_size);
        let c1 = scaled_corner(self.position, corners[1], voxel_size);
        let c2 = scaled_corner(self.position, corners[2], voxel_size);
        let c3 = scaled_corner(self.position, corners[3], voxel_size);
        [c0, c1, c2, c3]
    }

    /// The normal of each of the quad's four vertices.
    pub fn normals(&self) -> (r: [[i32; 3]; 4])
        ensures
            forall|j: int| 0 <= j < 4 ==> triple_i32(#[trigger] r[j]) == self.side.spec_normal(),
    {
        self.side.normals()
    }

    /// The texture coordinates of the quad's four vertices.
    pub fn uvs(&self) -> (r: [[u32; 2]; 4])
        ensures
            forall|j: int| 0 <= j < 4 ==> pair_u32(#[trigger] r[j]) == quad_uvs()[j],
    {
        self.side.uvs()
    }
}

/// One component of a corner: the voxel's coordinate plus the corner's
/// offset, times the voxel size.
fn scaled(base: u32, offset: u32, voxel_size: u32) -> (r: u64)
    requires
        offset <= 1,
    ensures
        r == (base + offset) * voxel_size,
{
    let sum: u64 = base as u64 + offset as u64;
    assert(sum * voxel_size <= u64::MAX) by (nonlinear_arith)
        requires
            sum <= 0x1_0000_0000,
            voxel_size <= 0xffff_ffff,
    ;
    sum * (voxel_size as u64)
}

/// A corner of a quad: the voxel's position plus the corner of the unit cube,
/// scaled by the voxel size.
fn scaled_corner(position: UVec3, corner: [u32; 3], voxel_size: u32) -> (r: [u64; 3])
    requires
        corner[0] <= 1,
        corner[1] <= 1,
        corner[2] <= 1,
    ensures
        triple_u64(r) == (
            (position.x + corner[0]) * voxel_size,
            (position.y + corner[1]) * voxel_size,
            (position.z + corner[2]) * voxel_size,
        ),
{
    [
        scaled(position.x, corner[0], voxel_size),
        scaled(position.y, corner[1], voxel_size),
        scaled(position.z, corner[2], voxel_size),
    ]
}

} // verus!
