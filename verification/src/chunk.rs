//! Chunk storage: a cube of `CHUNK_SIDE`^3 voxels kept in one flat array,
//! with the mapping between a position in the cube and an index in the array.

use vstd::prelude::*;
use crate::block::Block;

verus! {

/// Side length of a chunk, in voxels.
pub const CHUNK_SIDE: usize = 16;

/// Number of voxels in a chunk.
pub const CHUNK_LEN: usize = 4096;

/// A vector of three signed integers: a chunk's place in the chunk grid, or a
/// voxel position that may lie outside its chunk.
#[derive(Clone, Copy, Debug, PartialEq, Eq, Structural)]
pub struct IVec3 {
    pub x: i32,
    pub y: i32,
    pub z: i32,
}

/// A vector of three unsigned integers: the position of a voxel in its chunk.
#[derive(Clone, Copy, Debug, PartialEq, Eq, Structural)]
pub struct UVec3 {
    pub x: u32,
    pub y: u32,
    pub z: u32,
}

impl IVec3 {
    /// The vector with the components `x`, `y` and `z`.
    pub fn new(x: i32, y: i32, z: i32) -> (r: IVec3)
        ensures
            r == (IVec3 { x, y, z }),
    {
        IVec3 { x, y, z }
    }

    /// Whether every component lies in `0 .. CHUNK_SIDE`.
    pub open spec fn in_chunk(self) -> bool {
        &&& 0 <= self.x < CHUNK_SIDE
        &&& 0 <= self.y < CHUNK_SIDE
        &&& 0 <= self.z < CHUNK_SIDE
    }

    /// The sum of two vectors, component by component.
    pub open spec fn spec_plus(self, rhs: IVec3) -> IVec3 {
        IVec3 {
            x: (self.x + rhs.x) as i32,
            y: (self.y + rhs.y) as i32,
            z: (self.z + rhs.z) as i32,
        }
    }

    /// Whether the sum of two vectors has every component within `i32`.
    pub open spec fn can_add(self, rhs: IVec3) -> bool {
        &&& i32::MIN <= self.x + rhs.x <= i32::MAX
        &&& i32::MIN <= self.y + rhs.y <= i32::MAX
        &&& i32::MIN <= self.z + rhs.z <= i32::MAX
    }

    /// The smallest of the three components.
    pub open spec fn spec_min_element(self) -> int {
        if self.x <= self.y && self.x <= self.z {
            self.x as int
        } else if self.y <= self.z {
            self.y as int
        } else {
            self.z as int
        }
    }

    /// The largest of the three components.
    pub open spec fn spec_max_element(self) -> int {
        if self.x >= self.y && self.x >= self.z {
            self.x as int
        } else if self.y >= self.z {
            self.y as int
        } else {
            self.z as int
        }
    }

    /// The smallest component, as `bevy::math::IVec3::min_element` computes
    /// it. Trusted: the result is taken to be the least of `x`, `y` and `z`.
    #[verifier::external_body]
    pub(crate) fn min_element(self) -> (r: i32)
        ensures
            r == self.spec_min_element(),
    {
        bevy::math::IVec3::new(self.x, self.y, self.z).min_element()
    }

    /// The largest component, as `bevy::math::IVec3::max_element` computes
    /// it. Trusted: the result is taken to be the greatest of `x`, `y` and `z`.
    #[verifier::external_body]
    pub(crate) fn max_element(self) -> (r: i32)
        ensures
            r == self.spec_max_element(),
    {
        bevy::math::IVec3::new(self.x, self.y, self.z).max_element()
    }

    /// The sum of two vectors, as `+` on `bevy::math::IVec3` computes it.
    /// Trusted: each component of the result is taken to be the sum of the
    /// two components, which is asked to fit in `i32`.
    #[verifier::external_body]
    pub(crate) fn plus(self, rhs: IVec3) -> (r: IVec3)
        requires
            self.can_add(rhs),
        ensures
            r == self.spec_plus(rhs),
    {
        let sum = bevy::math::IVec3::new(self.x, self.y, self.z)
            + bevy::math::IVec3::new(rhs.x, rhs.y, rhs.z);
        IVec3 { x: sum.x, y: sum.y, z: sum.z }
    }

    /// The same vector with unsigned components, as
    /// `bevy::math::IVec3::as_uvec3` computes it. Trusted: a component that
    /// is not negative is taken to keep its value.
    #[verifier::external_body]
    pub(crate) fn as_uvec3(self) -> (r: UVec3)
        requires
            self.x >= 0,
            self.y >= 0,
            self.z >= 0,
        ensures
            r.x == self.x,
            r.y == self.y,
            r.z == self.z,
    {
        let cast = bevy::math::IVec3::new(self.x, self.y, self.z).as_uvec3();
        UVec3 { x: cast.x, y: cast.y, z: cast.z }
    }
}

/// The index in the flat array of the voxel at `(x, y, z)`.
pub open spec fn spec_linearize(x: int, y: int, z: int) -> int {
    x + y * 16 + z * 256
}

/// The position in the cube of the voxel stored at `index`.
pub open spec fn spec_delinearize(index: int) -> (int, int, int) {
    (index % 16, (index / 16) % 16, index / 256)
}

/// Positions inside the cube are sent to indices inside the array, and taking
/// the index apart again gives the position back.
pub proof fn lemma_delinearize_linearize(x: int, y: int, z: int)
    requires
        0 <= x < CHUNK_SIDE,
        0 <= y < CHUNK_SIDE,
        0 <= z < CHUNK_SIDE,
    ensures
        0 <= spec_linearize(x, y, z) < CHUNK_LEN,
        spec_delinearize(spec_linearize(x, y, z)) == (x, y, z),
{
}

/// Indices inside the array are sent to positions inside the cube, and putting
/// the position together again gives the index back.
pub proof fn lemma_linearize_delinearize(index: int)
    requires
        0 <= index < CHUNK_LEN,
    ensures
        0 <= spec_delinearize(index).0 < CHUNK_SIDE,
        0 <= spec_delinearize(index).1 < CHUNK_SIDE,
        0 <= spec_delinearize(index).2 < CHUNK_SIDE,
        spec_linearize(
            spec_delinearize(index).0,
            spec_delinearize(index).1,
            spec_delinearize(index).2,
        ) == index,
{
}

/// The last two digits of an index to base 16 are the two digits of its
/// remainder modulo 256.
proof fn lemma_split_index(index: int)
    requires
        0 <= index,
    ensures
        (index % 256) / 16 == (index / 16) % 16,
        (index % 256) % 16 == index % 16,
        (index % 256) - ((index % 256) / 16) * 16 == index % 16,
{
    let q = index / 256;
    let r = index % 256;
    assert(index == 256 * q + r);
    assert(index / 16 == 16 * q + r / 16);
}

/// One chunk: its place in the chunk grid and its voxels.
pub struct MyChunk {
    pub position: IVec3,
    pub voxels: [Block; CHUNK_LEN],
}

impl Default for MyChunk {
    /// A chunk at the origin that holds only air.
    fn default() -> (r: MyChunk)
        ensures
            r.position == (IVec3 { x: 0, y: 0, z: 0 }),
            forall|i: int| 0 <= i < CHUNK_LEN ==> r.voxels[i] == Block::Air,
    {
        MyChunk { position: IVec3 { x: 0, y: 0, z: 0 }, voxels: [Block::default();CHUNK_LEN] }
    }
}

impl MyChunk {
    /// The voxel that a lookup at `pos` gives: the stored one inside the
    /// chunk, air outside of it.
    pub open spec fn voxel_at(&self, pos: IVec3) -> Block {
        if pos.in_chunk() {
            self.voxels[spec_linearize(pos.x as int, pos.y as int, pos.z as int)]
        } else {
            Block::Air
        }
    }

    /// What flat terrain holds at `index`: dirt up to height 3, air above.
    pub open spec fn flat_block(index: int) -> Block {
        if spec_delinearize(index).1 <= 3 {
            Block::Dirt
        } else {
            Block::Air
        }
    }

    /// The number of voxels in a chunk.
    pub fn size() -> (r: usize)
        ensures
            r == CHUNK_LEN,
            r == CHUNK_SIDE * CHUNK_SIDE * CHUNK_SIDE,
    {
        CHUNK_SIDE * CHUNK_SIDE * CHUNK_SIDE
    }

    /// The index in the flat array of the voxel at `(x, y, z)`.
    pub fn linearize(x: usize, y: usize, z: usize) -> (r: usize)
        requires
            spec_linearize(x as int, y as int, z as int) <= usize::MAX,
        ensures
            r == spec_linearize(x as int, y as int, z as int),
    {
        x + (y * CHUNK_SIDE) + (z * CHUNK_SIDE * CHUNK_SIDE)
    }

    /// The position in the cube of the voxel stored at `index`.
    pub fn delinearize(index: usize) -> (r: (usize, usize, usize))
        ensures
            (r.0 as int, r.1 as int, r.2 as int) == spec_delinearize(index as int),
    {
        let z: usize = index / (CHUNK_SIDE * CHUNK_SIDE);
        let rest: usize = index - z * CHUNK_SIDE * CHUNK_SIDE;
        assert(rest == index % 256);
        let y: usize = rest / CHUNK_SIDE;
        let x: usize = rest - y * CHUNK_SIDE;
        assert(y == (index / 16) % 16 && x == index % 16) by {
            lemma_split_index(index as int);
        }
        (x, y, z)
    }

    /// Flat terrain at the origin.
    pub fn flat() -> (r: MyChunk)
        ensures
            r.position == (IVec3 { x: 0, y: 0, z: 0 }),
            forall|i: int| 0 <= i < CHUNK_LEN ==> r.voxels[i] == Self::flat_block(i),
    {
        let mut voxels = [Block::Air;CHUNK_LEN];
        let mut i: usize = 0;
        while i < CHUNK_LEN
            invariant
                i <= CHUNK_LEN,
                forall|k: int| 0 <= k < i ==> voxels[k] == Self::flat_block(k),
                forall|k: int| i <= k < CHUNK_LEN ==> voxels[k] == Block::Air,
            decreases CHUNK_LEN - i,
        {
            let (_, y, _) = Self::delinearize(i);
            if y <= 3 {
                voxels[i] = Block::Dirt;
            }
            i += 1;
        }
        MyChunk { position: IVec3 { x: 0, y: 0, z: 0 }, voxels }
    }

    /// The same voxels at another place in the chunk grid.
    pub fn with_position(self, position: IVec3) -> (r: MyChunk)
        ensures
            r.position == position,
            r.voxels == self.voxels,
    {
        let mut chunk = self;
        chunk.position = position;
        chunk
    }

    /// The position in the world of this chunk's first voxel: the chunk's
    /// place in the chunk grid times the chunk's side.
    pub fn world_origin(&self) -> (r: [i64; 3])
        ensures
            r[0] == self.position.x * CHUNK_SIDE,
            r[1] == self.position.y * CHUNK_SIDE,
            r[2] == self.position.z * CHUNK_SIDE,
    {
        [
            self.position.x as i64 * 16,
            self.position.y as i64 * 16,
            self.position.z as i64 * 16,
        ]
    }

    /// The voxel at `pos`; air for every position outside the chunk.
    pub fn get(&self, pos: IVec3) -> (r: Block)
        ensures
            r == self.voxel_at(pos),
    {
        if pos.min_element() < 0 || pos.max_element() >= CHUNK_SIDE as i32 {
            Block::default()
        } else {
            self.voxels[Self::linearize(pos.x as usize, pos.y as usize, pos.z as usize)]
        }
    }

    /// Stores `block` at `pos` and says whether `pos` lies inside the chunk;
    /// outside of it nothing changes.
    pub fn set(&mut self, pos: IVec3, block: Block) -> (r: bool)
        ensures
            r == pos.in_chunk(),
            final(self).position == old(self).position,
            r ==> final(self).voxels@ == old(self).voxels@.update(
                spec_linearize(pos.x as int, pos.y as int, pos.z as int),
                block,
            ),
            !r ==> final(self).voxels == old(self).voxels,
    {
        if pos.min_element() < 0 || pos.max_element() >= CHUNK_SIDE as i32 {
            false
        } else {
            let index = Self::linearize(pos.x as usize, pos.y as usize, pos.z as usize);
            self.voxels[index] = block;
            true
        }
    }
}

} // verus!
