//! The voxel model: the closed set of block kinds, their visibility classes,
//! and the rule that decides which faces between two voxels are drawn.

use vstd::prelude::*;

verus! {

/// How a voxel takes part in face culling.
#[derive(Clone, Copy, Debug, PartialEq, Eq, Structural)]
pub enum Visibility {
    Empty,
    Transparent,
    Opaque,
}

/// The face rule over visibility classes.
///
/// `face_rule(a, b, same)` tells whether a voxel of class `a` draws its face
/// toward a neighbour of class `b`; `same` says whether the two voxels are of
/// the same kind, which only matters between two transparent voxels.
pub open spec fn face_rule(this: Visibility, other: Visibility, same: bool) -> bool {
    match (this, other) {
        (Visibility::Opaque, Visibility::Empty) => true,
        (Visibility::Opaque, Visibility::Transparent) => true,
        (Visibility::Opaque, Visibility::Opaque) => false,
        (Visibility::Transparent, Visibility::Empty) => true,
        (Visibility::Transparent, Visibility::Transparent) => !same,
        (Visibility::Transparent, Visibility::Opaque) => false,
        (Visibility::Empty, _) => false,
    }
}

/// A kind of voxel that can be meshed.
pub trait Voxel: Eq + Sized {
    /// The visibility class of this voxel kind.
    spec fn spec_visibility(&self) -> Visibility;

    /// The texture key of this voxel kind, if it has one.
    spec fn spec_texture(&self) -> Option<&'static str>;

    /// The visibility class of this voxel kind.
    fn visibility(&self) -> (r: Visibility)
        ensures
            r == self.spec_visibility(),
    ;

    /// Whether the face of `self` that points at `other` has to be drawn.
    fn visible(&self, other: &Self) -> (r: bool)
        ensures
            r == face_rule(self.spec_visibility(), other.spec_visibility(), *self == *other),
    ;

    /// The texture key; an empty voxel has none.
    fn texture(&self) -> (r: Option<&'static str>)
        ensures
            r == self.spec_texture(),
            self.spec_visibility() == Visibility::Empty ==> r is None,
    ;
}

/// The block kinds of the world. `Air` is the default and the only empty one.
#[derive(Clone, Copy, Debug, PartialEq, Eq, Structural)]
pub enum Block {
    Air,
    Dirt,
    Stone,
    Glass,
}

impl Default for Block {
    fn default() -> (r: Block)
        ensures
            r == Block::Air,
    {
        Block::Air
    }
}

impl Block {
    /// Whether `self` draws a face toward `other`: the face rule applied to
    /// the two blocks' classes.
    pub open spec fn shows_face_to(self, other: Block) -> bool {
        face_rule(self.spec_visibility(), other.spec_visibility(), self == other)
    }
}

impl Voxel for Block {
    open spec fn spec_visibility(&self) -> Visibility {
        match *self {
            Block::Air => Visibility::Empty,
            Block::Dirt => Visibility::Opaque,
            Block::Stone => Visibility::Opaque,
            Block::Glass => Visibility::Transparent,
        }
    }

    open spec fn spec_texture(&self) -> Option<&'static str> {
        match *self {
            Block::Air => None,
            Block::Dirt => Some("dirt.png"),
            Block::Stone => Some("stone.png"),
            Block::Glass => Some("glass.png"),
        }
    }

    fn visibility(&self) -> (r: Visibility) {
        match self {
            Block::Air => Visibility::Empty,
            Block::Dirt => Visibility::Opaque,
            Block::Stone => Visibility::Opaque,
            Block::Glass => Visibility::Transparent,
        }
    }

    fn visible(&self, other: &Self) -> (r: bool) {
        let self_vis = self.visibility();
        let other_vis = other.visibility();
        match (self_vis, other_vis) {
            (Visibility::Opaque, Visibility::Empty) => true,
            (Visibility::Opaque, Visibility::Transparent) => true,
            (Visibility::Transparent, Visibility::Empty) => true,
            (Visibility::Transparent, Visibility::Transparent) => *self != *other,
            _ => false,
        }
    }

    fn texture(&self) -> (r: Option<&'static str>) {
        match self {
            Block::Dirt => Some("dirt.png"),
            Block::Stone => Some("stone.png"),
            Block::Glass => Some("glass.png"),
            Block::Air => None,
        }
    }
}

} // verus!
