//! A single block of the world.

use vstd::prelude::*;

use crate::model::bounds::{iaabb3, IAabb3};
use crate::vector::{in_i32, ivec3, IVec3};

verus! {

/// The kind of a block.
#[derive(Clone, Copy, Debug, PartialEq, Eq, Hash)]
pub enum BlockKind {
    SurfaceDirt,
    SurfaceGrass,
    SurfaceGravel,
    SurfaceSand,
    SurfaceStone,
    MixGrass,
    Dandelion,
    FallenBranch,
    FallenLeaves,
    MixPebbles,
    OakTree,
    BirchTree,
    DyingTree,
    FallenTree,
    MixRock,
}

/// Whether the kind is one of the ground surfaces.
pub open spec fn is_surface(kind: BlockKind) -> bool {
    ||| kind == BlockKind::SurfaceDirt
    ||| kind == BlockKind::SurfaceGrass
    ||| kind == BlockKind::SurfaceGravel
    ||| kind == BlockKind::SurfaceSand
    ||| kind == BlockKind::SurfaceStone
}

/// The local collision box of a kind, as `(max.x, max.y, max.z)`; the
/// minimum corner is always the origin.
pub open spec fn local_extent(kind: BlockKind) -> (int, int, int) {
    match kind {
        BlockKind::OakTree | BlockKind::BirchTree | BlockKind::DyingTree => (0, 0, 2),
        BlockKind::FallenTree => (3, 1, 0),
        BlockKind::MixRock => (1, 1, 0),
        _ => (0, 0, 0),
    }
}

impl BlockKind {
    /// Whether the block can be broken: every kind but the ground surfaces.
    pub fn breakable(&self) -> (r: bool)
        ensures
            r == !is_surface(*self),
    {
        match self {
            Self::SurfaceDirt => false,
            Self::SurfaceGrass => false,
            Self::SurfaceGravel => false,
            Self::SurfaceSand => false,
            Self::SurfaceStone => false,
            Self::MixGrass => true,
            Self::Dandelion => true,
            Self::FallenBranch => true,
            Self::FallenLeaves => true,
            Self::MixPebbles => true,
            Self::OakTree => true,
            Self::BirchTree => true,
            Self::DyingTree => true,
            Self::FallenTree => true,
            Self::MixRock => true,
        }
    }

    /// The collision box in local space, with the block's cell at the origin.
    pub fn bounds(&self) -> (r: IAabb3)
        ensures
            r.min == (IVec3 { x: 0, y: 0, z: 0 }),
            r.max.x == local_extent(*self).0,
            r.max.y == local_extent(*self).1,
            r.max.z == local_extent(*self).2,
    {
        match self {
            Self::SurfaceDirt => iaabb3(ivec3(0, 0, 0), ivec3(0, 0, 0)),
            Self::SurfaceGrass => iaabb3(ivec3(0, 0, 0), ivec3(0, 0, 0)),
            Self::SurfaceGravel => iaabb3(ivec3(0, 0, 0), ivec3(0, 0, 0)),
            Self::SurfaceSand => iaabb3(ivec3(0, 0, 0), ivec3(0, 0, 0)),
            Self::SurfaceStone => iaabb3(ivec3(0, 0, 0), ivec3(0, 0, 0)),
            Self::MixGrass => iaabb3(ivec3(0, 0, 0), ivec3(0, 0, 0)),
            Self::Dandelion => iaabb3(ivec3(0, 0, 0), ivec3(0, 0, 0)),
            Self::FallenBranch => iaabb3(ivec3(0, 0, 0), ivec3(0, 0, 0)),
            Self::FallenLeaves => iaabb3(ivec3(0, 0, 0), ivec3(0, 0, 0)),
            Self::MixPebbles => iaabb3(ivec3(0, 0, 0), ivec3(0, 0, 0)),
            Self::OakTree => iaabb3(ivec3(0, 0, 0), ivec3(0, 0, 2)),
            Self::BirchTree => iaabb3(ivec3(0, 0, 0), ivec3(0, 0, 2)),
            Self::DyingTree => iaabb3(ivec3(0, 0, 0), ivec3(0, 0, 2)),
            Self::FallenTree => iaabb3(ivec3(0, 0, 0), ivec3(3, 1, 0)),
            Self::MixRock => iaabb3(ivec3(0, 0, 0), ivec3(1, 1, 0)),
        }
    }
}

/// A block placed in the world.
#[derive(Clone, Copy, Debug, PartialEq, Eq)]
pub struct Block {
    pub position: IVec3,
    pub kind: BlockKind,
}

impl Block {
    /// Creates a block.
    pub fn new(position: IVec3, kind: BlockKind) -> (r: Block)
        ensures
            r == (Block { position, kind }),
    {
        Block { position, kind }
    }

    /// Whether the block can be broken.
    pub fn breakable(&self) -> (r: bool)
        ensures
            r == !is_surface(self.kind),
    {
        self.kind.breakable()
    }

    /// The collision box in world space: the local box moved to the
    /// block's position.
    pub fn bounds(&self) -> (r: IAabb3)
        requires
            in_i32(self.position.x + local_extent(self.kind).0),
            in_i32(self.position.y + local_extent(self.kind).1),
            in_i32(self.position.z + local_extent(self.kind).2),
        ensures
            r.min == self.position,
            r.max.x == self.position.x + local_extent(self.kind).0,
            r.max.y == self.position.y + local_extent(self.kind).1,
            r.max.z == self.position.z + local_extent(self.kind).2,
    {
        self.kind.bounds().add_ivec3(self.position)
    }
}

} // verus!
