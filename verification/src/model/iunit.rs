//! Units placed on the integer grid.

use vstd::prelude::*;

use crate::model::bounds::{iaabb3, IAabb3};
use crate::vector::{in_i32, ivec3, IVec3};

verus! {

/// The kind of a block.
#[derive(Clone, Copy, Debug, PartialEq, Eq, Hash)]
pub enum IUnitKind {
    SurfaceDirt,
    SurfaceGrass,
    SurfaceGravel,
    SurfaceSand,
    SurfaceStone,
    MixGrass,
    Dandelion,
    FallenBranch,
    FallenLeaves,
    MixPebbles,
    OakTree,
    BirchTree,
    DyingTree,
    FallenTree,
    MixRock,
}

/// Whether the kind is one of the ground surfaces.
pub open spec fn is_surface(kind: IUnitKind) -> bool {
    ||| kind == IUnitKind::SurfaceDirt
    ||| kind == IUnitKind::SurfaceGrass
    ||| kind == IUnitKind::SurfaceGravel
    ||| kind == IUnitKind::SurfaceSand
    ||| kind == IUnitKind::SurfaceStone
}

/// The local collision box of a kind, as `(max.x, max.y, max.z)`; the
/// minimum corner is always the origin.
pub open spec fn local_extent(kind: IUnitKind) -> (int, int, int) {
    match kind {
        IUnitKind::OakTree | IUnitKind::BirchTree | IUnitKind::DyingTree => (0, 0, 2),
        IUnitKind::FallenTree => (3, 1, 0),
        IUnitKind::MixRock => (1, 1, 0),
        _ => (0, 0, 0),
    }
}

impl IUnitKind {
    /// Whether the unit can be broken: every kind but the ground surfaces.
    pub fn breakable(&self) -> (r: bool)
        ensures
            r == !is_surface(*self),
    {
        match self {
            Self::SurfaceDirt => false,
            Self::SurfaceGrass => false,
            Self::SurfaceGravel => false,
            Self::SurfaceSand => false,
            Self::SurfaceStone => false,
            Self::MixGrass => true,
            Self::Dandelion => true,
            Self::FallenBranch => true,
            Self::FallenLeaves => true,
            Self::MixPebbles => true,
            Self::OakTree => true,
            Self::BirchTree => true,
            Self::DyingTree => true,
            Self::FallenTree => true,
            Self::MixRock => true,
        }
    }

    /// The collision box in local space, with the unit's cell at the origin.
    pub fn aabb(&self) -> (r: IAabb3)
        ensures
            r.min == (IVec3 { x: 0, y: 0, z: 0 }),
            r.max.x == local_extent(*self).0,
            r.max.y == local_extent(*self).1,
            r.max.z == local_extent(*self).2,
    {
        match self {
            Self::SurfaceDirt => iaabb3(ivec3(0, 0, 0), ivec3(0, 0, 0)),
            Self::SurfaceGrass => iaabb3(ivec3(0, 0, 0), ivec3(0, 0, 0)),
            Self::SurfaceGravel => iaabb3(ivec3(0, 0, 0), ivec3(0, 0, 0)),
            Self::SurfaceSand => iaabb3(ivec3(0, 0, 0), ivec3(0, 0, 0)),
            Self::SurfaceStone => iaabb3(ivec3(0, 0, 0), ivec3(0, 0, 0)),
            Self::MixGrass => iaabb3(ivec3(0, 0, 0), ivec3(0, 0, 0)),
            Self::Dandelion => iaabb3(ivec3(0, 0, 0), ivec3(0, 0, 0)),
            Self::FallenBranch => iaabb3(ivec3(0, 0, 0), ivec3(0, 0, 0)),
            Self::FallenLeaves => iaabb3(ivec3(0, 0, 0), ivec3(0, 0, 0)),
            Self::MixPebbles => iaabb3(ivec3(0, 0, 0), ivec3(0, 0, 0)),
            Self::OakTree => iaabb3(ivec3(0, 0, 0), ivec3(0, 0, 2)),
            Self::BirchTree => iaabb3(ivec3(0, 0, 0), ivec3(0, 0, 2)),
            Self::DyingTree => iaabb3(ivec3(0, 0, 0), ivec3(0, 0, 2)),
            Self::FallenTree => iaabb3(ivec3(0, 0, 0), ivec3(3, 1, 0)),
            Self::MixRock => iaabb3(ivec3(0, 0, 0), ivec3(1, 1, 0)),
        }
    }
}

/// A unit placed on the integer grid.
#[derive(Clone, Copy, Debug, PartialEq, Eq)]
pub struct IUnit {
    pub id: u64,
    pub position: IVec3,
    pub kind: IUnitKind,
}

impl IUnit {
    /// Creates a unit with the given identifier.
    pub fn new(id: u64, position: IVec3, kind: IUnitKind) -> (r: IUnit)
        ensures
            r == (IUnit { id, position, kind }),
    {
        IUnit { id, position, kind }
    }

    /// Whether the unit can be broken.
    pub fn breakable(&self) -> (r: bool)
        ensures
            r == !is_surface(self.kind),
    {
        self.kind.breakable()
    }

    /// The collision box in world space: the local box moved to the unit's
    /// position.
    pub fn aabb(&self) -> (r: IAabb3)
        requires
            in_i32(self.position.x + local_extent(self.kind).0),
            in_i32(self.position.y + local_extent(self.kind).1),
            in_i32(self.position.z + local_extent(self.kind).2),
        ensures
            r.min == self.position,
            r.max.x == self.position.x + local_extent(self.kind).0,
            r.max.y == self.position.y + local_extent(self.kind).1,
            r.max.z == self.position.z + local_extent(self.kind).2,
    {
        self.kind.aabb().add_ivec3(self.position)
    }
}

} // verus!
