//! Kinds of drawable objects and their shapes.

use vstd::prelude::*;

verus! {

/// The model shape of a drawable object.
#[derive(Clone, Copy, Debug, PartialEq, Eq, Hash)]
pub enum Shape {
    Block,
    Top,
    Bottom,
    Quad,
}

/// The kind of a drawable object.
#[derive(Clone, Copy, Debug, PartialEq, Eq, Hash)]
pub enum Kind {
    SurfaceDirt,
    SurfaceGrass,
    SurfaceGravel,
    SurfaceSand,
    SurfaceStone,
    MixGrass,
    Dandelion,
    FallenBranch,
    FallenLeaves,
    MixPebbles,
    Player,
    OakTree,
    BirchTree,
    DyingTree,
    FallenTree,
    MixRock,
}

/// The model shape used to draw the kind.
pub open spec fn kind_shape(kind: Kind) -> Shape {
    match kind {
        Kind::SurfaceDirt | Kind::SurfaceGrass | Kind::SurfaceGravel | Kind::SurfaceSand | Kind::SurfaceStone => Shape::Top,
        Kind::MixGrass | Kind::Dandelion | Kind::FallenBranch | Kind::FallenLeaves | Kind::MixPebbles => Shape::Bottom,
        Kind::Player | Kind::OakTree | Kind::BirchTree | Kind::DyingTree | Kind::FallenTree | Kind::MixRock => Shape::Quad,
    }
}

/// The size of the kind's texture in blocks, as `(width, height)`.
pub open spec fn kind_texture_size(kind: Kind) -> (u32, u32) {
    match kind {
        Kind::SurfaceDirt | Kind::SurfaceGrass | Kind::SurfaceGravel | Kind::SurfaceSand | Kind::SurfaceStone | Kind::MixGrass | Kind::Dandelion | Kind::FallenBranch | Kind::FallenLeaves | Kind::MixPebbles => (1, 1),
        Kind::Player => (1, 2),
        Kind::OakTree | Kind::BirchTree | Kind::DyingTree => (4, 6),
        Kind::FallenTree => (4, 2),
        Kind::MixRock => (2, 2),
    }
}

impl Kind {
    /// Every kind, in declaration order.
    pub fn all() -> (r: Vec<Kind>)
        ensures
            r@ == seq![Kind::SurfaceDirt, Kind::SurfaceGrass, Kind::SurfaceGravel, Kind::SurfaceSand, Kind::SurfaceStone, Kind::MixGrass, Kind::Dandelion, Kind::FallenBranch, Kind::FallenLeaves, Kind::MixPebbles, Kind::Player, Kind::OakTree, Kind::BirchTree, Kind::DyingTree, Kind::FallenTree, Kind::MixRock],
    {
        let mut v: Vec<Kind> = Vec::new();
        v.push(Kind::SurfaceDirt);
        v.push(Kind::SurfaceGrass);
        v.push(Kind::SurfaceGravel);
        v.push(Kind::SurfaceSand);
        v.push(Kind::SurfaceStone);
        v.push(Kind::MixGrass);
        v.push(Kind::Dandelion);
        v.push(Kind::FallenBranch);
        v.push(Kind::FallenLeaves);
        v.push(Kind::MixPebbles);
        v.push(Kind::Player);
        v.push(Kind::OakTree);
        v.push(Kind::BirchTree);
        v.push(Kind::DyingTree);
        v.push(Kind::FallenTree);
        v.push(Kind::MixRock);
        v
    }

    /// The model shape used to draw the kind.
    pub fn shape(&self) -> (r: Shape)
        ensures
            r == kind_shape(*self),
    {
        match self {
            Self::SurfaceDirt => Shape::Top,
            Self::SurfaceGrass => Shape::Top,
            Self::SurfaceGravel => Shape::Top,
            Self::SurfaceSand => Shape::Top,
            Self::SurfaceStone => Shape::Top,
            Self::MixGrass => Shape::Bottom,
            Self::Dandelion => Shape::Bottom,
            Self::FallenBranch => Shape::Bottom,
            Self::FallenLeaves => Shape::Bottom,
            Self::MixPebbles => Shape::Bottom,
            Self::Player => Shape::Quad,
            Self::OakTree => Shape::Quad,
            Self::BirchTree => Shape::Quad,
            Self::DyingTree => Shape::Quad,
            Self::FallenTree => Shape::Quad,
            Self::MixRock => Shape::Quad,
        }
    }

    /// The size of the kind's texture in blocks, as `(width, height)`.
    pub fn texture_size(&self) -> (r: (u32, u32))
        ensures
            r == kind_texture_size(*self),
    {
        match self {
            Self::SurfaceDirt => (1, 1),
            Self::SurfaceGrass => (1, 1),
            Self::SurfaceGravel => (1, 1),
            Self::SurfaceSand => (1, 1),
            Self::SurfaceStone => (1, 1),
            Self::MixGrass => (1, 1),
            Self::Dandelion => (1, 1),
            Self::FallenBranch => (1, 1),
            Self::FallenLeaves => (1, 1),
            Self::MixPebbles => (1, 1),
            Self::Player => (1, 2),
            Self::OakTree => (4, 6),
            Self::BirchTree => (4, 6),
            Self::DyingTree => (4, 6),
            Self::FallenTree => (4, 2),
            Self::MixRock => (2, 2),
        }
    }
}

} // verus!
