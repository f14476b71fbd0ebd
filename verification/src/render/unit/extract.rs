//! Shapes and atlas entries of units.

use vstd::prelude::*;

use crate::model::unit_kind::UnitKind;
use crate::render::unit::texture::UnitAtlasOption;

verus! {

/// The shape of a unit.
#[derive(Clone, Copy, Debug, PartialEq, Eq, Hash)]
pub enum UnitShapeItem {
    Block,
    Top,
    Bottom,
    Quad,
    Quad1x2,
    Quad2x2,
    Quad4x2,
    Quad4x6,
}

/// The atlas entry of a unit.
#[derive(Clone, Copy, Debug, PartialEq, Eq, PartialOrd, Ord, Hash)]
pub enum UnitAtlasItem {
    SurfaceDirt,
    SurfaceGrass,
    SurfaceGravel,
    SurfaceSand,
    SurfaceStone,
    MixGrass,
    Dandelion,
    FallenBranch,
    FallenLeaves,
    MixPebbles,
    Player,
    OakTree,
    BirchTree,
    DyingTree,
    FallenTree,
    MixRock,
}

/// The shape used to draw a unit of the given kind.
pub open spec fn shape_item_of_unit(kind: UnitKind) -> UnitShapeItem {
    match kind {
        UnitKind::SurfaceDirt | UnitKind::SurfaceGrass | UnitKind::SurfaceGravel | UnitKind::SurfaceSand | UnitKind::SurfaceStone => UnitShapeItem::Top,
        UnitKind::MixGrass | UnitKind::Dandelion | UnitKind::FallenBranch | UnitKind::FallenLeaves | UnitKind::MixPebbles => UnitShapeItem::Bottom,
        UnitKind::Player => UnitShapeItem::Quad1x2,
        UnitKind::OakTree | UnitKind::BirchTree | UnitKind::DyingTree => UnitShapeItem::Quad4x6,
        UnitKind::FallenTree => UnitShapeItem::Quad4x2,
        UnitKind::MixRock => UnitShapeItem::Quad2x2,
    }
}

/// The atlas entry of a unit of the given kind.
pub open spec fn atlas_item_of_unit(kind: UnitKind) -> UnitAtlasItem {
    match kind {
        UnitKind::SurfaceDirt => UnitAtlasItem::SurfaceDirt,
        UnitKind::SurfaceGrass => UnitAtlasItem::SurfaceGrass,
        UnitKind::SurfaceGravel => UnitAtlasItem::SurfaceGravel,
        UnitKind::SurfaceSand => UnitAtlasItem::SurfaceSand,
        UnitKind::SurfaceStone => UnitAtlasItem::SurfaceStone,
        UnitKind::MixGrass => UnitAtlasItem::MixGrass,
        UnitKind::Dandelion => UnitAtlasItem::Dandelion,
        UnitKind::FallenBranch => UnitAtlasItem::FallenBranch,
        UnitKind::FallenLeaves => UnitAtlasItem::FallenLeaves,
        UnitKind::MixPebbles => UnitAtlasItem::MixPebbles,
        UnitKind::Player => UnitAtlasItem::Player,
        UnitKind::OakTree => UnitAtlasItem::OakTree,
        UnitKind::BirchTree => UnitAtlasItem::BirchTree,
        UnitKind::DyingTree => UnitAtlasItem::DyingTree,
        UnitKind::FallenTree => UnitAtlasItem::FallenTree,
        UnitKind::MixRock => UnitAtlasItem::MixRock,
    }
}

/// The size of the texture in atlas blocks.
pub open spec fn atlas_item_block_size(kind: UnitAtlasItem) -> (u32, u32) {
    match kind {
        UnitAtlasItem::SurfaceDirt | UnitAtlasItem::SurfaceGrass | UnitAtlasItem::SurfaceGravel | UnitAtlasItem::SurfaceSand | UnitAtlasItem::SurfaceStone | UnitAtlasItem::MixGrass | UnitAtlasItem::Dandelion | UnitAtlasItem::FallenBranch | UnitAtlasItem::FallenLeaves | UnitAtlasItem::MixPebbles => (1, 1),
        UnitAtlasItem::Player => (1, 2),
        UnitAtlasItem::OakTree | UnitAtlasItem::BirchTree | UnitAtlasItem::DyingTree => (4, 6),
        UnitAtlasItem::FallenTree => (4, 2),
        UnitAtlasItem::MixRock => (2, 2),
    }
}

/// How the texture is padded in the atlas: seamless ground textures are repeated.
pub open spec fn atlas_item_option(kind: UnitAtlasItem) -> UnitAtlasOption {
    match kind {
        UnitAtlasItem::SurfaceDirt | UnitAtlasItem::SurfaceGrass | UnitAtlasItem::SurfaceGravel | UnitAtlasItem::SurfaceSand | UnitAtlasItem::SurfaceStone => UnitAtlasOption::Continuous,
        UnitAtlasItem::MixGrass | UnitAtlasItem::Dandelion | UnitAtlasItem::FallenBranch | UnitAtlasItem::FallenLeaves | UnitAtlasItem::MixPebbles | UnitAtlasItem::Player | UnitAtlasItem::OakTree | UnitAtlasItem::BirchTree | UnitAtlasItem::DyingTree | UnitAtlasItem::FallenTree | UnitAtlasItem::MixRock => UnitAtlasOption::Single,
    }
}

impl UnitShapeItem {
    /// Every kind, in declaration order.
    pub fn all() -> (r: Vec<UnitShapeItem>)
        ensures
            r@ == seq![UnitShapeItem::Block, UnitShapeItem::Top, UnitShapeItem::Bottom, UnitShapeItem::Quad, UnitShapeItem::Quad1x2, UnitShapeItem::Quad2x2, UnitShapeItem::Quad4x2, UnitShapeItem::Quad4x6],
    {
        let mut v: Vec<UnitShapeItem> = Vec::new();
        v.push(UnitShapeItem::Block);
        v.push(UnitShapeItem::Top);
        v.push(UnitShapeItem::Bottom);
        v.push(UnitShapeItem::Quad);
        v.push(UnitShapeItem::Quad1x2);
        v.push(UnitShapeItem::Quad2x2);
        v.push(UnitShapeItem::Quad4x2);
        v.push(UnitShapeItem::Quad4x6);
        v
    }

    /// The shape used to draw a unit of the given kind.
    pub fn from_unit_kind(value: UnitKind) -> (r: UnitShapeItem)
        ensures
            r == shape_item_of_unit(value),
    {
        match value {
            UnitKind::SurfaceDirt => UnitShapeItem::Top,
            UnitKind::SurfaceGrass => UnitShapeItem::Top,
            UnitKind::SurfaceGravel => UnitShapeItem::Top,
            UnitKind::SurfaceSand => UnitShapeItem::Top,
            UnitKind::SurfaceStone => UnitShapeItem::Top,
            UnitKind::MixGrass => UnitShapeItem::Bottom,
            UnitKind::Dandelion => UnitShapeItem::Bottom,
            UnitKind::FallenBranch => UnitShapeItem::Bottom,
            UnitKind::FallenLeaves => UnitShapeItem::Bottom,
            UnitKind::MixPebbles => UnitShapeItem::Bottom,
            UnitKind::Player => UnitShapeItem::Quad1x2,
            UnitKind::OakTree => UnitShapeItem::Quad4x6,
            UnitKind::BirchTree => UnitShapeItem::Quad4x6,
            UnitKind::DyingTree => UnitShapeItem::Quad4x6,
            UnitKind::FallenTree => UnitShapeItem::Quad4x2,
            UnitKind::MixRock => UnitShapeItem::Quad2x2,
        }
    }

    /// The triangle indices of the model: two triangles over the quad.
    pub fn indices(&self) -> (r: Vec<u16>)
        ensures
            r@ == seq![0u16, 1u16, 2u16, 2u16, 3u16, 0u16],
    {
        vec![0, 1, 2, 2, 3, 0]
    }
}

impl UnitAtlasItem {
    /// Every kind, in declaration order.
    pub fn all() -> (r: Vec<UnitAtlasItem>)
        ensures
            r@ == seq![UnitAtlasItem::SurfaceDirt, UnitAtlasItem::SurfaceGrass, UnitAtlasItem::SurfaceGravel, UnitAtlasItem::SurfaceSand, UnitAtlasItem::SurfaceStone, UnitAtlasItem::MixGrass, UnitAtlasItem::Dandelion, UnitAtlasItem::FallenBranch, UnitAtlasItem::FallenLeaves, UnitAtlasItem::MixPebbles, UnitAtlasItem::Player, UnitAtlasItem::OakTree, UnitAtlasItem::BirchTree, UnitAtlasItem::DyingTree, UnitAtlasItem::FallenTree, UnitAtlasItem::MixRock],
    {
        let mut v: Vec<UnitAtlasItem> = Vec::new();
        v.push(UnitAtlasItem::SurfaceDirt);
        v.push(UnitAtlasItem::SurfaceGrass);
        v.push(UnitAtlasItem::SurfaceGravel);
        v.push(UnitAtlasItem::SurfaceSand);
        v.push(UnitAtlasItem::SurfaceStone);
        v.push(UnitAtlasItem::MixGrass);
        v.push(UnitAtlasItem::Dandelion);
        v.push(UnitAtlasItem::FallenBranch);
        v.push(UnitAtlasItem::FallenLeaves);
        v.push(UnitAtlasItem::MixPebbles);
        v.push(UnitAtlasItem::Player);
        v.push(UnitAtlasItem::OakTree);
        v.push(UnitAtlasItem::BirchTree);
        v.push(UnitAtlasItem::DyingTree);
        v.push(UnitAtlasItem::FallenTree);
        v.push(UnitAtlasItem::MixRock);
        v
    }

    /// The atlas entry of a unit of the given kind.
    pub fn from_unit_kind(value: UnitKind) -> (r: UnitAtlasItem)
        ensures
            r == atlas_item_of_unit(value),
    {
        match value {
            UnitKind::SurfaceDirt => UnitAtlasItem::SurfaceDirt,
            UnitKind::SurfaceGrass => UnitAtlasItem::SurfaceGrass,
            UnitKind::SurfaceGravel => UnitAtlasItem::SurfaceGravel,
            UnitKind::SurfaceSand => UnitAtlasItem::SurfaceSand,
            UnitKind::SurfaceStone => UnitAtlasItem::SurfaceStone,
            UnitKind::MixGrass => UnitAtlasItem::MixGrass,
            UnitKind::Dandelion => UnitAtlasItem::Dandelion,
            UnitKind::FallenBranch => UnitAtlasItem::FallenBranch,
            UnitKind::FallenLeaves => UnitAtlasItem::FallenLeaves,
            UnitKind::MixPebbles => UnitAtlasItem::MixPebbles,
            UnitKind::Player => UnitAtlasItem::Player,
            UnitKind::OakTree => UnitAtlasItem::OakTree,
            UnitKind::BirchTree => UnitAtlasItem::BirchTree,
            UnitKind::DyingTree => UnitAtlasItem::DyingTree,
            UnitKind::FallenTree => UnitAtlasItem::FallenTree,
            UnitKind::MixRock => UnitAtlasItem::MixRock,
        }
    }

    /// The size of the texture in atlas blocks.
    pub fn block_size(&self) -> (r: (u32, u32))
        ensures
            r == atlas_item_block_size(*self),
    {
        match self {
            Self::SurfaceDirt => (1, 1),
            Self::SurfaceGrass => (1, 1),
            Self::SurfaceGravel => (1, 1),
            Self::SurfaceSand => (1, 1),
            Self::SurfaceStone => (1, 1),
            Self::MixGrass => (1, 1),
            Self::Dandelion => (1, 1),
            Self::FallenBranch => (1, 1),
            Self::FallenLeaves => (1, 1),
            Self::MixPebbles => (1, 1),
            Self::Player => (1, 2),
            Self::OakTree => (4, 6),
            Self::BirchTree => (4, 6),
            Self::DyingTree => (4, 6),
            Self::FallenTree => (4, 2),
            Self::MixRock => (2, 2),
        }
    }

    /// How the texture is padded in the atlas: seamless ground textures are repeated.
    pub fn atlas_option(&self) -> (r: UnitAtlasOption)
        ensures
            r == atlas_item_option(*self),
    {
        match self {
            Self::SurfaceDirt => UnitAtlasOption::Continuous,
            Self::SurfaceGrass => UnitAtlasOption::Continuous,
            Self::SurfaceGravel => UnitAtlasOption::Continuous,
            Self::SurfaceSand => UnitAtlasOption::Continuous,
            Self::SurfaceStone => UnitAtlasOption::Continuous,
            Self::MixGrass => UnitAtlasOption::Single,
            Self::Dandelion => UnitAtlasOption::Single,
            Self::FallenBranch => UnitAtlasOption::Single,
            Self::FallenLeaves => UnitAtlasOption::Single,
            Self::MixPebbles => UnitAtlasOption::Single,
            Self::Player => UnitAtlasOption::Single,
            Self::OakTree => UnitAtlasOption::Single,
            Self::BirchTree => UnitAtlasOption::Single,
            Self::DyingTree => UnitAtlasOption::Single,
            Self::FallenTree => UnitAtlasOption::Single,
            Self::MixRock => UnitAtlasOption::Single,
        }
    }
}

} // verus!
