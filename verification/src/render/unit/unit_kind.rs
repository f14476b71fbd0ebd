//! Drawing properties of unit kinds.

use vstd::prelude::*;

use crate::model::unit_kind::UnitKind;

verus! {

/// The shape of a unit.
#[derive(Clone, Copy, Debug, PartialEq, Eq, Hash)]
pub enum UnitShape {
    Block,
    Top,
    Bottom,
    Quad,
}

/// How a texture is padded in the atlas.
#[derive(Clone, Copy, Debug, PartialEq, Eq, Hash)]
pub enum TextureOption {
    Single,
    Continuous,
}

/// The shape used to draw a unit of this kind.
pub open spec fn unit_kind_shape(kind: UnitKind) -> UnitShape {
    match kind {
        UnitKind::SurfaceDirt | UnitKind::SurfaceGrass | UnitKind::SurfaceGravel | UnitKind::SurfaceSand | UnitKind::SurfaceStone => UnitShape::Top,
        UnitKind::MixGrass | UnitKind::Dandelion | UnitKind::FallenBranch | UnitKind::FallenLeaves | UnitKind::MixPebbles => UnitShape::Bottom,
        UnitKind::Player | UnitKind::OakTree | UnitKind::BirchTree | UnitKind::DyingTree | UnitKind::FallenTree | UnitKind::MixRock => UnitShape::Quad,
    }
}

/// The size of the texture in blocks, as `(width, height)`.
pub open spec fn unit_kind_texture_size(kind: UnitKind) -> (u32, u32) {
    match kind {
        UnitKind::SurfaceDirt | UnitKind::SurfaceGrass | UnitKind::SurfaceGravel | UnitKind::SurfaceSand | UnitKind::SurfaceStone | UnitKind::MixGrass | UnitKind::Dandelion | UnitKind::FallenBranch | UnitKind::FallenLeaves | UnitKind::MixPebbles => (1, 1),
        UnitKind::Player => (1, 2),
        UnitKind::OakTree | UnitKind::BirchTree | UnitKind::DyingTree => (4, 6),
        UnitKind::FallenTree => (4, 2),
        UnitKind::MixRock => (2, 2),
    }
}

/// How the texture is padded: seamless ground textures are repeated.
pub open spec fn unit_kind_texture_option(kind: UnitKind) -> TextureOption {
    match kind {
        UnitKind::SurfaceDirt | UnitKind::SurfaceGrass | UnitKind::SurfaceGravel | UnitKind::SurfaceSand | UnitKind::SurfaceStone => TextureOption::Continuous,
        UnitKind::MixGrass | UnitKind::Dandelion | UnitKind::FallenBranch | UnitKind::FallenLeaves | UnitKind::MixPebbles | UnitKind::Player | UnitKind::OakTree | UnitKind::BirchTree | UnitKind::DyingTree | UnitKind::FallenTree | UnitKind::MixRock => TextureOption::Single,
    }
}

impl UnitShape {
    /// Every kind, in declaration order.
    pub fn all() -> (r: Vec<UnitShape>)
        ensures
            r@ == seq![UnitShape::Block, UnitShape::Top, UnitShape::Bottom, UnitShape::Quad],
    {
        let mut v: Vec<UnitShape> = Vec::new();
        v.push(UnitShape::Block);
        v.push(UnitShape::Top);
        v.push(UnitShape::Bottom);
        v.push(UnitShape::Quad);
        v
    }
}

impl TextureOption {
    /// Every kind, in declaration order.
    pub fn all() -> (r: Vec<TextureOption>)
        ensures
            r@ == seq![TextureOption::Single, TextureOption::Continuous],
    {
        let mut v: Vec<TextureOption> = Vec::new();
        v.push(TextureOption::Single);
        v.push(TextureOption::Continuous);
        v
    }
}

impl UnitKind {
    /// The shape used to draw a unit of this kind.
    pub fn shape(&self) -> (r: UnitShape)
        ensures
            r == unit_kind_shape(*self),
    {
        match self {
            Self::SurfaceDirt => UnitShape::Top,
            Self::SurfaceGrass => UnitShape::Top,
            Self::SurfaceGravel => UnitShape::Top,
            Self::SurfaceSand => UnitShape::Top,
            Self::SurfaceStone => UnitShape::Top,
            Self::MixGrass => UnitShape::Bottom,
            Self::Dandelion => UnitShape::Bottom,
            Self::FallenBranch => UnitShape::Bottom,
            Self::FallenLeaves => UnitShape::Bottom,
            Self::MixPebbles => UnitShape::Bottom,
            Self::Player => UnitShape::Quad,
            Self::OakTree => UnitShape::Quad,
            Self::BirchTree => UnitShape::Quad,
            Self::DyingTree => UnitShape::Quad,
            Self::FallenTree => UnitShape::Quad,
            Self::MixRock => UnitShape::Quad,
        }
    }

    /// The size of the texture in blocks, as `(width, height)`.
    pub fn texture_size(&self) -> (r: (u32, u32))
        ensures
            r == unit_kind_texture_size(*self),
    {
        match self {
            Self::SurfaceDirt => (1, 1),
            Self::SurfaceGrass => (1, 1),
            Self::SurfaceGravel => (1, 1),
            Self::SurfaceSand => (1, 1),
            Self::SurfaceStone => (1, 1),
            Self::MixGrass => (1, 1),
            Self::Dandelion => (1, 1),
            Self::FallenBranch => (1, 1),
            Self::FallenLeaves => (1, 1),
            Self::MixPebbles => (1, 1),
            Self::Player => (1, 2),
            Self::OakTree => (4, 6),
            Self::BirchTree => (4, 6),
            Self::DyingTree => (4, 6),
            Self::FallenTree => (4, 2),
            Self::MixRock => (2, 2),
        }
    }

    /// How the texture is padded: seamless ground textures are repeated.
    pub fn texture_option(&self) -> (r: TextureOption)
        ensures
            r == unit_kind_texture_option(*self),
    {
        match self {
            Self::SurfaceDirt => TextureOption::Continuous,
            Self::SurfaceGrass => TextureOption::Continuous,
            Self::SurfaceGravel => TextureOption::Continuous,
            Self::SurfaceSand => TextureOption::Continuous,
            Self::SurfaceStone => TextureOption::Continuous,
            Self::MixGrass => TextureOption::Single,
            Self::Dandelion => TextureOption::Single,
            Self::FallenBranch => TextureOption::Single,
            Self::FallenLeaves => TextureOption::Single,
            Self::MixPebbles => TextureOption::Single,
            Self::Player => TextureOption::Single,
            Self::OakTree => TextureOption::Single,
            Self::BirchTree => TextureOption::Single,
            Self::DyingTree => TextureOption::Single,
            Self::FallenTree => TextureOption::Single,
            Self::MixRock => TextureOption::Single,
        }
    }
}

/// The ground surfaces are the units drawn flat on top of their cell, and
/// exactly their textures repeat across cell edges; every other texture is
/// padded as a single image.
pub proof fn lemma_repeated_textures_are_ground(kind: UnitKind)
    ensures
        unit_kind_texture_option(kind) == TextureOption::Continuous <==> unit_kind_shape(kind) == UnitShape::Top,
        unit_kind_texture_option(kind) == TextureOption::Continuous <==> (kind == UnitKind::SurfaceDirt || kind
            == UnitKind::SurfaceGrass || kind == UnitKind::SurfaceGravel || kind == UnitKind::SurfaceSand || kind
            == UnitKind::SurfaceStone),
{
}

} // verus!
