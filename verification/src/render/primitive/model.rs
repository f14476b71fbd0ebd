//! Models and textures of drawable primitives.

use vstd::prelude::*;

use crate::model::block::BlockKind;
use crate::model::entity::EntityKind;
use crate::render::primitive::texture::{AtlasOption, BlockSize};

verus! {

/// The 3D model of a drawable object.
#[derive(Clone, Copy, Debug, PartialEq, Eq, Hash)]
pub enum ModelItem {
    ITop1x1,
    IBottom1x1,
    IBottom2x2,
    IBottom4x2,
    IBillboard4x6,
    Billboard1x2,
}

/// The texture of a drawable object.
#[derive(Clone, Copy, Debug, PartialEq, Eq, PartialOrd, Ord, Hash)]
pub enum TextureItem {
    SurfaceDirt,
    SurfaceGrass,
    SurfaceGravel,
    SurfaceSand,
    SurfaceStone,
    MixGrass,
    Dandelion,
    FallenBranch,
    FallenLeaves,
    MixPebbles,
    Player,
    OakTree,
    BirchTree,
    DyingTree,
    FallenTree,
    MixRock,
}

/// The model used to draw a block of the given kind.
pub open spec fn modelitem_of_block(kind: BlockKind) -> ModelItem {
    match kind {
        BlockKind::SurfaceDirt | BlockKind::SurfaceGrass | BlockKind::SurfaceGravel | BlockKind::SurfaceSand | BlockKind::SurfaceStone => ModelItem::ITop1x1,
        BlockKind::MixGrass | BlockKind::Dandelion | BlockKind::FallenBranch | BlockKind::FallenLeaves | BlockKind::MixPebbles => ModelItem::IBottom1x1,
        BlockKind::OakTree | BlockKind::BirchTree | BlockKind::DyingTree => ModelItem::IBillboard4x6,
        BlockKind::FallenTree => ModelItem::IBottom4x2,
        BlockKind::MixRock => ModelItem::IBottom2x2,
    }
}

/// The model used to draw an entity of the given kind.
pub open spec fn modelitem_of_entity(kind: EntityKind) -> ModelItem {
    match kind {
        EntityKind::Player => ModelItem::Billboard1x2,
    }
}

/// The texture used to draw a block of the given kind.
pub open spec fn textureitem_of_block(kind: BlockKind) -> TextureItem {
    match kind {
        BlockKind::SurfaceDirt => TextureItem::SurfaceDirt,
        BlockKind::SurfaceGrass => TextureItem::SurfaceGrass,
        BlockKind::SurfaceGravel => TextureItem::SurfaceGravel,
        BlockKind::SurfaceSand => TextureItem::SurfaceSand,
        BlockKind::SurfaceStone => TextureItem::SurfaceStone,
        BlockKind::MixGrass => TextureItem::MixGrass,
        BlockKind::Dandelion => TextureItem::Dandelion,
        BlockKind::FallenBranch => TextureItem::FallenBranch,
        BlockKind::FallenLeaves => TextureItem::FallenLeaves,
        BlockKind::MixPebbles => TextureItem::MixPebbles,
        BlockKind::OakTree => TextureItem::OakTree,
        BlockKind::BirchTree => TextureItem::BirchTree,
        BlockKind::DyingTree => TextureItem::DyingTree,
        BlockKind::FallenTree => TextureItem::FallenTree,
        BlockKind::MixRock => TextureItem::MixRock,
    }
}

/// The texture used to draw an entity of the given kind.
pub open spec fn textureitem_of_entity(kind: EntityKind) -> TextureItem {
    match kind {
        EntityKind::Player => TextureItem::Player,
    }
}

/// The size of the texture in atlas blocks, used for mipmap generation.
pub open spec fn textureitem_block_size(kind: TextureItem) -> BlockSize {
    match kind {
        TextureItem::SurfaceDirt | TextureItem::SurfaceGrass | TextureItem::SurfaceGravel | TextureItem::SurfaceSand | TextureItem::SurfaceStone | TextureItem::MixGrass | TextureItem::Dandelion | TextureItem::FallenBranch | TextureItem::FallenLeaves | TextureItem::MixPebbles => BlockSize(1, 1),
        TextureItem::Player => BlockSize(1, 2),
        TextureItem::OakTree | TextureItem::BirchTree | TextureItem::DyingTree => BlockSize(4, 6),
        TextureItem::FallenTree => BlockSize(4, 2),
        TextureItem::MixRock => BlockSize(2, 2),
    }
}

/// How the texture is padded in the atlas: seamless ground textures are repeated.
pub open spec fn textureitem_atlas_option(kind: TextureItem) -> AtlasOption {
    match kind {
        TextureItem::SurfaceDirt | TextureItem::SurfaceGrass | TextureItem::SurfaceGravel | TextureItem::SurfaceSand | TextureItem::SurfaceStone => AtlasOption::Continuous,
        TextureItem::MixGrass | TextureItem::Dandelion | TextureItem::FallenBranch | TextureItem::FallenLeaves | TextureItem::MixPebbles | TextureItem::Player | TextureItem::OakTree | TextureItem::BirchTree | TextureItem::DyingTree | TextureItem::FallenTree | TextureItem::MixRock => AtlasOption::Single,
    }
}

impl ModelItem {
    /// The triangle indices of the model: two triangles over the quad.
    pub fn indices(&self) -> (r: Vec<u32>)
        ensures
            r@ == seq![0u32, 1u32, 2u32, 2u32, 3u32, 0u32],
    {
        vec![0, 1, 2, 2, 3, 0]
    }

    /// The model used to draw a block of the given kind.
    pub fn from_block_kind(value: BlockKind) -> (r: ModelItem)
        ensures
            r == modelitem_of_block(value),
    {
        match value {
            BlockKind::SurfaceDirt => ModelItem::ITop1x1,
            BlockKind::SurfaceGrass => ModelItem::ITop1x1,
            BlockKind::SurfaceGravel => ModelItem::ITop1x1,
            BlockKind::SurfaceSand => ModelItem::ITop1x1,
            BlockKind::SurfaceStone => ModelItem::ITop1x1,
            BlockKind::MixGrass => ModelItem::IBottom1x1,
            BlockKind::Dandelion => ModelItem::IBottom1x1,
            BlockKind::FallenBranch => ModelItem::IBottom1x1,
            BlockKind::FallenLeaves => ModelItem::IBottom1x1,
            BlockKind::MixPebbles => ModelItem::IBottom1x1,
            BlockKind::OakTree => ModelItem::IBillboard4x6,
            BlockKind::BirchTree => ModelItem::IBillboard4x6,
            BlockKind::DyingTree => ModelItem::IBillboard4x6,
            BlockKind::FallenTree => ModelItem::IBottom4x2,
            BlockKind::MixRock => ModelItem::IBottom2x2,
        }
    }

    /// The model used to draw an entity of the given kind.
    pub fn from_entity_kind(value: EntityKind) -> (r: ModelItem)
        ensures
            r == modelitem_of_entity(value),
    {
        match value {
            EntityKind::Player => ModelItem::Billboard1x2,
        }
    }
}

/// Every texture, in declaration order.
pub open spec fn texture_items() -> Seq<TextureItem> {
    seq![TextureItem::SurfaceDirt, TextureItem::SurfaceGrass, TextureItem::SurfaceGravel, TextureItem::SurfaceSand, TextureItem::SurfaceStone, TextureItem::MixGrass, TextureItem::Dandelion, TextureItem::FallenBranch, TextureItem::FallenLeaves, TextureItem::MixPebbles, TextureItem::Player, TextureItem::OakTree, TextureItem::BirchTree, TextureItem::DyingTree, TextureItem::FallenTree, TextureItem::MixRock]
}

impl TextureItem {
    /// Every kind, in declaration order.
    pub fn all() -> (r: Vec<TextureItem>)
        ensures
            r@ == texture_items(),
    {
        let mut v: Vec<TextureItem> = Vec::new();
        v.push(TextureItem::SurfaceDirt);
        v.push(TextureItem::SurfaceGrass);
        v.push(TextureItem::SurfaceGravel);
        v.push(TextureItem::SurfaceSand);
        v.push(TextureItem::SurfaceStone);
        v.push(TextureItem::MixGrass);
        v.push(TextureItem::Dandelion);
        v.push(TextureItem::FallenBranch);
        v.push(TextureItem::FallenLeaves);
        v.push(TextureItem::MixPebbles);
        v.push(TextureItem::Player);
        v.push(TextureItem::OakTree);
        v.push(TextureItem::BirchTree);
        v.push(TextureItem::DyingTree);
        v.push(TextureItem::FallenTree);
        v.push(TextureItem::MixRock);
        v
    }

    /// The texture used to draw a block of the given kind.
    pub fn from_block_kind(value: BlockKind) -> (r: TextureItem)
        ensures
            r == textureitem_of_block(value),
    {
        match value {
            BlockKind::SurfaceDirt => TextureItem::SurfaceDirt,
            BlockKind::SurfaceGrass => TextureItem::SurfaceGrass,
            BlockKind::SurfaceGravel => TextureItem::SurfaceGravel,
            BlockKind::SurfaceSand => TextureItem::SurfaceSand,
            BlockKind::SurfaceStone => TextureItem::SurfaceStone,
            BlockKind::MixGrass => TextureItem::MixGrass,
            BlockKind::Dandelion => TextureItem::Dandelion,
            BlockKind::FallenBranch => TextureItem::FallenBranch,
            BlockKind::FallenLeaves => TextureItem::FallenLeaves,
            BlockKind::MixPebbles => TextureItem::MixPebbles,
            BlockKind::OakTree => TextureItem::OakTree,
            BlockKind::BirchTree => TextureItem::BirchTree,
            BlockKind::DyingTree => TextureItem::DyingTree,
            BlockKind::FallenTree => TextureItem::FallenTree,
            BlockKind::MixRock => TextureItem::MixRock,
        }
    }

    /// The texture used to draw an entity of the given kind.
    pub fn from_entity_kind(value: EntityKind) -> (r: TextureItem)
        ensures
            r == textureitem_of_entity(value),
    {
        match value {
            EntityKind::Player => TextureItem::Player,
        }
    }

    /// The size of the texture in atlas blocks, used for mipmap generation.
    pub fn block_size(&self) -> (r: BlockSize)
        ensures
            r == textureitem_block_size(*self),
    {
        match self {
            Self::SurfaceDirt => BlockSize(1, 1),
            Self::SurfaceGrass => BlockSize(1, 1),
            Self::SurfaceGravel => BlockSize(1, 1),
            Self::SurfaceSand => BlockSize(1, 1),
            Self::SurfaceStone => BlockSize(1, 1),
            Self::MixGrass => BlockSize(1, 1),
            Self::Dandelion => BlockSize(1, 1),
            Self::FallenBranch => BlockSize(1, 1),
            Self::FallenLeaves => BlockSize(1, 1),
            Self::MixPebbles => BlockSize(1, 1),
            Self::Player => BlockSize(1, 2),
            Self::OakTree => BlockSize(4, 6),
            Self::BirchTree => BlockSize(4, 6),
            Self::DyingTree => BlockSize(4, 6),
            Self::FallenTree => BlockSize(4, 2),
            Self::MixRock => BlockSize(2, 2),
        }
    }

    /// How the texture is padded in the atlas: seamless ground textures are repeated.
    pub fn atlas_option(&self) -> (r: AtlasOption)
        ensures
            r == textureitem_atlas_option(*self),
    {
        match self {
            Self::SurfaceDirt => AtlasOption::Continuous,
            Self::SurfaceGrass => AtlasOption::Continuous,
            Self::SurfaceGravel => AtlasOption::Continuous,
            Self::SurfaceSand => AtlasOption::Continuous,
            Self::SurfaceStone => AtlasOption::Continuous,
            Self::MixGrass => AtlasOption::Single,
            Self::Dandelion => AtlasOption::Single,
            Self::FallenBranch => AtlasOption::Single,
            Self::FallenLeaves => AtlasOption::Single,
            Self::MixPebbles => AtlasOption::Single,
            Self::Player => AtlasOption::Single,
            Self::OakTree => AtlasOption::Single,
            Self::BirchTree => AtlasOption::Single,
            Self::DyingTree => AtlasOption::Single,
            Self::FallenTree => AtlasOption::Single,
            Self::MixRock => AtlasOption::Single,
        }
    }
}

} // verus!
