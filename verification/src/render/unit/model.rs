//! Models and textures used to draw blocks and entities.

use vstd::prelude::*;

use crate::model::block::{is_surface, local_extent, BlockKind};
use crate::model::entity::EntityKind;
use crate::render::unit::texture::UnitAtlasOption;

verus! {

/// The 3D model of a drawable object.
#[derive(Clone, Copy, Debug, PartialEq, Eq, Hash)]
pub enum UnitModelItem {
    ITop1x1,
    IBottom1x1,
    IBottom2x2,
    IBottom4x2,
    IBillboard4x6,
    Billboard1x2,
}

/// The texture of a drawable object.
#[derive(Clone, Copy, Debug, PartialEq, Eq, PartialOrd, Ord, Hash)]
pub enum UnitTextureItem {
    SurfaceDirt,
    SurfaceGrass,
    SurfaceGravel,
    SurfaceSand,
    SurfaceStone,
    MixGrass,
    Dandelion,
    FallenBranch,
    FallenLeaves,
    MixPebbles,
    Player,
    OakTree,
    BirchTree,
    DyingTree,
    FallenTree,
    MixRock,
}

/// The model used to draw a block of the given kind.
pub open spec fn unitmodelitem_of_block(kind: BlockKind) -> UnitModelItem {
    match kind {
        BlockKind::SurfaceDirt | BlockKind::SurfaceGrass | BlockKind::SurfaceGravel | BlockKind::SurfaceSand | BlockKind::SurfaceStone => UnitModelItem::ITop1x1,
        BlockKind::MixGrass | BlockKind::Dandelion | BlockKind::FallenBranch | BlockKind::FallenLeaves | BlockKind::MixPebbles => UnitModelItem::IBottom1x1,
        BlockKind::OakTree | BlockKind::BirchTree | BlockKind::DyingTree => UnitModelItem::IBillboard4x6,
        BlockKind::FallenTree => UnitModelItem::IBottom4x2,
        BlockKind::MixRock => UnitModelItem::IBottom2x2,
    }
}

/// The model used to draw an entity of the given kind.
pub open spec fn unitmodelitem_of_entity(kind: EntityKind) -> UnitModelItem {
    match kind {
        EntityKind::Player => UnitModelItem::Billboard1x2,
    }
}

/// The texture used to draw a block of the given kind.
pub open spec fn unittextureitem_of_block(kind: BlockKind) -> UnitTextureItem {
    match kind {
        BlockKind::SurfaceDirt => UnitTextureItem::SurfaceDirt,
        BlockKind::SurfaceGrass => UnitTextureItem::SurfaceGrass,
        BlockKind::SurfaceGravel => UnitTextureItem::SurfaceGravel,
        BlockKind::SurfaceSand => UnitTextureItem::SurfaceSand,
        BlockKind::SurfaceStone => UnitTextureItem::SurfaceStone,
        BlockKind::MixGrass => UnitTextureItem::MixGrass,
        BlockKind::Dandelion => UnitTextureItem::Dandelion,
        BlockKind::FallenBranch => UnitTextureItem::FallenBranch,
        BlockKind::FallenLeaves => UnitTextureItem::FallenLeaves,
        BlockKind::MixPebbles => UnitTextureItem::MixPebbles,
        BlockKind::OakTree => UnitTextureItem::OakTree,
        BlockKind::BirchTree => UnitTextureItem::BirchTree,
        BlockKind::DyingTree => UnitTextureItem::DyingTree,
        BlockKind::FallenTree => UnitTextureItem::FallenTree,
        BlockKind::MixRock => UnitTextureItem::MixRock,
    }
}

/// The texture used to draw an entity of the given kind.
pub open spec fn unittextureitem_of_entity(kind: EntityKind) -> UnitTextureItem {
    match kind {
        EntityKind::Player => UnitTextureItem::Player,
    }
}

/// The size of the texture in atlas blocks, used for mipmap generation.
pub open spec fn unittextureitem_block_size(kind: UnitTextureItem) -> (u32, u32) {
    match kind {
        UnitTextureItem::SurfaceDirt | UnitTextureItem::SurfaceGrass | UnitTextureItem::SurfaceGravel | UnitTextureItem::SurfaceSand | UnitTextureItem::SurfaceStone | UnitTextureItem::MixGrass | UnitTextureItem::Dandelion | UnitTextureItem::FallenBranch | UnitTextureItem::FallenLeaves | UnitTextureItem::MixPebbles => (1, 1),
        UnitTextureItem::Player => (1, 2),
        UnitTextureItem::OakTree | UnitTextureItem::BirchTree | UnitTextureItem::DyingTree => (4, 6),
        UnitTextureItem::FallenTree => (4, 2),
        UnitTextureItem::MixRock => (2, 2),
    }
}

/// How the texture is padded in the atlas: seamless ground textures are repeated.
pub open spec fn unittextureitem_atlas_option(kind: UnitTextureItem) -> UnitAtlasOption {
    match kind {
        UnitTextureItem::SurfaceDirt | UnitTextureItem::SurfaceGrass | UnitTextureItem::SurfaceGravel | UnitTextureItem::SurfaceSand | UnitTextureItem::SurfaceStone => UnitAtlasOption::Continuous,
        UnitTextureItem::MixGrass | UnitTextureItem::Dandelion | UnitTextureItem::FallenBranch | UnitTextureItem::FallenLeaves | UnitTextureItem::MixPebbles | UnitTextureItem::Player | UnitTextureItem::OakTree | UnitTextureItem::BirchTree | UnitTextureItem::DyingTree | UnitTextureItem::FallenTree | UnitTextureItem::MixRock => UnitAtlasOption::Single,
    }
}

/// The indices of a model drawn after `vertex_count` vertices of a batch:
/// each index of the model moved past those vertices.
pub open spec fn shifted_indices(vertex_count: usize, model_indices: Seq<u32>) -> Seq<u32> {
    model_indices.map_values(|i: u32| (vertex_count as u32 + i) as u32)
}

/// Appends to the index buffer `indices` of a batch that holds
/// `vertex_count` vertices the indices of a model whose vertices come next.
pub fn push_model_indices(indices: &mut Vec<u32>, vertex_count: usize, model_indices: &Vec<u32>)
    requires
        forall|k: int| 0 <= k < model_indices@.len() ==> vertex_count as u32 + #[trigger] model_indices@[k] <= u32::MAX,
    ensures
        final(indices)@ == old(indices)@ + shifted_indices(vertex_count, model_indices@),
{
    let base: u32 = vertex_count as u32;
    let mut k: usize = 0;
    while k < model_indices.len()
        invariant
            k <= model_indices@.len(),
            base == vertex_count as u32,
            forall|j: int| 0 <= j < model_indices@.len() ==> vertex_count as u32 + #[trigger] model_indices@[j] <= u32::MAX,
            indices@ == old(indices)@ + shifted_indices(vertex_count, model_indices@.take(k as int)),
        decreases model_indices@.len() - k,
    {
        assert(base + model_indices@[k as int] <= u32::MAX);
        indices.push(base + model_indices[k]);
        proof {
            assert(model_indices@.take(k + 1) =~= model_indices@.take(k as int).push(model_indices@[k as int]));
            assert(shifted_indices(vertex_count, model_indices@.take(k + 1)) =~= shifted_indices(
                vertex_count,
                model_indices@.take(k as int),
            ).push((base + model_indices@[k as int]) as u32));
        }
        k = k + 1;
    }
    assert(model_indices@.take(k as int) =~= model_indices@);
}

impl UnitModelItem {
    /// The triangle indices of the model: two triangles over the quad.
    pub fn indices(&self) -> (r: Vec<u32>)
        ensures
            r@ == seq![0u32, 1u32, 2u32, 2u32, 3u32, 0u32],
    {
        vec![0, 1, 2, 2, 3, 0]
    }

    /// The model used to draw a block of the given kind.
    pub fn from_block_kind(value: BlockKind) -> (r: UnitModelItem)
        ensures
            r == unitmodelitem_of_block(value),
    {
        match value {
            BlockKind::SurfaceDirt => UnitModelItem::ITop1x1,
            BlockKind::SurfaceGrass => UnitModelItem::ITop1x1,
            BlockKind::SurfaceGravel => UnitModelItem::ITop1x1,
            BlockKind::SurfaceSand => UnitModelItem::ITop1x1,
            BlockKind::SurfaceStone => UnitModelItem::ITop1x1,
            BlockKind::MixGrass => UnitModelItem::IBottom1x1,
            BlockKind::Dandelion => UnitModelItem::IBottom1x1,
            BlockKind::FallenBranch => UnitModelItem::IBottom1x1,
            BlockKind::FallenLeaves => UnitModelItem::IBottom1x1,
            BlockKind::MixPebbles => UnitModelItem::IBottom1x1,
            BlockKind::OakTree => UnitModelItem::IBillboard4x6,
            BlockKind::BirchTree => UnitModelItem::IBillboard4x6,
            BlockKind::DyingTree => UnitModelItem::IBillboard4x6,
            BlockKind::FallenTree => UnitModelItem::IBottom4x2,
            BlockKind::MixRock => UnitModelItem::IBottom2x2,
        }
    }

    /// The model used to draw an entity of the given kind.
    pub fn from_entity_kind(value: EntityKind) -> (r: UnitModelItem)
        ensures
            r == unitmodelitem_of_entity(value),
    {
        match value {
            EntityKind::Player => UnitModelItem::Billboard1x2,
        }
    }
}

/// Every texture, in declaration order.
pub open spec fn unit_texture_items() -> Seq<UnitTextureItem> {
    seq![UnitTextureItem::SurfaceDirt, UnitTextureItem::SurfaceGrass, UnitTextureItem::SurfaceGravel, UnitTextureItem::SurfaceSand, UnitTextureItem::SurfaceStone, UnitTextureItem::MixGrass, UnitTextureItem::Dandelion, UnitTextureItem::FallenBranch, UnitTextureItem::FallenLeaves, UnitTextureItem::MixPebbles, UnitTextureItem::Player, UnitTextureItem::OakTree, UnitTextureItem::BirchTree, UnitTextureItem::DyingTree, UnitTextureItem::FallenTree, UnitTextureItem::MixRock]
}

impl UnitTextureItem {
    /// Every kind, in declaration order.
    pub fn all() -> (r: Vec<UnitTextureItem>)
        ensures
            r@ == unit_texture_items(),
    {
        let mut v: Vec<UnitTextureItem> = Vec::new();
        v.push(UnitTextureItem::SurfaceDirt);
        v.push(UnitTextureItem::SurfaceGrass);
        v.push(UnitTextureItem::SurfaceGravel);
        v.push(UnitTextureItem::SurfaceSand);
        v.push(UnitTextureItem::SurfaceStone);
        v.push(UnitTextureItem::MixGrass);
        v.push(UnitTextureItem::Dandelion);
        v.push(UnitTextureItem::FallenBranch);
        v.push(UnitTextureItem::FallenLeaves);
        v.push(UnitTextureItem::MixPebbles);
        v.push(UnitTextureItem::Player);
        v.push(UnitTextureItem::OakTree);
        v.push(UnitTextureItem::BirchTree);
        v.push(UnitTextureItem::DyingTree);
        v.push(UnitTextureItem::FallenTree);
        v.push(UnitTextureItem::MixRock);
        v
    }

    /// The texture used to draw a block of the given kind.
    pub fn from_block_kind(value: BlockKind) -> (r: UnitTextureItem)
        ensures
            r == unittextureitem_of_block(value),
    {
        match value {
            BlockKind::SurfaceDirt => UnitTextureItem::SurfaceDirt,
            BlockKind::SurfaceGrass => UnitTextureItem::SurfaceGrass,
            BlockKind::SurfaceGravel => UnitTextureItem::SurfaceGravel,
            BlockKind::SurfaceSand => UnitTextureItem::SurfaceSand,
            BlockKind::SurfaceStone => UnitTextureItem::SurfaceStone,
            BlockKind::MixGrass => UnitTextureItem::MixGrass,
            BlockKind::Dandelion => UnitTextureItem::Dandelion,
            BlockKind::FallenBranch => UnitTextureItem::FallenBranch,
            BlockKind::FallenLeaves => UnitTextureItem::FallenLeaves,
            BlockKind::MixPebbles => UnitTextureItem::MixPebbles,
            BlockKind::OakTree => UnitTextureItem::OakTree,
            BlockKind::BirchTree => UnitTextureItem::BirchTree,
            BlockKind::DyingTree => UnitTextureItem::DyingTree,
            BlockKind::FallenTree => UnitTextureItem::FallenTree,
            BlockKind::MixRock => UnitTextureItem::MixRock,
        }
    }

    /// The texture used to draw an entity of the given kind.
    pub fn from_entity_kind(value: EntityKind) -> (r: UnitTextureItem)
        ensures
            r == unittextureitem_of_entity(value),
    {
        match value {
            EntityKind::Player => UnitTextureItem::Player,
        }
    }

    /// The size of the texture in atlas blocks, used for mipmap generation.
    pub fn block_size(&self) -> (r: (u32, u32))
        ensures
            r == unittextureitem_block_size(*self),
    {
        match self {
            Self::SurfaceDirt => (1, 1),
            Self::SurfaceGrass => (1, 1),
            Self::SurfaceGravel => (1, 1),
            Self::SurfaceSand => (1, 1),
            Self::SurfaceStone => (1, 1),
            Self::MixGrass => (1, 1),
            Self::Dandelion => (1, 1),
            Self::FallenBranch => (1, 1),
            Self::FallenLeaves => (1, 1),
            Self::MixPebbles => (1, 1),
            Self::Player => (1, 2),
            Self::OakTree => (4, 6),
            Self::BirchTree => (4, 6),
            Self::DyingTree => (4, 6),
            Self::FallenTree => (4, 2),
            Self::MixRock => (2, 2),
        }
    }

    /// How the texture is padded in the atlas: seamless ground textures are repeated.
    pub fn atlas_option(&self) -> (r: UnitAtlasOption)
        ensures
            r == unittextureitem_atlas_option(*self),
    {
        match self {
            Self::SurfaceDirt => UnitAtlasOption::Continuous,
            Self::SurfaceGrass => UnitAtlasOption::Continuous,
            Self::SurfaceGravel => UnitAtlasOption::Continuous,
            Self::SurfaceSand => UnitAtlasOption::Continuous,
            Self::SurfaceStone => UnitAtlasOption::Continuous,
            Self::MixGrass => UnitAtlasOption::Single,
            Self::Dandelion => UnitAtlasOption::Single,
            Self::FallenBranch => UnitAtlasOption::Single,
            Self::FallenLeaves => UnitAtlasOption::Single,
            Self::MixPebbles => UnitAtlasOption::Single,
            Self::Player => UnitAtlasOption::Single,
            Self::OakTree => UnitAtlasOption::Single,
            Self::BirchTree => UnitAtlasOption::Single,
            Self::DyingTree => UnitAtlasOption::Single,
            Self::FallenTree => UnitAtlasOption::Single,
            Self::MixRock => UnitAtlasOption::Single,
        }
    }
}

/// The size of a model in blocks, as its name writes it: a model lying on
/// the ground covers `(x, y)` cells; a billboard stands `(width, height)`.
pub open spec fn model_size(model: UnitModelItem) -> (u32, u32) {
    match model {
        UnitModelItem::ITop1x1 => (1, 1),
        UnitModelItem::IBottom1x1 => (1, 1),
        UnitModelItem::IBottom2x2 => (2, 2),
        UnitModelItem::IBottom4x2 => (4, 2),
        UnitModelItem::IBillboard4x6 => (4, 6),
        UnitModelItem::Billboard1x2 => (1, 2),
    }
}

/// Whether a model stands upright, facing the camera.
pub open spec fn is_billboard(model: UnitModelItem) -> bool {
    model == UnitModelItem::IBillboard4x6 || model == UnitModelItem::Billboard1x2
}

/// The texture of a block or entity is as many blocks wide and high as the
/// model that draws it: so the atlas samples it unstretched.
pub proof fn lemma_texture_fits_model(block: BlockKind, entity: EntityKind)
    ensures
        unittextureitem_block_size(unittextureitem_of_block(block)) == model_size(unitmodelitem_of_block(block)),
        unittextureitem_block_size(unittextureitem_of_entity(entity)) == model_size(unitmodelitem_of_entity(entity)),
{
}

/// A block's collision box matches the model that draws it: a block drawn
/// lying on the ground covers exactly the cells its model covers, flat; a
/// block drawn as a billboard (a standing tree) occupies its one cell and
/// rises above it.
pub proof fn lemma_collision_matches_model(kind: BlockKind)
    ensures
        !is_billboard(unitmodelitem_of_block(kind)) ==> {
            &&& local_extent(kind).0 + 1 == model_size(unitmodelitem_of_block(kind)).0
            &&& local_extent(kind).1 + 1 == model_size(unitmodelitem_of_block(kind)).1
            &&& local_extent(kind).2 == 0
        },
        is_billboard(unitmodelitem_of_block(kind)) ==> {
            &&& local_extent(kind).0 == 0
            &&& local_extent(kind).1 == 0
            &&& local_extent(kind).2 > 0
        },
{
}

/// Each block kind and each entity kind is drawn with a texture of its own:
/// no two kinds share one.
pub proof fn lemma_textures_distinct(a: BlockKind, b: BlockKind, entity: EntityKind)
    ensures
        unittextureitem_of_block(a) == unittextureitem_of_block(b) ==> a == b,
        unittextureitem_of_block(a) != unittextureitem_of_entity(entity),
{
}

/// The ground surfaces, and only they, are drawn flat on top of their cell
/// with a texture that repeats across cell edges.
pub proof fn lemma_surfaces_drawn_as_ground(kind: BlockKind)
    ensures
        is_surface(kind) <==> unitmodelitem_of_block(kind) == UnitModelItem::ITop1x1,
        is_surface(kind) <==> unittextureitem_atlas_option(unittextureitem_of_block(kind)) == UnitAtlasOption::Continuous,
{
}

} // verus!
