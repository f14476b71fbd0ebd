//! Atlas layout of unit textures.

use vstd::prelude::*;

use vstd::arithmetic::power2::{lemma2_to64, pow2};

use crate::atlas::{
    all_fit, block_texcoord_pixels, no_overlap, margin_sizes, packed_layout, pages_used, plan_in_blocks,
    power_of_two_exponent, texcoord_pixels,
};
use crate::render::unit::model::{unit_texture_items, unittextureitem_block_size, UnitTextureItem};

verus! {

/// How a texture is padded in the atlas.
#[derive(Clone, Copy, Debug, PartialEq, Eq)]
pub enum UnitAtlasOption {
    Single,
    Continuous,
}

/// The most atlas pages laid out.
pub const UNIT_ATLAS_MAX_PAGE_COUNT: u32 = 255;

/// The side of an atlas page, in blocks (the smallest placeable unit).
pub const UNIT_ATLAS_BLOCK_SIZE: u32 = 64;

/// The side of a block, in pixels.
pub const UNIT_ATLAS_SIZE_PER_BLOCK: u32 = 32;

/// Where a texture goes in the atlas: its block corner `(x, y, page)`, and
/// where it is sampled, in pixels: `(page, x, y, width, height)`, the corner
/// lying half a block inside its place.
#[derive(Clone, Copy, Debug, PartialEq, Eq)]
pub struct UnitAtlasPlacement {
    pub item: UnitTextureItem,
    pub location: (u32, u32, u32),
    pub texcoord: (u32, u32, u32, u32, u32),
}

/// The layout of the atlas: its pages of side `size` pixels, with
/// `mip_level_count` mip levels, and where each texture goes.
#[derive(Clone, Debug)]
pub struct UnitAtlasPlan {
    pub page_count: u32,
    pub size: u32,
    pub mip_level_count: u32,
    pub placements: Vec<UnitAtlasPlacement>,
}

/// The sizes in blocks of the given textures.
pub open spec fn unit_atlas_block_sizes(items: Seq<UnitTextureItem>) -> Seq<(u32, u32)> {
    Seq::new(items.len(), |i: int| unittextureitem_block_size(items[i]))
}

/// Lays out every texture, in declaration order, each grown by one block of
/// margin, on pages of `UNIT_ATLAS_BLOCK_SIZE` blocks of `UNIT_ATLAS_SIZE_PER_BLOCK`
/// pixels; `None` when they do not fit in `UNIT_ATLAS_MAX_PAGE_COUNT` pages.
pub fn unit_atlas_plan() -> (r: Option<UnitAtlasPlan>)
    ensures
        ({
            let items = unit_texture_items();
            let sizes = unit_atlas_block_sizes(items);
            match packed_layout(margin_sizes(sizes), (64, 64, 255)) {
                None => r is None,
                Some(locs) => r matches Some(plan) && all_fit(locs, margin_sizes(sizes), (64, 64, 255))
                    && no_overlap(locs, margin_sizes(sizes)) && plan.page_count == pages_used(locs) && plan.size
                    == 2048 && pow2(plan.mip_level_count as nat) == 32 && plan.placements@.len()
                    == items.len() && forall|i: int|
                    0 <= i < items.len() ==> #[trigger] plan.placements@[i] == (UnitAtlasPlacement {
                        item: items[i],
                        location: locs[i],
                        texcoord: block_texcoord_pixels(locs[i], sizes[i].0, sizes[i].1, 32),
                    }),
            }
        }),
{
    let items = UnitTextureItem::all();
    let ghost sizes_spec = unit_atlas_block_sizes(items@);
    let mut sizes: Vec<(u32, u32)> = Vec::new();
    let mut i: usize = 0;
    while i < items.len()
        invariant
            i <= items.len(),
            items@ == unit_texture_items(),
            sizes_spec == unit_atlas_block_sizes(items@),
            sizes@ == sizes_spec.subrange(0, i as int),
        decreases items.len() - i,
    {
        let item = items[i];
        let (w, h) = item.block_size();
        sizes.push((w, h));
        i = i + 1;
    }
    assert(sizes@ == sizes_spec);
    let plan = match plan_in_blocks(&sizes, UNIT_ATLAS_BLOCK_SIZE, UNIT_ATLAS_MAX_PAGE_COUNT) {
        Some(plan) => plan,
        None => {
            return None;
        },
    };
    proof {
        lemma2_to64();
    }
    let mip_level_count = match power_of_two_exponent(UNIT_ATLAS_SIZE_PER_BLOCK) {
        Some(k) => k,
        None => {
            assert(pow2(5) == 32);
            return None;
        },
    };
    let ghost locs = plan.locations@;
    let mut placements: Vec<UnitAtlasPlacement> = Vec::new();
    let mut i: usize = 0;
    while i < items.len()
        invariant
            i <= items.len(),
            items@ == unit_texture_items(),
            sizes@ == unit_atlas_block_sizes(items@),
            locs == plan.locations@,
            all_fit(locs, margin_sizes(sizes@), (64, 64, 255)),
            placements@.len() == i,
            forall|j: int|
                0 <= j < i ==> #[trigger] placements@[j] == (UnitAtlasPlacement {
                    item: items@[j],
                    location: locs[j],
                    texcoord: block_texcoord_pixels(locs[j], sizes@[j].0, sizes@[j].1, 32),
                }),
        decreases items.len() - i,
    {
        let (w, h) = sizes[i];
        let location = plan.locations[i];
        proof {
            assert(crate::atlas::fits_in_bin(locs[i as int], margin_sizes(sizes@)[i as int], (64, 64, 255)));
        }
        let texcoord = texcoord_pixels(location, w, h, UNIT_ATLAS_SIZE_PER_BLOCK, UNIT_ATLAS_BLOCK_SIZE);
        placements.push(UnitAtlasPlacement { item: items[i], location, texcoord });
        i = i + 1;
    }
    Some(
        UnitAtlasPlan {
            page_count: plan.page_count,
            size: UNIT_ATLAS_SIZE_PER_BLOCK * UNIT_ATLAS_BLOCK_SIZE,
            mip_level_count,
            placements,
        },
    )
}

} // verus!
