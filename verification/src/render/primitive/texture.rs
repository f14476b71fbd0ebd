//! Atlas layout of primitive textures.

use vstd::prelude::*;

use vstd::arithmetic::power2::{lemma2_to64, pow2};

use crate::atlas::{
    all_fit, block_texcoord_pixels, no_overlap, margin_sizes, packed_layout, pages_used, plan_in_blocks,
    power_of_two_exponent, texcoord_pixels,
};
use crate::render::primitive::model::{texture_items, textureitem_block_size, TextureItem};

verus! {

/// The size of a texture in atlas blocks (the smallest placeable unit).
#[derive(Clone, Copy, Debug, PartialEq, Eq)]
pub struct BlockSize(pub u32, pub u32);

/// How mipmaps are generated: [`AtlasOption::Continuous`] suits seamless
/// textures, [`AtlasOption::Single`] the others.
#[derive(Clone, Copy, Debug, PartialEq, Eq)]
pub enum AtlasOption {
    Single,
    Continuous,
}

/// The most atlas pages laid out.
pub const ATLAS_MAX_PAGE_COUNT: u32 = 255;

/// The side of an atlas page, in blocks (the smallest placeable unit).
pub const ATLAS_BLOCK_SIZE: u32 = 64;

/// The side of a block, in pixels.
pub const ATLAS_SIZE_PER_BLOCK: u32 = 32;

/// Where a texture goes in the atlas: its block corner `(x, y, page)`, and
/// where it is sampled, in pixels: `(page, x, y, width, height)`, the corner
/// lying half a block inside its place.
#[derive(Clone, Copy, Debug, PartialEq, Eq)]
pub struct AtlasPlacement {
    pub item: TextureItem,
    pub location: (u32, u32, u32),
    pub texcoord: (u32, u32, u32, u32, u32),
}

/// The layout of the atlas: its pages of side `size` pixels, with
/// `mip_level_count` mip levels, and where each texture goes.
#[derive(Clone, Debug)]
pub struct AtlasPlan {
    pub page_count: u32,
    pub size: u32,
    pub mip_level_count: u32,
    pub placements: Vec<AtlasPlacement>,
}

/// The sizes in blocks of the given textures.
pub open spec fn atlas_block_sizes(items: Seq<TextureItem>) -> Seq<(u32, u32)> {
    Seq::new(items.len(), |i: int| (textureitem_block_size(items[i]).0, textureitem_block_size(items[i]).1))
}

/// Lays out every texture, in declaration order, each grown by one block of
/// margin, on pages of `ATLAS_BLOCK_SIZE` blocks of `ATLAS_SIZE_PER_BLOCK`
/// pixels; `None` when they do not fit in `ATLAS_MAX_PAGE_COUNT` pages.
pub fn atlas_plan() -> (r: Option<AtlasPlan>)
    ensures
        ({
            let items = texture_items();
            let sizes = atlas_block_sizes(items);
            match packed_layout(margin_sizes(sizes), (64, 64, 255)) {
                None => r is None,
                Some(locs) => r matches Some(plan) && all_fit(locs, margin_sizes(sizes), (64, 64, 255))
                    && no_overlap(locs, margin_sizes(sizes)) && plan.page_count == pages_used(locs) && plan.size
                    == 2048 && pow2(plan.mip_level_count as nat) == 32 && plan.placements@.len()
                    == items.len() && forall|i: int|
                    0 <= i < items.len() ==> #[trigger] plan.placements@[i] == (AtlasPlacement {
                        item: items[i],
                        location: locs[i],
                        texcoord: block_texcoord_pixels(locs[i], sizes[i].0, sizes[i].1, 32),
                    }),
            }
        }),
{
    let items = TextureItem::all();
    let ghost sizes_spec = atlas_block_sizes(items@);
    let mut sizes: Vec<(u32, u32)> = Vec::new();
    let mut i: usize = 0;
    while i < items.len()
        invariant
            i <= items.len(),
            items@ == texture_items(),
            sizes_spec == atlas_block_sizes(items@),
            sizes@ == sizes_spec.subrange(0, i as int),
        decreases items.len() - i,
    {
        let item = items[i];
        let BlockSize(w, h) = item.block_size();
        sizes.push((w, h));
        i = i + 1;
    }
    assert(sizes@ == sizes_spec);
    let plan = match plan_in_blocks(&sizes, ATLAS_BLOCK_SIZE, ATLAS_MAX_PAGE_COUNT) {
        Some(plan) => plan,
        None => {
            return None;
        },
    };
    proof {
        lemma2_to64();
    }
    let mip_level_count = match power_of_two_exponent(ATLAS_SIZE_PER_BLOCK) {
        Some(k) => k,
        None => {
            assert(pow2(5) == 32);
            return None;
        },
    };
    let ghost locs = plan.locations@;
    let mut placements: Vec<AtlasPlacement> = Vec::new();
    let mut i: usize = 0;
    while i < items.len()
        invariant
            i <= items.len(),
            items@ == texture_items(),
            sizes@ == atlas_block_sizes(items@),
            locs == plan.locations@,
            all_fit(locs, margin_sizes(sizes@), (64, 64, 255)),
            placements@.len() == i,
            forall|j: int|
                0 <= j < i ==> #[trigger] placements@[j] == (AtlasPlacement {
                    item: items@[j],
                    location: locs[j],
                    texcoord: block_texcoord_pixels(locs[j], sizes@[j].0, sizes@[j].1, 32),
                }),
        decreases items.len() - i,
    {
        let (w, h) = sizes[i];
        let location = plan.locations[i];
        proof {
            assert(crate::atlas::fits_in_bin(locs[i as int], margin_sizes(sizes@)[i as int], (64, 64, 255)));
        }
        let texcoord = texcoord_pixels(location, w, h, ATLAS_SIZE_PER_BLOCK, ATLAS_BLOCK_SIZE);
        placements.push(AtlasPlacement { item: items[i], location, texcoord });
        i = i + 1;
    }
    Some(
        AtlasPlan {
            page_count: plan.page_count,
            size: ATLAS_SIZE_PER_BLOCK * ATLAS_BLOCK_SIZE,
            mip_level_count,
            placements,
        },
    )
}

} // verus!
