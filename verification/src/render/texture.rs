//! Layout of the ground texture atlas: a square grid of equal cells, filled
//! row by row.

use vstd::prelude::*;

use crate::model::resource_kind::{resource_breakable, ResourceKind};
use crate::vector::IVec2;

verus! {

/// The side of the atlas, in pixels.
pub const TEXTURE_SIZE: u32 = 1024;

/// The number of cells along each side of the atlas.
pub const TEXTURE_GRID: u32 = 32;

/// The resource kinds drawn from the atlas, in atlas order.
pub open spec fn atlas_kinds() -> Seq<ResourceKind> {
    seq![
        ResourceKind::SurfaceDirt,
        ResourceKind::SurfaceGrass,
        ResourceKind::SurfaceGravel,
        ResourceKind::SurfaceSand,
        ResourceKind::SurfaceStone,
    ]
}

/// The cell of the texture at `index` in atlas order: column
/// `index % TEXTURE_GRID`, row `index / TEXTURE_GRID`.
pub open spec fn cell_of_index(index: int) -> IVec2 {
    IVec2 { x: (index % 32) as i32, y: (index / 32) as i32 }
}

/// Lists the resource kinds drawn from the atlas, in atlas order.
pub fn texture_kinds() -> (r: Vec<ResourceKind>)
    ensures
        r@ == atlas_kinds(),
{
    let mut v: Vec<ResourceKind> = Vec::new();
    v.push(ResourceKind::SurfaceDirt);
    v.push(ResourceKind::SurfaceGrass);
    v.push(ResourceKind::SurfaceGravel);
    v.push(ResourceKind::SurfaceSand);
    v.push(ResourceKind::SurfaceStone);
    v
}

/// The cell of the texture at `index` in atlas order; the grid holds
/// `TEXTURE_GRID * TEXTURE_GRID` cells.
pub fn texture_cell(index: u32) -> (r: IVec2)
    requires
        index <= TEXTURE_GRID * TEXTURE_GRID,
    ensures
        r == cell_of_index(index as int),
{
    IVec2 { x: (index % TEXTURE_GRID) as i32, y: (index / TEXTURE_GRID) as i32 }
}

/// Every kind drawn from the atlas with its cell, in atlas order.
pub fn texture_cells() -> (r: Vec<(ResourceKind, IVec2)>)
    ensures
        r@.len() == atlas_kinds().len(),
        forall|i: int|
            0 <= i < r@.len() ==> #[trigger] r@[i] == (atlas_kinds()[i], cell_of_index(i)),
{
    let kinds = texture_kinds();
    let mut r: Vec<(ResourceKind, IVec2)> = Vec::new();
    let mut i: usize = 0;
    while i < kinds.len()
        invariant
            i <= kinds.len(),
            kinds@ == atlas_kinds(),
            r@.len() == i,
            forall|j: int| 0 <= j < i ==> #[trigger] r@[j] == (atlas_kinds()[j], cell_of_index(j)),
        decreases kinds.len() - i,
    {
        let cell = texture_cell(i as u32);
        r.push((kinds[i], cell));
        i = i + 1;
    }
    r
}

/// The cell of `kind` in the atlas; the atlas draws only the kinds of
/// [`atlas_kinds`], each in one cell.
pub fn texcoord(kind: ResourceKind) -> (r: IVec2)
    requires
        atlas_kinds().contains(kind),
    ensures
        exists|i: int|
            0 <= i < atlas_kinds().len() && atlas_kinds()[i] == kind && r == cell_of_index(i),
{
    let cells = texture_cells();
    let mut i: usize = 0;
    while i < cells.len()
        invariant
            i <= cells.len(),
            atlas_kinds().contains(kind),
            cells@.len() == atlas_kinds().len(),
            forall|j: int|
                0 <= j < cells@.len() ==> #[trigger] cells@[j] == (atlas_kinds()[j], cell_of_index(j)),
            forall|j: int| 0 <= j < i ==> atlas_kinds()[j] != kind,
        decreases cells.len() - i,
    {
        if cells[i].0 == kind {
            assert(cells@[i as int] == (atlas_kinds()[i as int], cell_of_index(i as int)));
            return cells[i].1;
        }
        i = i + 1;
    }
    proof {
        let j = choose|j: int| 0 <= j < atlas_kinds().len() && atlas_kinds()[j] == kind;
        assert(false);
    }
    cells[0].1
}

/// Trees and rocks, and only they, can be broken: the kinds that can not are
/// exactly the ground surfaces, whose textures the ground atlas holds.
pub proof fn lemma_breakable_not_ground(kind: ResourceKind)
    ensures
        resource_breakable(kind) <==> (kind == ResourceKind::Tree || kind == ResourceKind::Rock),
        resource_breakable(kind) <==> !atlas_kinds().contains(kind),
{
    if !resource_breakable(kind) {
        let i: int = match kind {
            ResourceKind::SurfaceDirt => 0,
            ResourceKind::SurfaceGrass => 1,
            ResourceKind::SurfaceGravel => 2,
            ResourceKind::SurfaceSand => 3,
            _ => 4,
        };
        assert(atlas_kinds()[i] == kind);
    }
}

} // verus!
