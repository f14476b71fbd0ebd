use gridworld::model::resource_kind::ResourceKind;
use gridworld::render::primitive::model::TextureItem;
use gridworld::render::primitive::texture::{atlas_plan, BlockSize};
use gridworld::render::texture::{texcoord, texture_cell, texture_cells};
use gridworld::render::unit::model::{push_model_indices, UnitModelItem, UnitTextureItem};
use gridworld::render::unit::texture::unit_atlas_plan;
use gridworld::vector::ivec2;

#[test]
fn primitive_atlas_fits_on_one_page() {
    let plan = atlas_plan().expect("failed to pack atlas layout");
    assert_eq!(plan.page_count, 1);
    assert_eq!(plan.size, 2048);
    assert_eq!(plan.mip_level_count, 5);
    assert_eq!(plan.placements.len(), 16);
    let items = TextureItem::all();
    for (placement, item) in plan.placements.iter().zip(items.iter()) {
        assert_eq!(placement.item, *item);
        let BlockSize(w, h) = item.block_size();
        let (x, y, page) = placement.location;
        assert!(x + w + 1 <= 64 && y + h + 1 <= 64);
        assert_eq!(placement.texcoord, (page, 32 * x + 16, 32 * y + 16, 32 * w, 32 * h));
    }
}

#[test]
fn unit_atlas_fits_on_one_page() {
    let plan = unit_atlas_plan().expect("failed to pack atlas layout");
    assert_eq!(plan.page_count, 1);
    assert_eq!(plan.size, 2048);
    assert_eq!(plan.mip_level_count, 5);
    let items = UnitTextureItem::all();
    assert_eq!(plan.placements.len(), items.len());
    for (placement, item) in plan.placements.iter().zip(items.iter()) {
        assert_eq!(placement.item, *item);
        let (w, h) = item.block_size();
        let (x, y, page) = placement.location;
        assert_eq!(placement.texcoord, (page, 32 * x + 16, 32 * y + 16, 32 * w, 32 * h));
    }
}

#[test]
fn ground_texture_cells_fill_rows() {
    let cells = texture_cells();
    assert_eq!(cells.len(), 5);
    assert_eq!(cells[0], (ResourceKind::SurfaceDirt, ivec2(0, 0)));
    assert_eq!(cells[4], (ResourceKind::SurfaceStone, ivec2(4, 0)));
    assert_eq!(texture_cell(33), ivec2(1, 1));
    assert_eq!(texture_cell(1024), ivec2(0, 32));
    assert_eq!(texcoord(ResourceKind::SurfaceSand), ivec2(3, 0));
    assert_eq!(texcoord(ResourceKind::SurfaceDirt), ivec2(0, 0));
}

#[test]
fn model_indices_follow_the_batch_vertices() {
    let mut indices = vec![0, 1, 2, 2, 3, 0];
    let model = UnitModelItem::ITop1x1.indices();
    push_model_indices(&mut indices, 4, &model);
    assert_eq!(indices, vec![0, 1, 2, 2, 3, 0, 4, 5, 6, 6, 7, 4]);
}
