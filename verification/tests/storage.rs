use std::rc::Rc;

use gridworld::aabb::iaabb2::iaabb2;
use gridworld::assets::{Assets, BlockSpec, MipOption};
use gridworld::game_loop::base::{Base, BaseStorage};
use gridworld::game_loop::block::{Block, BlockStorage};
use gridworld::vector::ivec2;

fn assets_with_blocks(sizes: &[(i32, i32)]) -> Rc<Assets> {
    let block_specs = sizes
        .iter()
        .enumerate()
        .map(|(i, &(w, h))| BlockSpec {
            id: i,
            label: format!("block{}", i),
            internal_size: ivec2(w, h),
            z_along_y: false,
            texture_path: String::new(),
            texture_mip_option: MipOption::Clamp,
        })
        .collect();
    Rc::new(Assets {
        base_specs: vec![],
        entity_specs: vec![],
        block_specs,
        generation_specs: vec![],
        player_specs: vec![],
    })
}

#[test]
fn base_insert_get_remove() {
    let mut storage = BaseStorage::new(assets_with_blocks(&[]));
    let id = storage.insert(Base::new(3, ivec2(5, -7))).unwrap();
    assert_eq!(storage.get(id), Some(Base::new(3, ivec2(5, -7))));
    assert_eq!(storage.remove(id), Some(Base::new(3, ivec2(5, -7))));
    assert_eq!(storage.get(id), None);
    assert_eq!(storage.remove(id), None);
}

#[test]
fn base_refuses_occupied_position() {
    let mut storage = BaseStorage::new(assets_with_blocks(&[]));
    let first = storage.insert(Base::new(0, ivec2(1, 1)));
    assert!(first.is_some());
    assert_eq!(storage.insert(Base::new(1, ivec2(1, 1))), None);
    assert!(storage.insert(Base::new(1, ivec2(1, 2))).is_some());
    assert_eq!(storage.get(first.unwrap()), Some(Base::new(0, ivec2(1, 1))));
}

#[test]
fn base_search_small_rect_walks_points() {
    let mut storage = BaseStorage::new(assets_with_blocks(&[]));
    let a = storage.insert(Base::new(0, ivec2(2, 3))).unwrap();
    let b = storage.insert(Base::new(0, ivec2(0, 0))).unwrap();
    storage.insert(Base::new(0, ivec2(40, 40))).unwrap();
    let found = storage.get_internal_by_rect(iaabb2(ivec2(0, 0), ivec2(4, 4)));
    // Row by row: (0, 0) before (2, 3).
    assert_eq!(found, vec![(b, Base::new(0, ivec2(0, 0))), (a, Base::new(0, ivec2(2, 3)))]);
    assert!(storage.has_internal_by_rect(iaabb2(ivec2(2, 3), ivec2(3, 4))));
    assert!(!storage.has_internal_by_rect(iaabb2(ivec2(3, 3), ivec2(4, 4))));
}

#[test]
fn base_search_large_rect_by_cells() {
    let mut storage = BaseStorage::new(assets_with_blocks(&[]));
    let a = storage.insert(Base::new(0, ivec2(-50, 10))).unwrap();
    let b = storage.insert(Base::new(0, ivec2(70, 90))).unwrap();
    storage.insert(Base::new(0, ivec2(200, 0))).unwrap();
    let rect = iaabb2(ivec2(-64, 0), ivec2(100, 100));
    let mut ids: Vec<usize> = storage.get_rendering_by_rect(rect).into_iter().map(|(id, _)| id).collect();
    ids.sort();
    let mut expected = vec![a, b];
    expected.sort();
    assert_eq!(ids, expected);
    assert!(storage.has_rendering_by_rect(rect));
}

#[test]
fn block_insert_get_remove() {
    let mut storage = BlockStorage::new(assets_with_blocks(&[(2, 3)]));
    let block = Block::new(0, ivec2(10, 20), 7);
    let id = storage.insert(block, iaabb2(ivec2(0, 0), ivec2(1, 1))).unwrap();
    assert_eq!(storage.get(id), Some(block));
    assert_eq!(storage.remove(id), Some(block));
    assert_eq!(storage.get(id), None);
    assert_eq!(storage.remove(id), None);
}

#[test]
fn block_refuses_overlap() {
    let mut storage = BlockStorage::new(assets_with_blocks(&[(2, 2), (1, 1)]));
    let cells = iaabb2(ivec2(0, 0), ivec2(1, 1));
    assert!(storage.insert(Block::new(0, ivec2(31, 31), 0), cells).is_some());
    // (32, 32) lies in the 2x2 block at (31, 31), which spans two grid cells.
    assert_eq!(storage.insert(Block::new(1, ivec2(32, 32), 0), cells), None);
    // (33, 31) is just right of it.
    assert!(storage.insert(Block::new(1, ivec2(33, 31), 0), cells).is_some());
}

#[test]
fn block_search_finds_blocks_across_cells() {
    let mut storage = BlockStorage::new(assets_with_blocks(&[(4, 4)]));
    let cells = iaabb2(ivec2(0, 0), ivec2(1, 1));
    let a = storage.insert(Block::new(0, ivec2(30, 30), 1), cells).unwrap();
    let b = storage.insert(Block::new(0, ivec2(100, 100), 2), cells).unwrap();
    let found = storage.get_internal_by_rect(iaabb2(ivec2(33, 33), ivec2(34, 34)));
    assert!(!found.is_empty());
    assert!(found.iter().all(|&(id, _)| id == a));
    assert!(storage.has_internal_by_rect(iaabb2(ivec2(0, 0), ivec2(31, 31))));
    assert!(!storage.has_internal_by_rect(iaabb2(ivec2(0, 0), ivec2(30, 30))));
    let far = storage.get_internal_by_rect(iaabb2(ivec2(90, 90), ivec2(101, 101)));
    assert!(far.iter().all(|&(id, _)| id == b));
    assert!(!far.is_empty());
}

#[test]
fn block_rendering_candidates_by_cells() {
    let mut storage = BlockStorage::new(assets_with_blocks(&[(1, 1)]));
    let a = storage.insert(Block::new(0, ivec2(0, 0), 0), iaabb2(ivec2(0, 0), ivec2(2, 1))).unwrap();
    let b = storage.insert(Block::new(0, ivec2(5, 5), 0), iaabb2(ivec2(3, 3), ivec2(4, 4))).unwrap();
    let near: Vec<usize> = storage
        .get_rendering_by_rect(iaabb2(ivec2(1, 0), ivec2(2, 1)))
        .into_iter()
        .map(|(id, _)| id)
        .collect();
    assert_eq!(near, vec![a]);
    let all: Vec<usize> = storage
        .get_rendering_by_rect(iaabb2(ivec2(0, 0), ivec2(4, 4)))
        .into_iter()
        .map(|(id, _)| id)
        .collect();
    assert!(all.contains(&a) && all.contains(&b));
    storage.remove(a);
    let after: Vec<usize> = storage
        .get_rendering_by_rect(iaabb2(ivec2(0, 0), ivec2(4, 4)))
        .into_iter()
        .map(|(id, _)| id)
        .collect();
    assert_eq!(after, vec![b]);
}

#[test]
fn block_refuses_to_cover_a_zero_size_block() {
    let mut storage = BlockStorage::new(assets_with_blocks(&[(0, 0), (2, 2)]));
    let cells = iaabb2(ivec2(0, 0), ivec2(1, 1));
    assert!(storage.insert(Block::new(0, ivec2(5, 5), 0), cells).is_some());
    assert_eq!(storage.insert(Block::new(1, ivec2(4, 4), 0), cells), None);
    assert!(storage.insert(Block::new(1, ivec2(6, 6), 0), cells).is_some());
}

#[test]
fn base_large_search_lists_cells_row_by_row() {
    let mut storage = BaseStorage::new(assets_with_blocks(&[]));
    let late_row = storage.insert(Base::new(0, ivec2(5, 40))).unwrap();
    let second = storage.insert(Base::new(0, ivec2(40, 5))).unwrap();
    let first = storage.insert(Base::new(0, ivec2(3, 3))).unwrap();
    let first_again = storage.insert(Base::new(0, ivec2(4, 4))).unwrap();
    let rect = iaabb2(ivec2(0, 0), ivec2(64, 64));
    let ids: Vec<usize> = storage.get_internal_by_rect(rect).into_iter().map(|(id, _)| id).collect();
    assert_eq!(ids, vec![first, first_again, second, late_row]);
}

#[test]
fn block_insert_then_remove_answers_as_before() {
    let mut storage = BlockStorage::new(assets_with_blocks(&[(4, 4)]));
    let cells = iaabb2(ivec2(0, 0), ivec2(2, 2));
    storage.insert(Block::new(0, ivec2(30, 30), 1), cells).unwrap();
    storage.insert(Block::new(0, ivec2(60, 2), 2), cells).unwrap();
    let rect = iaabb2(ivec2(0, 0), ivec2(100, 100));
    let internal = storage.get_internal_by_rect(rect);
    let rendering = storage.get_rendering_by_rect(cells);
    let id = storage.insert(Block::new(0, ivec2(40, 40), 3), cells).unwrap();
    assert_eq!(storage.remove(id), Some(Block::new(0, ivec2(40, 40), 3)));
    assert_eq!(storage.get_internal_by_rect(rect), internal);
    assert_eq!(storage.get_rendering_by_rect(cells), rendering);
}

#[test]
fn base_insert_then_remove_answers_as_before() {
    let mut storage = BaseStorage::new(assets_with_blocks(&[]));
    storage.insert(Base::new(0, ivec2(3, 3))).unwrap();
    storage.insert(Base::new(0, ivec2(40, 5))).unwrap();
    let rect = iaabb2(ivec2(0, 0), ivec2(64, 64));
    let found = storage.get_internal_by_rect(rect);
    let id = storage.insert(Base::new(0, ivec2(4, 4))).unwrap();
    assert_eq!(storage.remove(id), Some(Base::new(0, ivec2(4, 4))));
    assert_eq!(storage.get_internal_by_rect(rect), found);
}
