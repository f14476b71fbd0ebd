use std::rc::Rc;

use gridworld::aabb::iaabb2::iaabb2;
use gridworld::assets::{Assets, BlockSpec, GenerationSpec, MipOption};
use gridworld::game_loop::base::BaseStorage;
use gridworld::game_loop::block::BlockStorage;
use gridworld::game_loop::generation::{cell_positions, product_points, Draw, GenerationSystem};
use gridworld::vector::ivec2;

fn assets() -> Rc<Assets> {
    Rc::new(Assets {
        base_specs: vec![],
        entity_specs: vec![],
        block_specs: vec![BlockSpec {
            id: 0,
            label: "rock".to_string(),
            internal_size: ivec2(1, 1),
            z_along_y: false,
            texture_path: String::new(),
            texture_mip_option: MipOption::Clamp,
        }],
        generation_specs: vec![],
        player_specs: vec![],
    })
}

#[test]
fn product_varies_x_slowest() {
    let points = product_points(iaabb2(ivec2(0, 0), ivec2(2, 3)));
    assert_eq!(
        points,
        vec![ivec2(0, 0), ivec2(0, 1), ivec2(0, 2), ivec2(1, 0), ivec2(1, 1), ivec2(1, 2)]
    );
    assert!(product_points(iaabb2(ivec2(0, 0), ivec2(0, 3))).is_empty());
}

#[test]
fn cell_positions_cover_the_square() {
    let positions = cell_positions(ivec2(-1, 2));
    assert_eq!(positions.len(), 1024);
    assert_eq!(positions[0], ivec2(-32, 64));
    assert_eq!(positions[1], ivec2(-32, 65));
    assert_eq!(positions[1023], ivec2(-1, 95));
}

#[test]
fn pending_skips_generated_cells() {
    let mut generation = GenerationSystem::new();
    let cells = iaabb2(ivec2(0, 0), ivec2(2, 1));
    assert_eq!(generation.pending(cells), vec![ivec2(0, 0), ivec2(1, 0)]);
    generation.mark_generated(iaabb2(ivec2(1, 0), ivec2(2, 1)));
    assert_eq!(generation.pending(cells), vec![ivec2(0, 0)]);
    generation.mark_generated(cells);
    assert!(generation.pending(cells).is_empty());
}

#[test]
fn generate_fills_new_cells_once() {
    let assets = assets();
    let mut generation = GenerationSystem::new();
    let mut bases = BaseStorage::new(assets.clone());
    let mut blocks = BlockStorage::new(assets.clone());
    let rules = vec![GenerationSpec::FillBase { id: 0, base_spec_id: 4 }];
    let cells = iaabb2(ivec2(0, 0), ivec2(1, 1));
    let draws = vec![vec![vec![]]];
    generation.generate(cells, &rules, &mut bases, &mut blocks, &draws);
    let found = bases.get_internal_by_rect(iaabb2(ivec2(0, 0), ivec2(32, 32)));
    assert_eq!(found.len(), 1024);
    assert!(found.iter().all(|(_, b)| b.spec_id == 4));
    assert!(bases.get_internal_by_rect(iaabb2(ivec2(32, 0), ivec2(33, 1))).is_empty());
    // The cell is generated: a second run adds nothing.
    let no_draws: Vec<Vec<Vec<Draw>>> = vec![];
    generation.generate(cells, &rules, &mut bases, &mut blocks, &no_draws);
    assert_eq!(bases.get_internal_by_rect(iaabb2(ivec2(0, 0), ivec2(32, 32))).len(), 1024);
}

#[test]
fn generate_places_drawn_blocks() {
    let assets = assets();
    let mut generation = GenerationSystem::new();
    let mut bases = BaseStorage::new(assets.clone());
    let mut blocks = BlockStorage::new(assets.clone());
    let rules = vec![GenerationSpec::RandomBlock { id: 0, block_spec_id: 0 }];
    let cells = iaabb2(ivec2(1, 0), ivec2(2, 1));
    let mut cell_draws = vec![Draw::Skip; 1024];
    // Positions 0 and 33 of cell (1, 0): (32, 0) and (33, 1).
    cell_draws[0] = Draw::Place { z_random: 9, rendering_cells: iaabb2(ivec2(1, 0), ivec2(2, 1)) };
    cell_draws[33] = Draw::Place { z_random: 4, rendering_cells: iaabb2(ivec2(1, 0), ivec2(2, 1)) };
    let draws = vec![vec![cell_draws]];
    generation.generate(cells, &rules, &mut bases, &mut blocks, &draws);
    let mut found: Vec<(i32, i32, u8)> = blocks
        .get_internal_by_rect(iaabb2(ivec2(0, 0), ivec2(64, 32)))
        .into_iter()
        .map(|(_, b)| (b.position.x, b.position.y, b.z_random))
        .collect();
    found.sort();
    found.dedup();
    assert_eq!(found, vec![(32, 0, 9), (33, 1, 4)]);
}

#[test]
fn generate_places_drawn_bases_without_replacing() {
    let assets = assets();
    let mut generation = GenerationSystem::new();
    let mut bases = BaseStorage::new(assets.clone());
    let mut blocks = BlockStorage::new(assets.clone());
    let rules = vec![
        GenerationSpec::RandomBase { id: 0, base_spec_id: 7 },
        GenerationSpec::RandomBase { id: 1, base_spec_id: 8 },
    ];
    let cells = iaabb2(ivec2(0, 0), ivec2(1, 1));
    let place = Draw::Place { z_random: 0, rendering_cells: iaabb2(ivec2(0, 0), ivec2(0, 0)) };
    let mut first = vec![Draw::Skip; 1024];
    first[2] = place;
    let mut second = vec![Draw::Skip; 1024];
    second[2] = place;
    second[3] = place;
    let draws = vec![vec![first, second]];
    generation.generate(cells, &rules, &mut bases, &mut blocks, &draws);
    let found = bases.get_internal_by_rect(iaabb2(ivec2(0, 0), ivec2(1, 4)));
    let kinds: Vec<(i32, usize)> = found.iter().map(|(_, b)| (b.position.y, b.spec_id)).collect();
    // (0, 2) keeps the base of the first rule; (0, 3) gets one of the second.
    assert_eq!(kinds, vec![(2, 7), (3, 8)]);
}

#[test]
fn generate_keeps_the_first_of_overlapping_drawn_blocks() {
    let assets = Rc::new(Assets {
        base_specs: vec![],
        entity_specs: vec![],
        block_specs: vec![BlockSpec {
            id: 0,
            label: "boulder".to_string(),
            internal_size: ivec2(2, 2),
            z_along_y: false,
            texture_path: String::new(),
            texture_mip_option: MipOption::Clamp,
        }],
        generation_specs: vec![],
        player_specs: vec![],
    });
    let mut generation = GenerationSystem::new();
    let mut bases = BaseStorage::new(assets.clone());
    let mut blocks = BlockStorage::new(assets.clone());
    let rules = vec![GenerationSpec::RandomBlock { id: 0, block_spec_id: 0 }];
    let cells = iaabb2(ivec2(0, 0), ivec2(1, 1));
    let mut cell_draws = vec![Draw::Skip; 1024];
    // Positions 0 and 1 of cell (0, 0): (0, 0) and (0, 1), whose 2x2 blocks overlap.
    cell_draws[0] = Draw::Place { z_random: 1, rendering_cells: iaabb2(ivec2(0, 0), ivec2(1, 1)) };
    cell_draws[1] = Draw::Place { z_random: 2, rendering_cells: iaabb2(ivec2(0, 0), ivec2(1, 1)) };
    let draws = vec![vec![cell_draws]];
    generation.generate(cells, &rules, &mut bases, &mut blocks, &draws);
    let mut found: Vec<(i32, i32, u8)> = blocks
        .get_internal_by_rect(iaabb2(ivec2(0, 0), ivec2(32, 32)))
        .into_iter()
        .map(|(_, b)| (b.position.x, b.position.y, b.z_random))
        .collect();
    found.dedup();
    assert_eq!(found, vec![(0, 0, 1)]);
}
