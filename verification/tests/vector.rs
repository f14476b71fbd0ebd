use gridworld::aabb::grid::ToGridSpace;
use gridworld::aabb::iaabb2::iaabb2;
use gridworld::vector::{ivec2, IVec2};

#[test]
fn euclid_division_rounds_down() {
    assert_eq!(ivec2(-1, 33).div_euclid(IVec2::splat(32)), ivec2(-1, 1));
    assert_eq!(ivec2(-1, 33).rem_euclid(IVec2::splat(32)), ivec2(31, 1));
    assert_eq!(ivec2(-7, 7).div(IVec2::splat(2)), ivec2(-3, 3));
    assert_eq!(ivec2(-7, 7).rem(IVec2::splat(2)), ivec2(-1, 1));
}

#[test]
fn grid_space_of_points_and_rects() {
    assert_eq!(ivec2(-33, 64).to_grid_space(32), ivec2(-2, 2));
    let cells = iaabb2(ivec2(-1, 0), ivec2(33, 32)).to_grid_space(32);
    assert_eq!(cells, iaabb2(ivec2(-1, 0), ivec2(2, 1)));
}

#[test]
fn points_walk_rows() {
    let points = iaabb2(ivec2(0, 0), ivec2(2, 2)).points();
    assert_eq!(points, vec![ivec2(0, 0), ivec2(1, 0), ivec2(0, 1), ivec2(1, 1)]);
    assert!(iaabb2(ivec2(0, 0), ivec2(2, 2)).intersects(iaabb2(ivec2(1, 1), ivec2(3, 3))));
    assert!(!iaabb2(ivec2(0, 0), ivec2(2, 2)).intersects(iaabb2(ivec2(2, 0), ivec2(3, 3))));
}

#[test]
fn walk_of_empty_box_visits_nothing() {
    assert!(iaabb2(ivec2(0, 0), ivec2(0, 1)).points().is_empty());
    assert!(iaabb2(ivec2(0, 0), ivec2(3, 0)).points().is_empty());
    let mut it = iaabb2(ivec2(0, 0), ivec2(0, 1)).into_iter_points();
    assert_eq!(it.next(), None);
    assert_eq!(it.len(), 0);
}

#[test]
fn walk_len_counts_points_left() {
    let mut it = iaabb2(ivec2(0, 0), ivec2(3, 2)).into_iter_points();
    assert_eq!(it.len(), 6);
    assert_eq!(it.next(), Some(ivec2(0, 0)));
    assert_eq!(it.len(), 5);
    for _ in 0..5 {
        assert!(it.next().is_some());
    }
    assert_eq!(it.len(), 0);
    assert_eq!(it.next(), None);
}
