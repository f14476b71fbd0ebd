use gridworld::model::bounds::iaabb3;
use gridworld::models::IBounds3;
use gridworld::vector::{ivec3, IVec3};

#[test]
fn contains_inside() {
    let aabb = iaabb3(ivec3(0, 0, 0), ivec3(8, 8, 8));
    let point = ivec3(1, 2, 3);
    assert!(aabb.contains(point));
}

#[test]
fn contains_on_border_a() {
    let aabb = iaabb3(ivec3(0, 0, 0), ivec3(8, 8, 8));
    let point = ivec3(0, 0, 0);
    assert!(aabb.contains(point));
}

#[test]
fn contains_on_border_b() {
    let aabb = iaabb3(ivec3(0, 0, 0), ivec3(8, 8, 8));
    let point = ivec3(8, 8, 8);
    assert!(aabb.contains(point));
}

#[test]
fn contains_outside() {
    let aabb = iaabb3(ivec3(0, 0, 0), ivec3(8, 8, 8));
    let point = ivec3(9, 10, 11);
    assert!(!aabb.contains(point));
}

#[test]
fn intersects_inside() {
    let aabb = iaabb3(ivec3(0, 0, 0), ivec3(8, 8, 8));
    let other_aabb = iaabb3(ivec3(2, 2, 2), ivec3(6, 6, 6));
    assert!(aabb.intersects(other_aabb));
}

#[test]
fn intersects_a() {
    let aabb = iaabb3(ivec3(0, 0, 0), ivec3(8, 8, 8));
    let other_aabb = iaabb3(ivec3(-4, -4, -4), ivec3(4, 4, 4));
    assert!(aabb.intersects(other_aabb));
}

#[test]
fn intersects_b() {
    let aabb = iaabb3(ivec3(0, 0, 0), ivec3(8, 8, 8));
    let other_aabb = iaabb3(ivec3(-8, 2, 2), ivec3(2, 6, 6));
    assert!(aabb.intersects(other_aabb));
}

#[test]
fn intersects_on_border_a() {
    let aabb = iaabb3(ivec3(0, 0, 0), ivec3(8, 8, 8));
    let other_aabb = iaabb3(ivec3(-8, 0, 0), ivec3(0, 8, 8));
    assert!(aabb.intersects(other_aabb));
}

#[test]
fn intersects_on_border_b() {
    let aabb = iaabb3(ivec3(0, 0, 0), ivec3(8, 8, 8));
    let other_aabb = iaabb3(ivec3(-8, -8, -8), ivec3(0, 0, 0));
    assert!(aabb.intersects(other_aabb));
}

#[test]
fn intersects_outside_a() {
    let aabb = iaabb3(ivec3(0, 0, 0), ivec3(8, 8, 8));
    let other_aabb = iaabb3(ivec3(-8, -8, -8), ivec3(-4, -4, -4));
    assert!(!aabb.intersects(other_aabb));
}

#[test]
fn intersects_outside_b() {
    let aabb = iaabb3(ivec3(0, 0, 0), ivec3(8, 8, 8));
    let other_aabb = iaabb3(ivec3(-8, 2, 2), ivec3(-4, 6, 6));
    assert!(!aabb.intersects(other_aabb));
}

#[test]
fn iterator() {
    let aabb = iaabb3(ivec3(0, 0, 0), ivec3(8, 8, 8));
    assert_eq!(aabb.iter().len(), 729);
}

#[test]
fn iterator_order_varies_z_fastest() {
    let aabb = iaabb3(ivec3(0, 0, 0), ivec3(1, 1, 1));
    let points = aabb.iter();
    assert_eq!(points[0], ivec3(0, 0, 0));
    assert_eq!(points[1], ivec3(0, 0, 1));
    assert_eq!(points[2], ivec3(0, 1, 0));
    assert_eq!(points[7], ivec3(1, 1, 1));
}

#[test]
fn inclusive_contains_in_bound() {
    let bounds = IBounds3::new(IVec3::new(0, 0, 0), IVec3::new(8, 8, 8));
    let point = IVec3::new(1, 2, 3);
    assert!(bounds.inclusive_contains(&point));
}

#[test]
fn inclusive_contains_on_border_a() {
    let bounds = IBounds3::new(IVec3::new(0, 0, 0), IVec3::new(8, 8, 8));
    let point = IVec3::new(0, 0, 0);
    assert!(bounds.inclusive_contains(&point));
}

#[test]
fn inclusive_contains_on_border_b() {
    let bounds = IBounds3::new(IVec3::new(0, 0, 0), IVec3::new(8, 8, 8));
    let point = IVec3::new(8, 8, 8);
    assert!(bounds.inclusive_contains(&point));
}

#[test]
fn inclusive_contains_out_of_bound() {
    let bounds = IBounds3::new(IVec3::new(0, 0, 0), IVec3::new(8, 8, 8));
    let point = IVec3::new(9, 10, 11);
    assert!(!bounds.inclusive_contains(&point));
}
