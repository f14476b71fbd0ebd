//! Conversions between the base space (world cells) and a grid space whose
//! cells are squares of `size` base cells.

use vstd::prelude::*;

use crate::aabb::iaabb2::{box_contains, boxes_intersect, iaabb2, rect, IAabb2};
use crate::vector::{div_ok, in_i32, lemma_euclid_bounds, IVec2};

verus! {

/// Trait for transforming to grid space from base space.
pub trait ToGridSpace<V, E>: Sized {
    /// Whether the conversion is defined (no division by zero, no overflow).
    spec fn to_grid_space_ok(self, size: E) -> bool;

    /// The element on grid space.
    spec fn grid_space_of(self, size: E) -> V;

    /// Returns an element on grid space from an element on base space.
    fn to_grid_space(self, size: E) -> (r: V)
        requires
            self.to_grid_space_ok(size),
        ensures
            r == self.grid_space_of(size),
    ;
}

/// Trait for transforming to base space from grid space.
pub trait ToBaseSpace<V, E>: Sized {
    /// Whether the conversion is defined (no overflow).
    spec fn to_base_space_ok(self, size: E) -> bool;

    /// The element on base space.
    spec fn base_space_of(self, size: E) -> V;

    /// Returns an element on base space from an element on grid space.
    fn to_base_space(self, size: E) -> (r: V)
        requires
            self.to_base_space_ok(size),
        ensures
            r == self.base_space_of(size),
    ;
}

/// The grid cell holding point `p`: the Euclidean quotient of each
/// coordinate by `size`.
pub open spec fn grid_point(p: IVec2, size: int) -> IVec2 {
    IVec2::from_ints(p.x as int / size, p.y as int / size)
}

/// The grid cells that a box covers: from the cell of `min` to the cell of
/// `max - 1`, both included.
pub open spec fn grid_rect(r: IAabb2, size: int) -> IAabb2 {
    rect(
        r.min.x as int / size,
        r.min.y as int / size,
        (r.max.x - 1) / size + 1,
        (r.max.y - 1) / size + 1,
    )
}

/// Whether `grid_rect(r, size)` is defined on `i32`.
pub open spec fn grid_rect_ok(r: IAabb2, size: int) -> bool {
    &&& div_ok(r.min.x as int, size)
    &&& div_ok(r.min.y as int, size)
    &&& in_i32(r.max.x - 1)
    &&& in_i32(r.max.y - 1)
    &&& div_ok(r.max.x - 1, size)
    &&& div_ok(r.max.y - 1, size)
    &&& in_i32((r.max.x - 1) / size + 1)
    &&& in_i32((r.max.y - 1) / size + 1)
}

impl ToGridSpace<IVec2, i32> for IVec2 {
    open spec fn to_grid_space_ok(self, size: i32) -> bool {
        div_ok(self.x as int, size as int) && div_ok(self.y as int, size as int)
    }

    open spec fn grid_space_of(self, size: i32) -> IVec2 {
        grid_point(self, size as int)
    }

    fn to_grid_space(self, size: i32) -> (r: IVec2) {
        self.div_euclid(IVec2::splat(size))
    }
}

impl ToGridSpace<IAabb2, i32> for IAabb2 {
    open spec fn to_grid_space_ok(self, size: i32) -> bool {
        grid_rect_ok(self, size as int)
    }

    open spec fn grid_space_of(self, size: i32) -> IAabb2 {
        grid_rect(self, size as int)
    }

    fn to_grid_space(self, size: i32) -> (r: IAabb2) {
        proof {
            lemma_grid_rect_bounds(self, size as int);
        }
        let rect = iaabb2(self.min, self.max.sub(IVec2::one())).div_euclid_i32(size);
        iaabb2(rect.min, rect.max.add(IVec2::one()))
    }
}

impl ToBaseSpace<IAabb2, i32> for IVec2 {
    open spec fn to_base_space_ok(self, size: i32) -> bool {
        &&& in_i32(self.x + 1)
        &&& in_i32(self.y + 1)
        &&& in_i32(self.x * size)
        &&& in_i32(self.y * size)
        &&& in_i32((self.x + 1) * size)
        &&& in_i32((self.y + 1) * size)
    }

    open spec fn base_space_of(self, size: i32) -> IAabb2 {
        rect(self.x * size, self.y * size, (self.x + 1) * size, (self.y + 1) * size)
    }

    fn to_base_space(self, size: i32) -> (r: IAabb2) {
        let s = IVec2::splat(size);
        iaabb2(self.mul(s), self.add(IVec2::one()).mul(s))
    }
}

impl ToBaseSpace<IAabb2, i32> for IAabb2 {
    open spec fn to_base_space_ok(self, size: i32) -> bool {
        &&& in_i32(self.min.x * size)
        &&& in_i32(self.min.y * size)
        &&& in_i32(self.max.x * size)
        &&& in_i32(self.max.y * size)
    }

    open spec fn base_space_of(self, size: i32) -> IAabb2 {
        rect(self.min.x * size, self.min.y * size, self.max.x * size, self.max.y * size)
    }

    fn to_base_space(self, size: i32) -> (r: IAabb2) {
        let s = IVec2::splat(size);
        iaabb2(self.min.mul(s), self.max.mul(s))
    }
}

proof fn lemma_grid_rect_bounds(r: IAabb2, size: int)
    requires
        grid_rect_ok(r, size),
        in_i32(size),
    ensures
        in_i32(r.min.x as int / size),
        in_i32(r.min.y as int / size),
        in_i32((r.max.x - 1) / size),
        in_i32((r.max.y - 1) / size),
{
    lemma_euclid_bounds(r.min.x as int, size);
    lemma_euclid_bounds(r.min.y as int, size);
    lemma_euclid_bounds(r.max.x - 1, size);
    lemma_euclid_bounds(r.max.y - 1, size);
}

proof fn lemma_div_monotone(a: int, b: int, s: int)
    requires
        s > 0,
        a <= b,
    ensures
        a / s <= b / s,
{
    assert(a / s <= b / s) by (nonlinear_arith)
        requires
            s > 0,
            a <= b,
    ;
}

/// A point of a box lies in a cell of the box's grid rectangle: the grid
/// rectangle covers every point of the box.
pub proof fn lemma_grid_rect_covers(r: IAabb2, p: IVec2, size: int)
    requires
        size > 0,
        in_i32(size),
        box_contains(r, p),
        grid_rect_ok(r, size),
    ensures
        box_contains(grid_rect(r, size), grid_point(p, size)),
{
    lemma_grid_rect_bounds(r, size);
    lemma_div_monotone(r.min.x as int, p.x as int, size);
    lemma_div_monotone(r.min.y as int, p.y as int, size);
    lemma_div_monotone(p.x as int, r.max.x - 1, size);
    lemma_div_monotone(p.y as int, r.max.y - 1, size);
    lemma_div_in_i32(p.x as int, size);
    lemma_div_in_i32(p.y as int, size);
}

proof fn lemma_div_in_i32(a: int, s: int)
    requires
        s > 0,
        in_i32(a),
    ensures
        in_i32(a / s),
{
    assert(in_i32(a / s)) by (nonlinear_arith)
        requires
            s > 0,
            in_i32(a),
    ;
}

/// A unit cell at `p` meets a box exactly when `p` is one of the box's
/// points.
pub proof fn lemma_unit_cell_intersects(r: IAabb2, p: IVec2)
    requires
        in_i32(p.x + 1),
        in_i32(p.y + 1),
    ensures
        boxes_intersect(r, rect(p.x as int, p.y as int, p.x + 1, p.y + 1)) <==> box_contains(r, p),
{
}

/// A point lies in the base-space square of a grid cell exactly when the
/// cell is the point's grid cell.
pub proof fn lemma_cell_square_iff_grid_point(g: IVec2, p: IVec2, size: int)
    requires
        size > 0,
        in_i32(g.x * size),
        in_i32(g.y * size),
        in_i32((g.x + 1) * size),
        in_i32((g.y + 1) * size),
    ensures
        box_contains(
            rect(g.x * size, g.y * size, (g.x + 1) * size, (g.y + 1) * size),
            p,
        ) <==> grid_point(p, size) == g,
{
    let (px, py, gx, gy) = (p.x as int, p.y as int, g.x as int, g.y as int);
    assert(gx * size <= px < (gx + 1) * size <==> px / size == gx) by (nonlinear_arith)
        requires
            size > 0,
    ;
    assert(gy * size <= py < (gy + 1) * size <==> py / size == gy) by (nonlinear_arith)
        requires
            size > 0,
    ;
    lemma_div_in_i32(px, size);
    lemma_div_in_i32(py, size);
}

} // verus!
