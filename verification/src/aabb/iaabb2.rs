//! A 2-dimensional integer axis-aligned bounding box.
//!
//! The box is half open: it covers the points `p` with
//! `min.x <= p.x < max.x` and `min.y <= p.y < max.y`.

use vstd::prelude::*;

use crate::vector::{
    abs, div_ok, i32_div, i32_div_euclid, i32_half, i32_rem, i32_rem_euclid, in_i32, trunc_div,
    trunc_rem, IVec2,
};

verus! {

/// Creates a new AABB from two points.
pub fn iaabb2(min: IVec2, max: IVec2) -> (r: IAabb2)
    ensures
        r == (IAabb2 { min, max }),
{
    IAabb2 { min, max }
}

/// A 2-dimensional axis-aligned bounding box.
#[derive(Clone, Copy, Debug, Default, PartialEq, Eq, Hash)]
pub struct IAabb2 {
    pub min: IVec2,
    pub max: IVec2,
}

/// Whether `p` lies in the half-open box `r`.
pub open spec fn box_contains(r: IAabb2, p: IVec2) -> bool {
    r.min.x <= p.x < r.max.x && r.min.y <= p.y < r.max.y
}

/// Whether each of the half-open boxes `a` and `b` starts before the other
/// ends, on both axes; for non-empty boxes, whether they share a point.
pub open spec fn boxes_intersect(a: IAabb2, b: IAabb2) -> bool {
    a.min.x < b.max.x && a.min.y < b.max.y && b.min.x < a.max.x && b.min.y < a.max.y
}

/// Whether the half-open box `r` holds a point: `min < max` on both axes.
pub open spec fn box_nonempty(r: IAabb2) -> bool {
    r.min.x < r.max.x && r.min.y < r.max.y
}

/// The box with the given corners.
pub open spec fn rect(min_x: int, min_y: int, max_x: int, max_y: int) -> IAabb2 {
    IAabb2 {
        min: IVec2::from_ints(min_x, min_y),
        max: IVec2::from_ints(max_x, max_y),
    }
}

/// Width of the box, `max.x - min.x`.
pub open spec fn width(r: IAabb2) -> int {
    r.max.x - r.min.x
}

/// Height of the box, `max.y - min.y`.
pub open spec fn height(r: IAabb2) -> int {
    r.max.y - r.min.y
}

/// Whether every corner of `r` offset by `(dx, dy)` stays in `i32`.
pub open spec fn shift_ok(r: IAabb2, dx: int, dy: int) -> bool {
    &&& in_i32(r.min.x + dx)
    &&& in_i32(r.min.y + dy)
    &&& in_i32(r.max.x + dx)
    &&& in_i32(r.max.y + dy)
}

impl IAabb2 {
    /// All zeroes.
    pub fn zero() -> (r: IAabb2)
        ensures
            r == rect(0, 0, 0, 0),
    {
        IAabb2 { min: IVec2 { x: 0, y: 0 }, max: IVec2 { x: 0, y: 0 } }
    }

    /// Creates a new AABB from two points.
    pub fn new(min: IVec2, max: IVec2) -> (r: IAabb2)
        ensures
            r == (IAabb2 { min, max }),
    {
        IAabb2 { min, max }
    }

    /// Creates a new AABB from a center point and extents.
    pub fn from_center(center: IVec2, extents: IVec2) -> (r: IAabb2)
        requires
            center.sub_ok(extents),
            center.add_ok(extents),
        ensures
            r == rect(
                center.x - extents.x,
                center.y - extents.y,
                center.x + extents.x,
                center.y + extents.y,
            ),
    {
        IAabb2 { min: center.sub(extents), max: center.add(extents) }
    }

    /// Returns the AABB size.
    pub fn size(&self) -> (r: IVec2)
        requires
            self.max.sub_ok(self.min),
        ensures
            r.x == width(*self),
            r.y == height(*self),
    {
        self.max.sub(self.min)
    }

    /// Returns the AABB center point (the floor of the midpoint).
    pub fn center(&self) -> (r: IVec2)
        requires
            self.min.add_ok(self.max),
        ensures
            r.x == (self.min.x + self.max.x) / 2,
            r.y == (self.min.y + self.max.y) / 2,
    {
        self.min.add(self.max).half()
    }

    /// Returns the AABB extents (the floor of the half size).
    pub fn extents(&self) -> (r: IVec2)
        requires
            self.max.sub_ok(self.min),
        ensures
            r.x == width(*self) / 2,
            r.y == height(*self) / 2,
    {
        self.max.sub(self.min).half()
    }

    /// Returns the AABB volume.
    pub fn volume(&self) -> (r: i32)
        requires
            self.max.sub_ok(self.min),
            in_i32(width(*self) * height(*self)),
        ensures
            r == width(*self) * height(*self),
    {
        let size = self.size();
        size.x * size.y
    }

    /// Returns the AABB with extended size.
    pub fn extends(self, size: i32) -> (r: IAabb2)
        requires
            in_i32(self.min.x - size),
            in_i32(self.min.y - size),
            in_i32(self.max.x + size),
            in_i32(self.max.y + size),
        ensures
            r == rect(
                self.min.x - size,
                self.min.y - size,
                self.max.x + size,
                self.max.y + size,
            ),
    {
        IAabb2 { min: self.min.sub(IVec2::splat(size)), max: self.max.add(IVec2::splat(size)) }
    }

    /// Calculates the Euclidean division.
    pub fn div_euclid_i32(self, rhs: i32) -> (r: IAabb2)
        requires
            div_ok(self.min.x as int, rhs as int),
            div_ok(self.min.y as int, rhs as int),
            div_ok(self.max.x as int, rhs as int),
            div_ok(self.max.y as int, rhs as int),
        ensures
            r == rect(
                self.min.x as int / rhs as int,
                self.min.y as int / rhs as int,
                self.max.x as int / rhs as int,
                self.max.y as int / rhs as int,
            ),
    {
        IAabb2 {
            min: self.min.div_euclid(IVec2 { x: rhs, y: rhs }),
            max: self.max.div_euclid(IVec2 { x: rhs, y: rhs }),
        }
    }

    /// Calculates the Euclidean division.
    pub fn div_euclid_ivec2(self, rhs: IVec2) -> (r: IAabb2)
        requires
            self.min.div_ok(rhs),
            self.max.div_ok(rhs),
        ensures
            r == rect(
                self.min.x as int / rhs.x as int,
                self.min.y as int / rhs.y as int,
                self.max.x as int / rhs.x as int,
                self.max.y as int / rhs.y as int,
            ),
    {
        IAabb2 { min: self.min.div_euclid(rhs), max: self.max.div_euclid(rhs) }
    }

    /// Calculates the Euclidean division.
    pub fn div_euclid(self, rhs: IAabb2) -> (r: IAabb2)
        requires
            self.min.div_ok(rhs.min),
            self.max.div_ok(rhs.max),
        ensures
            r == rect(
                self.min.x as int / rhs.min.x as int,
                self.min.y as int / rhs.min.y as int,
                self.max.x as int / rhs.max.x as int,
                self.max.y as int / rhs.max.y as int,
            ),
    {
        IAabb2 { min: self.min.div_euclid(rhs.min), max: self.max.div_euclid(rhs.max) }
    }

    /// Calculates the least nonnegative remainder of `self (mod rhs)`.
    pub fn rem_euclid_i32(self, rhs: i32) -> (r: IAabb2)
        requires
            div_ok(self.min.x as int, rhs as int),
            div_ok(self.min.y as int, rhs as int),
            div_ok(self.max.x as int, rhs as int),
            div_ok(self.max.y as int, rhs as int),
        ensures
            r == rect(
                self.min.x as int % rhs as int,
                self.min.y as int % rhs as int,
                self.max.x as int % rhs as int,
                self.max.y as int % rhs as int,
            ),
    {
        IAabb2 {
            min: self.min.rem_euclid(IVec2 { x: rhs, y: rhs }),
            max: self.max.rem_euclid(IVec2 { x: rhs, y: rhs }),
        }
    }

    /// Calculates the least nonnegative remainder of `self (mod rhs)`.
    pub fn rem_euclid_ivec2(self, rhs: IVec2) -> (r: IAabb2)
        requires
            self.min.div_ok(rhs),
            self.max.div_ok(rhs),
        ensures
            r == rect(
                self.min.x as int % rhs.x as int,
                self.min.y as int % rhs.y as int,
                self.max.x as int % rhs.x as int,
                self.max.y as int % rhs.y as int,
            ),
    {
        IAabb2 { min: self.min.rem_euclid(rhs), max: self.max.rem_euclid(rhs) }
    }

    /// Calculates the least nonnegative remainder of `self (mod rhs)`.
    pub fn rem_euclid(self, rhs: IAabb2) -> (r: IAabb2)
        requires
            self.min.div_ok(rhs.min),
            self.max.div_ok(rhs.max),
        ensures
            r == rect(
                self.min.x as int % rhs.min.x as int,
                self.min.y as int % rhs.min.y as int,
                self.max.x as int % rhs.max.x as int,
                self.max.y as int % rhs.max.y as int,
            ),
    {
        IAabb2 { min: self.min.rem_euclid(rhs.min), max: self.max.rem_euclid(rhs.max) }
    }

    /// Returns whether if `self` contains `rhs`.
    pub fn contains_point(&self, rhs: IVec2) -> (r: bool)
        ensures
            r == box_contains(*self, rhs),
    {
        self.min.x <= rhs.x && self.min.y <= rhs.y && rhs.x < self.max.x && rhs.y < self.max.y
    }

    /// Returns whether `rhs` lies within `self`.
    pub fn contains_rect(&self, rhs: IAabb2) -> (r: bool)
        ensures
            r == (self.min.x <= rhs.min.x && self.min.y <= rhs.min.y && rhs.max.x <= self.max.x
                && rhs.max.y <= self.max.y),
    {
        self.min.x <= rhs.min.x && self.min.y <= rhs.min.y && rhs.max.x <= self.max.x && rhs.max.y
            <= self.max.y
    }

    /// Returns whether if `self` intersects `rhs`.
    pub fn intersects(&self, rhs: IAabb2) -> (r: bool)
        ensures
            r == boxes_intersect(*self, rhs),
    {
        self.min.x < rhs.max.x && self.min.y < rhs.max.y && rhs.min.x < self.max.x && rhs.min.y
            < self.max.y
    }

    /// Negates both corners (`-self`).
    pub fn neg(self) -> (r: IAabb2)
        requires
            self.min.x != i32::MIN,
            self.min.y != i32::MIN,
            self.max.x != i32::MIN,
            self.max.y != i32::MIN,
        ensures
            r == rect(-self.min.x, -self.min.y, -self.max.x, -self.max.y),
    {
        IAabb2 { min: self.min.neg(), max: self.max.neg() }
    }

    /// The corner at `index`: `0` is `min`, `1` is `max`.
    pub fn index(&self, index: usize) -> (r: IVec2)
        requires
            index < 2,
        ensures
            r == if index == 0 { self.min } else { self.max },
    {
        if index == 0 {
            self.min
        } else {
            self.max
        }
    }

    /// Replaces the corner at `index`: `0` is `min`, `1` is `max`.
    pub fn set_index(&mut self, index: usize, value: IVec2)
        requires
            index < 2,
        ensures
            index == 0 ==> *final(self) == (IAabb2 { min: value, max: old(self).max }),
            index == 1 ==> *final(self) == (IAabb2 { min: old(self).min, max: value }),
    {
        if index == 0 {
            self.min = value;
        } else {
            self.max = value;
        }
    }

    /// The box with corners `value[0]` and `value[1]`.
    pub fn from_array(value: [IVec2; 2]) -> (r: IAabb2)
        ensures
            r == (IAabb2 { min: value@[0], max: value@[1] }),
    {
        IAabb2 { min: value[0], max: value[1] }
    }

    /// The corners as `[min, max]`.
    pub fn to_array(self) -> (r: [IVec2; 2])
        ensures
            r@ == seq![self.min, self.max],
    {
        [self.min, self.max]
    }

    /// The box with corners `value.0` and `value.1`.
    pub fn from_tuple(value: (IVec2, IVec2)) -> (r: IAabb2)
        ensures
            r == (IAabb2 { min: value.0, max: value.1 }),
    {
        IAabb2 { min: value.0, max: value.1 }
    }

    /// The corners as `(min, max)`.
    pub fn to_tuple(self) -> (r: (IVec2, IVec2))
        ensures
            r == (self.min, self.max),
    {
        (self.min, self.max)
    }

    /// Moves the box by `rhs` (`self + rhs`, also `rhs + self`).
    pub fn add_ivec2(self, rhs: IVec2) -> (r: IAabb2)
        requires
            in_i32(self.min.x + rhs.x),
            in_i32(self.min.y + rhs.y),
            in_i32(self.max.x + rhs.x),
            in_i32(self.max.y + rhs.y),
        ensures
            r.min.x == self.min.x + rhs.x,
            r.min.y == self.min.y + rhs.y,
            r.max.x == self.max.x + rhs.x,
            r.max.y == self.max.y + rhs.y,
    {
        IAabb2 { min: self.min.add(rhs), max: self.max.add(rhs) }
    }

    /// Corner-wise sum `self + rhs`.
    pub fn add_aabb(self, rhs: IAabb2) -> (r: IAabb2)
        requires
            in_i32(self.min.x + rhs.min.x),
            in_i32(self.min.y + rhs.min.y),
            in_i32(self.max.x + rhs.max.x),
            in_i32(self.max.y + rhs.max.y),
        ensures
            r.min.x == self.min.x + rhs.min.x,
            r.min.y == self.min.y + rhs.min.y,
            r.max.x == self.max.x + rhs.max.x,
            r.max.y == self.max.y + rhs.max.y,
    {
        IAabb2 { min: self.min.add(rhs.min), max: self.max.add(rhs.max) }
    }

    /// Moves the box by `-rhs` (`self - rhs`).
    pub fn sub_ivec2(self, rhs: IVec2) -> (r: IAabb2)
        requires
            in_i32(self.min.x - rhs.x),
            in_i32(self.min.y - rhs.y),
            in_i32(self.max.x - rhs.x),
            in_i32(self.max.y - rhs.y),
        ensures
            r.min.x == self.min.x - rhs.x,
            r.min.y == self.min.y - rhs.y,
            r.max.x == self.max.x - rhs.x,
            r.max.y == self.max.y - rhs.y,
    {
        IAabb2 { min: self.min.sub(rhs), max: self.max.sub(rhs) }
    }

    /// Corner-wise difference `self - rhs`.
    pub fn sub_aabb(self, rhs: IAabb2) -> (r: IAabb2)
        requires
            in_i32(self.min.x - rhs.min.x),
            in_i32(self.min.y - rhs.min.y),
            in_i32(self.max.x - rhs.max.x),
            in_i32(self.max.y - rhs.max.y),
        ensures
            r.min.x == self.min.x - rhs.min.x,
            r.min.y == self.min.y - rhs.min.y,
            r.max.x == self.max.x - rhs.max.x,
            r.max.y == self.max.y - rhs.max.y,
    {
        IAabb2 { min: self.min.sub(rhs.min), max: self.max.sub(rhs.max) }
    }

    /// Scales both corners by `rhs` (`self * rhs`, also `rhs * self`).
    pub fn mul_i32(self, rhs: i32) -> (r: IAabb2)
        requires
            in_i32(self.min.x * rhs),
            in_i32(self.min.y * rhs),
            in_i32(self.max.x * rhs),
            in_i32(self.max.y * rhs),
        ensures
            r.min.x == self.min.x * rhs,
            r.min.y == self.min.y * rhs,
            r.max.x == self.max.x * rhs,
            r.max.y == self.max.y * rhs,
    {
        IAabb2 { min: self.min.mul(IVec2::splat(rhs)), max: self.max.mul(IVec2::splat(rhs)) }
    }

    /// Scales both corners coordinate-wise by `rhs` (`self * rhs`, also `rhs * self`).
    pub fn mul_ivec2(self, rhs: IVec2) -> (r: IAabb2)
        requires
            in_i32(self.min.x * rhs.x),
            in_i32(self.min.y * rhs.y),
            in_i32(self.max.x * rhs.x),
            in_i32(self.max.y * rhs.y),
        ensures
            r.min.x == self.min.x * rhs.x,
            r.min.y == self.min.y * rhs.y,
            r.max.x == self.max.x * rhs.x,
            r.max.y == self.max.y * rhs.y,
    {
        IAabb2 { min: self.min.mul(rhs), max: self.max.mul(rhs) }
    }

    /// Corner-wise product `self * rhs`.
    pub fn mul_aabb(self, rhs: IAabb2) -> (r: IAabb2)
        requires
            in_i32(self.min.x * rhs.min.x),
            in_i32(self.min.y * rhs.min.y),
            in_i32(self.max.x * rhs.max.x),
            in_i32(self.max.y * rhs.max.y),
        ensures
            r.min.x == self.min.x * rhs.min.x,
            r.min.y == self.min.y * rhs.min.y,
            r.max.x == self.max.x * rhs.max.x,
            r.max.y == self.max.y * rhs.max.y,
    {
        IAabb2 { min: self.min.mul(rhs.min), max: self.max.mul(rhs.max) }
    }

    /// Corner-wise quotient rounded toward zero (`self / rhs`).
    pub fn div_i32(self, rhs: i32) -> (r: IAabb2)
        requires
            div_ok(self.min.x as int, rhs as int),
            div_ok(self.min.y as int, rhs as int),
            div_ok(self.max.x as int, rhs as int),
            div_ok(self.max.y as int, rhs as int),
        ensures
            r.min.x == trunc_div(self.min.x as int, rhs as int),
            r.min.y == trunc_div(self.min.y as int, rhs as int),
            r.max.x == trunc_div(self.max.x as int, rhs as int),
            r.max.y == trunc_div(self.max.y as int, rhs as int),
    {
        IAabb2 { min: self.min.div(IVec2::splat(rhs)), max: self.max.div(IVec2::splat(rhs)) }
    }

    /// Corner-wise quotient rounded toward zero (`self / rhs`).
    pub fn div_ivec2(self, rhs: IVec2) -> (r: IAabb2)
        requires
            div_ok(self.min.x as int, rhs.x as int),
            div_ok(self.min.y as int, rhs.y as int),
            div_ok(self.max.x as int, rhs.x as int),
            div_ok(self.max.y as int, rhs.y as int),
        ensures
            r.min.x == trunc_div(self.min.x as int, rhs.x as int),
            r.min.y == trunc_div(self.min.y as int, rhs.y as int),
            r.max.x == trunc_div(self.max.x as int, rhs.x as int),
            r.max.y == trunc_div(self.max.y as int, rhs.y as int),
    {
        IAabb2 { min: self.min.div(rhs), max: self.max.div(rhs) }
    }

    /// Corner-wise quotient rounded toward zero (`self / rhs`).
    pub fn div_aabb(self, rhs: IAabb2) -> (r: IAabb2)
        requires
            div_ok(self.min.x as int, rhs.min.x as int),
            div_ok(self.min.y as int, rhs.min.y as int),
            div_ok(self.max.x as int, rhs.max.x as int),
            div_ok(self.max.y as int, rhs.max.y as int),
        ensures
            r.min.x == trunc_div(self.min.x as int, rhs.min.x as int),
            r.min.y == trunc_div(self.min.y as int, rhs.min.y as int),
            r.max.x == trunc_div(self.max.x as int, rhs.max.x as int),
            r.max.y == trunc_div(self.max.y as int, rhs.max.y as int),
    {
        IAabb2 { min: self.min.div(rhs.min), max: self.max.div(rhs.max) }
    }

    /// Corner-wise remainder with the sign of `self` (`self % rhs`).
    pub fn rem_i32(self, rhs: i32) -> (r: IAabb2)
        requires
            div_ok(self.min.x as int, rhs as int),
            div_ok(self.min.y as int, rhs as int),
            div_ok(self.max.x as int, rhs as int),
            div_ok(self.max.y as int, rhs as int),
        ensures
            r.min.x == trunc_rem(self.min.x as int, rhs as int),
            r.min.y == trunc_rem(self.min.y as int, rhs as int),
            r.max.x == trunc_rem(self.max.x as int, rhs as int),
            r.max.y == trunc_rem(self.max.y as int, rhs as int),
    {
        IAabb2 { min: self.min.rem(IVec2::splat(rhs)), max: self.max.rem(IVec2::splat(rhs)) }
    }

    /// Corner-wise remainder with the sign of `self` (`self % rhs`).
    pub fn rem_ivec2(self, rhs: IVec2) -> (r: IAabb2)
        requires
            div_ok(self.min.x as int, rhs.x as int),
            div_ok(self.min.y as int, rhs.y as int),
            div_ok(self.max.x as int, rhs.x as int),
            div_ok(self.max.y as int, rhs.y as int),
        ensures
            r.min.x == trunc_rem(self.min.x as int, rhs.x as int),
            r.min.y == trunc_rem(self.min.y as int, rhs.y as int),
            r.max.x == trunc_rem(self.max.x as int, rhs.x as int),
            r.max.y == trunc_rem(self.max.y as int, rhs.y as int),
    {
        IAabb2 { min: self.min.rem(rhs), max: self.max.rem(rhs) }
    }

    /// Corner-wise remainder with the sign of `self` (`self % rhs`).
    pub fn rem_aabb(self, rhs: IAabb2) -> (r: IAabb2)
        requires
            div_ok(self.min.x as int, rhs.min.x as int),
            div_ok(self.min.y as int, rhs.min.y as int),
            div_ok(self.max.x as int, rhs.max.x as int),
            div_ok(self.max.y as int, rhs.max.y as int),
        ensures
            r.min.x == trunc_rem(self.min.x as int, rhs.min.x as int),
            r.min.y == trunc_rem(self.min.y as int, rhs.min.y as int),
            r.max.x == trunc_rem(self.max.x as int, rhs.max.x as int),
            r.max.y == trunc_rem(self.max.y as int, rhs.max.y as int),
    {
        IAabb2 { min: self.min.rem(rhs.min), max: self.max.rem(rhs.max) }
    }

    /// Reflects the corners around `lhs` (`lhs - self`).
    pub fn rsub_ivec2(self, lhs: IVec2) -> (r: IAabb2)
        requires
            in_i32(lhs.x - self.min.x),
            in_i32(lhs.y - self.min.y),
            in_i32(lhs.x - self.max.x),
            in_i32(lhs.y - self.max.y),
        ensures
            r.min.x == lhs.x - self.min.x,
            r.min.y == lhs.y - self.min.y,
            r.max.x == lhs.x - self.max.x,
            r.max.y == lhs.y - self.max.y,
    {
        IAabb2 { min: lhs.sub(self.min), max: lhs.sub(self.max) }
    }

    /// Divides `lhs` by each corner, rounding toward zero (`lhs / self`).
    pub fn rdiv_i32(self, lhs: i32) -> (r: IAabb2)
        requires
            div_ok(lhs as int, self.min.x as int),
            div_ok(lhs as int, self.min.y as int),
            div_ok(lhs as int, self.max.x as int),
            div_ok(lhs as int, self.max.y as int),
        ensures
            r.min.x == trunc_div(lhs as int, self.min.x as int),
            r.min.y == trunc_div(lhs as int, self.min.y as int),
            r.max.x == trunc_div(lhs as int, self.max.x as int),
            r.max.y == trunc_div(lhs as int, self.max.y as int),
    {
        IAabb2 { min: IVec2::splat(lhs).div(self.min), max: IVec2::splat(lhs).div(self.max) }
    }

    /// Divides `lhs` by each corner, rounding toward zero (`lhs / self`).
    pub fn rdiv_ivec2(self, lhs: IVec2) -> (r: IAabb2)
        requires
            div_ok(lhs.x as int, self.min.x as int),
            div_ok(lhs.y as int, self.min.y as int),
            div_ok(lhs.x as int, self.max.x as int),
            div_ok(lhs.y as int, self.max.y as int),
        ensures
            r.min.x == trunc_div(lhs.x as int, self.min.x as int),
            r.min.y == trunc_div(lhs.y as int, self.min.y as int),
            r.max.x == trunc_div(lhs.x as int, self.max.x as int),
            r.max.y == trunc_div(lhs.y as int, self.max.y as int),
    {
        IAabb2 { min: lhs.div(self.min), max: lhs.div(self.max) }
    }

    /// Remainder of `lhs` by each corner, with the sign of `lhs` (`lhs % self`).
    pub fn rrem_i32(self, lhs: i32) -> (r: IAabb2)
        requires
            div_ok(lhs as int, self.min.x as int),
            div_ok(lhs as int, self.min.y as int),
            div_ok(lhs as int, self.max.x as int),
            div_ok(lhs as int, self.max.y as int),
        ensures
            r.min.x == trunc_rem(lhs as int, self.min.x as int),
            r.min.y == trunc_rem(lhs as int, self.min.y as int),
            r.max.x == trunc_rem(lhs as int, self.max.x as int),
            r.max.y == trunc_rem(lhs as int, self.max.y as int),
    {
        IAabb2 { min: IVec2::splat(lhs).rem(self.min), max: IVec2::splat(lhs).rem(self.max) }
    }

    /// Remainder of `lhs` by each corner, with the sign of `lhs` (`lhs % self`).
    pub fn rrem_ivec2(self, lhs: IVec2) -> (r: IAabb2)
        requires
            div_ok(lhs.x as int, self.min.x as int),
            div_ok(lhs.y as int, self.min.y as int),
            div_ok(lhs.x as int, self.max.x as int),
            div_ok(lhs.y as int, self.max.y as int),
        ensures
            r.min.x == trunc_rem(lhs.x as int, self.min.x as int),
            r.min.y == trunc_rem(lhs.y as int, self.min.y as int),
            r.max.x == trunc_rem(lhs.x as int, self.max.x as int),
            r.max.y == trunc_rem(lhs.y as int, self.max.y as int),
    {
        IAabb2 { min: lhs.rem(self.min), max: lhs.rem(self.max) }
    }

    /// The points visited by `into_iter_points`, in order.
    pub fn points(self) -> (r: Vec<IVec2>)
        ensures
            r@ == walk(self),
    {
        let mut it = self.into_iter_points();
        let mut out: Vec<IVec2> = Vec::new();
        let ghost len = walk_len(self);
        proof {
            lemma_walk_len(self);
            if len > 0 {
                lemma_walk_point_in_range(self, 0);
                assert(walk_point(self, 0) == self.min);
            }
        }
        loop
            invariant
                it.rect == self,
                len == walk_len(self),
                0 <= out@.len() <= len,
                out@ == walk(self).take(out@.len() as int),
                out@.len() < len ==> it.point == walk_point(self, out@.len() as int),
                out@.len() == len ==> it.point == (if len == 0 {
                    self.min
                } else {
                    IVec2::from_ints(self.min.x as int, self.max.y as int)
                }),
                len == 0 ==> self.max.y <= self.min.y || self.max.x <= self.min.x,
            decreases len - out@.len(),
        {
            let ghost k = out@.len() as int;
            proof {
                if k < len {
                    lemma_walk_step(self, k);
                    lemma_walk_point_in_range(self, k);
                }
            }
            match it.next() {
                Some(p) => {
                    out.push(p);
                    assert(out@ == walk(self).take(k + 1));
                },
                None => {
                    assert(out@ == walk(self));
                    return out;
                },
            }
        }
    }

    /// Returns an iterator visiting all points contained by `self` area.
    pub fn into_iter_points(self) -> (r: IterPoint)
        ensures
            r.rect == self,
            r.point == self.min,
    {
        IterPoint { rect: self, point: self.min }
    }
}

/// Corner-wise sums of the boxes of `s`: `(min.x, min.y, max.x, max.y)`.
pub open spec fn corner_sums(s: Seq<IAabb2>) -> (int, int, int, int)
    decreases s.len(),
{
    if s.len() == 0 {
        (0, 0, 0, 0)
    } else {
        let p = corner_sums(s.drop_last());
        let b = s.last();
        (p.0 + b.min.x, p.1 + b.min.y, p.2 + b.max.x, p.3 + b.max.y)
    }
}

/// Whether every partial corner-wise sum of `s` fits in `i32`.
pub open spec fn sums_ok(s: Seq<IAabb2>) -> bool {
    forall|k: int|
        #![trigger corner_sums(s.take(k))]
        0 <= k <= s.len() ==> {
            let c = corner_sums(s.take(k));
            in_i32(c.0) && in_i32(c.1) && in_i32(c.2) && in_i32(c.3)
        }
}

/// Corner-wise sum of all the boxes, starting from the zero box.
pub fn sum(items: &Vec<IAabb2>) -> (r: IAabb2)
    requires
        sums_ok(items@),
    ensures
        r == rect(
            corner_sums(items@).0,
            corner_sums(items@).1,
            corner_sums(items@).2,
            corner_sums(items@).3,
        ),
{
    let mut acc = IAabb2::zero();
    let mut i: usize = 0;
    assert(items@.take(0) =~= Seq::<IAabb2>::empty());
    while i < items.len()
        invariant
            i <= items@.len(),
            sums_ok(items@),
            acc == rect(
                corner_sums(items@.take(i as int)).0,
                corner_sums(items@.take(i as int)).1,
                corner_sums(items@.take(i as int)).2,
                corner_sums(items@.take(i as int)).3,
            ),
        decreases items@.len() - i,
    {
        assert(items@.take(i + 1).drop_last() =~= items@.take(i as int));
        proof {
            let c = corner_sums(items@.take(i + 1));
            assert(in_i32(c.0) && in_i32(c.1) && in_i32(c.2) && in_i32(c.3));
            let c0 = corner_sums(items@.take(i as int));
            assert(in_i32(c0.0) && in_i32(c0.1) && in_i32(c0.2) && in_i32(c0.3));
        }
        acc = acc.add_aabb(items[i]);
        i = i + 1;
    }
    assert(items@.take(items@.len() as int) =~= items@);
    acc
}

/// Corner-wise product of all the boxes, starting from the zero box: as the
/// fold starts from zero, the product is always the zero box.
pub fn product(items: &Vec<IAabb2>) -> (r: IAabb2)
    ensures
        r == rect(0, 0, 0, 0),
{
    let mut acc = IAabb2::zero();
    let mut i: usize = 0;
    while i < items.len()
        invariant
            i <= items@.len(),
            acc == rect(0, 0, 0, 0),
        decreases items@.len() - i,
    {
        assert(acc.min.x == 0 && acc.min.y == 0 && acc.max.x == 0 && acc.max.y == 0);
        acc = acc.mul_aabb(items[i]);
        i = i + 1;
    }
    acc
}

/// Row-major walk over the points of a box: first along `x`, then to the
/// next row.
#[derive(Clone, Copy, Debug)]
pub struct IterPoint {
    pub rect: IAabb2,
    pub point: IVec2,
}

/// The point that follows `p` in the walk over `r`.
pub open spec fn step(r: IAabb2, p: IVec2) -> IVec2 {
    if p.x + 1 < r.max.x {
        IVec2::from_ints(p.x + 1, p.y as int)
    } else {
        IVec2::from_ints(r.min.x as int, p.y + 1)
    }
}

/// The number of points that the walk over `r` visits: its width times its
/// height, or none when either is not positive.
pub open spec fn walk_len(r: IAabb2) -> int {
    if width(r) <= 0 || height(r) <= 0 {
        0
    } else {
        width(r) * height(r)
    }
}

/// The `i`-th point of the walk over `r`.
pub open spec fn walk_point(r: IAabb2, i: int) -> IVec2 {
    IVec2::from_ints(r.min.x + i % width(r), r.min.y + i / width(r))
}

/// The points that the walk over `r` visits, in order.
pub open spec fn walk(r: IAabb2) -> Seq<IVec2> {
    Seq::new(walk_len(r) as nat, |i: int| walk_point(r, i))
}

proof fn lemma_walk_len(r: IAabb2)
    ensures
        walk_len(r) >= 0,
        walk_len(r) > 0 ==> walk_len(r) >= width(r) >= 1 && height(r) >= 1,
        width(r) > 0 && height(r) > 0 ==> walk_len(r) >= 1,
{
    if width(r) > 0 && height(r) > 0 {
        let (w, h) = (width(r), height(r));
        assert(w * h >= w) by (nonlinear_arith)
            requires
                w >= 1,
                h >= 1,
        ;
    }
}

proof fn lemma_walk_point_in_range(r: IAabb2, i: int)
    requires
        0 <= i < walk_len(r),
    ensures
        width(r) >= 1,
        height(r) >= 1,
        r.min.x <= r.min.x + i % width(r) < r.max.x,
        r.min.y <= r.min.y + i / width(r) < r.max.y,
{
    let (w, h) = (width(r), height(r));
    assert(0 <= i % w < w && 0 <= i / w < h) by (nonlinear_arith)
        requires
            w >= 1,
            h >= 1,
            0 <= i < w * h,
    ;
}

/// Whether `a` comes before `b` row by row: a lower `y`, or the same `y` and
/// a lower `x`.
pub open spec fn row_before(a: IVec2, b: IVec2) -> bool {
    a.y < b.y || (a.y == b.y && a.x < b.x)
}

/// The walk visits rows in ascending `y`, and within a row ascending `x`:
/// each point of the walk comes before every later one row by row.
pub proof fn lemma_walk_in_row_order(r: IAabb2, a: int, b: int)
    requires
        0 <= a < b < walk_len(r),
    ensures
        row_before(walk(r)[a], walk(r)[b]),
{
    lemma_walk_point_in_range(r, a);
    lemma_walk_point_in_range(r, b);
    let w = width(r);
    assert(a / w <= b / w) by (nonlinear_arith)
        requires
            w >= 1,
            0 <= a < b,
    {
        vstd::arithmetic::div_mod::lemma_div_is_ordered(a, b, w);
    }
    assert(a / w == b / w ==> a % w < b % w) by (nonlinear_arith)
        requires
            w >= 1,
            0 <= a < b,
    {
        vstd::arithmetic::div_mod::lemma_fundamental_div_mod(a, w);
        vstd::arithmetic::div_mod::lemma_fundamental_div_mod(b, w);
    }
}

/// From the `i`-th point of the walk over `r` the iterator steps to the
/// next point of the walk, or, from the last one, to the row just below the
/// box, where it stops.
pub proof fn lemma_walk_step(r: IAabb2, i: int)
    requires
        0 <= i < walk_len(r),
    ensures
        in_i32(walk_point(r, i).x + 1),
        step(r, walk_point(r, i)) == if i + 1 < walk_len(r) {
            walk_point(r, i + 1)
        } else {
            IVec2::from_ints(r.min.x as int, r.max.y as int)
        },
{
    lemma_walk_point_in_range(r, i);
    let (w, h) = (width(r), height(r));
    assert((i % w + 1 < w ==> (i + 1) % w == i % w + 1 && (i + 1) / w == i / w) && (i % w + 1
        >= w ==> (i + 1) % w == 0 && (i + 1) / w == i / w + 1)) by (nonlinear_arith)
        requires
            w >= 1,
            i >= 0,
    ;
    assert(i % w + 1 >= w ==> (i + 1 < w * h || i / w + 1 == h)) by (nonlinear_arith)
        requires
            w >= 1,
            h >= 1,
            0 <= i < w * h,
    ;
    assert(i % w + 1 < w ==> i + 1 < w * h) by (nonlinear_arith)
        requires
            w >= 1,
            h >= 1,
            0 <= i < w * h,
    ;
    if i + 1 < walk_len(r) {
        lemma_walk_point_in_range(r, i + 1);
    }
}

/// The walk over any box visits no point twice.
pub proof fn lemma_walk_no_duplicates(r: IAabb2)
    ensures
        walk(r).no_duplicates(),
{
    let w = width(r);
    assert forall|i: int, j: int|
        0 <= i < walk(r).len() && 0 <= j < walk(r).len() && i != j implies walk(r)[i] != walk(
            r,
        )[j] by {
        lemma_walk_point_in_range(r, i);
        lemma_walk_point_in_range(r, j);
        assert(i % w != j % w || i / w != j / w) by (nonlinear_arith)
            requires
                w >= 1,
                i >= 0,
                j >= 0,
                i != j,
        ;
    }
}

/// Every point of the walk over a box is a point of the box, every point of
/// the box is visited, and no point is visited twice.
pub proof fn lemma_walk_is_box(r: IAabb2)
    ensures
        forall|p: IVec2| walk(r).contains(p) <==> box_contains(r, p),
        walk(r).no_duplicates(),
{
    let (w, h) = (width(r), height(r));
    assert forall|p: IVec2| walk(r).contains(p) <==> box_contains(r, p) by {
        if walk(r).contains(p) {
            let i = choose|i: int| 0 <= i < walk(r).len() && walk(r)[i] == p;
            lemma_walk_point_in_range(r, i);
        }
        if box_contains(r, p) {
            let (dx, dy) = (p.x - r.min.x, p.y - r.min.y);
            let i = dy * w + dx;
            assert(0 <= i < w * h && i % w == dx && i / w == dy) by (nonlinear_arith)
                requires
                    0 <= dx < w,
                    0 <= dy < h,
                    i == dy * w + dx,
            ;
            assert(walk(r)[i] == p);
        }
    }
    lemma_walk_no_duplicates(r);
}

/// The number of points that the walk over `it.rect` still visits from
/// `it.point`: the rest of the current row, then the whole rows below it.
pub open spec fn remaining(it: IterPoint) -> int {
    if it.point.y >= it.rect.max.y || width(it.rect) <= 0 {
        0
    } else {
        (it.rect.max.x - it.point.x) + (it.rect.max.y - 1 - it.point.y) * width(it.rect)
    }
}

/// Whether `it` stands where a walk over its box can stand: at a point of
/// the box, past its last row, or anywhere in a box of no width.
pub open spec fn iter_wf(it: IterPoint) -> bool {
    ||| box_contains(it.rect, it.point)
    ||| it.point.y >= it.rect.max.y
    ||| width(it.rect) <= 0
}

/// Standing on the `k`-th point of the walk, the iterator has exactly the
/// points from the `k`-th on still to visit.
pub proof fn lemma_remaining_counts_rest(r: IAabb2, k: int)
    requires
        0 <= k < walk_len(r),
    ensures
        remaining(IterPoint { rect: r, point: walk_point(r, k) }) == walk_len(r) - k,
{
    lemma_walk_point_in_range(r, k);
    let (w, h) = (width(r), height(r));
    assert((w - k % w) + (h - 1 - k / w) * w == w * h - k) by (nonlinear_arith)
        requires
            w >= 1,
            k >= 0,
    ;
}

impl IterPoint {
    /// The number of points still to visit.
    pub fn len(&self) -> (r: usize)
        requires
            iter_wf(*self),
            walk_len(self.rect) <= usize::MAX,
        ensures
            r == remaining(*self),
    {
        if self.point.y >= self.rect.max.y || self.rect.max.x <= self.rect.min.x {
            return 0;
        }
        let rest_of_row: i128 = self.rect.max.x as i128 - self.point.x as i128;
        let rows: i128 = self.rect.max.y as i128 - 1 - self.point.y as i128;
        let w: i128 = self.rect.max.x as i128 - self.rect.min.x as i128;
        proof {
            let (h, dx, dy) = (height(self.rect), self.point.x - self.rect.min.x, self.point.y - self.rect.min.y);
            assert(0 <= rows * w && (w - dx) + rows * w <= w * h) by (nonlinear_arith)
                requires
                    w >= 1,
                    0 <= dx < w,
                    0 <= dy < h,
                    rows == h - 1 - dy,
            ;
            assert(rows * w <= 0x1_0000_0000 * 0x1_0000_0000) by (nonlinear_arith)
                requires
                    0 <= rows <= 0x1_0000_0000,
                    1 <= w <= 0x1_0000_0000,
            ;
        }
        let n: i128 = rest_of_row + rows * w;
        proof {
            assert(walk_len(self.rect) == w * height(self.rect));
        }
        n as usize
    }

    /// Returns the current point and advances, or `None` once every row has
    /// been visited (at once when the box has no width).
    pub fn next(&mut self) -> (r: Option<IVec2>)
        requires
            old(self).point.y < old(self).rect.max.y && old(self).rect.min.x < old(self).rect.max.x
                ==> in_i32(old(self).point.x + 1),
        ensures
            final(self).rect == old(self).rect,
            old(self).point.y < old(self).rect.max.y && old(self).rect.min.x < old(self).rect.max.x
                ==> r == Some(old(self).point) && final(self).point == step(
                old(self).rect,
                old(self).point,
            ),
            !(old(self).point.y < old(self).rect.max.y && old(self).rect.min.x < old(self).rect.max.x)
                ==> r is None && final(self).point == old(self).point,
    {
        if self.point.y < self.rect.max.y && self.rect.min.x < self.rect.max.x {
            let n = if self.point.x + 1 < self.rect.max.x {
                IVec2 { x: self.point.x + 1, y: self.point.y }
            } else {
                IVec2 { x: self.rect.min.x, y: self.point.y + 1 }
            };
            let cur = self.point;
            self.point = n;
            Some(cur)
        } else {
            None
        }
    }
}

} // verus!
