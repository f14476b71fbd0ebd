//! Two- and three-dimensional integer vectors.
//!
//! The arithmetic follows Rust's `i32` operators: `/` and `%` round toward
//! zero, `div_euclid` and `rem_euclid` give the Euclidean quotient and the
//! least nonnegative remainder. Every operation asks that its result fits in
//! `i32`, as the operators would otherwise panic.

use vstd::prelude::*;

verus! {

/// Whether `v` is a value of `i32`.
pub open spec fn in_i32(v: int) -> bool {
    i32::MIN <= v <= i32::MAX
}

/// Absolute value.
pub open spec fn abs(a: int) -> int {
    if a < 0 { -a } else { a }
}

/// Quotient of the division rounded toward zero, as Rust's `/` computes it.
pub open spec fn trunc_div(a: int, b: int) -> int {
    let q = abs(a) / abs(b);
    if (a < 0) != (b < 0) { -q } else { q }
}

/// Remainder of the division rounded toward zero, as Rust's `%` computes it:
/// it has the sign of `a`.
pub open spec fn trunc_rem(a: int, b: int) -> int {
    let r = abs(a) % abs(b);
    if a < 0 { -r } else { r }
}

/// Whether `a / b` and `a % b` are defined on `i32` (no division by zero and
/// no overflow).
pub open spec fn div_ok(a: int, b: int) -> bool {
    b != 0 && !(a == i32::MIN && b == -1)
}

/// The Euclidean quotient and remainder of `i32` values fit in `i32` when
/// the division is defined.
pub proof fn lemma_euclid_bounds(a: int, b: int)
    requires
        in_i32(a),
        in_i32(b),
        div_ok(a, b),
    ensures
        in_i32(a / b),
        in_i32(a % b),
{
    if b > 0 {
        assert(in_i32(a / b)) by (nonlinear_arith)
            requires
                b > 0,
                in_i32(a),
        ;
    } else if b == -1 {
        assert(a / b == -a) by (nonlinear_arith)
            requires
                b == -1,
        ;
    } else {
        assert(in_i32(a / b)) by (nonlinear_arith)
            requires
                b <= -2,
                in_i32(a),
        ;
    }
}

proof fn lemma_trunc_bounds(a: int, b: int)
    requires
        in_i32(a),
        in_i32(b),
        div_ok(a, b),
    ensures
        in_i32(trunc_div(a, b)),
        in_i32(trunc_rem(a, b)),
        abs(a) / abs(b) <= abs(a),
        abs(a) % abs(b) < abs(b),
{
    let (x, y) = (abs(a), abs(b));
    assert(0 <= x / y <= x) by (nonlinear_arith)
        requires
            x >= 0,
            y >= 1,
    ;
    assert(x / y == x || y >= 2) by (nonlinear_arith)
        requires
            x >= 0,
            y >= 1,
    ;
    assert(x / y <= x / 2 || y < 2) by (nonlinear_arith)
        requires
            x >= 0,
            y >= 1,
    ;
}

/// `a / b` rounded toward zero.
pub fn i32_div(a: i32, b: i32) -> (r: i32)
    requires
        div_ok(a as int, b as int),
    ensures
        r == trunc_div(a as int, b as int),
{
    proof {
        lemma_trunc_bounds(a as int, b as int);
    }
    let x: i64 = if a < 0 { -(a as i64) } else { a as i64 };
    let y: i64 = if b < 0 { -(b as i64) } else { b as i64 };
    let q: i64 = x / y;
    if (a < 0) != (b < 0) {
        (-q) as i32
    } else {
        q as i32
    }
}

/// `a % b` with the sign of `a`.
pub fn i32_rem(a: i32, b: i32) -> (r: i32)
    requires
        div_ok(a as int, b as int),
    ensures
        r == trunc_rem(a as int, b as int),
{
    proof {
        lemma_trunc_bounds(a as int, b as int);
    }
    let x: i64 = if a < 0 { -(a as i64) } else { a as i64 };
    let y: i64 = if b < 0 { -(b as i64) } else { b as i64 };
    let m: i64 = x % y;
    if a < 0 {
        (-m) as i32
    } else {
        m as i32
    }
}

/// Euclidean quotient of `a` by `b`.
pub fn i32_div_euclid(a: i32, b: i32) -> (r: i32)
    requires
        div_ok(a as int, b as int),
    ensures
        r == a as int / b as int,
{
    proof {
        lemma_euclid_bounds(a as int, b as int);
    }
    a.checked_div_euclid(b).unwrap()
}

/// Least nonnegative remainder of `a` modulo `b`.
pub fn i32_rem_euclid(a: i32, b: i32) -> (r: i32)
    requires
        div_ok(a as int, b as int),
    ensures
        r == a as int % b as int,
{
    proof {
        lemma_euclid_bounds(a as int, b as int);
    }
    a.checked_rem_euclid(b).unwrap()
}

/// Arithmetic shift right by one: the floor of the half.
pub fn i32_half(a: i32) -> (r: i32)
    ensures
        r == a as int / 2,
{
    let r = a >> 1u32;
    assert(r + r == a || r + r + 1 == a) by (bit_vector)
        requires
            r == a >> 1u32,
    ;
    r
}

/// A 2-dimensional vector of `i32` coordinates.
#[derive(Clone, Copy, Debug, Default, PartialEq, Eq, Hash)]
pub struct IVec2 {
    pub x: i32,
    pub y: i32,
}

/// Creates a 2-dimensional vector.
pub fn ivec2(x: i32, y: i32) -> (r: IVec2)
    ensures
        r == (IVec2 { x, y }),
{
    IVec2 { x, y }
}

impl IVec2 {
    /// Creates a 2-dimensional vector.
    pub fn new(x: i32, y: i32) -> (r: IVec2)
        ensures
            r == (IVec2 { x, y }),
    {
        IVec2 { x, y }
    }

    /// A vector with both coordinates set to `v`.
    pub fn splat(v: i32) -> (r: IVec2)
        ensures
            r == (IVec2 { x: v, y: v }),
    {
        IVec2 { x: v, y: v }
    }

    /// The vector `(0, 0)`.
    pub fn zero() -> (r: IVec2)
        ensures
            r == (IVec2 { x: 0, y: 0 }),
    {
        IVec2 { x: 0, y: 0 }
    }

    /// The vector `(1, 1)`.
    pub fn one() -> (r: IVec2)
        ensures
            r == (IVec2 { x: 1, y: 1 }),
    {
        IVec2 { x: 1, y: 1 }
    }

    /// The vector with the given integer coordinates, when both are `i32`.
    pub open spec fn from_ints(x: int, y: int) -> IVec2 {
        IVec2 { x: x as i32, y: y as i32 }
    }

    /// Whether the sum fits in `i32`.
    pub open spec fn add_ok(self, rhs: IVec2) -> bool {
        in_i32(self.x + rhs.x) && in_i32(self.y + rhs.y)
    }

    /// Whether the difference fits in `i32`.
    pub open spec fn sub_ok(self, rhs: IVec2) -> bool {
        in_i32(self.x - rhs.x) && in_i32(self.y - rhs.y)
    }

    /// Whether the coordinate-wise product fits in `i32`.
    pub open spec fn mul_ok(self, rhs: IVec2) -> bool {
        in_i32(self.x * rhs.x) && in_i32(self.y * rhs.y)
    }

    /// Whether the coordinate-wise divisions are defined.
    pub open spec fn div_ok(self, rhs: IVec2) -> bool {
        div_ok(self.x as int, rhs.x as int) && div_ok(self.y as int, rhs.y as int)
    }

    pub open spec fn spec_add(self, rhs: IVec2) -> IVec2 {
        IVec2::from_ints(self.x + rhs.x, self.y + rhs.y)
    }

    pub open spec fn spec_sub(self, rhs: IVec2) -> IVec2 {
        IVec2::from_ints(self.x - rhs.x, self.y - rhs.y)
    }

    pub open spec fn spec_mul(self, rhs: IVec2) -> IVec2 {
        IVec2::from_ints(self.x * rhs.x, self.y * rhs.y)
    }

    pub open spec fn spec_div(self, rhs: IVec2) -> IVec2 {
        IVec2::from_ints(trunc_div(self.x as int, rhs.x as int), trunc_div(self.y as int, rhs.y as int))
    }

    pub open spec fn spec_rem(self, rhs: IVec2) -> IVec2 {
        IVec2::from_ints(trunc_rem(self.x as int, rhs.x as int), trunc_rem(self.y as int, rhs.y as int))
    }

    pub open spec fn spec_div_euclid(self, rhs: IVec2) -> IVec2 {
        IVec2::from_ints(self.x as int / rhs.x as int, self.y as int / rhs.y as int)
    }

    pub open spec fn spec_rem_euclid(self, rhs: IVec2) -> IVec2 {
        IVec2::from_ints(self.x as int % rhs.x as int, self.y as int % rhs.y as int)
    }

    /// Coordinate-wise sum.
    pub fn add(self, rhs: IVec2) -> (r: IVec2)
        requires
            self.add_ok(rhs),
        ensures
            r.x == self.x + rhs.x,
            r.y == self.y + rhs.y,
    {
        IVec2 { x: self.x + rhs.x, y: self.y + rhs.y }
    }

    /// Coordinate-wise difference.
    pub fn sub(self, rhs: IVec2) -> (r: IVec2)
        requires
            self.sub_ok(rhs),
        ensures
            r.x == self.x - rhs.x,
            r.y == self.y - rhs.y,
    {
        IVec2 { x: self.x - rhs.x, y: self.y - rhs.y }
    }

    /// Coordinate-wise product.
    pub fn mul(self, rhs: IVec2) -> (r: IVec2)
        requires
            self.mul_ok(rhs),
        ensures
            r.x == self.x * rhs.x,
            r.y == self.y * rhs.y,
    {
        IVec2 { x: self.x * rhs.x, y: self.y * rhs.y }
    }

    /// Coordinate-wise quotient rounded toward zero.
    pub fn div(self, rhs: IVec2) -> (r: IVec2)
        requires
            self.div_ok(rhs),
        ensures
            r.x == trunc_div(self.x as int, rhs.x as int),
            r.y == trunc_div(self.y as int, rhs.y as int),
    {
        IVec2 { x: i32_div(self.x, rhs.x), y: i32_div(self.y, rhs.y) }
    }

    /// Coordinate-wise remainder with the sign of `self`.
    pub fn rem(self, rhs: IVec2) -> (r: IVec2)
        requires
            self.div_ok(rhs),
        ensures
            r.x == trunc_rem(self.x as int, rhs.x as int),
            r.y == trunc_rem(self.y as int, rhs.y as int),
    {
        IVec2 { x: i32_rem(self.x, rhs.x), y: i32_rem(self.y, rhs.y) }
    }

    /// Coordinate-wise Euclidean quotient.
    pub fn div_euclid(self, rhs: IVec2) -> (r: IVec2)
        requires
            self.div_ok(rhs),
        ensures
            r.x == self.x as int / rhs.x as int,
            r.y == self.y as int / rhs.y as int,
    {
        IVec2 { x: i32_div_euclid(self.x, rhs.x), y: i32_div_euclid(self.y, rhs.y) }
    }

    /// Coordinate-wise least nonnegative remainder.
    pub fn rem_euclid(self, rhs: IVec2) -> (r: IVec2)
        requires
            self.div_ok(rhs),
        ensures
            r.x == self.x as int % rhs.x as int,
            r.y == self.y as int % rhs.y as int,
    {
        IVec2 { x: i32_rem_euclid(self.x, rhs.x), y: i32_rem_euclid(self.y, rhs.y) }
    }

    /// Coordinate-wise negation.
    pub fn neg(self) -> (r: IVec2)
        requires
            self.x != i32::MIN,
            self.y != i32::MIN,
        ensures
            r.x == -self.x,
            r.y == -self.y,
    {
        IVec2 { x: -self.x, y: -self.y }
    }

    /// Coordinate-wise arithmetic shift right by one (the floor of the half).
    pub fn half(self) -> (r: IVec2)
        ensures
            r.x == self.x as int / 2,
            r.y == self.y as int / 2,
    {
        IVec2 { x: i32_half(self.x), y: i32_half(self.y) }
    }
}

/// A 3-dimensional vector of `i32` coordinates.
#[derive(Clone, Copy, Debug, Default, PartialEq, Eq, Hash)]
pub struct IVec3 {
    pub x: i32,
    pub y: i32,
    pub z: i32,
}

/// Creates a 3-dimensional vector.
pub fn ivec3(x: i32, y: i32, z: i32) -> (r: IVec3)
    ensures
        r == (IVec3 { x, y, z }),
{
    IVec3 { x, y, z }
}

impl IVec3 {
    /// Creates a 3-dimensional vector.
    pub fn new(x: i32, y: i32, z: i32) -> (r: IVec3)
        ensures
            r == (IVec3 { x, y, z }),
    {
        IVec3 { x, y, z }
    }

    /// A vector with all coordinates set to `v`.
    pub fn splat(v: i32) -> (r: IVec3)
        ensures
            r == (IVec3 { x: v, y: v, z: v }),
    {
        IVec3 { x: v, y: v, z: v }
    }

    pub open spec fn add_ok(self, rhs: IVec3) -> bool {
        in_i32(self.x + rhs.x) && in_i32(self.y + rhs.y) && in_i32(self.z + rhs.z)
    }

    pub open spec fn sub_ok(self, rhs: IVec3) -> bool {
        in_i32(self.x - rhs.x) && in_i32(self.y - rhs.y) && in_i32(self.z - rhs.z)
    }

    pub open spec fn mul_ok(self, rhs: IVec3) -> bool {
        in_i32(self.x * rhs.x) && in_i32(self.y * rhs.y) && in_i32(self.z * rhs.z)
    }

    pub open spec fn div_ok(self, rhs: IVec3) -> bool {
        div_ok(self.x as int, rhs.x as int) && div_ok(self.y as int, rhs.y as int) && div_ok(
            self.z as int,
            rhs.z as int,
        )
    }

    /// Coordinate-wise sum.
    pub fn add(self, rhs: IVec3) -> (r: IVec3)
        requires
            self.add_ok(rhs),
        ensures
            r.x == self.x + rhs.x,
            r.y == self.y + rhs.y,
            r.z == self.z + rhs.z,
    {
        IVec3 { x: self.x + rhs.x, y: self.y + rhs.y, z: self.z + rhs.z }
    }

    /// Coordinate-wise difference.
    pub fn sub(self, rhs: IVec3) -> (r: IVec3)
        requires
            self.sub_ok(rhs),
        ensures
            r.x == self.x - rhs.x,
            r.y == self.y - rhs.y,
            r.z == self.z - rhs.z,
    {
        IVec3 { x: self.x - rhs.x, y: self.y - rhs.y, z: self.z - rhs.z }
    }

    /// Coordinate-wise product.
    pub fn mul(self, rhs: IVec3) -> (r: IVec3)
        requires
            self.mul_ok(rhs),
        ensures
            r.x == self.x * rhs.x,
            r.y == self.y * rhs.y,
            r.z == self.z * rhs.z,
    {
        IVec3 { x: self.x * rhs.x, y: self.y * rhs.y, z: self.z * rhs.z }
    }

    /// Coordinate-wise quotient rounded toward zero.
    pub fn div(self, rhs: IVec3) -> (r: IVec3)
        requires
            self.div_ok(rhs),
        ensures
            r.x == trunc_div(self.x as int, rhs.x as int),
            r.y == trunc_div(self.y as int, rhs.y as int),
            r.z == trunc_div(self.z as int, rhs.z as int),
    {
        IVec3 { x: i32_div(self.x, rhs.x), y: i32_div(self.y, rhs.y), z: i32_div(self.z, rhs.z) }
    }

    /// Coordinate-wise negation.
    pub fn neg(self) -> (r: IVec3)
        requires
            self.x != i32::MIN,
            self.y != i32::MIN,
            self.z != i32::MIN,
        ensures
            r.x == -self.x,
            r.y == -self.y,
            r.z == -self.z,
    {
        IVec3 { x: -self.x, y: -self.y, z: -self.z }
    }
}

} // verus!
