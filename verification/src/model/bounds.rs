//! A 3-dimensional integer axis-aligned bounding box with inclusive bounds.
//!
//! The box covers the points `p` with `min <= p <= max` on every axis.

use vstd::prelude::*;

use vstd::arithmetic::div_mod::{
    lemma_div_denominator, lemma_fundamental_div_mod, lemma_fundamental_div_mod_converse,
};

use crate::vector::{div_ok, in_i32, trunc_div, IVec3};

verus! {

/// Creates a new box from two corners.
pub fn iaabb3(min: IVec3, max: IVec3) -> (r: IAabb3)
    ensures
        r == (IAabb3 { min, max }),
{
    IAabb3 { min, max }
}

/// A 3-dimensional axis-aligned bounding box, inclusive on both ends.
#[derive(Clone, Copy, Debug, Default, PartialEq, Eq, Hash)]
pub struct IAabb3 {
    pub min: IVec3,
    pub max: IVec3,
}

/// Whether `p` lies in the closed box `b`.
pub open spec fn box3_contains(b: IAabb3, p: IVec3) -> bool {
    &&& b.min.x <= p.x <= b.max.x
    &&& b.min.y <= p.y <= b.max.y
    &&& b.min.z <= p.z <= b.max.z
}

/// Whether the closed boxes `a` and `b` share a point (touching counts).
pub open spec fn boxes3_intersect(a: IAabb3, b: IAabb3) -> bool {
    &&& a.min.x <= b.max.x
    &&& a.min.y <= b.max.y
    &&& a.min.z <= b.max.z
    &&& b.min.x <= a.max.x
    &&& b.min.y <= a.max.y
    &&& b.min.z <= a.max.z
}

/// Number of integer values in `lo..=hi`.
pub open spec fn span(lo: int, hi: int) -> int {
    if hi < lo { 0 } else { hi - lo + 1 }
}

/// The `i`-th point visited by `iter`: `x` varies slowest, `z` fastest.
pub open spec fn box3_point(b: IAabb3, i: int) -> IVec3 {
    let dy = span(b.min.y as int, b.max.y as int);
    let dz = span(b.min.z as int, b.max.z as int);
    IVec3 {
        x: (b.min.x + i / (dy * dz)) as i32,
        y: (b.min.y + (i / dz) % dy) as i32,
        z: (b.min.z + i % dz) as i32,
    }
}

/// Number of points of the box.
pub open spec fn box3_count(b: IAabb3) -> int {
    span(b.min.x as int, b.max.x as int) * span(b.min.y as int, b.max.y as int) * span(
        b.min.z as int,
        b.max.z as int,
    )
}

/// The points of the box in the order that `iter` visits them.
pub open spec fn box3_points(b: IAabb3) -> Seq<IVec3> {
    Seq::new(box3_count(b) as nat, |i: int| box3_point(b, i))
}

/// Trait for testing whether a box meets another element.
pub trait Intersect<T>: Sized {
    /// Whether `self` meets `other`.
    spec fn meets(self, other: T) -> bool;

    /// Returns whether `self` meets `other`.
    fn intersect(self, other: T) -> (r: bool)
        ensures
            r == self.meets(other),
    ;
}

impl Intersect<IVec3> for IAabb3 {
    open spec fn meets(self, other: IVec3) -> bool {
        box3_contains(self, other)
    }

    fn intersect(self, other: IVec3) -> (r: bool) {
        self.min.x <= other.x && other.x <= self.max.x && self.min.y <= other.y && other.y
            <= self.max.y && self.min.z <= other.z && other.z <= self.max.z
    }
}

impl Intersect<IAabb3> for IAabb3 {
    open spec fn meets(self, other: IAabb3) -> bool {
        boxes3_intersect(self, other)
    }

    fn intersect(self, other: IAabb3) -> (r: bool) {
        self.min.x <= other.max.x && self.min.y <= other.max.y && self.min.z <= other.max.z
            && other.min.x <= self.max.x && other.min.y <= self.max.y && other.min.z <= self.max.z
    }
}

proof fn lemma_index_decompose(a: int, b: int, c: int, dy: int, dz: int)
    requires
        0 <= a,
        0 <= b < dy,
        0 <= c < dz,
    ensures
        (a * dy * dz + b * dz + c) / (dy * dz) == a,
        ((a * dy * dz + b * dz + c) / dz) % dy == b,
        (a * dy * dz + b * dz + c) % dz == c,
{
    let n = a * dy * dz + b * dz + c;
    assert(n == (a * dy + b) * dz + c) by (nonlinear_arith)
        requires
            n == a * dy * dz + b * dz + c,
    ;
    lemma_fundamental_div_mod_converse(n, dz, a * dy + b, c);
    lemma_fundamental_div_mod_converse(a * dy + b, dy, a, b);
    assert(b * dz + c < dy * dz) by (nonlinear_arith)
        requires
            0 <= b < dy,
            0 <= c < dz,
    ;
    assert(0 <= b * dz + c) by (nonlinear_arith)
        requires
            0 <= b,
            0 <= c,
            dz > 0,
    ;
    assert(n == a * (dy * dz) + (b * dz + c)) by (nonlinear_arith)
        requires
            n == a * dy * dz + b * dz + c,
    ;
    lemma_fundamental_div_mod_converse(n, dy * dz, a, b * dz + c);
}

proof fn lemma_index_recompose(i: int, dy: int, dz: int)
    requires
        0 <= i,
        dy > 0,
        dz > 0,
    ensures
        i == (i / (dy * dz)) * dy * dz + ((i / dz) % dy) * dz + i % dz,
{
    lemma_fundamental_div_mod(i, dz);
    lemma_fundamental_div_mod(i / dz, dy);
    lemma_div_denominator(i, dz, dy);
    let (q, r, q2, r2) = (i / dz, i % dz, (i / dz) / dy, (i / dz) % dy);
    assert(i == q2 * dy * dz + r2 * dz + r) by (nonlinear_arith)
        requires
            i == dz * q + r,
            q == dy * q2 + r2,
    ;
    assert(dz * dy == dy * dz) by (nonlinear_arith);
}

proof fn lemma_point_in_box(b: IAabb3, i: int)
    requires
        0 <= i < box3_count(b),
    ensures
        box3_contains(b, box3_point(b, i)),
        box3_point(b, i).x == b.min.x + i / (span(b.min.y as int, b.max.y as int) * span(
            b.min.z as int,
            b.max.z as int,
        )),
        box3_point(b, i).y == b.min.y + (i / span(b.min.z as int, b.max.z as int)) % span(
            b.min.y as int,
            b.max.y as int,
        ),
        box3_point(b, i).z == b.min.z + i % span(b.min.z as int, b.max.z as int),
{
    let dx = span(b.min.x as int, b.max.x as int);
    let dy = span(b.min.y as int, b.max.y as int);
    let dz = span(b.min.z as int, b.max.z as int);
    assert(dx > 0 && dy > 0 && dz > 0) by (nonlinear_arith)
        requires
            0 <= i < dx * dy * dz,
            dx >= 0,
            dy >= 0,
            dz >= 0,
    ;
    let m = dy * dz;
    assert(m > 0 && i < dx * m) by (nonlinear_arith)
        requires
            0 <= i < dx * dy * dz,
            dy > 0,
            dz > 0,
            m == dy * dz,
    ;
    assert(0 <= i / m < dx) by (nonlinear_arith)
        requires
            0 <= i < dx * m,
            m > 0,
    ;
    assert(0 <= (i / dz) % dy < dy) by (nonlinear_arith)
        requires
            i >= 0,
            dy > 0,
            dz > 0,
    ;
    assert(0 <= i % dz < dz) by (nonlinear_arith)
        requires
            dz > 0,
    ;
}

impl IAabb3 {
    /// Creates a new box from two corners.
    pub fn new(min: IVec3, max: IVec3) -> (r: IAabb3)
        ensures
            r == (IAabb3 { min, max }),
    {
        IAabb3 { min, max }
    }

    /// Returns `min - max` coordinate-wise.
    pub fn volume(&self) -> (r: IVec3)
        requires
            self.min.sub_ok(self.max),
        ensures
            r.x == self.min.x - self.max.x,
            r.y == self.min.y - self.max.y,
            r.z == self.min.z - self.max.z,
    {
        self.min.sub(self.max)
    }

    /// Returns whether `point` lies in the box, borders included.
    pub fn contains(&self, point: IVec3) -> (r: bool)
        ensures
            r == box3_contains(*self, point),
    {
        self.min.x <= point.x && point.x <= self.max.x && self.min.y <= point.y && point.y
            <= self.max.y && self.min.z <= point.z && point.z <= self.max.z
    }

    /// Returns whether each box starts no later than the other ends, on every
    /// axis (for boxes with `min <= max`, whether they share a point).
    pub fn intersects(&self, other: IAabb3) -> (r: bool)
        ensures
            r == boxes3_intersect(*self, other),
    {
        self.min.x <= other.max.x && self.min.y <= other.max.y && self.min.z <= other.max.z
            && other.min.x <= self.max.x && other.min.y <= self.max.y && other.min.z <= self.max.z
    }

    /// All the points of the box: `x` varies slowest, `z` fastest.
    pub fn iter(&self) -> (r: Vec<IVec3>)
        ensures
            r@ == box3_points(*self),
            forall|p: IVec3| r@.contains(p) <==> box3_contains(*self, p),
            r@.no_duplicates(),
            r@.len() == box3_count(*self),
    {
        let b = *self;
        let ghost dy = span(b.min.y as int, b.max.y as int);
        let ghost dz = span(b.min.z as int, b.max.z as int);
        let ghost dx = span(b.min.x as int, b.max.x as int);
        let mut out: Vec<IVec3> = Vec::new();
        let mut x: i64 = b.min.x as i64;
        assert((x - b.min.x) * dy * dz == 0) by (nonlinear_arith)
            requires
                x == b.min.x,
        ;
        while x <= b.max.x as i64
            invariant
                b == *self,
                dy == span(b.min.y as int, b.max.y as int),
                dz == span(b.min.z as int, b.max.z as int),
                dx == span(b.min.x as int, b.max.x as int),
                b.min.x <= x,
                x <= b.max.x + 1 || x == b.min.x,
                dx == 0 ==> x == b.min.x,
                dx > 0 ==> x <= b.max.x + 1,
                out@.len() == (x - b.min.x) * dy * dz,
                forall|i: int| 0 <= i < out@.len() ==> out@[i] == box3_point(b, i),
            decreases b.max.x + 1 - x,
        {
            let mut y: i64 = b.min.y as i64;
            assert((y - b.min.y) * dz == 0) by (nonlinear_arith)
                requires
                    y == b.min.y,
            ;
            assert(out@.len() == (x - b.min.x) * dy * dz + (y - b.min.y) * dz);
            while y <= b.max.y as i64
                invariant
                    b == *self,
                    dy == span(b.min.y as int, b.max.y as int),
                    dz == span(b.min.z as int, b.max.z as int),
                    b.min.x <= x <= b.max.x,
                    b.min.y <= y,
                    dy == 0 ==> y == b.min.y,
                    dy > 0 ==> y <= b.max.y + 1,
                    out@.len() == (x - b.min.x) * dy * dz + (y - b.min.y) * dz,
                    forall|i: int| 0 <= i < out@.len() ==> out@[i] == box3_point(b, i),
                decreases b.max.y + 1 - y,
            {
                let mut z: i64 = b.min.z as i64;
                assert(out@.len() == (x - b.min.x) * dy * dz + (y - b.min.y) * dz + (z
                    - b.min.z));
                while z <= b.max.z as i64
                    invariant
                        b == *self,
                        dy == span(b.min.y as int, b.max.y as int),
                        dz == span(b.min.z as int, b.max.z as int),
                        b.min.x <= x <= b.max.x,
                        b.min.y <= y <= b.max.y,
                        b.min.z <= z,
                        dz == 0 ==> z == b.min.z,
                        dz > 0 ==> z <= b.max.z + 1,
                        out@.len() == (x - b.min.x) * dy * dz + (y - b.min.y) * dz + (z
                            - b.min.z),
                        forall|i: int| 0 <= i < out@.len() ==> out@[i] == box3_point(b, i),
                    decreases b.max.z + 1 - z,
                {
                    proof {
                        lemma_index_decompose(
                            x - b.min.x,
                            y - b.min.y,
                            z - b.min.z,
                            dy,
                            dz,
                        );
                    }
                    out.push(IVec3 { x: x as i32, y: y as i32, z: z as i32 });
                    z = z + 1;
                }
                assert(z - b.min.z == dz);
                assert(out@.len() == (x - b.min.x) * dy * dz + (y + 1 - b.min.y) * dz)
                    by (nonlinear_arith)
                    requires
                        out@.len() == (x - b.min.x) * dy * dz + (y - b.min.y) * dz + dz,
                ;
                y = y + 1;
            }
            assert(y - b.min.y == dy);
            assert(out@.len() == (x + 1 - b.min.x) * dy * dz) by (nonlinear_arith)
                requires
                    out@.len() == (x - b.min.x) * dy * dz + dy * dz,
            ;
            x = x + 1;
        }
        proof {
            assert(out@.len() == box3_count(b)) by (nonlinear_arith)
                requires
                    out@.len() == (x - b.min.x) * dy * dz,
                    x - b.min.x == dx,
                    box3_count(b) == dx * dy * dz,
            ;
        }
        assert(out@ =~= box3_points(b));
        proof {
            lemma_iter_is_box(b);
        }
        out
    }

    /// Moves the box by `rhs` (`self + rhs`, also `rhs + self`).
    pub fn add_ivec3(self, rhs: IVec3) -> (r: IAabb3)
        requires
            in_i32(self.min.x + rhs.x),
            in_i32(self.min.y + rhs.y),
            in_i32(self.min.z + rhs.z),
            in_i32(self.max.x + rhs.x),
            in_i32(self.max.y + rhs.y),
            in_i32(self.max.z + rhs.z),
        ensures
            r.min.x == self.min.x + rhs.x,
            r.min.y == self.min.y + rhs.y,
            r.min.z == self.min.z + rhs.z,
            r.max.x == self.max.x + rhs.x,
            r.max.y == self.max.y + rhs.y,
            r.max.z == self.max.z + rhs.z,
    {
        IAabb3 { min: self.min.add(rhs), max: self.max.add(rhs) }
    }

    /// Subtracts `rhs` from every coordinate (`self - rhs`).
    pub fn sub_i32(self, rhs: i32) -> (r: IAabb3)
        requires
            in_i32(self.min.x - rhs),
            in_i32(self.min.y - rhs),
            in_i32(self.min.z - rhs),
            in_i32(self.max.x - rhs),
            in_i32(self.max.y - rhs),
            in_i32(self.max.z - rhs),
        ensures
            r.min.x == self.min.x - rhs,
            r.min.y == self.min.y - rhs,
            r.min.z == self.min.z - rhs,
            r.max.x == self.max.x - rhs,
            r.max.y == self.max.y - rhs,
            r.max.z == self.max.z - rhs,
    {
        IAabb3 { min: self.min.sub(IVec3::splat(rhs)), max: self.max.sub(IVec3::splat(rhs)) }
    }

    /// Moves the box by `-rhs` (`self -= rhs`).
    pub fn sub_ivec3(self, rhs: IVec3) -> (r: IAabb3)
        requires
            in_i32(self.min.x - rhs.x),
            in_i32(self.min.y - rhs.y),
            in_i32(self.min.z - rhs.z),
            in_i32(self.max.x - rhs.x),
            in_i32(self.max.y - rhs.y),
            in_i32(self.max.z - rhs.z),
        ensures
            r.min.x == self.min.x - rhs.x,
            r.min.y == self.min.y - rhs.y,
            r.min.z == self.min.z - rhs.z,
            r.max.x == self.max.x - rhs.x,
            r.max.y == self.max.y - rhs.y,
            r.max.z == self.max.z - rhs.z,
    {
        IAabb3 { min: self.min.sub(rhs), max: self.max.sub(rhs) }
    }

    /// Reflects the corners around `lhs` (`lhs - self`).
    pub fn rsub_ivec3(self, lhs: IVec3) -> (r: IAabb3)
        requires
            in_i32(lhs.x - self.min.x),
            in_i32(lhs.y - self.min.y),
            in_i32(lhs.z - self.min.z),
            in_i32(lhs.x - self.max.x),
            in_i32(lhs.y - self.max.y),
            in_i32(lhs.z - self.max.z),
        ensures
            r.min.x == lhs.x - self.min.x,
            r.min.y == lhs.y - self.min.y,
            r.min.z == lhs.z - self.min.z,
            r.max.x == lhs.x - self.max.x,
            r.max.y == lhs.y - self.max.y,
            r.max.z == lhs.z - self.max.z,
    {
        IAabb3 { min: lhs.sub(self.min), max: lhs.sub(self.max) }
    }

    /// Scales the corners coordinate-wise (`self * rhs`, also `rhs * self`).
    pub fn mul_ivec3(self, rhs: IVec3) -> (r: IAabb3)
        requires
            in_i32(self.min.x * rhs.x),
            in_i32(self.min.y * rhs.y),
            in_i32(self.min.z * rhs.z),
            in_i32(self.max.x * rhs.x),
            in_i32(self.max.y * rhs.y),
            in_i32(self.max.z * rhs.z),
        ensures
            r.min.x == self.min.x * rhs.x,
            r.min.y == self.min.y * rhs.y,
            r.min.z == self.min.z * rhs.z,
            r.max.x == self.max.x * rhs.x,
            r.max.y == self.max.y * rhs.y,
            r.max.z == self.max.z * rhs.z,
    {
        IAabb3 { min: self.min.mul(rhs), max: self.max.mul(rhs) }
    }

    /// Scales the corners (`self * rhs`, also `rhs * self`).
    pub fn mul_i32(self, rhs: i32) -> (r: IAabb3)
        requires
            in_i32(self.min.x * rhs),
            in_i32(self.min.y * rhs),
            in_i32(self.min.z * rhs),
            in_i32(self.max.x * rhs),
            in_i32(self.max.y * rhs),
            in_i32(self.max.z * rhs),
        ensures
            r.min.x == self.min.x * rhs,
            r.min.y == self.min.y * rhs,
            r.min.z == self.min.z * rhs,
            r.max.x == self.max.x * rhs,
            r.max.y == self.max.y * rhs,
            r.max.z == self.max.z * rhs,
    {
        IAabb3 { min: self.min.mul(IVec3::splat(rhs)), max: self.max.mul(IVec3::splat(rhs)) }
    }

    /// Corner-wise quotient rounded toward zero (`self / rhs`).
    pub fn div_ivec3(self, rhs: IVec3) -> (r: IAabb3)
        requires
            div_ok(self.min.x as int, rhs.x as int),
            div_ok(self.min.y as int, rhs.y as int),
            div_ok(self.min.z as int, rhs.z as int),
            div_ok(self.max.x as int, rhs.x as int),
            div_ok(self.max.y as int, rhs.y as int),
            div_ok(self.max.z as int, rhs.z as int),
        ensures
            r.min.x == trunc_div(self.min.x as int, rhs.x as int),
            r.min.y == trunc_div(self.min.y as int, rhs.y as int),
            r.min.z == trunc_div(self.min.z as int, rhs.z as int),
            r.max.x == trunc_div(self.max.x as int, rhs.x as int),
            r.max.y == trunc_div(self.max.y as int, rhs.y as int),
            r.max.z == trunc_div(self.max.z as int, rhs.z as int),
    {
        IAabb3 { min: self.min.div(rhs), max: self.max.div(rhs) }
    }

    /// Corner-wise quotient rounded toward zero (`self / rhs`).
    pub fn div_i32(self, rhs: i32) -> (r: IAabb3)
        requires
            div_ok(self.min.x as int, rhs as int),
            div_ok(self.min.y as int, rhs as int),
            div_ok(self.min.z as int, rhs as int),
            div_ok(self.max.x as int, rhs as int),
            div_ok(self.max.y as int, rhs as int),
            div_ok(self.max.z as int, rhs as int),
        ensures
            r.min.x == trunc_div(self.min.x as int, rhs as int),
            r.min.y == trunc_div(self.min.y as int, rhs as int),
            r.min.z == trunc_div(self.min.z as int, rhs as int),
            r.max.x == trunc_div(self.max.x as int, rhs as int),
            r.max.y == trunc_div(self.max.y as int, rhs as int),
            r.max.z == trunc_div(self.max.z as int, rhs as int),
    {
        IAabb3 { min: self.min.div(IVec3::splat(rhs)), max: self.max.div(IVec3::splat(rhs)) }
    }

    /// Divides `lhs` by each corner, rounding toward zero (`lhs / self`).
    pub fn rdiv_ivec3(self, lhs: IVec3) -> (r: IAabb3)
        requires
            div_ok(lhs.x as int, self.min.x as int),
            div_ok(lhs.y as int, self.min.y as int),
            div_ok(lhs.z as int, self.min.z as int),
            div_ok(lhs.x as int, self.max.x as int),
            div_ok(lhs.y as int, self.max.y as int),
            div_ok(lhs.z as int, self.max.z as int),
        ensures
            r.min.x == trunc_div(lhs.x as int, self.min.x as int),
            r.min.y == trunc_div(lhs.y as int, self.min.y as int),
            r.min.z == trunc_div(lhs.z as int, self.min.z as int),
            r.max.x == trunc_div(lhs.x as int, self.max.x as int),
            r.max.y == trunc_div(lhs.y as int, self.max.y as int),
            r.max.z == trunc_div(lhs.z as int, self.max.z as int),
    {
        IAabb3 { min: lhs.div(self.min), max: lhs.div(self.max) }
    }

    /// Divides `lhs` by each corner, rounding toward zero (`lhs / self`).
    pub fn rdiv_i32(self, lhs: i32) -> (r: IAabb3)
        requires
            div_ok(lhs as int, self.min.x as int),
            div_ok(lhs as int, self.min.y as int),
            div_ok(lhs as int, self.min.z as int),
            div_ok(lhs as int, self.max.x as int),
            div_ok(lhs as int, self.max.y as int),
            div_ok(lhs as int, self.max.z as int),
        ensures
            r.min.x == trunc_div(lhs as int, self.min.x as int),
            r.min.y == trunc_div(lhs as int, self.min.y as int),
            r.min.z == trunc_div(lhs as int, self.min.z as int),
            r.max.x == trunc_div(lhs as int, self.max.x as int),
            r.max.y == trunc_div(lhs as int, self.max.y as int),
            r.max.z == trunc_div(lhs as int, self.max.z as int),
    {
        IAabb3 { min: IVec3::splat(lhs).div(self.min), max: IVec3::splat(lhs).div(self.max) }
    }

    /// Negates both corners.
    pub fn neg(self) -> (r: IAabb3)
        requires
            self.min.x != i32::MIN,
            self.min.y != i32::MIN,
            self.min.z != i32::MIN,
            self.max.x != i32::MIN,
            self.max.y != i32::MIN,
            self.max.z != i32::MIN,
        ensures
            r.min.x == -self.min.x,
            r.min.y == -self.min.y,
            r.min.z == -self.min.z,
            r.max.x == -self.max.x,
            r.max.y == -self.max.y,
            r.max.z == -self.max.z,
    {
        IAabb3 { min: self.min.neg(), max: self.max.neg() }
    }
}

/// Every point that `iter` visits lies in the box, every point of the box is
/// visited, and none twice.
pub proof fn lemma_iter_is_box(b: IAabb3)
    ensures
        forall|p: IVec3| box3_points(b).contains(p) <==> box3_contains(b, p),
        box3_points(b).no_duplicates(),
        box3_points(b).len() == box3_count(b),
{
    let dx = span(b.min.x as int, b.max.x as int);
    let dy = span(b.min.y as int, b.max.y as int);
    let dz = span(b.min.z as int, b.max.z as int);
    assert(box3_count(b) >= 0) by (nonlinear_arith)
        requires
            dx >= 0,
            dy >= 0,
            dz >= 0,
            box3_count(b) == dx * dy * dz,
    ;
    assert forall|p: IVec3| box3_points(b).contains(p) <==> box3_contains(b, p) by {
        if box3_points(b).contains(p) {
            let i = choose|i: int| 0 <= i < box3_points(b).len() && box3_points(b)[i] == p;
            lemma_point_in_box(b, i);
        }
        if box3_contains(b, p) {
            let (a, c, e) = (p.x - b.min.x, p.y - b.min.y, p.z - b.min.z);
            lemma_index_decompose(a, c, e, dy, dz);
            let i = a * dy * dz + c * dz + e;
            assert(0 <= i < dx * dy * dz) by (nonlinear_arith)
                requires
                    0 <= a < dx,
                    0 <= c < dy,
                    0 <= e < dz,
                    i == a * dy * dz + c * dz + e,
            ;
            assert(box3_points(b)[i] == p);
        }
    }
    assert forall|i: int, j: int|
        0 <= i < box3_points(b).len() && 0 <= j < box3_points(b).len() && i != j implies box3_points(
        b,
    )[i] != box3_points(b)[j] by {
        lemma_point_in_box(b, i);
        lemma_point_in_box(b, j);
        lemma_index_recompose(i, dy, dz);
        lemma_index_recompose(j, dy, dz);
    }
}

/// Whether `p` comes before `q` in lexicographic `(x, y, z)` order.
pub open spec fn lex_before3(p: IVec3, q: IVec3) -> bool {
    p.x < q.x || (p.x == q.x && (p.y < q.y || (p.y == q.y && p.z < q.z)))
}

proof fn lemma_digits_ordered(i: int, j: int, a: int, u: int, a2: int, u2: int, d: int)
    requires
        d > 0,
        0 <= u < d,
        0 <= u2 < d,
        i == a * d + u,
        j == a2 * d + u2,
        i < j,
    ensures
        a < a2 || (a == a2 && u < u2),
{
    if a > a2 {
        assert(a * d >= (a2 + 1) * d) by (nonlinear_arith)
            requires
                a >= a2 + 1,
                d > 0,
        ;
        assert((a2 + 1) * d == a2 * d + d) by (nonlinear_arith);
    }
}

/// `IAabb3::iter` visits the points in ascending lexicographic `(x, y, z)`
/// order: each point comes before every later one.
pub proof fn lemma_iter_in_lex_order(b: IAabb3, i: int, j: int)
    requires
        0 <= i < j < box3_count(b),
    ensures
        lex_before3(box3_points(b)[i], box3_points(b)[j]),
{
    let dy = span(b.min.y as int, b.max.y as int);
    let dz = span(b.min.z as int, b.max.z as int);
    lemma_point_in_box(b, i);
    lemma_point_in_box(b, j);
    assert(dy > 0 && dz > 0);
    lemma_index_recompose(i, dy, dz);
    lemma_index_recompose(j, dy, dz);
    let (a, bb, c) = (i / (dy * dz), (i / dz) % dy, i % dz);
    let (a2, bb2, c2) = (j / (dy * dz), (j / dz) % dy, j % dz);
    assert(0 <= bb < dy && 0 <= c < dz && 0 <= bb2 < dy && 0 <= c2 < dz);
    assert(0 <= bb * dz + c < dy * dz && 0 <= bb2 * dz + c2 < dy * dz) by (nonlinear_arith)
        requires
            0 <= bb < dy,
            0 <= c < dz,
            0 <= bb2 < dy,
            0 <= c2 < dz,
    ;
    assert(i == a * (dy * dz) + (bb * dz + c) && j == a2 * (dy * dz) + (bb2 * dz + c2)) by (nonlinear_arith)
        requires
            i == a * dy * dz + bb * dz + c,
            j == a2 * dy * dz + bb2 * dz + c2,
    ;
    lemma_digits_ordered(i, j, a, bb * dz + c, a2, bb2 * dz + c2, dy * dz);
    if a == a2 {
        lemma_digits_ordered(bb * dz + c, bb2 * dz + c2, bb, c, bb2, c2, dz);
    }
    assert(box3_points(b)[i] == box3_point(b, i));
    assert(box3_points(b)[j] == box3_point(b, j));
}

} // verus!
