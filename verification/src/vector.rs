//! Vectors of three numbers.
use crate::binary64::Binary64;
use crate::literal::{num, D0};
use vstd::prelude::*;

verus! {

/// A vector of three numbers.
#[derive(Clone, Copy, Debug, PartialEq, Eq, Structural)]
pub struct Vec3 {
    pub x: Binary64,
    pub y: Binary64,
    pub z: Binary64,
}

impl Vec3 {
    pub open spec fn zero() -> Vec3 {
        Vec3 { x: num(D0), y: num(D0), z: num(D0) }
    }

    /// The sum, axis by axis.
    pub open spec fn sum(self, other: Vec3) -> Vec3 {
        Vec3 { x: self.x.sum(other.x), y: self.y.sum(other.y), z: self.z.sum(other.z) }
    }

    /// The difference, axis by axis.
    pub open spec fn difference(self, other: Vec3) -> Vec3 {
        Vec3 {
            x: self.x.difference(other.x),
            y: self.y.difference(other.y),
            z: self.z.difference(other.z),
        }
    }

    /// Every axis times the same number.
    pub open spec fn scaled(self, k: Binary64) -> Vec3 {
        Vec3 { x: self.x.product(k), y: self.y.product(k), z: self.z.product(k) }
    }

    /// Every axis divided by the same number.
    pub open spec fn divided(self, k: Binary64) -> Vec3 {
        Vec3 { x: self.x.quotient(k), y: self.y.quotient(k), z: self.z.quotient(k) }
    }

    /// The sum of the products, axis by axis.
    pub open spec fn inner(self, other: Vec3) -> Binary64 {
        self.x.product(other.x).sum(self.y.product(other.y)).sum(self.z.product(other.z))
    }

    /// The vector at right angles to both.
    pub open spec fn outer(self, other: Vec3) -> Vec3 {
        Vec3 {
            x: self.y.product(other.z).difference(self.z.product(other.y)),
            y: self.z.product(other.x).difference(self.x.product(other.z)),
            z: self.x.product(other.y).difference(self.y.product(other.x)),
        }
    }

    /// The length.
    pub open spec fn length(self) -> Binary64 {
        self.inner(self).root()
    }

    pub fn new(x: Binary64, y: Binary64, z: Binary64) -> (r: Vec3)
        ensures
            r == (Vec3 { x, y, z }),
    {
        Vec3 { x, y, z }
    }

    pub fn zeros() -> (r: Vec3)
        ensures
            r == Vec3::zero(),
    {
        Vec3 { x: num(D0), y: num(D0), z: num(D0) }
    }

    pub fn plus(self, other: Vec3) -> (r: Vec3)
        ensures
            r == self.sum(other),
    {
        Vec3 { x: self.x.plus(other.x), y: self.y.plus(other.y), z: self.z.plus(other.z) }
    }

    pub fn minus(self, other: Vec3) -> (r: Vec3)
        ensures
            r == self.difference(other),
    {
        Vec3 { x: self.x.minus(other.x), y: self.y.minus(other.y), z: self.z.minus(other.z) }
    }

    pub fn times(self, k: Binary64) -> (r: Vec3)
        ensures
            r == self.scaled(k),
    {
        Vec3 { x: self.x.times(k), y: self.y.times(k), z: self.z.times(k) }
    }

    pub fn over(self, k: Binary64) -> (r: Vec3)
        ensures
            r == self.divided(k),
    {
        Vec3 { x: self.x.over(k), y: self.y.over(k), z: self.z.over(k) }
    }

    pub fn dot(self, other: Vec3) -> (r: Binary64)
        ensures
            r == self.inner(other),
    {
        self.x.times(other.x).plus(self.y.times(other.y)).plus(self.z.times(other.z))
    }

    pub fn cross(self, other: Vec3) -> (r: Vec3)
        ensures
            r == self.outer(other),
    {
        Vec3 {
            x: self.y.times(other.z).minus(self.z.times(other.y)),
            y: self.z.times(other.x).minus(self.x.times(other.z)),
            z: self.x.times(other.y).minus(self.y.times(other.x)),
        }
    }

    pub fn norm(self) -> (r: Binary64)
        ensures
            r == self.length(),
    {
        self.dot(self).sqrt()
    }
}

/// A vector of zeros, whatever their signs.
pub open spec fn vanishes(v: Vec3) -> bool {
    v.x.zero() && v.y.zero() && v.z.zero()
}

/// A vector of finite numbers.
pub open spec fn is_finite(v: Vec3) -> bool {
    v.x.finite() && v.y.finite() && v.z.finite()
}

/// A finite vector times zero vanishes.
pub proof fn scaling_by_zero_leaves_rest(v: Vec3, f: Binary64)
    requires
        is_finite(v),
        f.zero(),
    ensures
        vanishes(v.scaled(f)),
{
    crate::rounding::zero_absorbs(f, v.x);
    crate::rounding::zero_absorbs(f, v.y);
    crate::rounding::zero_absorbs(f, v.z);
}

/// The sum of vectors that vanish vanishes.
pub proof fn rests_add_to_rest(a: Vec3, b: Vec3)
    requires
        vanishes(a),
        vanishes(b),
    ensures
        vanishes(a.sum(b)),
{
    crate::rounding::zeros_add_to_zero(a.x, b.x);
    crate::rounding::zeros_add_to_zero(a.y, b.y);
    crate::rounding::zeros_add_to_zero(a.z, b.z);
}

/// A vector that vanishes stays so at any finite factor.
pub proof fn rest_scales_to_rest(v: Vec3, f: Binary64)
    requires
        vanishes(v),
        f.finite(),
    ensures
        vanishes(v.scaled(f)),
{
    crate::rounding::zero_absorbs(v.x, f);
    crate::rounding::zero_absorbs(v.y, f);
    crate::rounding::zero_absorbs(v.z, f);
}

/// A vector that vanishes has no moment about any finite point.
pub proof fn rest_turns_nothing(c: Vec3, v: Vec3)
    requires
        is_finite(c),
        vanishes(v),
    ensures
        vanishes(c.outer(v)),
{
    crate::rounding::zero_absorbs(v.x, c.y);
    crate::rounding::zero_absorbs(v.x, c.z);
    crate::rounding::zero_absorbs(v.y, c.x);
    crate::rounding::zero_absorbs(v.y, c.z);
    crate::rounding::zero_absorbs(v.z, c.x);
    crate::rounding::zero_absorbs(v.z, c.y);
    crate::rounding::zeros_add_to_zero(c.y.product(v.z), c.z.product(v.y));
    crate::rounding::zeros_add_to_zero(c.z.product(v.x), c.x.product(v.z));
    crate::rounding::zeros_add_to_zero(c.x.product(v.y), c.y.product(v.x));
}

/// The three axes turn into each other in their order: what lies along one axis
/// turns what lies along the next into the third, and back with the other sign.
pub proof fn axes_follow_each_other(a: Vec3, b: Vec3)
    requires
        is_finite(a),
        is_finite(b),
    ensures
        ({
            let c = a.outer(b);
            &&& a.y.zero() || b.x.zero() ==> crate::rounding::like_product(c.z, a.x, b.y)
            &&& a.z.zero() || b.y.zero() ==> crate::rounding::like_product(c.x, a.y, b.z)
            &&& a.x.zero() || b.z.zero() ==> crate::rounding::like_product(c.y, a.z, b.x)
            &&& a.x.zero() || b.y.zero() ==> crate::rounding::like_product(
                c.z,
                a.y.negated(),
                b.x,
            )
            &&& a.y.zero() || b.z.zero() ==> crate::rounding::like_product(
                c.x,
                a.z.negated(),
                b.y,
            )
            &&& a.z.zero() || b.x.zero() ==> crate::rounding::like_product(
                c.y,
                a.x.negated(),
                b.z,
            )
        }),
{
    lemma_across(a.x, b.y, a.y, b.x);
    lemma_across(a.y, b.z, a.z, b.y);
    lemma_across(a.z, b.x, a.x, b.z);
}

/// The difference of two products of which one vanishes.
proof fn lemma_across(a: Binary64, b: Binary64, c: Binary64, d: Binary64)
    requires
        a.finite() && b.finite() && c.finite() && d.finite(),
    ensures
        c.zero() || d.zero() ==> crate::rounding::like_product(
            a.product(b).difference(c.product(d)),
            a,
            b,
        ),
        a.zero() || b.zero() ==> crate::rounding::like_product(
            a.product(b).difference(c.product(d)),
            c.negated(),
            d,
        ),
{
    let (p, q) = (a.product(b), c.product(d));
    crate::rounding::products_have_their_signs(a, b);
    crate::rounding::products_have_their_signs(c, d);
    if c.zero() || d.zero() {
        crate::rounding::zeros_keep_signs(p, q);
    }
    if a.zero() || b.zero() {
        crate::rounding::zeros_keep_signs(q.negated(), p);
    }
}

/// A vector and itself point the same way: their inner product is not negative.
pub proof fn vectors_point_their_own_way(v: Vec3)
    requires
        is_finite(v),
    ensures
        num(D0).not_above(v.inner(v)),
        vanishes(v) ==> v.inner(v).zero(),
{
    crate::rounding::squares_grow(v.x, v.x);
    crate::rounding::squares_grow(v.y, v.y);
    crate::rounding::squares_grow(v.z, v.z);
    let (p, q, r) = (v.x.product(v.x), v.y.product(v.y), v.z.product(v.z));
    crate::rounding::sums_keep_signs(p, q);
    crate::rounding::sums_keep_signs(p.sum(q), r);
    if vanishes(v) {
        crate::rounding::zeros_add_to_zero(p, q);
        crate::rounding::zeros_add_to_zero(p.sum(q), r);
    }
}

} // verus!
