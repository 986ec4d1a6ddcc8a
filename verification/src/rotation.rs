//! Rotations of vectors.
use crate::binary64::Binary64;
use crate::literal::{num, D0, D1, D2};
use crate::vector::Vec3;
use vstd::prelude::*;

verus! {

/// A rotation as a quaternion of unit length.
#[derive(Clone, Copy, Debug, PartialEq, Eq, Structural)]
pub struct Rotation {
    pub w: Binary64,
    pub i: Binary64,
    pub j: Binary64,
    pub k: Binary64,
}

impl Rotation {
    /// The quaternion scaled to unit length.
    pub open spec fn normalized(w: Binary64, i: Binary64, j: Binary64, k: Binary64) -> Rotation {
        let n = i.product(i).sum(k.product(k)).sum(j.product(j).sum(w.product(w))).root();
        Rotation { w: w.quotient(n), i: i.quotient(n), j: j.quotient(n), k: k.quotient(n) }
    }

    /// The rotation along a quaternion of any length other than zero.
    pub fn new_normalize(w: Binary64, i: Binary64, j: Binary64, k: Binary64) -> (r: Rotation)
        ensures
            r == Rotation::normalized(w, i, j, k),
    {
        let n: Binary64 = i.times(i).plus(k.times(k)).plus(j.times(j).plus(w.times(w))).sqrt();
        Rotation { w: w.over(n), i: i.over(n), j: j.over(n), k: k.over(n) }
    }

    /// The rotation back.
    pub open spec fn inverted(self) -> Rotation {
        Rotation { w: self.w, i: self.i.negated(), j: self.j.negated(), k: self.k.negated() }
    }

    /// The rotation back.
    pub fn inverse(self) -> (r: Rotation)
        ensures
            r == self.inverted(),
    {
        Rotation { w: self.w, i: self.i.neg(), j: self.j.neg(), k: self.k.neg() }
    }

    /// The imaginary part.
    pub open spec fn imaginary(self) -> Vec3 {
        Vec3 { x: self.i, y: self.j, z: self.k }
    }

    /// The imaginary part.
    pub fn axis(self) -> (r: Vec3)
        ensures
            r == self.imaginary(),
    {
        Vec3 { x: self.i, y: self.j, z: self.k }
    }

    /// The rotated vector.
    pub open spec fn rotated(self, v: Vec3) -> Vec3 {
        let t = self.imaginary().outer(v).scaled(num(D2));
        let turn = self.imaginary().outer(t);
        t.scaled(self.w).sum(turn).sum(v)
    }

    /// The rotated vector.
    pub fn transform_vector(self, v: Vec3) -> (r: Vec3)
        ensures
            r == self.rotated(v),
    {
        let t: Vec3 = self.axis().cross(v).times(num(D2));
        let turn: Vec3 = self.axis().cross(t);
        t.times(self.w).plus(turn).plus(v)
    }
}

/// Turning back twice turns nothing back.
pub proof fn inverses_undo_each_other(r: Rotation)
    ensures
        r.inverted().inverted() == r,
{
    double_negation(r.i);
    double_negation(r.j);
    double_negation(r.k);
}

/// Changing a sign twice changes nothing.
pub proof fn double_negation(x: Binary64)
    ensures
        x.negated().negated() == x,
{
}

/// A rotation leaves rest at rest.
pub proof fn rest_stays_at_rest(r: Rotation, v: Vec3)
    requires
        r.w.finite(),
        crate::vector::is_finite(r.imaginary()),
        crate::vector::vanishes(v),
    ensures
        crate::vector::vanishes(r.rotated(v)),
{
    let o = r.imaginary().outer(v);
    let t = o.scaled(num(D2));
    let turn = r.imaginary().outer(t);
    crate::vector::rest_turns_nothing(r.imaginary(), v);
    crate::vector::rest_scales_to_rest(o, num(D2));
    crate::vector::rest_turns_nothing(r.imaginary(), t);
    crate::vector::rest_scales_to_rest(t, r.w);
    crate::vector::rests_add_to_rest(t.scaled(r.w), turn);
    crate::vector::rests_add_to_rest(t.scaled(r.w).sum(turn), v);
}

/// Twice a product, without a part that vanishes, times a factor that is not
/// negative, and with two parts that vanish, has the sign of the product.
proof fn lemma_turned_part(
    a: Binary64,
    b: Binary64,
    none: Binary64,
    w: Binary64,
    turn: Binary64,
    rest: Binary64,
)
    requires
        a.finite() && b.finite(),
        w.finite() && num(D0).not_above(w),
        none.zero() && turn.zero() && rest.zero(),
        a.product(b).finite(),
        a.product(b).product(num(D2)).finite(),
    ensures
        crate::rounding::like_product(
            a.product(b).difference(none).product(num(D2)).product(w).sum(turn).sum(rest),
            a,
            b,
        ),
        crate::rounding::like_product(
            none.difference(a.product(b)).product(num(D2)).product(w).sum(turn).sum(rest),
            a.negated(),
            b,
        ),
{
    let p = a.product(b);
    crate::rounding::products_have_their_signs(a, b);
    crate::rounding::zeros_keep_signs(p, none);
    crate::rounding::zeros_keep_signs(p.negated(), none);
    lemma_scaled_part(p.difference(none), w, turn, rest);
    crate::rounding::negated_factors(num(D2), p);
    crate::rounding::products_commute(num(D2), p);
    crate::rounding::products_commute(num(D2), p.negated());
    let n = none.difference(p);
    if p.zero() {
        crate::rounding::zeros_add_to_zero(none, p);
        crate::rounding::zero_absorbs(n, num(D2));
    }
    lemma_scaled_part(n, w, turn, rest);
}

proof fn lemma_scaled_part(x: Binary64, w: Binary64, turn: Binary64, rest: Binary64)
    requires
        x.finite(),
        w.finite() && num(D0).not_above(w),
        turn.zero() && rest.zero(),
        x.product(num(D2)).finite(),
    ensures
        crate::rounding::like_product(
            x.product(num(D2)).product(w).sum(turn).sum(rest),
            x,
            num(D1),
        ),
{
    crate::rounding::products_have_their_signs(x, num(D2));
    let t = x.product(num(D2));
    crate::rounding::products_have_their_signs(t, w);
    crate::rounding::zeros_keep_signs(t.product(w), turn);
    crate::rounding::zeros_keep_signs(t.product(w).sum(turn), rest);
}

/// A part of an outer product that vanishes, and twice that.
proof fn lemma_no_part(a: Binary64, b: Binary64, c: Binary64, d: Binary64)
    requires
        a.finite() && b.finite() && c.finite() && d.finite(),
        a.zero() || b.zero(),
        c.zero() || d.zero(),
    ensures
        a.product(b).zero() && c.product(d).zero(),
        a.product(b).difference(c.product(d)).zero(),
        a.product(b).difference(c.product(d)).product(num(D2)).zero(),
{
    crate::rounding::products_have_their_signs(a, b);
    crate::rounding::products_have_their_signs(c, d);
    crate::rounding::zeros_add_to_zero(a.product(b), c.product(d));
    crate::rounding::zero_absorbs(a.product(b).difference(c.product(d)), num(D2));
}

/// A part that is not turned stays as it is.
proof fn lemma_stays(t: Binary64, w: Binary64, turn: Binary64, rest: Binary64)
    requires
        t.zero() && turn.zero(),
        w.finite(),
        !rest.nan(),
    ensures
        t.product(w).sum(turn).sum(rest).same(rest),
        rest.zero() ==> t.product(w).sum(turn).sum(rest).zero(),
{
    crate::rounding::zero_absorbs(t, w);
    crate::rounding::zeros_add_to_zero(t.product(w), turn);
    crate::rounding::zeros_keep_signs(rest, t.product(w).sum(turn));
}

/// Whether the parts of a turn are finite.
pub open spec fn turns_finitely(r: Rotation, v: Vec3) -> bool {
    let t = r.imaginary().outer(v);
    &&& r.w.finite() && crate::vector::is_finite(r.imaginary()) && crate::vector::is_finite(v)
    &&& crate::vector::is_finite(t) && crate::vector::is_finite(t.scaled(num(D2)))
    &&& r.i.product(v.y).finite() && r.i.product(v.z).finite()
    &&& r.j.product(v.x).finite() && r.j.product(v.z).finite()
    &&& r.k.product(v.x).finite() && r.k.product(v.y).finite()
    &&& r.i.product(v.y).product(num(D2)).finite() && r.i.product(v.z).product(num(D2)).finite()
    &&& r.j.product(v.x).product(num(D2)).finite() && r.j.product(v.z).product(num(D2)).finite()
    &&& r.k.product(v.x).product(num(D2)).finite() && r.k.product(v.y).product(num(D2)).finite()
}

/// A turn about the third axis by no more than half a circle carries what lies
/// along the first axis towards the second, and what lies along the second away
/// from the first; what lies along the third stays.
pub proof fn turns_about_the_third_axis(r: Rotation, v: Vec3)
    requires
        turns_finitely(r, v),
        num(D0).not_above(r.w),
        r.i.zero() && r.j.zero(),
    ensures
        v.y.zero() && v.z.zero() ==> crate::rounding::like_product(
            r.rotated(v).y,
            r.k,
            v.x,
        ),
        v.x.zero() && v.z.zero() ==> crate::rounding::like_product(
            r.rotated(v).x,
            r.k.negated(),
            v.y,
        ),
        v.x.zero() && v.y.zero() ==> r.rotated(v).z.same(v.z) && r.rotated(v).x.zero()
            && r.rotated(v).y.zero(),
{
    let t = r.imaginary().outer(v).scaled(num(D2));
    if v.y.zero() && v.z.zero() {
        lemma_no_part(r.j, v.z, r.k, v.y);
        lemma_no_part(r.k, t.x, r.i, t.z);
        lemma_no_part(r.i, v.z, r.i, v.z);
        lemma_turned_part(
            r.k,
            v.x,
            r.i.product(v.z),
            r.w,
            r.k.product(t.x).difference(r.i.product(t.z)),
            v.y,
        );
    }
    if v.x.zero() && v.z.zero() {
        lemma_no_part(r.k, v.x, r.i, v.z);
        lemma_no_part(r.j, t.z, r.k, t.y);
        lemma_no_part(r.j, v.z, r.j, v.z);
        lemma_turned_part(
            r.k,
            v.y,
            r.j.product(v.z),
            r.w,
            r.j.product(t.z).difference(r.k.product(t.y)),
            v.x,
        );
    }
    if v.x.zero() && v.y.zero() {
        lemma_no_part(r.j, v.z, r.k, v.y);
        lemma_no_part(r.k, v.x, r.i, v.z);
        lemma_no_part(r.i, v.y, r.j, v.x);
        lemma_no_part(r.j, t.z, r.k, t.y);
        lemma_no_part(r.k, t.x, r.i, t.z);
        lemma_no_part(r.i, t.y, r.j, t.x);
        lemma_stays(t.x, r.w, r.j.product(t.z).difference(r.k.product(t.y)), v.x);
        lemma_stays(t.y, r.w, r.k.product(t.x).difference(r.i.product(t.z)), v.y);
        lemma_stays(t.z, r.w, r.i.product(t.y).difference(r.j.product(t.x)), v.z);
    }
}

/// The same of a turn about the first axis: it carries the second towards the
/// third.
pub proof fn turns_about_the_first_axis(r: Rotation, v: Vec3)
    requires
        turns_finitely(r, v),
        num(D0).not_above(r.w),
        r.j.zero() && r.k.zero(),
    ensures
        v.z.zero() && v.x.zero() ==> crate::rounding::like_product(
            r.rotated(v).z,
            r.i,
            v.y,
        ),
        v.y.zero() && v.x.zero() ==> crate::rounding::like_product(
            r.rotated(v).y,
            r.i.negated(),
            v.z,
        ),
        v.y.zero() && v.z.zero() ==> r.rotated(v).x.same(v.x) && r.rotated(v).y.zero()
            && r.rotated(v).z.zero(),
{
    let t = r.imaginary().outer(v).scaled(num(D2));
    if v.z.zero() && v.x.zero() {
        lemma_no_part(r.k, v.x, r.i, v.z);
        lemma_no_part(r.i, t.y, r.j, t.x);
        lemma_no_part(r.j, v.x, r.j, v.x);
        lemma_turned_part(
            r.i,
            v.y,
            r.j.product(v.x),
            r.w,
            r.i.product(t.y).difference(r.j.product(t.x)),
            v.z,
        );
    }
    if v.y.zero() && v.x.zero() {
        lemma_no_part(r.i, v.y, r.j, v.x);
        lemma_no_part(r.k, t.x, r.i, t.z);
        lemma_no_part(r.k, v.x, r.k, v.x);
        lemma_turned_part(
            r.i,
            v.z,
            r.k.product(v.x),
            r.w,
            r.k.product(t.x).difference(r.i.product(t.z)),
            v.y,
        );
    }
    if v.y.zero() && v.z.zero() {
        lemma_no_part(r.k, v.x, r.i, v.z);
        lemma_no_part(r.i, v.y, r.j, v.x);
        lemma_no_part(r.j, v.z, r.k, v.y);
        lemma_no_part(r.k, t.x, r.i, t.z);
        lemma_no_part(r.i, t.y, r.j, t.x);
        lemma_no_part(r.j, t.z, r.k, t.y);
        lemma_stays(t.y, r.w, r.k.product(t.x).difference(r.i.product(t.z)), v.y);
        lemma_stays(t.z, r.w, r.i.product(t.y).difference(r.j.product(t.x)), v.z);
        lemma_stays(t.x, r.w, r.j.product(t.z).difference(r.k.product(t.y)), v.x);
    }
}

/// The same of a turn about the second axis: it carries the third towards the
/// first.
pub proof fn turns_about_the_second_axis(r: Rotation, v: Vec3)
    requires
        turns_finitely(r, v),
        num(D0).not_above(r.w),
        r.k.zero() && r.i.zero(),
    ensures
        v.x.zero() && v.y.zero() ==> crate::rounding::like_product(
            r.rotated(v).x,
            r.j,
            v.z,
        ),
        v.z.zero() && v.y.zero() ==> crate::rounding::like_product(
            r.rotated(v).z,
            r.j.negated(),
            v.x,
        ),
        v.z.zero() && v.x.zero() ==> r.rotated(v).y.same(v.y) && r.rotated(v).z.zero()
            && r.rotated(v).x.zero(),
{
    let t = r.imaginary().outer(v).scaled(num(D2));
    if v.x.zero() && v.y.zero() {
        lemma_no_part(r.i, v.y, r.j, v.x);
        lemma_no_part(r.j, t.z, r.k, t.y);
        lemma_no_part(r.k, v.y, r.k, v.y);
        lemma_turned_part(
            r.j,
            v.z,
            r.k.product(v.y),
            r.w,
            r.j.product(t.z).difference(r.k.product(t.y)),
            v.x,
        );
    }
    if v.z.zero() && v.y.zero() {
        lemma_no_part(r.j, v.z, r.k, v.y);
        lemma_no_part(r.i, t.y, r.j, t.x);
        lemma_no_part(r.i, v.y, r.i, v.y);
        lemma_turned_part(
            r.j,
            v.x,
            r.i.product(v.y),
            r.w,
            r.i.product(t.y).difference(r.j.product(t.x)),
            v.z,
        );
    }
    if v.z.zero() && v.x.zero() {
        lemma_no_part(r.i, v.y, r.j, v.x);
        lemma_no_part(r.j, v.z, r.k, v.y);
        lemma_no_part(r.k, v.x, r.i, v.z);
        lemma_no_part(r.i, t.y, r.j, t.x);
        lemma_no_part(r.j, t.z, r.k, t.y);
        lemma_no_part(r.k, t.x, r.i, t.z);
        lemma_stays(t.z, r.w, r.i.product(t.y).difference(r.j.product(t.x)), v.z);
        lemma_stays(t.x, r.w, r.j.product(t.z).difference(r.k.product(t.y)), v.x);
        lemma_stays(t.y, r.w, r.k.product(t.x).difference(r.i.product(t.z)), v.y);
    }
}

/// A rotation by nothing turns nothing.
pub proof fn rest_turns_nothing_round(r: Rotation, v: Vec3)
    requires
        r.i.zero() && r.j.zero() && r.k.zero(),
        r.w.finite(),
        crate::vector::is_finite(v),
    ensures
        r.rotated(v).x.same(v.x) && r.rotated(v).y.same(v.y) && r.rotated(v).z.same(v.z),
{
    let t = r.imaginary().outer(v).scaled(num(D2));
    lemma_no_part(r.j, v.z, r.k, v.y);
    lemma_no_part(r.k, v.x, r.i, v.z);
    lemma_no_part(r.i, v.y, r.j, v.x);
    lemma_no_part(r.j, t.z, r.k, t.y);
    lemma_no_part(r.k, t.x, r.i, t.z);
    lemma_no_part(r.i, t.y, r.j, t.x);
    lemma_stays(t.x, r.w, r.j.product(t.z).difference(r.k.product(t.y)), v.x);
    lemma_stays(t.y, r.w, r.k.product(t.x).difference(r.i.product(t.z)), v.y);
    lemma_stays(t.z, r.w, r.i.product(t.y).difference(r.j.product(t.x)), v.z);
}

/// Turning back turns the other way: about one axis, a vector across it ends on
/// the other side.
pub proof fn inverses_turn_the_other_way(r: Rotation, v: Vec3)
    requires
        turns_finitely(r, v),
        turns_finitely(r.inverted(), v),
        num(D0).not_above(r.w),
        r.i.zero() && r.j.zero(),
        v.y.zero() && v.z.zero(),
    ensures
        crate::rounding::like_product(r.rotated(v).y, r.k, v.x),
        crate::rounding::like_product(r.inverted().rotated(v).y, r.k.negated(), v.x),
{
    turns_about_the_third_axis(r, v);
    turns_about_the_third_axis(r.inverted(), v);
}

} // verus!
