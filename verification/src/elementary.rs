//! Elementary functions.
use crate::binary64::Binary64;
use crate::literal::{num, D6_283185307179586};
use crate::single::Single;
use vstd::prelude::*;

verus! {

/// The elementary functions as the machine computes them. Nothing is assumed
/// of their values: contracts say which of them were asked for and with which
/// arguments.
pub trait Elementary {
    fn sin(&self, x: Binary64) -> Binary64;

    fn cos(&self, x: Binary64) -> Binary64;

    fn asin(&self, x: Binary64) -> Binary64;

    /// The angle of the point `(x, y)`.
    fn atan2(&self, y: Binary64, x: Binary64) -> Binary64;

    /// The distance of the point `(x, y)`.
    fn hypot(&self, x: Binary64, y: Binary64) -> Binary64;

    fn tanh(&self, x: Binary64) -> Binary64;

    fn exp(&self, x: Binary64) -> Binary64;

    fn ln(&self, x: Binary64) -> Binary64;

    /// `x` to the power of `y`.
    fn powf(&self, x: Binary64, y: Binary64) -> Binary64;
}

/// The elementary functions of single precision as the machine computes them.
/// Nothing is assumed of their values either.
pub trait ElementarySingle {
    fn sin(&self, x: Single) -> Single;

    fn cos(&self, x: Single) -> Single;

    fn exp(&self, x: Single) -> Single;
}

/// Whether a number is the normal draw that two uniform numbers give.
pub open spec fn is_normal<M: Elementary>(m: M, u: (Binary64, Binary64), r: Binary64) -> bool {
    exists|logarithm: Binary64, cosine: Binary64| #[trigger]
        call_ensures(M::ln, (&m, u.0), logarithm) && #[trigger] call_ensures(
            M::cos,
            (&m, num(D6_283185307179586).product(u.1)),
            cosine,
        ) && r == crate::wind::normal_of(logarithm, cosine)
}

/// The normal draw that two uniform numbers give.
pub fn normal<M: Elementary>(m: &M, u: (Binary64, Binary64)) -> (r: Binary64)
    ensures
        is_normal(*m, u, r),
{
    let logarithm: Binary64 = m.ln(u.0);
    let cosine: Binary64 = m.cos(crate::wind::normal_angle(u.1));
    crate::wind::normal_draw(logarithm, cosine)
}

/// Whether a machine repeats itself: the same arguments give the same results.
pub open spec fn repeats_itself<M: Elementary>(m: M) -> bool {
    &&& forall|x: Binary64, r: Binary64, s: Binary64| #[trigger]
        call_ensures(M::sin, (&m, x), r) && #[trigger] call_ensures(M::sin, (&m, x), s) ==> r == s
    &&& forall|x: Binary64, r: Binary64, s: Binary64| #[trigger]
        call_ensures(M::cos, (&m, x), r) && #[trigger] call_ensures(M::cos, (&m, x), s) ==> r == s
    &&& forall|x: Binary64, r: Binary64, s: Binary64| #[trigger]
        call_ensures(M::exp, (&m, x), r) && #[trigger] call_ensures(M::exp, (&m, x), s) ==> r == s
    &&& forall|x: Binary64, r: Binary64, s: Binary64| #[trigger]
        call_ensures(M::ln, (&m, x), r) && #[trigger] call_ensures(M::ln, (&m, x), s) ==> r == s
    &&& forall|x: Binary64, y: Binary64, r: Binary64, s: Binary64| #[trigger]
        call_ensures(M::powf, (&m, x, y), r) && #[trigger] call_ensures(M::powf, (&m, x, y), s)
            ==> r == s
}

/// A machine that repeats itself gives the same normal draws.
pub proof fn normal_draws_repeat<M: Elementary>(
    m: M,
    u: (Binary64, Binary64),
    r: Binary64,
    s: Binary64,
)
    requires
        repeats_itself(m),
        is_normal(m, u, r),
        is_normal(m, u, s),
    ensures
        r == s,
{
}

} // verus!
