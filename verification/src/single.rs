//! Numbers in single precision.
//!
//! A number in single precision is held as the same number in double
//! precision. An operation is carried out in double precision and rounded to
//! single; double precision is wide enough that this gives what one rounding
//! of the exact result would.
use crate::binary64::{Binary64, BINADE, INFINITE_MAGNITUDE, QUIET_NAN};
use crate::literal::{num, D0, D0_001, D0_1, D0_35, D1, D120, D2, D3, M0_35, M1, M3, M7};
use vstd::prelude::*;

verus! {

/// The smallest exponents, of double precision, of the numbers that round to
/// the smallest number of single precision, of that number, and of those that
/// have all the bits of single precision; and the first exponent beyond the
/// largest number.
pub const HALF_TINY: u64 = 873;

pub const TINY: u64 = 874;

pub const FULL: u64 = 897;

pub const BEYOND: u64 = 1151;

/// `x` rounded to a multiple of `unit`, halves to an even multiple.
pub open spec fn to_multiple(x: nat, unit: nat) -> nat {
    let q = x / unit;
    let rest = x % unit;
    if 2 * rest < unit || (2 * rest == unit && q % 2 == 0) {
        q * unit
    } else {
        (q + 1) * unit
    }
}

/// The distance, in steps of double precision, between numbers of single
/// precision with an exponent.
pub open spec fn spacing(e: nat) -> nat {
    if e < FULL {
        (1u64 << ((FULL - e + 29) as u64)) as nat
    } else {
        0x2000_0000
    }
}

/// The magnitude of the number of single precision nearest to a finite number.
pub open spec fn single_magnitude(mag: nat) -> nat {
    let e = mag / BINADE as nat;
    let m = mag % BINADE as nat;
    if e < HALF_TINY || (e == HALF_TINY && m == 0) {
        0
    } else if e == HALF_TINY || (e == TINY && 2 * m < BINADE) {
        (TINY * BINADE) as nat
    } else if e == TINY {
        ((TINY + 1) * BINADE) as nat
    } else {
        let r = to_multiple(mag, spacing(e));
        if r >= BEYOND * BINADE {
            INFINITE_MAGNITUDE as nat
        } else {
            r
        }
    }
}

fn round_to(x: u64, unit: u64) -> (r: u64)
    requires
        1 <= unit <= 0x10_0000_0000_0000,
        x <= 0x7FF0_0000_0000_0000,
    ensures
        r == to_multiple(x as nat, unit as nat),
        r < 0x8000_0000_0000_0000,
{
    let q: u64 = x / unit;
    let rest: u64 = x % unit;
    proof {
        vstd::arithmetic::div_mod::lemma_fundamental_div_mod(x as int, unit as int);
        assert(q * unit <= x) by (nonlinear_arith)
            requires
                x == unit * q + rest,
                rest >= 0,
        ;
        assert((q + 1) * unit == q * unit + unit) by (nonlinear_arith);
    }
    if 2 * rest < unit || (2 * rest == unit && q % 2 == 0) {
        q * unit
    } else {
        (q + 1) * unit
    }
}

impl Binary64 {
    /// The number of single precision nearest to `self`.
    #[verifier::opaque]
    pub open spec fn narrowed(self) -> Binary64 {
        if self.nan() {
            Binary64::quiet_nan()
        } else if self.infinite() {
            self
        } else {
            Binary64::signed(self.negative(), single_magnitude(self.magnitude()))
        }
    }

    /// The number of single precision nearest to `self`.
    #[verifier::allow_in_spec]
    pub fn narrow(self) -> (r: Binary64)
        ensures
            r == self.narrowed(),
        returns
            self.narrowed(),
    {
        proof {
            reveal(Binary64::narrowed);
        }
        if self.is_nan() {
            return Binary64 { bits: QUIET_NAN };
        }
        if !self.is_finite() {
            return self;
        }
        let mag: u64 = self.mag();
        let e: u64 = mag / BINADE;
        let m: u64 = mag % BINADE;
        let r: u64 = if e < HALF_TINY || (e == HALF_TINY && m == 0) {
            0
        } else if e == HALF_TINY || (e == TINY && 2 * m < BINADE) {
            TINY * BINADE
        } else if e == TINY {
            (TINY + 1) * BINADE
        } else {
            let unit: u64 = if e < FULL {
                let k: u64 = FULL - e + 29;
                proof {
                    assert(1u64 <= (1u64 << k) <= 0x10_0000_0000_0000u64) by (bit_vector)
                        requires
                            k <= 51,
                    ;
                }
                1u64 << k
            } else {
                0x2000_0000
            };
            let r: u64 = round_to(mag, unit);
            if r >= BEYOND * BINADE {
                INFINITE_MAGNITUDE
            } else {
                r
            }
        };
        Binary64::compose(self.is_negative(), r)
    }
}

/// A number in single precision.
#[derive(Clone, Copy, Debug, PartialEq, Eq, Structural)]
pub struct Single {
    pub wide: Binary64,
}

/// The number of single precision nearest to a constant.
#[verifier::allow_in_spec]
pub fn sgl(bits: u64) -> (r: Single)
    ensures
        r == (Single { wide: num(bits).narrowed() }),
    returns
        (Single { wide: num(bits).narrowed() }),
{
    Single { wide: num(bits).narrow() }
}

impl Single {
    /// The number of single precision nearest to a number.
    pub open spec fn of(x: Binary64) -> Single {
        Single { wide: x.narrowed() }
    }

    /// The number of single precision nearest to a number.
    pub fn from_wide(x: Binary64) -> (r: Single)
        ensures
            r == Single::of(x),
    {
        Single { wide: x.narrow() }
    }

    /// The number in double precision.
    pub fn to_wide(self) -> (r: Binary64)
        ensures
            r == self.wide,
    {
        self.wide
    }

    /// The number nearest to an integer.
    pub open spec fn integer(k: nat) -> Single {
        Single::of(Binary64::integer(k))
    }

    /// The number nearest to an integer.
    pub fn from_u64(k: u64) -> (r: Single)
        ensures
            r == Single::integer(k as nat),
    {
        Single::from_wide(Binary64::from_u64(k))
    }

    /// The sum.
    pub open spec fn sum(self, other: Single) -> Single {
        Single::of(self.wide.sum(other.wide))
    }

    pub fn plus(self, other: Single) -> (r: Single)
        ensures
            r == self.sum(other),
    {
        Single::from_wide(self.wide.plus(other.wide))
    }

    /// The difference.
    pub open spec fn difference(self, other: Single) -> Single {
        Single::of(self.wide.difference(other.wide))
    }

    pub fn minus(self, other: Single) -> (r: Single)
        ensures
            r == self.difference(other),
    {
        Single::from_wide(self.wide.minus(other.wide))
    }

    /// The product.
    pub open spec fn product(self, other: Single) -> Single {
        Single::of(self.wide.product(other.wide))
    }

    pub fn times(self, other: Single) -> (r: Single)
        ensures
            r == self.product(other),
    {
        Single::from_wide(self.wide.times(other.wide))
    }

    /// The quotient.
    pub open spec fn quotient(self, other: Single) -> Single {
        Single::of(self.wide.quotient(other.wide))
    }

    pub fn over(self, other: Single) -> (r: Single)
        ensures
            r == self.quotient(other),
    {
        Single::from_wide(self.wide.over(other.wide))
    }

    /// The square root.
    pub open spec fn root(self) -> Single {
        Single::of(self.wide.root())
    }

    pub fn sqrt(self) -> (r: Single)
        ensures
            r == self.root(),
    {
        Single::from_wide(self.wide.sqrt())
    }

    /// The larger of two numbers, or the one that is not NaN.
    pub open spec fn larger(self, other: Single) -> Single {
        Single { wide: self.wide.larger(other.wide) }
    }

    pub fn max(self, other: Single) -> (r: Single)
        ensures
            r == self.larger(other),
    {
        Single { wide: self.wide.max(other.wide) }
    }

    /// The smaller of two numbers, or the one that is not NaN.
    pub open spec fn smaller(self, other: Single) -> Single {
        Single { wide: self.wide.smaller(other.wide) }
    }

    pub fn min(self, other: Single) -> (r: Single)
        ensures
            r == self.smaller(other),
    {
        Single { wide: self.wide.min(other.wide) }
    }

    /// The largest whole number that is not above `self`.
    pub open spec fn floored(self) -> Single {
        Single { wide: self.wide.floored() }
    }

    pub fn floor(self) -> (r: Single)
        ensures
            r == self.floored(),
    {
        Single { wide: self.wide.floor() }
    }

    /// The number without its sign.
    pub open spec fn absolute(self) -> Single {
        Single { wide: self.wide.absolute() }
    }

    pub fn abs(self) -> (r: Single)
        ensures
            r == self.absolute(),
    {
        Single { wide: self.wide.abs() }
    }

    /// The number with the other sign.
    pub open spec fn negated(self) -> Single {
        Single { wide: self.wide.negated() }
    }

    pub fn neg(self) -> (r: Single)
        ensures
            r == self.negated(),
    {
        Single { wide: self.wide.neg() }
    }

    /// The number within limits.
    pub open spec fn clamped(self, lo: Single, hi: Single) -> Single {
        Single { wide: self.wide.clamped(lo.wide, hi.wide) }
    }

    pub fn clamp(self, lo: Single, hi: Single) -> (r: Single)
        requires
            lo.not_above(hi),
        ensures
            r == self.clamped(lo, hi),
    {
        Single { wide: self.wide.clamp(lo.wide, hi.wide) }
    }

    /// `self < other`.
    pub open spec fn below(self, other: Single) -> bool {
        self.wide.below(other.wide)
    }

    pub fn lt(self, other: Single) -> (r: bool)
        ensures
            r == self.below(other),
    {
        self.wide.lt(other.wide)
    }

    /// `self <= other`.
    pub open spec fn not_above(self, other: Single) -> bool {
        self.wide.not_above(other.wide)
    }

    pub fn le(self, other: Single) -> (r: bool)
        ensures
            r == self.not_above(other),
    {
        self.wide.le(other.wide)
    }

    /// `self == other` as numbers.
    pub open spec fn same(self, other: Single) -> bool {
        self.wide.same(other.wide)
    }

    pub fn is(self, other: Single) -> (r: bool)
        ensures
            r == self.same(other),
    {
        self.wide.is(other.wide)
    }

    /// `self > other`.
    pub fn gt(self, other: Single) -> (r: bool)
        ensures
            r == other.below(self),
    {
        self.wide.gt(other.wide)
    }

    /// `self >= other`.
    pub fn ge(self, other: Single) -> (r: bool)
        ensures
            r == other.not_above(self),
    {
        self.wide.ge(other.wide)
    }

    /// One with the sign of `self`.
    pub open spec fn sign(self) -> Single {
        if self.wide.nan() {
            Single { wide: Binary64::quiet_nan() }
        } else if self.wide.negative() {
            Single { wide: num(M1) }
        } else {
            Single { wide: num(D1) }
        }
    }

    pub fn signum(self) -> (r: Single)
        ensures
            r == self.sign(),
    {
        if self.wide.is_nan() {
            Single { wide: Binary64 { bits: QUIET_NAN } }
        } else if self.wide.is_negative() {
            Single { wide: num(M1) }
        } else {
            Single { wide: num(D1) }
        }
    }

    /// The remainder that is not negative.
    pub open spec fn euclidean_remainder(self, other: Single) -> Single {
        Single::of(self.wide.euclidean_remainder(other.wide))
    }

    pub fn rem_euclid(self, other: Single) -> (r: Single)
        ensures
            r == self.euclidean_remainder(other),
    {
        Single::from_wide(self.wide.rem_euclid(other.wide))
    }

    /// What is left of `self` without its whole part.
    pub open spec fn fraction(self) -> Single {
        self.difference(
            if self.wide.negative() {
                self.negated().floored().negated()
            } else {
                self.floored()
            },
        )
    }

    pub fn fract(self) -> (r: Single)
        ensures
            r == self.fraction(),
    {
        let whole: Single = if self.wide.is_negative() {
            self.neg().floor().neg()
        } else {
            self.floor()
        };
        self.minus(whole)
    }
}

/// A vector in single precision.
#[derive(Clone, Copy, Debug, PartialEq, Eq, Structural)]
pub struct Vector {
    pub x: Single,
    pub y: Single,
    pub z: Single,
}

impl Vector {
    pub open spec fn zero() -> Vector {
        Vector { x: sgl(0), y: sgl(0), z: sgl(0) }
    }

    pub fn zeros() -> (r: Vector)
        ensures
            r == Vector::zero(),
    {
        Vector { x: sgl(0), y: sgl(0), z: sgl(0) }
    }

    /// The sum, axis by axis.
    pub open spec fn sum(self, other: Vector) -> Vector {
        Vector { x: self.x.sum(other.x), y: self.y.sum(other.y), z: self.z.sum(other.z) }
    }

    pub fn plus(self, other: Vector) -> (r: Vector)
        ensures
            r == self.sum(other),
    {
        Vector { x: self.x.plus(other.x), y: self.y.plus(other.y), z: self.z.plus(other.z) }
    }

    /// The difference, axis by axis.
    pub open spec fn difference(self, other: Vector) -> Vector {
        Vector {
            x: self.x.difference(other.x),
            y: self.y.difference(other.y),
            z: self.z.difference(other.z),
        }
    }

    pub fn minus(self, other: Vector) -> (r: Vector)
        ensures
            r == self.difference(other),
    {
        Vector { x: self.x.minus(other.x), y: self.y.minus(other.y), z: self.z.minus(other.z) }
    }

    /// Every axis times the same number.
    pub open spec fn scaled(self, k: Single) -> Vector {
        Vector { x: self.x.product(k), y: self.y.product(k), z: self.z.product(k) }
    }

    pub fn times(self, k: Single) -> (r: Vector)
        ensures
            r == self.scaled(k),
    {
        Vector { x: self.x.times(k), y: self.y.times(k), z: self.z.times(k) }
    }

    /// Every axis divided by the same number.
    pub open spec fn divided(self, k: Single) -> Vector {
        Vector { x: self.x.quotient(k), y: self.y.quotient(k), z: self.z.quotient(k) }
    }

    pub fn over(self, k: Single) -> (r: Vector)
        ensures
            r == self.divided(k),
    {
        Vector { x: self.x.over(k), y: self.y.over(k), z: self.z.over(k) }
    }

    /// The sum of the products, axis by axis.
    pub open spec fn inner(self, other: Vector) -> Single {
        self.x.product(other.x).sum(self.y.product(other.y)).sum(self.z.product(other.z))
    }

    pub fn dot(self, other: Vector) -> (r: Single)
        ensures
            r == self.inner(other),
    {
        self.x.times(other.x).plus(self.y.times(other.y)).plus(self.z.times(other.z))
    }

    /// The vector at right angles to both.
    pub open spec fn outer(self, other: Vector) -> Vector {
        Vector {
            x: self.y.product(other.z).difference(other.y.product(self.z)),
            y: self.z.product(other.x).difference(other.z.product(self.x)),
            z: self.x.product(other.y).difference(other.x.product(self.y)),
        }
    }

    pub fn cross(self, other: Vector) -> (r: Vector)
        ensures
            r == self.outer(other),
    {
        Vector {
            x: self.y.times(other.z).minus(other.y.times(self.z)),
            y: self.z.times(other.x).minus(other.z.times(self.x)),
            z: self.x.times(other.y).minus(other.x.times(self.y)),
        }
    }

    /// The length.
    pub open spec fn length(self) -> Single {
        self.inner(self).root()
    }

    pub fn norm(self) -> (r: Single)
        ensures
            r == self.length(),
    {
        self.dot(self).sqrt()
    }

    /// The vector of unit length in the same direction; none has one if it is
    /// zero, which stays zero.
    pub open spec fn direction(self) -> Vector {
        if self.x.same(sgl(0)) && self.y.same(sgl(0)) && self.z.same(sgl(0)) {
            Vector::zero()
        } else {
            self.divided(self.length())
        }
    }

    pub fn normalize(self) -> (r: Vector)
        ensures
            r == self.direction(),
    {
        if self.x.is(sgl(0)) && self.y.is(sgl(0)) && self.z.is(sgl(0)) {
            Vector::zeros()
        } else {
            self.over(self.norm())
        }
    }
}

/// The limits of ranges are in order.
pub proof fn limits_are_ordered()
    ensures
        sgl(D0).not_above(sgl(D1)),
        sgl(D1).not_above(sgl(D120)),
        sgl(M0_35).not_above(sgl(D0_35)),
        sgl(M3).not_above(sgl(D2)),
        sgl(M3).not_above(sgl(D3)),
        sgl(M7).not_above(sgl(D0)),
        sgl(D0_001).not_above(sgl(D0_1)),
        sgl(D0).below(sgl(D2)),
{
    reveal(Binary64::narrowed);
}

/// Numbers of single precision are kept when they are rounded to it again, at
/// full precision.
pub proof fn narrowing_is_idempotent(x: Binary64)
    requires
        x.finite(),
        x.magnitude() >= FULL * BINADE,
        single_magnitude(x.magnitude()) < INFINITE_MAGNITUDE,
    ensures
        x.narrowed().narrowed() == x.narrowed(),
{
    reveal(Binary64::narrowed);
    let u = 0x2000_0000nat;
    let m = x.magnitude();
    let r = to_multiple(m, u);
    assert(r % u == 0) by {
        let q = m / u;
        vstd::arithmetic::div_mod::lemma_mod_multiples_basic(q as int, u as int);
        vstd::arithmetic::div_mod::lemma_mod_multiples_basic((q + 1) as int, u as int);
    }
    assert(r >= FULL * BINADE) by {
        let q = m / u;
        assert(FULL * BINADE == (FULL * 0x80_0000) * 0x2000_0000);
        assert(q >= FULL * 0x80_0000);
    }
    assert(r / u * u == r);
}

/// The magnitudes of single precision are magnitudes.
proof fn lemma_single_magnitude(mag: nat)
    requires
        mag < INFINITE_MAGNITUDE,
    ensures
        single_magnitude(mag) <= INFINITE_MAGNITUDE,
        single_magnitude(mag) < INFINITE_MAGNITUDE ==> single_magnitude(mag) < BEYOND * BINADE,
{
}

/// Rounding to single precision keeps signs, and zero.
pub proof fn narrowing_keeps_signs(x: Binary64)
    requires
        !x.nan(),
    ensures
        !x.narrowed().nan(),
        x.narrowed().negative() == x.negative(),
        x.zero() ==> x.narrowed().zero(),
{
    reveal(Binary64::narrowed);
    if x.finite() {
        lemma_single_magnitude(x.magnitude());
    }
}

/// Multiples of a unit are kept in order, and those of a divisor stay within
/// the multiples that they lie between.
proof fn lemma_to_multiple(x: nat, y: nat, unit: nat, k: nat)
    requires
        unit > 0,
        x <= y,
        k > 0,
        (x as int) / ((k * unit) as int) == (y as int) / ((k * unit) as int),
    ensures
        to_multiple(x, unit) <= to_multiple(y, unit),
        ((x as int) / ((k * unit) as int)) * (k * unit) <= to_multiple(x, unit),
        to_multiple(x, unit) <= ((x as int) / ((k * unit) as int) + 1) * (k * unit),
{
    let (p, q) = (x / unit, y / unit);
    let (r, s) = (x % unit, y % unit);
    vstd::arithmetic::div_mod::lemma_fundamental_div_mod(x as int, unit as int);
    vstd::arithmetic::div_mod::lemma_fundamental_div_mod(y as int, unit as int);
    vstd::arithmetic::div_mod::lemma_div_is_ordered(x as int, y as int, unit as int);
    assert(p < q ==> (p + 1) * unit <= q * unit) by (nonlinear_arith);
    assert((p + 1) * unit == p * unit + unit && (q + 1) * unit == q * unit + unit)
        by (nonlinear_arith);
    assert(unit * p == p * unit && unit * q == q * unit) by (nonlinear_arith);
    let b = (k * unit) as int;
    assert(b > 0) by (nonlinear_arith)
        requires
            b == k * unit,
            k > 0,
            unit > 0,
    ;
    let e = (x as int) / b;
    vstd::arithmetic::div_mod::lemma_fundamental_div_mod(x as int, b);
    assert(e * k <= p) by (nonlinear_arith)
        requires
            x == b * e + (x as int) % b,
            0 <= (x as int) % b,
            b == k * unit,
            x == p * unit + r,
            0 <= r < unit,
    ;
    assert(p + 1 <= (e + 1) * k) by (nonlinear_arith)
        requires
            x == b * e + (x as int) % b,
            (x as int) % b < b,
            b == k * unit,
            x == p * unit + r,
            0 <= r < unit,
    ;
    assert(e * (k * unit) <= p * unit) by (nonlinear_arith)
        requires
            e * k <= p,
            unit > 0,
    ;
    assert((p + 1) * unit <= (e + 1) * (k * unit)) by (nonlinear_arith)
        requires
            p + 1 <= (e + 1) * k,
            unit > 0,
    ;
}

/// The spacing of single precision divides a binade.
proof fn lemma_spacing(e: nat)
    requires
        TINY < e,
    ensures
        spacing(e) > 0,
        exists|k: nat| k > 0 && #[trigger] (k * spacing(e)) == BINADE,
{
    if e < FULL {
        let s = (FULL - e + 29) as u64;
        let t = (52 - s) as u64;
        assert((1u64 << s) > 0 && (1u64 << t) > 0 && (1u64 << t) * (1u64 << s)
            == 0x10_0000_0000_0000u64) by (bit_vector)
            requires
                s <= 52,
                t == 52 - s,
        ;
        let k = (1u64 << t) as nat;
        assert(k * spacing(e) == BINADE);
    } else {
        assert(0x80_0000nat * spacing(e) == BINADE);
    }
}

/// The magnitude of single precision nearest to one of a binade lies in it.
proof fn lemma_within_binade(x: nat, y: nat)
    requires
        x <= y,
        x / BINADE as nat == y / BINADE as nat,
        TINY < x / BINADE as nat,
    ensures
        ({
            let e = x / BINADE as nat;
            &&& to_multiple(x, spacing(e)) <= to_multiple(y, spacing(e))
            &&& e * BINADE <= to_multiple(x, spacing(e)) <= (e + 1) * BINADE
        }),
{
    let e = x / BINADE as nat;
    lemma_spacing(e);
    let k = choose|k: nat| k > 0 && #[trigger] (k * spacing(e)) == BINADE;
    lemma_to_multiple(x, y, spacing(e), k);
}

/// Rounding to single precision keeps the order of magnitudes.
proof fn lemma_single_order(x: nat, y: nat)
    requires
        x <= y < INFINITE_MAGNITUDE,
    ensures
        single_magnitude(x) <= single_magnitude(y),
{
    let (e, f) = (x / BINADE as nat, y / BINADE as nat);
    vstd::arithmetic::div_mod::lemma_div_is_ordered(x as int, y as int, BINADE as int);
    lemma_single_magnitude(x);
    lemma_single_magnitude(y);
    if TINY < f {
        lemma_within_binade(y, y);
        if TINY < e {
            lemma_within_binade(x, x);
            if e == f {
                lemma_within_binade(x, y);
            }
        }
    }
}

/// Rounding to single precision keeps the order of numbers.
pub proof fn narrowing_keeps_order(a: Binary64, b: Binary64)
    requires
        a.not_above(b),
    ensures
        a.narrowed().not_above(b.narrowed()),
{
    reveal(Binary64::narrowed);
    if a.finite() {
        lemma_single_magnitude(a.magnitude());
    }
    if b.finite() {
        lemma_single_magnitude(b.magnitude());
    }
    if a.finite() && b.finite() {
        if a.magnitude() <= b.magnitude() {
            lemma_single_order(a.magnitude(), b.magnitude());
        } else {
            lemma_single_order(b.magnitude(), a.magnitude());
        }
    }
}

impl Single {
    /// Whether the number is finite, and one of single precision.
    pub open spec fn held(self) -> bool {
        self.wide.finite() && self.wide.narrowed() == self.wide
    }
}

/// Whether a vector is finite.
pub open spec fn is_held(v: Vector) -> bool {
    v.x.held() && v.y.held() && v.z.held()
}

/// Whether a number has the sign of a product of two others, or vanishes.
pub open spec fn like_product(r: Single, a: Single, b: Single) -> bool {
    crate::rounding::like_product(r.wide, a.wide, b.wide)
}

/// Zero is one number of single precision.
pub proof fn zero_is_held()
    ensures
        sgl(D0).wide == num(D0),
        sgl(D1).wide == num(D1),
        sgl(D0).held() && sgl(D1).held(),
        sgl(0) == sgl(D0),
{
    reveal(Binary64::narrowed);
}

/// Products have the signs of their factors and grow with them.
pub proof fn products_follow_their_factors(w: Single, a: Single, b: Single)
    requires
        w.wide.finite() && a.wide.finite() && b.wide.finite(),
    ensures
        like_product(w.product(a), w, a),
        like_product(a.product(w), a, w),
        !w.product(a).wide.nan() && !a.product(w).wide.nan(),
        sgl(D0).not_above(w) && a.not_above(b) ==> w.product(a).not_above(w.product(b))
            && a.product(w).not_above(b.product(w)),
        sgl(D0).not_above(w) && sgl(D0).not_above(a) ==> sgl(D0).not_above(w.product(a))
            && sgl(D0).not_above(a.product(w)),
        sgl(D0).not_above(w) && a.not_above(sgl(D0)) ==> w.product(a).not_above(sgl(D0))
            && a.product(w).not_above(sgl(D0)),
{
    zero_is_held();
    crate::rounding::products_have_their_signs(w.wide, a.wide);
    crate::rounding::products_commute(w.wide, a.wide);
    narrowing_keeps_signs(w.wide.product(a.wide));
    if sgl(D0).not_above(w) && a.not_above(b) {
        crate::rounding::factors_keep_order(w.wide, a.wide, b.wide);
        narrowing_keeps_order(w.wide.product(a.wide), w.wide.product(b.wide));
        narrowing_keeps_order(a.wide.product(w.wide), b.wide.product(w.wide));
    }
}

/// Quotients by a positive number have the signs of their dividends and grow
/// with them.
pub proof fn quotients_follow_their_dividends(a: Single, b: Single, d: Single)
    requires
        a.wide.finite() && b.wide.finite(),
        d.wide.finite() && sgl(D0).below(d),
    ensures
        !a.quotient(d).wide.nan(),
        like_product(a.quotient(d), a, sgl(D1)),
        a.not_above(b) ==> a.quotient(d).not_above(b.quotient(d)),
        sgl(D0).not_above(a) ==> sgl(D0).not_above(a.quotient(d)),
        a.not_above(sgl(D0)) ==> a.quotient(d).not_above(sgl(D0)),
{
    zero_is_held();
    crate::rounding::quotients_are_numbers(a.wide, d.wide);
    narrowing_keeps_signs(a.wide.quotient(d.wide));
    if a.not_above(b) {
        crate::rounding::divisors_keep_order(a.wide, b.wide, d.wide);
        narrowing_keeps_order(a.wide.quotient(d.wide), b.wide.quotient(d.wide));
    }
}

/// Sums and differences grow with their terms.
pub proof fn sums_follow_their_terms(a: Single, b: Single, c: Single, d: Single)
    requires
        a.wide.finite() && b.wide.finite() && c.wide.finite() && d.wide.finite(),
    ensures
        !a.sum(c).wide.nan() && !a.difference(c).wide.nan(),
        a.not_above(b) && c.not_above(d) ==> a.sum(c).not_above(b.sum(d)),
        a.not_above(b) && d.not_above(c) ==> a.difference(c).not_above(b.difference(d)),
{
    crate::rounding::sums_are_numbers(a.wide, c.wide);
    crate::rounding::sums_are_numbers(b.wide, d.wide);
    crate::rounding::sums_are_numbers(a.wide, c.wide.negated());
    crate::rounding::sums_are_numbers(b.wide, d.wide.negated());
    narrowing_keeps_signs(a.wide.sum(c.wide));
    narrowing_keeps_signs(a.wide.difference(c.wide));
    if a.not_above(b) && c.not_above(d) {
        crate::rounding::sums_of_ordered_terms(a.wide, b.wide, c.wide, d.wide);
        narrowing_keeps_order(a.wide.sum(c.wide), b.wide.sum(d.wide));
    }
    if a.not_above(b) && d.not_above(c) {
        crate::rounding::sums_of_ordered_terms(
            a.wide,
            b.wide,
            c.wide.negated(),
            d.wide.negated(),
        );
        narrowing_keeps_order(a.wide.difference(c.wide), b.wide.difference(d.wide));
    }
}

/// What is added shifts a number its own way, what is taken away the other way.
pub proof fn terms_shift_their_way(a: Single, c: Single)
    requires
        a.held(),
        !c.wide.nan(),
    ensures
        sgl(D0).not_above(c) ==> a.not_above(a.sum(c)) && a.difference(c).not_above(a),
        c.not_above(sgl(D0)) ==> a.sum(c).not_above(a) && a.not_above(a.difference(c)),
        c.wide.zero() ==> a.sum(c).same(a) && a.difference(c).same(a),
{
    zero_is_held();
    let (x, y) = (a.wide, c.wide);
    crate::rounding::zeros_keep_signs(x, num(D0));
    crate::rounding::sums_are_numbers(x, num(D0));
    if y.finite() {
        crate::rounding::sums_are_numbers(x, y);
        crate::rounding::sums_are_numbers(x, y.negated());
    }
    if num(D0).not_above(y) {
        crate::rounding::sums_of_ordered_terms(x, x, num(D0), y);
        crate::rounding::sums_of_ordered_terms(x, x, y.negated(), num(D0));
        narrowing_keeps_order(x, x.sum(y));
        narrowing_keeps_order(x.difference(y), x);
    }
    if y.not_above(num(D0)) {
        crate::rounding::sums_of_ordered_terms(x, x, y, num(D0));
        crate::rounding::sums_of_ordered_terms(x, x, num(D0), y.negated());
        narrowing_keeps_order(x.sum(y), x);
        narrowing_keeps_order(x, x.difference(y));
    }
}

/// Differences have the sign of the order.
pub proof fn differences_tell_the_order(a: Single, b: Single)
    requires
        a.wide.finite() && b.wide.finite(),
    ensures
        !a.difference(b).wide.nan(),
        b.not_above(a) ==> sgl(D0).not_above(a.difference(b)),
        a.not_above(b) ==> a.difference(b).not_above(sgl(D0)),
        a == b ==> a.difference(b).wide.zero(),
{
    zero_is_held();
    crate::rounding::differences_tell_the_order(a.wide, b.wide);
    narrowing_keeps_signs(a.wide.difference(b.wide));
    if b.not_above(a) {
        narrowing_keeps_order(num(D0), a.wide.difference(b.wide));
    }
    if a.not_above(b) {
        narrowing_keeps_order(a.wide.difference(b.wide), num(D0));
    }
    if a == b {
        crate::rounding::differences_cancel(a.wide);
    }
}

/// The inner product with an axis picks the part along it.
pub proof fn axes_pick_their_parts(v: Vector, axis: Vector)
    requires
        is_held(v),
        axis.x.wide.finite() && axis.y.wide.finite() && axis.z.wide.finite(),
    ensures
        axis.y.wide.zero() && axis.z.wide.zero() ==> like_product(v.inner(axis), v.x, axis.x),
        axis.x.wide.zero() && axis.z.wide.zero() ==> like_product(v.inner(axis), v.y, axis.y),
        axis.x.wide.zero() && axis.y.wide.zero() ==> like_product(v.inner(axis), v.z, axis.z),
{
    let (p, q, r) = (v.x.product(axis.x), v.y.product(axis.y), v.z.product(axis.z));
    products_follow_their_factors(v.x, axis.x, axis.x);
    products_follow_their_factors(v.y, axis.y, axis.y);
    products_follow_their_factors(v.z, axis.z, axis.z);
    if axis.y.wide.zero() && axis.z.wide.zero() {
        lemma_alone(p, q);
        lemma_alone(p.sum(q), r);
    }
    if axis.x.wide.zero() && axis.z.wide.zero() {
        lemma_alone(q, p);
        lemma_alone(p.sum(q), r);
    }
    if axis.x.wide.zero() && axis.y.wide.zero() {
        lemma_alone(p, q);
        lemma_alone(r, p.sum(q));
    }
}

/// A sum with zero keeps its sign.
proof fn lemma_alone(a: Single, z: Single)
    requires
        !a.wide.nan(),
        z.wide.zero(),
    ensures
        ({
            let (r, s) = (a.sum(z).wide, z.sum(a).wide);
            &&& !r.nan() && !s.nan()
            &&& a.wide.zero() ==> r.zero() && s.zero()
            &&& !r.zero() ==> !a.wide.zero() && r.negative() == a.wide.negative()
            &&& !s.zero() ==> !a.wide.zero() && s.negative() == a.wide.negative()
        }),
{
    crate::rounding::zeros_keep_signs(a.wide, z.wide);
    narrowing_keeps_signs(a.wide.sum(z.wide));
    narrowing_keeps_signs(z.wide.sum(a.wide));
}

} // verus!
