//! How far rounding moves a number, and which numbers it therefore keeps apart.
//!
//! Values are counted in units of 2 to the power -1074, and here in coarser
//! steps of 2 to the power -74, of which one has 2 to the power 74.
use crate::binary64::{Binary64, INFINITE_MAGNITUDE, UNIT_EXPONENT};
use vstd::arithmetic::power2::*;
use vstd::prelude::*;

verus! {

/// A step of 2 to the power -74.
pub open spec fn step() -> int {
    pow2(1000) as int
}

/// The value of a number without its sign.
pub open spec fn size(x: Binary64) -> int {
    crate::binary64::magnitude_value(x.magnitude()) as int
}

/// The next magnitude is near: the distance is a unit or a small part of the
/// value.
proof fn lemma_next_is_near(mag: nat)
    ensures
        crate::binary64::magnitude_value(mag) < crate::binary64::magnitude_value(mag + 1),
        (crate::binary64::magnitude_value(mag + 1) - crate::binary64::magnitude_value(mag)) * 0x10_0000_0000_0000
            <= crate::binary64::magnitude_value(mag) + 0x10_0000_0000_0000,
{
    crate::binary64::lemma_next_is_larger(mag);
    let (m, e) = crate::binary64::lemma_decode(mag);
    crate::binary64::lemma_canonical_value(m, e);
    let p = pow2(e);
    assert((m + 1) * p == m * p + p) by (nonlinear_arith);
    if m >= 0x10_0000_0000_0000 {
        assert(p * 0x10_0000_0000_0000 <= m * p) by (nonlinear_arith)
            requires
                m >= 0x10_0000_0000_0000,
        ;
    } else {
        lemma2_to64();
        assert(p == 1);
    }
}

/// Rounding moves a number by at most one part in 2 to the power 53, or half a
/// unit.
pub proof fn rounding_moves_little(n: nat, d: nat)
    requires
        d > 0,
        crate::binary64::rounded(n, d) < INFINITE_MAGNITUDE,
    ensures
        ({
            let v = crate::binary64::magnitude_value(crate::binary64::rounded(n, d)) as int;
            &&& 0x20_0000_0000_0000 * (v * d - n) <= d * (v + 0x10_0000_0000_0000)
            &&& 0x20_0000_0000_0000 * (n - v * d) <= d * (v + 0x10_0000_0000_0000)
        }),
{
    crate::rounding::rounding_is_total(n, d);
    let r = crate::binary64::rounded(n, d);
    let v = crate::binary64::magnitude_value(r) as int;
    let w = crate::binary64::magnitude_value(r + 1) as int;
    let half = 0x10_0000_0000_0000int;
    lemma_next_is_near(r);
    assert(2 * n <= (v + w) * d);
    assert(2 * half * (n - v * d) <= d * (v + half)) by (nonlinear_arith)
        requires
            2 * n <= (v + w) * d,
            (w - v) * half <= v + half,
            d > 0,
            half > 0,
    ;
    if r > 0 {
        let u = crate::binary64::magnitude_value((r - 1) as nat) as int;
        lemma_next_is_near((r - 1) as nat);
        assert((u + v) * d <= 2 * n);
        assert(2 * half * (v * d - n) <= d * (v + half)) by (nonlinear_arith)
            requires
                (u + v) * d <= 2 * n,
                (v - u) * half <= u + half,
                u < v,
                d > 0,
                half > 0,
        ;
    } else {
        assert(v == 0);
        assert(2 * half * (v * d - n) <= d * (v + half)) by (nonlinear_arith)
            requires
                v == 0,
                n >= 0,
                d > 0,
                half > 0,
        ;
    }
}

/// A sum is near the exact sum.
pub proof fn sums_move_little(a: Binary64, b: Binary64)
    requires
        a.finite(),
        b.finite(),
        a.sum(b).finite(),
    ensures
        ({
            let s = a.sum(b);
            let x = a.exact() + b.exact();
            &&& 0x20_0000_0000_0000 * (s.exact() - x) <= size(s) + 0x10_0000_0000_0000
            &&& 0x20_0000_0000_0000 * (x - s.exact()) <= size(s) + 0x10_0000_0000_0000
        }),
{
    let x = a.exact() + b.exact();
    if x > 0 {
        crate::rounding::rounding_is_total(x as nat, 1);
        rounding_moves_little(x as nat, 1);
    } else if x < 0 {
        crate::rounding::rounding_is_total((-x) as nat, 1);
        rounding_moves_little((-x) as nat, 1);
    }
}

/// A product is near the exact product.
pub proof fn products_move_little(a: Binary64, b: Binary64)
    requires
        a.finite(),
        b.finite(),
        a.product(b).finite(),
    ensures
        ({
            let one = pow2(UNIT_EXPONENT as nat) as int;
            let p = a.product(b);
            let x = a.exact() * b.exact();
            &&& 0x20_0000_0000_0000 * (p.exact() * one - x) <= one * (size(p)
                + 0x10_0000_0000_0000)
            &&& 0x20_0000_0000_0000 * (x - p.exact() * one) <= one * (size(p)
                + 0x10_0000_0000_0000)
        }),
{
    broadcast use lemma_pow2_pos;

    let one = pow2(UNIT_EXPONENT as nat);
    let p = a.product(b);
    assert(crate::binary64::magnitude_value(0) == 0);
    if a.zero() || b.zero() {
        assert(a.exact() * b.exact() == 0) by (nonlinear_arith)
            requires
                a.exact() == 0 || b.exact() == 0,
        ;
        assert(p.exact() == 0);
        assert(p.exact() * one == 0) by (nonlinear_arith)
            requires
                p.exact() == 0,
        ;
        assert(one * 0x10_0000_0000_0000 >= 0);
    } else {
        let n = crate::binary64::magnitude_value(a.magnitude()) * crate::binary64::magnitude_value(b.magnitude());
        crate::rounding::rounding_is_total(n, one);
        rounding_moves_little(n, one);
        let m = size(a);
        let k = size(b);
        let v = crate::binary64::magnitude_value(crate::binary64::rounded(n, one)) as int;
        assert(size(p) == v);
        assert((-m) * k == -(m * k) && m * (-k) == -(m * k) && (-m) * (-k) == m * k)
            by (nonlinear_arith);
        assert((-v) * one == -(v * one)) by (nonlinear_arith);
    }
}

/// Adding the same to two numbers that are apart keeps them apart, but for the
/// two roundings.
pub proof fn sums_stay_apart(a: Binary64, b: Binary64, c: Binary64, gap: int, most: int)
    requires
        a.finite() && b.finite() && c.finite(),
        a.sum(c).finite() && b.sum(c).finite(),
        b.exact() - a.exact() >= gap,
        size(a.sum(c)) <= most,
        size(b.sum(c)) <= most,
    ensures
        0x10_0000_0000_0000 * (b.sum(c).exact() - a.sum(c).exact()) >= 0x10_0000_0000_0000 * gap
            - most - 0x10_0000_0000_0000,
{
    sums_move_little(a, c);
    sums_move_little(b, c);
}

/// The size of a sum.
pub proof fn sums_have_size(a: Binary64, b: Binary64, most: int)
    requires
        a.finite() && b.finite(),
        a.sum(b).finite(),
        size(a) + size(b) <= most,
    ensures
        (0x20_0000_0000_0000 - 1) * size(a.sum(b)) <= 0x20_0000_0000_0000 * most
            + 0x10_0000_0000_0000,
{
    sums_move_little(a, b);
}

/// A factor that is not negative keeps two numbers apart, but for the two
/// roundings.
pub proof fn products_stay_apart(
    w: Binary64,
    a: Binary64,
    b: Binary64,
    least: int,
    gap: int,
    most: int,
)
    requires
        w.finite() && a.finite() && b.finite(),
        w.product(a).finite() && w.product(b).finite(),
        0 <= least <= w.exact(),
        0 <= gap,
        b.exact() - a.exact() >= gap,
        size(w.product(a)) <= most,
        size(w.product(b)) <= most,
    ensures
        ({
            let one = pow2(UNIT_EXPONENT as nat) as int;
            0x10_0000_0000_0000 * one * (w.product(b).exact() - w.product(a).exact())
                >= 0x10_0000_0000_0000 * (least * gap) - one * (most + 0x10_0000_0000_0000)
        }),
{
    broadcast use lemma_pow2_pos;

    products_move_little(w, a);
    products_move_little(w, b);
    let one = pow2(UNIT_EXPONENT as nat) as int;
    let half = 0x10_0000_0000_0000int;
    let x = w.exact();
    let (p, q) = (w.product(a).exact(), w.product(b).exact());
    let (s, t) = (size(w.product(a)), size(w.product(b)));
    assert(x * b.exact() - x * a.exact() >= least * gap) by (nonlinear_arith)
        requires
            0 <= least <= x,
            0 <= gap,
            b.exact() - a.exact() >= gap,
    ;
    assert(one * (s + half) <= one * (most + half) && one * (t + half) <= one * (most + half))
        by (nonlinear_arith)
        requires
            s <= most,
            t <= most,
            one > 0,
    ;
    assert(half * one * (q - p) == half * (q * one) - half * (p * one)) by (nonlinear_arith);
}

/// The size of a product.
pub proof fn products_have_size(a: Binary64, b: Binary64, most: int)
    requires
        a.finite() && b.finite(),
        a.product(b).finite(),
        size(a) * size(b) <= most * pow2(UNIT_EXPONENT as nat),
    ensures
        (0x20_0000_0000_0000 - 1) * size(a.product(b)) <= 0x20_0000_0000_0000 * most
            + 0x10_0000_0000_0000,
{
    broadcast use lemma_pow2_pos;

    products_move_little(a, b);
    let one = pow2(UNIT_EXPONENT as nat) as int;
    let half = 0x10_0000_0000_0000int;
    let p = a.product(b);
    let s = size(p);
    crate::rounding::products_are_numbers(a, b);
    let (m, k) = (size(a), size(b));
    assert((-m) * k == -(m * k) && m * (-k) == -(m * k) && (-m) * (-k) == m * k)
        by (nonlinear_arith);
    assert((-s) * one == -(s * one)) by (nonlinear_arith);
    assert(2 * half * (s * one - m * k) <= one * (s + half));
    assert((2 * half - 1) * s <= 2 * half * most + half) by (nonlinear_arith)
        requires
            2 * half * (s * one - m * k) <= one * (s + half),
            m * k <= most * one,
            one > 0,
            half > 0,
    ;
}

/// One has 2 to the power 74 steps.
pub proof fn one_in_steps()
    ensures
        pow2(UNIT_EXPONENT as nat) == 0x400_0000_0000_0000_0000 * step(),
        step() > 0,
{
    broadcast use lemma_pow2_pos;

    lemma2_to64();
    lemma_pow2_adds(1000, 74);
    lemma_pow2_adds(64, 10);
    assert(pow2(74) == 0x400_0000_0000_0000_0000);
    assert(pow2(1000) * pow2(74) == 0x400_0000_0000_0000_0000 * pow2(1000)) by (nonlinear_arith)
        requires
            pow2(74) == 0x400_0000_0000_0000_0000,
    ;
}

/// The range of values of a binary exponent, from `2^(k - 22)` to twice that.
pub proof fn exponents_in_steps(x: Binary64, k: nat)
    requires
        k <= 64,
        x.magnitude() / 0x10_0000_0000_0000 == 1001 + k,
    ensures
        x.finite(),
        0x10_0000_0000_0000 * (pow2(k) * step()) <= size(x),
        size(x) <= 0x20_0000_0000_0000 * (pow2(k) * step()),
{
    broadcast use lemma_pow2_pos;

    lemma_pow2_adds(1000, k);
    let f = x.magnitude() % 0x10_0000_0000_0000;
    let p = pow2(1000 + k);
    assert(pow2(k) * pow2(1000) == pow2(1000) * pow2(k)) by (nonlinear_arith);
    assert(0x10_0000_0000_0000 * p <= (0x10_0000_0000_0000 + f) * p <= 0x20_0000_0000_0000 * p)
        by (nonlinear_arith)
        requires
            0 <= f < 0x10_0000_0000_0000,
    ;
    assert(x.magnitude() < INFINITE_MAGNITUDE) by {
        assert(x.magnitude() == (1001 + k) * 0x10_0000_0000_0000 + f);
    }
}

/// A quotient by a positive number is near the exact quotient.
pub proof fn quotients_move_little(a: Binary64, d: Binary64)
    requires
        a.finite(),
        d.finite(),
        d.exact() > 0,
        a.quotient(d).finite(),
    ensures
        ({
            let one = pow2(UNIT_EXPONENT as nat) as int;
            let q = a.quotient(d);
            let x = a.exact() * one;
            &&& 0x20_0000_0000_0000 * (q.exact() * d.exact() - x) <= d.exact() * (size(q)
                + 0x10_0000_0000_0000)
            &&& 0x20_0000_0000_0000 * (x - q.exact() * d.exact()) <= d.exact() * (size(q)
                + 0x10_0000_0000_0000)
        }),
{
    broadcast use lemma_pow2_pos;

    let one = pow2(UNIT_EXPONENT as nat);
    let q = a.quotient(d);
    assert(crate::binary64::magnitude_value(0) == 0);
    if a.zero() {
        assert(a.exact() * one == 0 && q.exact() * d.exact() == 0) by (nonlinear_arith)
            requires
                a.exact() == 0,
                q.exact() == 0,
        ;
        assert(d.exact() * 0x10_0000_0000_0000 >= 0);
    } else {
        let n = crate::binary64::magnitude_value(a.magnitude()) * one;
        let k = crate::binary64::magnitude_value(d.magnitude());
        crate::rounding::rounding_is_total(n, k);
        rounding_moves_little(n, k);
        let m = size(a);
        let v = crate::binary64::magnitude_value(crate::binary64::rounded(n, k)) as int;
        assert(size(q) == v);
        assert((-m) * one == -(m * one)) by (nonlinear_arith);
        assert((-v) * k == -(v * k)) by (nonlinear_arith);
    }
}

/// A positive divisor keeps two numbers apart, but for the two roundings.
pub proof fn quotients_stay_apart(a: Binary64, b: Binary64, d: Binary64, gap: int, most: int)
    requires
        a.finite() && b.finite() && d.finite(),
        d.exact() > 0,
        a.quotient(d).finite() && b.quotient(d).finite(),
        b.exact() - a.exact() >= gap,
        size(a.quotient(d)) <= most,
        size(b.quotient(d)) <= most,
    ensures
        ({
            let one = pow2(UNIT_EXPONENT as nat) as int;
            0x10_0000_0000_0000 * d.exact() * (b.quotient(d).exact() - a.quotient(d).exact())
                >= 0x10_0000_0000_0000 * (gap * one) - d.exact() * (most + 0x10_0000_0000_0000)
        }),
{
    broadcast use lemma_pow2_pos;

    quotients_move_little(a, d);
    quotients_move_little(b, d);
    let one = pow2(UNIT_EXPONENT as nat) as int;
    let half = 0x10_0000_0000_0000int;
    let x = d.exact();
    let (p, q) = (a.quotient(d).exact(), b.quotient(d).exact());
    let (s, t) = (size(a.quotient(d)), size(b.quotient(d)));
    assert(b.exact() * one - a.exact() * one >= gap * one) by (nonlinear_arith)
        requires
            b.exact() - a.exact() >= gap,
            one > 0,
    ;
    assert(x * (s + half) <= x * (most + half) && x * (t + half) <= x * (most + half))
        by (nonlinear_arith)
        requires
            s <= most,
            t <= most,
            x > 0,
    ;
    assert(half * x * (q - p) == half * (q * x) - half * (p * x)) by (nonlinear_arith);
}

/// The size of a quotient by a positive number.
pub proof fn quotients_have_size(a: Binary64, d: Binary64, most: int)
    requires
        a.finite() && d.finite(),
        d.exact() > 0,
        a.quotient(d).finite(),
        size(a) * pow2(UNIT_EXPONENT as nat) <= most * d.exact(),
    ensures
        (0x20_0000_0000_0000 - 1) * size(a.quotient(d)) <= 0x20_0000_0000_0000 * most
            + 0x10_0000_0000_0000,
{
    quotients_move_little(a, d);
    let one = pow2(UNIT_EXPONENT as nat) as int;
    let half = 0x10_0000_0000_0000int;
    let x = d.exact();
    let s = size(a.quotient(d));
    let m = size(a);
    crate::rounding::quotients_are_numbers(a, d);
    assert((-m) * one == -(m * one)) by (nonlinear_arith);
    assert((-s) * x == -(s * x)) by (nonlinear_arith);
    assert(2 * half * (s * x - m * one) <= x * (s + half));
    assert((2 * half - 1) * s <= 2 * half * most + half) by (nonlinear_arith)
        requires
            2 * half * (s * x - m * one) <= x * (s + half),
            m * one <= most * x,
            x > 0,
            half > 0,
    ;
}

/// Values below 2 to the power 126 round to finite numbers.
proof fn lemma_rounds_to_finite(n: nat, d: nat)
    requires
        d > 0,
        n <= pow2(1200) * d,
    ensures
        crate::binary64::rounded(n, d) < INFINITE_MAGNITUDE,
{
    let mag = crate::rounding::lemma_encode(1, 1200);
    crate::rounding::rounding_keeps_limits(n, d, mag);
}

/// The sum of numbers that are not too large is finite.
pub proof fn sums_stay_finite(a: Binary64, b: Binary64)
    requires
        a.finite() && b.finite(),
        size(a) + size(b) <= pow2(1200),
    ensures
        a.sum(b).finite(),
{
    let x = a.exact() + b.exact();
    if x > 0 {
        lemma_rounds_to_finite(x as nat, 1);
    } else if x < 0 {
        lemma_rounds_to_finite((-x) as nat, 1);
    }
}

/// The product of numbers that are not too large is finite.
pub proof fn products_stay_finite(a: Binary64, b: Binary64)
    requires
        a.finite() && b.finite(),
        size(a) * size(b) <= pow2(1200) * pow2(UNIT_EXPONENT as nat),
    ensures
        a.product(b).finite(),
{
    broadcast use lemma_pow2_pos;

    if !a.zero() && !b.zero() {
        let n = crate::binary64::magnitude_value(a.magnitude())
            * crate::binary64::magnitude_value(b.magnitude());
        lemma_rounds_to_finite(n, pow2(UNIT_EXPONENT as nat));
    }
}

/// The quotient of a number that is not too large by a positive one is finite.
pub proof fn quotients_stay_finite(a: Binary64, d: Binary64)
    requires
        a.finite() && d.finite(),
        d.exact() > 0,
        size(a) * pow2(UNIT_EXPONENT as nat) <= pow2(1200) * d.exact(),
    ensures
        a.quotient(d).finite(),
{
    assert(crate::binary64::magnitude_value(0) == 0);
    if !a.zero() {
        let n = crate::binary64::magnitude_value(a.magnitude()) * pow2(UNIT_EXPONENT as nat);
        lemma_rounds_to_finite(n, crate::binary64::magnitude_value(d.magnitude()));
    }
}

/// A large number of steps is below the limit of these laws.
pub proof fn many_steps()
    ensures
        0x1_0000_0000_0000_0000 * (0x1_0000_0000_0000_0000 * step()) <= pow2(1200),
        pow2(1200) > 0,
{
    broadcast use lemma_pow2_pos;

    lemma2_to64();
    lemma_pow2_adds(64, 64);
    lemma_pow2_adds(1000, 128);
    lemma_pow2_strictly_increases(1128, 1200);
    let r = pow2(1000);
    let m = pow2(128);
    assert(r * m == 0x1_0000_0000_0000_0000 * (0x1_0000_0000_0000_0000 * r)) by (nonlinear_arith)
        requires
            m == 0x1_0000_0000_0000_0000 * 0x1_0000_0000_0000_0000,
    ;
}

} // verus!
