//! What rounding keeps: order, signs and limits.
use crate::binary64::{Binary64, INFINITE_MAGNITUDE, UNIT_EXPONENT};
use crate::literal::{num, D0, D0_01, D0_25, D0_5, D1, D1000, D2, D30};
use vstd::arithmetic::power2::*;
use vstd::prelude::*;

verus! {

/// The largest magnitude up to `top` that encodes at most `n / d` units.
proof fn lemma_floor_magnitude(n: nat, d: nat, top: nat) -> (r: nat)
    requires
        d > 0,
    ensures
        r <= top,
        crate::binary64::magnitude_value(r) * d <= n,
        r < top ==> n < crate::binary64::magnitude_value(r + 1) * d,
    decreases top,
{
    assert(crate::binary64::magnitude_value(0) == 0);
    if top == 0 {
        assert(crate::binary64::magnitude_value(0) * d == 0) by (nonlinear_arith)
            requires
                crate::binary64::magnitude_value(0) == 0,
        ;
        0
    } else if crate::binary64::magnitude_value(top) * d <= n {
        top
    } else {
        let r = lemma_floor_magnitude(n, d, (top - 1) as nat);
        r
    }
}

/// Every quotient of units rounds to some magnitude.
pub proof fn rounding_is_total(n: nat, d: nat)
    requires
        d > 0,
    ensures
        crate::binary64::nearest_even(crate::binary64::rounded(n, d), n, d),
{
    let inf = INFINITE_MAGNITUDE as nat;
    let r = lemma_floor_magnitude(n, d, inf);
    let v = crate::binary64::magnitude_value(r);
    if r > 0 {
        crate::binary64::lemma_next_is_larger((r - 1) as nat);
        let u = crate::binary64::magnitude_value((r - 1) as nat);
        assert((u + v) * d < 2 * n) by (nonlinear_arith)
            requires
                u < v,
                v * d <= n,
                d > 0,
        ;
    }
    if r < inf {
        let w = crate::binary64::magnitude_value(r + 1);
        crate::binary64::lemma_next_is_larger(r + 1);
        let x = crate::binary64::magnitude_value(r + 2);
        assert(2 * n < (w + x) * d) by (nonlinear_arith)
            requires
                n < w * d,
                w < x,
                d > 0,
        ;
        let mid = (v + w) * d;
        assert(r + 1 + 1 == r + 2);
        if 2 * n < mid || (2 * n == mid && r % 2 == 0) {
            assert(crate::binary64::nearest_even(r, n, d));
        } else {
            assert(crate::binary64::nearest_even(r + 1, n, d));
        }
    } else {
        assert(crate::binary64::nearest_even(r, n, d));
    }
}

/// A larger quotient of units does not round to a smaller magnitude.
pub proof fn rounding_keeps_order(n: nat, d: nat, m: nat, c: nat)
    requires
        d > 0,
        c > 0,
        n * c <= m * d,
    ensures
        crate::binary64::rounded(n, d) <= crate::binary64::rounded(m, c),
{
    rounding_is_total(n, d);
    rounding_is_total(m, c);
    let r = crate::binary64::rounded(n, d);
    let s = crate::binary64::rounded(m, c);
    if s < r {
        let above = crate::binary64::magnitude_value(s) + crate::binary64::magnitude_value(s + 1);
        let below = crate::binary64::magnitude_value((r - 1) as nat)
            + crate::binary64::magnitude_value(r);
        crate::binary64::magnitudes_order_as_values(s, (r - 1) as nat);
        crate::binary64::magnitudes_order_as_values(s + 1, r);
        assert(above <= below);
        assert(below * d <= 2 * n);
        assert(2 * m <= above * c);
        // below * d * c <= 2 * n * c <= 2 * m * d <= above * c * d
        assert(above == below && 2 * m == above * c && below * d == 2 * n) by (nonlinear_arith)
            requires
                above <= below,
                below * d <= 2 * n,
                2 * m <= above * c,
                n * c <= m * d,
                d > 0,
                c > 0,
        ;
        if s + 1 < r {
            crate::binary64::magnitudes_order_as_values(s + 1, r);
        }
    }
}

/// A quotient that is at most the value of a magnitude rounds to at most that
/// magnitude, and one that is at least the value to at least the magnitude.
pub proof fn rounding_keeps_limits(n: nat, d: nat, mag: nat)
    requires
        d > 0,
        mag <= INFINITE_MAGNITUDE,
    ensures
        n <= crate::binary64::magnitude_value(mag) * d ==> crate::binary64::rounded(n, d) <= mag,
        n >= crate::binary64::magnitude_value(mag) * d ==> crate::binary64::rounded(n, d) >= mag,
        crate::binary64::rounded(n, d) <= INFINITE_MAGNITUDE,
{
    rounding_is_total(n, d);
    crate::binary64::exact_values_are_kept(mag);
    let v = crate::binary64::magnitude_value(mag);
    if n <= v * d {
        rounding_keeps_order(n, d, v, 1);
    }
    if n >= v * d {
        rounding_keeps_order(v, 1, n, d);
    }
}

/// A mantissa of up to 53 bits, at any exponent, has a magnitude that encodes
/// it.
pub proof fn lemma_encode(m: nat, e: nat) -> (mag: nat)
    requires
        m < 0x20_0000_0000_0000,
        e <= 2045,
    ensures
        crate::binary64::magnitude_value(mag) == m * pow2(e),
        mag < INFINITE_MAGNITUDE,
        mag <= e * 0x10_0000_0000_0000 + m,
    decreases e,
{
    if m < 0x10_0000_0000_0000 && e > 0 {
        lemma_pow2_unfold(e);
        let p = pow2((e - 1) as nat);
        assert((2 * m) * p == m * (2 * p)) by (nonlinear_arith);
        lemma_encode(2 * m, (e - 1) as nat)
    } else {
        crate::binary64::lemma_canonical_value(m, e);
        e * 0x10_0000_0000_0000 + m
    }
}

/// Integers up to 2 to the power 53 are encoded exactly.
pub proof fn small_integers_are_exact(k: nat)
    requires
        k <= 0x20_0000_0000_0000,
    ensures
        Binary64::integer(k).finite(),
        !Binary64::integer(k).negative(),
        Binary64::integer(k).exact() == k * pow2(UNIT_EXPONENT as nat),
{
    let u = pow2(UNIT_EXPONENT as nat);
    assert(crate::binary64::magnitude_value(0) == 0);
    if k == 0 {
        assert(k * u == 0) by (nonlinear_arith)
            requires
                k == 0,
        ;
    } else if k < 0x20_0000_0000_0000 {
        let mag = lemma_encode(k, UNIT_EXPONENT as nat);
        crate::binary64::exact_values_are_kept(mag);
    } else {
        let mag = lemma_encode(0x10_0000_0000_0000, 1075);
        lemma_pow2_unfold(1075);
        assert(0x10_0000_0000_0000 * pow2(1075) == k * u) by (nonlinear_arith)
            requires
                pow2(1075) == 2 * u,
                k == 0x20_0000_0000_0000,
        ;
        crate::binary64::exact_values_are_kept(mag);
    }
}

/// Every 64-bit integer rounds to a finite number.
pub proof fn integers_are_finite(k: u64)
    ensures
        Binary64::integer(k as nat).finite(),
        !Binary64::integer(k as nat).negative(),
        k > 0 ==> num(D1).not_above(Binary64::integer(k as nat)),
{
    let u = pow2(UNIT_EXPONENT as nat);
    lemma_pow2_pos(UNIT_EXPONENT as nat);
    assert(crate::binary64::magnitude_value(0) == 0);
    if k > 0 {
        let mag = lemma_encode(1, (UNIT_EXPONENT + 64) as nat);
        lemma2_to64();
        lemma_pow2_adds(64, UNIT_EXPONENT as nat);
        let n = k as nat * u;
        assert(n <= 1 * pow2((UNIT_EXPONENT + 64) as nat)) by (nonlinear_arith)
            requires
                n == k as nat * u,
                k <= 0xFFFF_FFFF_FFFF_FFFF,
                pow2((UNIT_EXPONENT + 64) as nat) == 0x1_0000_0000_0000_0000 * u,
        ;
        rounding_keeps_limits(n, 1, mag);
        // One is encoded with mantissa 2^52 and exponent 1022.
        let one: nat = 1022 * 0x10_0000_0000_0000 + 0x10_0000_0000_0000;
        crate::binary64::lemma_canonical_value(0x10_0000_0000_0000, 1022);
        lemma2_to64_rest();
        lemma_pow2_adds(52, 1022);
        assert(n >= u) by (nonlinear_arith)
            requires
                n == k as nat * u,
                k >= 1,
        ;
        rounding_keeps_limits(n, 1, one);
    }
}

/// Finite numbers are ordered as their values.
pub proof fn ranks_order_as_values(a: Binary64, b: Binary64)
    ensures
        a.rank() < b.rank() <==> a.exact() < b.exact(),
        a.rank() == b.rank() <==> a.exact() == b.exact(),
{
    crate::binary64::magnitudes_order_as_values(a.magnitude(), b.magnitude());
    crate::binary64::magnitudes_order_as_values(a.magnitude(), 0);
    crate::binary64::magnitudes_order_as_values(b.magnitude(), 0);
    assert(crate::binary64::magnitude_value(0) == 0);
}

/// A number is a fraction if it lies between zero and one.
pub open spec fn is_fraction(x: Binary64) -> bool {
    num(D0).not_above(x) && x.not_above(num(D1))
}

/// A finite number divided by a number other than zero is a number, with the
/// sign that the signs give.
pub proof fn quotients_are_numbers(a: Binary64, b: Binary64)
    requires
        a.finite(),
        !b.nan(),
        !b.zero(),
    ensures
        !a.quotient(b).nan(),
        a.quotient(b).negative() == (a.negative() != b.negative()),
{
    if b.finite() && !a.zero() {
        crate::binary64::magnitudes_order_as_values(b.magnitude(), 0);
        assert(crate::binary64::magnitude_value(0) == 0);
        rounding_is_total(
            crate::binary64::magnitude_value(a.magnitude()) * pow2(UNIT_EXPONENT as nat),
            crate::binary64::magnitude_value(b.magnitude()),
        );
    }
}

/// The product of finite numbers is a number, with the sign that the signs
/// give.
pub proof fn products_are_numbers(a: Binary64, b: Binary64)
    requires
        a.finite(),
        b.finite(),
    ensures
        !a.product(b).nan(),
        a.product(b).negative() == (a.negative() != b.negative()),
{
    if !a.zero() && !b.zero() {
        lemma_pow2_pos(UNIT_EXPONENT as nat);
        rounding_is_total(
            crate::binary64::magnitude_value(a.magnitude()) * crate::binary64::magnitude_value(
                b.magnitude(),
            ),
            pow2(UNIT_EXPONENT as nat),
        );
    }
}

/// The sum of two numbers that are not negative is not negative, and the sum
/// of two that are not positive is not positive.
pub proof fn sums_keep_signs(a: Binary64, b: Binary64)
    ensures
        num(D0).not_above(a) && num(D0).not_above(b) ==> num(D0).not_above(a.sum(b)),
        a.not_above(num(D0)) && b.not_above(num(D0)) ==> a.sum(b).not_above(num(D0)),
{
    let x = a.exact() + b.exact();
    assert(crate::binary64::magnitude_value(0) == 0);
    rounding_is_total(if x < 0 { (-x) as nat } else { x as nat }, 1);
}

/// The product of two numbers that are not negative is not negative, where it
/// is a number; that of one that is not positive and one that is not negative
/// is not positive.
pub proof fn products_keep_signs(a: Binary64, b: Binary64)
    requires
        !a.product(b).nan(),
    ensures
        num(D0).not_above(a) && num(D0).not_above(b) ==> num(D0).not_above(a.product(b)),
        a.not_above(num(D0)) && num(D0).not_above(b) ==> a.product(b).not_above(num(D0)),
        num(D0).not_above(a) && b.not_above(num(D0)) ==> a.product(b).not_above(num(D0)),
{
    if a.finite() && b.finite() {
        products_are_numbers(a, b);
    }
}

/// The product of two fractions is a fraction, and not above either.
pub proof fn products_of_fractions(a: Binary64, b: Binary64)
    requires
        is_fraction(a),
        is_fraction(b),
    ensures
        is_fraction(a.product(b)),
        a.product(b).not_above(a),
        a.product(b).not_above(b),
{
    products_are_numbers(a, b);
    products_keep_signs(a, b);
    if !a.zero() && !b.zero() {
        lemma_product_below(a.magnitude(), b.magnitude());
        lemma_product_below(b.magnitude(), a.magnitude());
        let x = crate::binary64::magnitude_value(a.magnitude());
        let y = crate::binary64::magnitude_value(b.magnitude());
        assert(x * y == y * x) by (nonlinear_arith);
    }
}

/// A finite number that is not negative times a fraction is not negative and
/// not above the number.
pub proof fn fractions_shrink(a: Binary64, f: Binary64)
    requires
        a.finite(),
        num(D0).not_above(a),
        is_fraction(f),
    ensures
        num(D0).not_above(a.product(f)),
        a.product(f).not_above(a),
        a.product(f).finite(),
{
    products_are_numbers(a, f);
    products_keep_signs(a, f);
    if !a.zero() && !f.zero() {
        lemma_product_below(a.magnitude(), f.magnitude());
    }
}

/// The same for a number that is not positive.
pub proof fn fractions_shrink_negatives(a: Binary64, f: Binary64)
    requires
        a.finite(),
        a.not_above(num(D0)),
        is_fraction(f),
    ensures
        a.product(f).not_above(num(D0)),
        a.not_above(a.product(f)),
        a.product(f).finite(),
{
    products_are_numbers(a, f);
    products_keep_signs(a, f);
    if !a.zero() && !f.zero() {
        lemma_product_below(a.magnitude(), f.magnitude());
    }
}

proof fn lemma_product_below(a: nat, b: nat)
    requires
        b <= D1,
        a < INFINITE_MAGNITUDE,
    ensures
        crate::binary64::rounded(
            crate::binary64::magnitude_value(a) * crate::binary64::magnitude_value(b),
            pow2(UNIT_EXPONENT as nat),
        ) <= a,
{
    let u = pow2(UNIT_EXPONENT as nat);
    lemma_pow2_pos(UNIT_EXPONENT as nat);
    crate::binary64::lemma_canonical_value(0x10_0000_0000_0000, 1022);
    lemma2_to64_rest();
    lemma_pow2_adds(52, 1022);
    crate::binary64::magnitudes_order_as_values(b, D1 as nat);
    let x = crate::binary64::magnitude_value(a);
    let y = crate::binary64::magnitude_value(b);
    assert(x * y <= x * u) by (nonlinear_arith)
        requires
            y <= u,
    ;
    rounding_keeps_limits(x * y, u, a);
}

/// A product with a larger factor is not smaller in size.
pub proof fn products_keep_order(w: Binary64, a: Binary64, b: Binary64)
    requires
        w.finite(),
        w.not_above(num(D0)),
        num(D0).not_above(a),
        a.not_above(b),
        b.finite(),
    ensures
        w.product(b).not_above(w.product(a)),
{
    products_are_numbers(w, a);
    products_are_numbers(w, b);
    products_keep_signs(w, a);
    products_keep_signs(w, b);
    if !w.zero() && !a.zero() && !b.zero() {
        let u = pow2(UNIT_EXPONENT as nat);
        lemma_pow2_pos(UNIT_EXPONENT as nat);
        let v = crate::binary64::magnitude_value(w.magnitude());
        let x = crate::binary64::magnitude_value(a.magnitude());
        let y = crate::binary64::magnitude_value(b.magnitude());
        crate::binary64::magnitudes_order_as_values(a.magnitude(), b.magnitude());
        assert((v * x) * u <= (v * y) * u) by (nonlinear_arith)
            requires
                x <= y,
        ;
        rounding_keeps_order(v * x, u, v * y, u);
        rounding_is_total(v * x, u);
        rounding_is_total(v * y, u);
    }
}

/// Quotients of integers by a positive number are ordered as the integers.
pub proof fn quotients_keep_order(a: Binary64, b: Binary64, d: Binary64)
    requires
        num(D0).not_above(a),
        a.not_above(b),
        b.finite(),
        num(D0).below(d),
        d.finite(),
    ensures
        num(D0).not_above(a.quotient(d)),
        a.quotient(d).not_above(b.quotient(d)),
{
    quotients_are_numbers(a, d);
    quotients_are_numbers(b, d);
    crate::binary64::magnitudes_order_as_values(d.magnitude(), 0);
    assert(crate::binary64::magnitude_value(0) == 0);
    if !a.zero() && !b.zero() {
        let u = pow2(UNIT_EXPONENT as nat);
        let x = crate::binary64::magnitude_value(a.magnitude());
        let y = crate::binary64::magnitude_value(b.magnitude());
        let z = crate::binary64::magnitude_value(d.magnitude());
        crate::binary64::magnitudes_order_as_values(a.magnitude(), b.magnitude());
        assert((x * u) * z <= (y * u) * z) by (nonlinear_arith)
            requires
                x <= y,
        ;
        rounding_keeps_order(x * u, z, y * u, z);
        rounding_is_total(x * u, z);
        rounding_is_total(y * u, z);
    }
}

/// One minus a fraction is a fraction.
pub proof fn complements_of_fractions(a: Binary64)
    requires
        is_fraction(a),
    ensures
        is_fraction(num(D1).difference(a)),
{
    let one = num(D1);
    let n = a.negated();
    let x = one.exact() + n.exact();
    assert(crate::binary64::magnitude_value(0) == 0);
    ranks_order_as_values(a, one);
    ranks_order_as_values(num(D0), a);
    assert(n.exact() == -a.exact());
    assert(0 <= x <= one.exact());
    rounding_keeps_limits(x as nat, 1, one.magnitude());
}

/// Taking away what is not negative does not raise a number.
pub proof fn differences_shrink(a: Binary64, b: Binary64)
    requires
        !a.nan(),
        a.finite() || a.negative(),
        num(D0).not_above(b),
    ensures
        a.difference(b).not_above(a),
        a.difference(b).finite() || a.difference(b).negative(),
{
    let n = b.negated();
    let x = a.exact() + n.exact();
    assert(crate::binary64::magnitude_value(0) == 0);
    ranks_order_as_values(num(D0), a);
    ranks_order_as_values(num(D0), b);
    if a.finite() && b.finite() {
        assert(n.exact() == -b.exact());
        if x > 0 {
            rounding_keeps_limits(x as nat, 1, a.magnitude());
        } else if x < 0 {
            rounding_is_total((-x) as nat, 1);
            if a.exact() < 0 {
                rounding_keeps_limits((-x) as nat, 1, a.magnitude());
            }
        }
    }
}

/// Adding what is not negative does not lower a number.
pub proof fn sums_grow(a: Binary64, b: Binary64)
    requires
        a.finite(),
        num(D0).not_above(a),
        num(D0).not_above(b),
    ensures
        a.not_above(a.sum(b)),
{
    let x = a.exact() + b.exact();
    assert(crate::binary64::magnitude_value(0) == 0);
    ranks_order_as_values(num(D0), a);
    ranks_order_as_values(num(D0), b);
    if b.finite() {
        rounding_keeps_limits(x as nat, 1, a.magnitude());
        rounding_is_total(x as nat, 1);
    }
}

/// One over a number that is at least one is a fraction.
pub proof fn reciprocals_of_large_numbers(d: Binary64)
    requires
        num(D1).not_above(d),
    ensures
        is_fraction(num(D1).quotient(d)),
{
    let one = num(D1);
    if d.finite() {
        quotients_are_numbers(one, d);
        let u = pow2(UNIT_EXPONENT as nat);
        lemma_pow2_pos(UNIT_EXPONENT as nat);
        crate::binary64::lemma_canonical_value(0x10_0000_0000_0000, 1022);
        lemma2_to64_rest();
        lemma_pow2_adds(52, 1022);
        crate::binary64::magnitudes_order_as_values(one.magnitude(), d.magnitude());
        let x = crate::binary64::magnitude_value(one.magnitude());
        let z = crate::binary64::magnitude_value(d.magnitude());
        assert(x == u);
        assert(x * u <= x * z) by (nonlinear_arith)
            requires
                u <= z,
        ;
        rounding_keeps_limits(x * u, z, one.magnitude());
    }
}

/// A number taken from itself leaves zero.
pub proof fn differences_cancel(a: Binary64)
    requires
        a.finite(),
    ensures
        a.difference(a) == num(D0),
{
}

/// Adding zero to a number, or taking it away, changes at most the sign of
/// zero.
pub proof fn zero_is_neutral(a: Binary64)
    requires
        a.finite(),
        !a.zero(),
    ensures
        a.sum(num(D0)) == a,
        a.difference(num(D0)) == a,
{
    assert(crate::binary64::magnitude_value(0) == 0);
    crate::binary64::numbers_are_kept(a);
    crate::binary64::magnitudes_order_as_values(a.magnitude(), 0);
}

/// Zero times a finite number is zero.
pub proof fn zero_absorbs(a: Binary64, b: Binary64)
    requires
        a.zero(),
        b.finite(),
    ensures
        a.product(b).zero(),
        b.product(a).zero(),
{
}

/// Sums and differences of zeros are zero.
pub proof fn zeros_add_to_zero(a: Binary64, b: Binary64)
    requires
        a.zero(),
        b.zero(),
    ensures
        a.sum(b).zero(),
        a.difference(b).zero(),
{
    assert(crate::binary64::magnitude_value(0) == 0);
}

/// Taking away zero of either sign keeps a finite number, but for the sign of
/// zero.
pub proof fn zeros_take_nothing_away(a: Binary64, b: Binary64)
    requires
        a.finite(),
        b.zero(),
    ensures
        a.zero() ==> a.difference(b).zero(),
        !a.zero() ==> a.difference(b) == a,
{
    assert(crate::binary64::magnitude_value(0) == 0);
    crate::binary64::numbers_are_kept(a);
    crate::binary64::magnitudes_order_as_values(a.magnitude(), 0);
}

/// The order of factors does not matter.
pub proof fn products_commute(a: Binary64, b: Binary64)
    ensures
        a.product(b) == b.product(a),
{
    let x = crate::binary64::magnitude_value(a.magnitude());
    let y = crate::binary64::magnitude_value(b.magnitude());
    assert(x * y == y * x) by (nonlinear_arith);
}

/// The order of summands does not matter.
pub proof fn sums_commute(a: Binary64, b: Binary64)
    ensures
        a.sum(b) == b.sum(a),
{
}

/// Adding the same to two numbers keeps their order, where both sums are
/// numbers.
pub proof fn sums_keep_order(a: Binary64, b: Binary64, c: Binary64)
    requires
        a.not_above(b),
        !a.sum(c).nan(),
        !b.sum(c).nan(),
    ensures
        a.sum(c).not_above(b.sum(c)),
{
    if a.finite() && b.finite() && c.finite() {
        let x = a.exact() + c.exact();
        let y = b.exact() + c.exact();
        ranks_order_as_values(a, b);
        rounding_is_total(if x < 0 { (-x) as nat } else { x as nat }, 1);
        rounding_is_total(if y < 0 { (-y) as nat } else { y as nat }, 1);
        if 0 <= x {
            rounding_keeps_order(x as nat, 1, y as nat, 1);
        } else if y <= 0 {
            rounding_keeps_order((-y) as nat, 1, (-x) as nat, 1);
        }
        rounding_keeps_limits(0, 1, 0);
        assert(crate::binary64::magnitude_value(0) == 0);
    } else if c.finite() {
        if a.finite() {
            let x = a.exact() + c.exact();
            rounding_keeps_limits(if x < 0 { (-x) as nat } else { x as nat }, 1, 0);
        }
        if b.finite() {
            let y = b.exact() + c.exact();
            rounding_keeps_limits(if y < 0 { (-y) as nat } else { y as nat }, 1, 0);
        }
    }
}

/// A factor that is not negative keeps the order of two numbers.
pub proof fn factors_keep_order(w: Binary64, a: Binary64, b: Binary64)
    requires
        w.finite(),
        num(D0).not_above(w),
        a.not_above(b),
        a.finite(),
        b.finite(),
    ensures
        w.product(a).not_above(w.product(b)),
        a.product(w).not_above(b.product(w)),
{
    products_are_numbers(w, a);
    products_are_numbers(w, b);
    products_commute(w, a);
    products_commute(w, b);
    products_keep_signs(w, a);
    products_keep_signs(w, b);
    if !w.zero() && !a.zero() && !b.zero() {
        let u = pow2(UNIT_EXPONENT as nat);
        lemma_pow2_pos(UNIT_EXPONENT as nat);
        let v = crate::binary64::magnitude_value(w.magnitude());
        let x = crate::binary64::magnitude_value(a.magnitude());
        let y = crate::binary64::magnitude_value(b.magnitude());
        crate::binary64::magnitudes_order_as_values(a.magnitude(), b.magnitude());
        crate::binary64::magnitudes_order_as_values(b.magnitude(), a.magnitude());
        rounding_is_total(v * x, u);
        rounding_is_total(v * y, u);
        if x <= y {
            assert((v * x) * u <= (v * y) * u) by (nonlinear_arith)
                requires
                    x <= y,
            ;
            rounding_keeps_order(v * x, u, v * y, u);
        }
        if y <= x {
            assert((v * y) * u <= (v * x) * u) by (nonlinear_arith)
                requires
                    y <= x,
            ;
            rounding_keeps_order(v * y, u, v * x, u);
        }
    }
}

/// Adding zero of either sign keeps a finite number, but for the sign of zero.
pub proof fn zeros_add_nothing(a: Binary64, b: Binary64)
    requires
        a.finite(),
        b.zero(),
    ensures
        a.zero() ==> a.sum(b).zero() && b.sum(a).zero(),
        !a.zero() ==> a.sum(b) == a && b.sum(a) == a,
{
    sums_commute(a, b);
    zeros_take_nothing_away(a, b.negated());
    assert(b.negated().negated() == b);
}

/// The part of a whole is a fraction of it.
pub proof fn shares_are_fractions(part: Binary64, whole: Binary64)
    requires
        num(D0).not_above(part),
        part.not_above(whole),
        num(D0).below(whole),
        whole.finite(),
    ensures
        is_fraction(part.quotient(whole)),
{
    quotients_are_numbers(part, whole);
    crate::binary64::magnitudes_order_as_values(whole.magnitude(), 0);
    assert(crate::binary64::magnitude_value(0) == 0);
    if !part.zero() {
        let u = pow2(UNIT_EXPONENT as nat);
        let x = crate::binary64::magnitude_value(part.magnitude());
        let z = crate::binary64::magnitude_value(whole.magnitude());
        crate::binary64::magnitudes_order_as_values(part.magnitude(), whole.magnitude());
        crate::binary64::lemma_canonical_value(0x10_0000_0000_0000, 1022);
        lemma2_to64_rest();
        lemma_pow2_adds(52, 1022);
        assert(x * u <= u * z) by (nonlinear_arith)
            requires
                x <= z,
        ;
        rounding_keeps_limits(x * u, z, D1 as nat);
    }
}

/// The sum of finite numbers is a number.
pub proof fn sums_are_numbers(a: Binary64, b: Binary64)
    requires
        a.finite(),
        b.finite(),
    ensures
        !a.sum(b).nan(),
{
    let x = a.exact() + b.exact();
    rounding_keeps_limits(if x < 0 { (-x) as nat } else { x as nat }, 1, 0);
}

/// The sign of a factor is that of the product.
pub proof fn negated_factors(a: Binary64, b: Binary64)
    requires
        a.finite(),
        b.finite(),
    ensures
        a.product(b.negated()) == a.product(b).negated(),
{
    products_are_numbers(a, b);
    products_are_numbers(a, b.negated());
    lemma_pow2_pos(UNIT_EXPONENT as nat);
    rounding_keeps_limits(
        crate::binary64::magnitude_value(a.magnitude()) * crate::binary64::magnitude_value(
            b.magnitude(),
        ),
        pow2(UNIT_EXPONENT as nat),
        0,
    );
}

/// The sign of a number is that of its quotient by a positive one.
pub proof fn negated_quotients(a: Binary64, d: Binary64)
    requires
        !a.nan(),
        d.finite(),
        num(D0).below(d),
    ensures
        a.negated().quotient(d) == a.quotient(d).negated(),
{
    if a.finite() && !a.zero() {
        let n = crate::binary64::magnitude_value(a.magnitude()) * pow2(UNIT_EXPONENT as nat);
        let k = crate::binary64::magnitude_value(d.magnitude());
        crate::binary64::magnitudes_order_as_values(0, d.magnitude());
        assert(crate::binary64::magnitude_value(0) == 0);
        rounding_is_total(n, k);
    }
}

/// A positive divisor keeps the order of two numbers.
pub proof fn divisors_keep_order(a: Binary64, b: Binary64, d: Binary64)
    requires
        a.not_above(b),
        d.finite(),
        num(D0).below(d),
    ensures
        a.quotient(d).not_above(b.quotient(d)),
{
    if a.finite() {
        quotients_are_numbers(a, d);
    }
    if b.finite() {
        quotients_are_numbers(b, d);
    }
    if a.finite() && b.finite() {
        if num(D0).not_above(a) {
            quotients_keep_order(a, b, d);
        } else if b.not_above(num(D0)) {
            quotients_keep_order(b.negated(), a.negated(), d);
            negated_quotients(a, d);
            negated_quotients(b, d);
        }
    }
}

/// A difference has the sign of the order of its terms.
pub proof fn differences_tell_the_order(a: Binary64, b: Binary64)
    requires
        a.finite(),
        b.finite(),
    ensures
        !a.difference(b).nan(),
        a.not_above(b) <==> a.difference(b).not_above(num(D0)),
        b.not_above(a) <==> num(D0).not_above(a.difference(b)),
{
    let x = a.exact() - b.exact();
    ranks_order_as_values(a, b);
    ranks_order_as_values(b, a);
    assert(b.negated().exact() == -b.exact());
    assert(crate::binary64::magnitude_value(0) == 0);
    let one = crate::binary64::magnitude_value(1);
    assert(one == 1);
    if x > 0 {
        rounding_is_total(x as nat, 1);
        rounding_keeps_limits(x as nat, 1, 1);
    } else if x < 0 {
        rounding_is_total((-x) as nat, 1);
        rounding_keeps_limits((-x) as nat, 1, 1);
    }
}

/// Times one a number stays as it is.
pub proof fn one_is_neutral(a: Binary64)
    requires
        !a.nan(),
    ensures
        a.product(num(D1)) == a,
        num(D1).product(a) == a,
{
    products_commute(a, num(D1));
    if a.finite() && !a.zero() {
        let d = pow2(UNIT_EXPONENT as nat);
        lemma_pow2_pos(UNIT_EXPONENT as nat);
        let m = crate::binary64::magnitude_value(a.magnitude());
        lemma_pow2_adds(1022, 52);
        lemma_pow2_adds(32, 20);
        lemma2_to64();
        let p = pow2(1022);
        assert(crate::binary64::magnitude_value(num(D1).magnitude()) == 0x10_0000_0000_0000 * p);
        assert(p * pow2(52) == 0x10_0000_0000_0000 * p) by (nonlinear_arith)
            requires
                pow2(52) == 0x10_0000_0000_0000,
        ;
        assert(crate::binary64::magnitude_value(num(D1).magnitude()) == d);
        rounding_keeps_limits(m * d, d, a.magnitude());
    }
}

/// Order is kept by a sum of terms in order.
pub proof fn sums_of_ordered_terms(a: Binary64, b: Binary64, c: Binary64, d: Binary64)
    requires
        a.not_above(b),
        c.not_above(d),
        !a.sum(c).nan(),
        !b.sum(d).nan(),
    ensures
        a.sum(c).not_above(b.sum(d)),
{
    if !b.sum(c).nan() {
        sums_keep_order(a, b, c);
        sums_commute(b, c);
        sums_commute(b, d);
        sums_keep_order(c, d, b);
    } else {
        if b.finite() && c.finite() {
            sums_are_numbers(b, c);
        }
        assert(b.infinite() && c.infinite() && b.negative() != c.negative());
        if b.negative() {
            assert(a.infinite() && a.negative());
            assert(a.sum(c).nan());
        }
        assert(b.sum(d) == b);
        assert(a.sum(c).infinite() && a.sum(c).negative());
    }
}

/// Whether a number has the sign of a product of two, where it is not zero; it
/// is zero where one of them is.
pub open spec fn like_product(r: Binary64, a: Binary64, b: Binary64) -> bool {
    &&& !r.nan()
    &&& a.zero() || b.zero() ==> r.zero()
    &&& !r.zero() ==> r.negative() == (a.negative() != b.negative())
}

/// A product has its own sign, and so has it after another factor that is not
/// negative.
pub proof fn products_have_their_signs(a: Binary64, b: Binary64)
    requires
        a.finite(),
        b.finite(),
    ensures
        like_product(a.product(b), a, b),
        like_product(a.product(b).negated(), a.negated(), b),
        like_product(a.product(b).negated(), a, b.negated()),
{
    products_are_numbers(a, b);
}

/// Adding zero keeps the sign.
pub proof fn zeros_keep_signs(a: Binary64, z: Binary64)
    requires
        !a.nan(),
        z.zero(),
    ensures
        a.sum(z).same(a) && z.sum(a).same(a) && a.difference(z).same(a),
        a.zero() ==> a.sum(z).zero() && z.sum(a).zero() && a.difference(z).zero(),
        !a.zero() ==> a.sum(z) == a && z.sum(a) == a && a.difference(z) == a,
{
    if a.finite() {
        zeros_add_nothing(a, z);
        zeros_add_nothing(a, z.negated());
    }
}

/// Twice a number is exact, as long as it is finite.
proof fn lemma_twice(a: Binary64)
    requires
        a.finite(),
        a.sum(a).finite(),
    ensures
        a.sum(a).exact() == 2 * a.exact(),
        a.sum(a).negative() == a.negative() || a.zero(),
{
    let m = crate::binary64::magnitude_value(a.magnitude());
    assert(crate::binary64::magnitude_value(0) == 0);
    if !a.zero() {
        crate::binary64::magnitudes_order_as_values(0, a.magnitude());
        let (x, e) = crate::binary64::lemma_decode(a.magnitude());
        crate::binary64::lemma_canonical_value(x, e);
        assert(e <= 2045) by {
            assert(e * 0x10_0000_0000_0000 <= a.magnitude());
        }
        if e <= 2044 {
            let mag = lemma_encode(x, e + 1);
            lemma_pow2_unfold(e + 1);
            assert(x * pow2(e + 1) == 2 * (x * pow2(e))) by (nonlinear_arith)
                requires
                    pow2(e + 1) == 2 * pow2(e),
            ;
            crate::binary64::exact_values_are_kept(mag);
            assert(crate::binary64::rounded(2 * m, 1) == mag);
        } else {
            // The double of the largest numbers is not finite.
            assert(x >= 0x10_0000_0000_0000);
            crate::binary64::lemma_canonical_value(0x10_0000_0000_0000, 2046);
            lemma_pow2_unfold(2046);
            assert(2 * m >= 0x10_0000_0000_0000 * pow2(2046)) by (nonlinear_arith)
                requires
                    m == x * pow2(e),
                    e == 2045,
                    pow2(2046) == 2 * pow2(2045),
                    x >= 0x10_0000_0000_0000,
            ;
            rounding_keeps_limits(2 * m, 1, INFINITE_MAGNITUDE as nat);
        }
        rounding_is_total(2 * m, 1);
    }
}

/// Half of twice a number is that number.
pub proof fn halves_undo_doubles(a: Binary64)
    requires
        a.finite(),
        a.sum(a).finite(),
    ensures
        a.sum(a).product(num(D0_5)) == a,
{
    lemma_twice(a);
    let b = a.sum(a);
    if !a.zero() {
        let d = pow2(UNIT_EXPONENT as nat);
        lemma_pow2_pos(UNIT_EXPONENT as nat);
        let m = crate::binary64::magnitude_value(a.magnitude());
        crate::binary64::magnitudes_order_as_values(0, a.magnitude());
        assert(crate::binary64::magnitude_value(0) == 0);
        assert(crate::binary64::magnitude_value(b.magnitude()) == 2 * m);
        lemma_pow2_adds(1021, 52);
        lemma_pow2_adds(32, 20);
        lemma_pow2_unfold(1074);
        lemma2_to64();
        let p = pow2(1021);
        let h = crate::binary64::magnitude_value(num(D0_5).magnitude());
        assert(h == 0x10_0000_0000_0000 * p);
        assert(p * pow2(52) == 0x10_0000_0000_0000 * p) by (nonlinear_arith)
            requires
                pow2(52) == 0x10_0000_0000_0000,
        ;
        assert(2 * h == d);
        assert((2 * m) * h == m * d) by (nonlinear_arith)
            requires
                2 * h == d,
        ;
        rounding_keeps_limits(m * d, d, a.magnitude());
    }
}

/// Twice a number is the number and itself.
pub proof fn doubles_are_sums(a: Binary64)
    requires
        a.finite(),
        !a.zero(),
    ensures
        num(D2).product(a) == a.sum(a),
{
    let d = pow2(UNIT_EXPONENT as nat);
    lemma_pow2_pos(UNIT_EXPONENT as nat);
    let m = crate::binary64::magnitude_value(a.magnitude());
    crate::binary64::magnitudes_order_as_values(0, a.magnitude());
    assert(crate::binary64::magnitude_value(0) == 0);
    lemma_pow2_adds(1023, 52);
    lemma_pow2_adds(32, 20);
    lemma_pow2_unfold(1075);
    lemma2_to64();
    let p = pow2(1023);
    let t = crate::binary64::magnitude_value(num(D2).magnitude());
    assert(t == 0x10_0000_0000_0000 * p);
    assert(p * pow2(52) == 0x10_0000_0000_0000 * p) by (nonlinear_arith)
        requires
            pow2(52) == 0x10_0000_0000_0000,
    ;
    assert(t == 2 * d);
    let n = t * m;
    assert(n * 1 == (2 * m) * d) by (nonlinear_arith)
        requires
            n == t * m,
            t == 2 * d,
    ;
    rounding_keeps_order(n, d, 2 * m, 1);
    rounding_keeps_order(2 * m, 1, n, d);
    rounding_is_total(2 * m, 1);
}

/// The numbers nearest to values are ordered as the values.
pub proof fn nearest_numbers_keep_order(x: int, y: int, s: bool, t: bool)
    requires
        x <= y,
    ensures
        Binary64::nearest(x, s).not_above(Binary64::nearest(y, t)),
{
    if x < 0 {
        rounding_is_total((-x) as nat, 1);
    }
    if x > 0 {
        rounding_is_total(x as nat, 1);
    }
    if y < 0 {
        rounding_is_total((-y) as nat, 1);
        rounding_keeps_order((-y) as nat, 1, (-x) as nat, 1);
    }
    if y > 0 {
        rounding_is_total(y as nat, 1);
        if x > 0 {
            rounding_keeps_order(x as nat, 1, y as nat, 1);
        }
    }
}

/// Rounding down keeps the order of two numbers, and does not raise one.
pub proof fn floors_keep_order(a: Binary64, b: Binary64)
    requires
        a.finite(),
        b.finite(),
        a.not_above(b),
    ensures
        a.floored().not_above(b.floored()),
        a.floored().not_above(a),
{
    ranks_order_as_values(a, b);
    let one = pow2(UNIT_EXPONENT as nat) as int;
    lemma_pow2_pos(UNIT_EXPONENT as nat);
    let (p, q) = (a.exact(), b.exact());
    assert(p / one <= q / one && (p / one) * one <= p) by (nonlinear_arith)
        requires
            p <= q,
            one > 0,
    ;
    assert((p / one) * one <= (q / one) * one) by (nonlinear_arith)
        requires
            p / one <= q / one,
            one > 0,
    ;
    nearest_numbers_keep_order((p / one) * one, (q / one) * one, a.negative(), b.negative());
    nearest_numbers_keep_order((p / one) * one, p, a.negative(), a.negative());
    crate::binary64::numbers_are_kept(a);
}

/// A share of the way to a target leads towards it, and further for a target
/// that is further.
pub proof fn shares_lead_towards(x: Binary64, a: Binary64, b: Binary64, share: Binary64)
    requires
        x.finite() && a.finite() && b.finite(),
        a.not_above(b),
        a.difference(x).finite() && b.difference(x).finite(),
        share.finite() && num(D0).not_above(share),
    ensures
        ({
            let p = x.sum(share.product(a.difference(x)));
            let q = x.sum(share.product(b.difference(x)));
            &&& p.not_above(q)
            &&& x.not_above(a) ==> x.not_above(p)
            &&& a.not_above(x) ==> p.not_above(x)
            &&& share.zero() ==> p.same(x)
        }),
{
    let (d, e) = (a.difference(x), b.difference(x));
    sums_keep_order(a, b, x.negated());
    differences_tell_the_order(a, x);
    factors_keep_order(share, d, e);
    products_are_numbers(share, d);
    products_are_numbers(share, e);
    products_keep_signs(share, d);
    let (p, q) = (share.product(d), share.product(e));
    if p.finite() {
        sums_are_numbers(x, p);
    }
    if q.finite() {
        sums_are_numbers(x, q);
    }
    sums_of_ordered_terms(x, x, p, q);
    zeros_keep_signs(x, num(D0));
    sums_are_numbers(x, num(D0));
    if num(D0).not_above(p) {
        sums_of_ordered_terms(x, x, num(D0), p);
    }
    if p.not_above(num(D0)) {
        sums_of_ordered_terms(x, x, p, num(D0));
    }
    if share.zero() {
        zero_absorbs(share, d);
        zeros_keep_signs(x, p);
    }
}

/// The share that a step has of itself and a time constant is a fraction.
pub proof fn steps_are_shares(tau: Binary64, dt: Binary64)
    requires
        tau.finite() && num(D0).below(tau),
        dt.finite() && num(D0).not_above(dt),
    ensures
        dt.quotient(tau.sum(dt)).finite(),
        num(D0).not_above(dt.quotient(tau.sum(dt))),
{
    let span = tau.sum(dt);
    sums_grow(tau, dt);
    sums_grow(dt, tau);
    sums_commute(tau, dt);
    if span.finite() {
        shares_are_fractions(dt, span);
    }
}

/// The squares of numbers grow with their size, whatever their signs, and so
/// they do when they are weighed.
pub proof fn weighed_squares_grow(w: Binary64, a: Binary64, b: Binary64)
    requires
        w.finite() && num(D0).not_above(w),
        a.finite() && b.finite(),
        a.absolute().not_above(b.absolute()),
        w.product(a).finite() && w.product(b).finite(),
    ensures
        num(D0).not_above(w.product(a).product(a)),
        w.product(a).product(a).not_above(w.product(b).product(b)),
        a.zero() ==> w.product(a).product(a).zero(),
{
    let (p, q) = (a.absolute(), b.absolute());
    lemma_unsigned_square(w, a);
    lemma_unsigned_square(w, b);
    factors_keep_order(w, p, q);
    products_are_numbers(w, p);
    products_are_numbers(w, q);
    products_keep_signs(w, p);
    products_keep_signs(w, q);
    let (s, t) = (w.product(p), w.product(q));
    factors_keep_order(s, p, q);
    factors_keep_order(q, s, t);
    products_are_numbers(s, p);
    products_keep_signs(s, p);
    if a.zero() {
        zero_absorbs(a, w);
        zero_absorbs(w.product(a), a);
    }
}

/// A weighed square does not depend on the sign.
proof fn lemma_unsigned_square(w: Binary64, a: Binary64)
    requires
        w.finite() && a.finite(),
        w.product(a).finite(),
    ensures
        w.product(a).product(a) == w.product(a.absolute()).product(a.absolute()),
        w.product(a.absolute()).finite(),
{
    if a.negative() {
        assert(a.absolute() == a.negated());
        negated_factors(w, a);
        let p = w.product(a);
        negated_factors(p.negated(), a);
        products_commute(p.negated(), a);
        negated_factors(a, p);
        products_commute(a, p);
        crate::rotation::double_negation(p.product(a));
    } else {
        assert(a.absolute() == a);
    }
}

/// The squares of two numbers.
pub proof fn squares_grow(a: Binary64, b: Binary64)
    requires
        a.finite() && b.finite(),
        a.absolute().not_above(b.absolute()),
    ensures
        num(D0).not_above(a.product(a)),
        a.product(a).not_above(b.product(b)),
        a.zero() ==> a.product(a).zero(),
{
    one_is_neutral(a);
    one_is_neutral(b);
    weighed_squares_grow(num(D1), a, b);
}

/// Larger counts are larger numbers.
pub proof fn counts_keep_order(a: nat, b: nat)
    requires
        a <= b,
    ensures
        Binary64::integer(a).not_above(Binary64::integer(b)),
{
    let one = pow2(UNIT_EXPONENT as nat);
    assert(a * one <= b * one) by (nonlinear_arith)
        requires
            a <= b,
    ;
    lemma_pow2_pos(UNIT_EXPONENT as nat);
    assert(a > 0 ==> a * one > 0) by (nonlinear_arith)
        requires
            one > 0,
    ;
    assert(b > 0 ==> b * one > 0) by (nonlinear_arith)
        requires
            one > 0,
    ;
    nearest_numbers_keep_order((a * one) as int, (b * one) as int, false, false);
    lemma_pow2_pos(UNIT_EXPONENT as nat);
}

/// Larger numbers have smaller reciprocals.
pub proof fn reciprocals_keep_order(a: Binary64, b: Binary64)
    requires
        num(D0).below(a),
        a.not_above(b),
    ensures
        num(D0).not_above(num(D1).quotient(b)),
        num(D1).quotient(b).not_above(num(D1).quotient(a)),
{
    quotients_are_numbers(num(D1), a);
    quotients_are_numbers(num(D1), b);
    if a.finite() && b.finite() {
        let one = crate::binary64::magnitude_value(num(D1).magnitude());
        let n = one * pow2(UNIT_EXPONENT as nat);
        let (c, d) = (
            crate::binary64::magnitude_value(a.magnitude()),
            crate::binary64::magnitude_value(b.magnitude()),
        );
        ranks_order_as_values(a, b);
        ranks_order_as_values(num(D0), a);
        assert(0 < c <= d);
        assert(n * c <= n * d) by (nonlinear_arith)
            requires
                c <= d,
        ;
        rounding_keeps_order(n, d, n, c);
        rounding_is_total(n, d);
        rounding_is_total(n, c);
    }
}

/// A literal that is nearest to a whole number is that number.
pub proof fn integers_are_decimals(x: Binary64, k: nat)
    requires
        0 < k,
        crate::literal::encodes(x.bits, false, k, 1),
    ensures
        x == Binary64::integer(k),
{
    let n = k * pow2(UNIT_EXPONENT as nat);
    rounding_is_total(n, 1);
    crate::binary64::lemma_rounding_is_unique(
        x.magnitude(),
        crate::binary64::rounded(n, 1),
        n,
        1,
    );
}

/// The product of two numbers of at most a thousand is finite.
pub proof fn moderate_products_are_finite(a: Binary64, b: Binary64)
    requires
        a.absolute().not_above(num(D1000)),
        b.absolute().not_above(num(D1000)),
    ensures
        a.product(b).finite(),
{
    crate::literal::decimals_34();
    small_integers_are_exact(1000);
    small_integers_are_exact(1_000_000);
    let one = pow2(UNIT_EXPONENT as nat);
    let (m, n) = (
        crate::binary64::magnitude_value(a.magnitude()),
        crate::binary64::magnitude_value(b.magnitude()),
    );
    integers_are_decimals(num(D1000), 1000);
    ranks_order_as_values(a.absolute(), num(D1000));
    ranks_order_as_values(b.absolute(), num(D1000));
    assert(m <= 1000 * one && n <= 1000 * one);
    assert(m * n <= (1_000_000 * one) * one) by (nonlinear_arith)
        requires
            0 <= m <= 1000 * one,
            0 <= n <= 1000 * one,
    ;
    lemma_pow2_pos(UNIT_EXPONENT as nat);
    rounding_keeps_limits(m * n, one, Binary64::integer(1_000_000).magnitude());
}

/// The product of two numbers of at most thirty is at most a thousand.
pub proof fn moderate_products_stay_below(a: Binary64, b: Binary64)
    requires
        a.absolute().not_above(num(D30)),
        b.absolute().not_above(num(D30)),
    ensures
        a.product(b).absolute().not_above(num(D1000)),
{
    crate::literal::decimals_28();
    crate::literal::decimals_34();
    small_integers_are_exact(1000);
    small_integers_are_exact(30);
    let one = pow2(UNIT_EXPONENT as nat);
    let (m, n) = (
        crate::binary64::magnitude_value(a.magnitude()),
        crate::binary64::magnitude_value(b.magnitude()),
    );
    integers_are_decimals(num(D1000), 1000);
    integers_are_decimals(num(D30), 30);
    ranks_order_as_values(a.absolute(), num(D30));
    ranks_order_as_values(b.absolute(), num(D30));
    assert(m <= 30 * one && n <= 30 * one);
    assert(m * n <= (1000 * one) * one) by (nonlinear_arith)
        requires
            0 <= m <= 30 * one,
            0 <= n <= 30 * one,
    ;
    lemma_pow2_pos(UNIT_EXPONENT as nat);
    rounding_keeps_limits(m * n, one, num(D1000).magnitude());
    products_are_numbers(a, b);
}

/// Dividing what is not negative by more gives no more.
pub proof fn larger_divisors_give_less(a: Binary64, s: Binary64, t: Binary64)
    requires
        a.finite() && num(D0).not_above(a),
        s.finite() && t.finite(),
        num(D0).below(s),
        s.not_above(t),
    ensures
        a.quotient(t).not_above(a.quotient(s)),
{
    quotients_are_numbers(a, s);
    quotients_are_numbers(a, t);
    if !a.zero() {
        let n = crate::binary64::magnitude_value(a.magnitude()) * pow2(UNIT_EXPONENT as nat);
        let (c, d) = (
            crate::binary64::magnitude_value(s.magnitude()),
            crate::binary64::magnitude_value(t.magnitude()),
        );
        ranks_order_as_values(s, t);
        ranks_order_as_values(num(D0), s);
        assert(n * c <= n * d) by (nonlinear_arith)
            requires
                c <= d,
        ;
        rounding_keeps_order(n, d, n, c);
        rounding_is_total(n, d);
        rounding_is_total(n, c);
    }
}

/// The product of two numbers of at least a quarter is at least a hundredth.
pub proof fn products_of_quarters(a: Binary64, b: Binary64)
    requires
        num(D0_25).not_above(a) && a.not_above(num(D1000)),
        num(D0_25).not_above(b) && b.not_above(num(D1000)),
    ensures
        a.product(b).finite(),
        num(D0_01).not_above(a.product(b)),
{
    moderate_products_are_finite(a, b);
    let one = pow2(UNIT_EXPONENT as nat);
    let q = pow2(1072);
    let s = pow2(1070);
    vstd::arithmetic::power2::lemma_pow2_adds(52, 1020);
    vstd::arithmetic::power2::lemma_pow2_adds(52, 1018);
    vstd::arithmetic::power2::lemma_pow2_adds(1072, 1072);
    vstd::arithmetic::power2::lemma_pow2_adds(1070, 1074);
    vstd::arithmetic::power2::lemma2_to64();
    vstd::arithmetic::power2::lemma2_to64_rest();
    let sixteenth = Binary64 { bits: 0x3FB0_0000_0000_0000 };
    let (m, n) = (
        crate::binary64::magnitude_value(a.magnitude()),
        crate::binary64::magnitude_value(b.magnitude()),
    );
    ranks_order_as_values(num(D0_25), a);
    ranks_order_as_values(num(D0_25), b);
    assert(crate::binary64::magnitude_value(num(D0_25).magnitude()) == q);
    assert(crate::binary64::magnitude_value(sixteenth.magnitude()) == s);
    assert(m >= q && n >= q);
    assert(m * n >= q * q) by (nonlinear_arith)
        requires
            m >= q,
            n >= q,
            q >= 0,
    ;
    lemma_pow2_pos(UNIT_EXPONENT as nat);
    rounding_keeps_limits(m * n, one, sixteenth.magnitude());
    products_are_numbers(a, b);
}

/// The sum of two numbers of at most one is finite.
pub proof fn moderate_sums(a: Binary64, b: Binary64)
    requires
        a.absolute().not_above(num(D1)),
        b.absolute().not_above(num(D1)),
    ensures
        a.sum(b).finite(),
{
    let one = num(D1);
    sums_are_numbers(a, b);
    doubles_are_sums(one);
    one_is_neutral(num(D2));
    sums_are_numbers(one, one);
    sums_are_numbers(one.negated(), one.negated());
    sums_of_ordered_terms(a, one, b, one);
    sums_of_ordered_terms(one.negated(), a, one.negated(), b);
    negated_factors(num(D2), one);
    doubles_are_sums(one.negated());
}

} // verus!
