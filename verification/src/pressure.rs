//! How the pressure of the air falls with altitude.
use crate::atmosphere::{AirFactors, AirTerms, Atmosphere, Layer};
use crate::binary64::{Binary64, UNIT_EXPONENT};
use crate::literal::{
    num, D0, D0_001, D0_002, D0_0028, D0_0065, D0_5, D1, D1000, D101325, D11000, D110_9063, D1EM10,
    D1EM6, D1EM8, D20000, D214_65, D216_65, D22632_06, D228_65, D270_65, D287_05287, D288_15,
    D32000, D3_95642, D47000, D51000, D6356766, D66_93887, D71000, D86000, D868_0187, D9_80665,
    M1, M1000,
};
use crate::separation::{size, step};
use vstd::arithmetic::power2::*;
use vstd::prelude::*;

verus! {

/// Whether one argument is clearly below another: by 1e-8 at least.
pub open spec fn clearly_below(low: Binary64, high: Binary64) -> bool {
    num(D1EM8).not_above(high.difference(low))
}

/// Whether one result is told from a larger one: it is lower by 1e-10 at least.
pub open spec fn told_from(low: Binary64, high: Binary64) -> bool {
    num(D1EM10).not_above(high.difference(low))
}

/// Whether a factor of the pressure has an ordinary size.
pub open spec fn is_ordinary(f: Binary64) -> bool {
    num(D1EM6).not_above(f) && f.not_above(num(D1000))
}

/// Whether powers and exponentials keep order between two altitudes: the same
/// arguments give the same results, larger ones results that are not on the
/// wrong side, and arguments of which one is clearly below the other results
/// that can be told apart.
pub open spec fn factors_keep_order(
    low: AirTerms,
    at_low: AirFactors,
    high: AirTerms,
    at_high: AirFactors,
) -> bool {
    &&& low.base == high.base && low.exponent == high.exponent ==> at_low.power == at_high.power
    &&& low.exponent == high.exponent && num(D1).not_above(low.exponent) && high.base.not_above(
        low.base,
    ) ==> at_high.power.not_above(at_low.power)
    &&& low.exponent == high.exponent && low.exponent.not_above(num(M1)) && low.base.not_above(
        high.base,
    ) ==> at_high.power.not_above(at_low.power)
    &&& low.exponent == high.exponent && num(D1).not_above(low.exponent) && clearly_below(
        high.base,
        low.base,
    ) ==> told_from(at_high.power, at_low.power)
    &&& low.exponent == high.exponent && low.exponent.not_above(num(M1)) && clearly_below(
        low.base,
        high.base,
    ) ==> told_from(at_high.power, at_low.power)
    &&& low.decay == high.decay ==> at_low.exponential == at_high.exponential
    &&& high.decay.not_above(low.decay) ==> at_high.exponential.not_above(at_low.exponential)
    &&& clearly_below(high.decay, low.decay) ==> told_from(at_high.exponential, at_low.exponential)
}

/// The sizes of the constants of the atmosphere, in steps.
pub(crate) proof fn lemma_constants_in_steps()
    ensures
        size(num(D1EM10)) >= 0x100_0000_0000 * step(),
        size(num(D1EM8)) <= 0x1_0000_0000_0000 * step(),
        0x40_0000_0000_0000 * step() <= size(num(D1EM6)),
        size(num(D1000)) <= 0x10_0000_0000_0000_0000_0000 * step(),
        0x1_0000_0000_0000_0000 * step() <= size(num(D0_001)) <= 0x8_0000_0000_0000_0000 * step(),
        0x1_0000_0000_0000_0000 * step() <= size(num(D0_002)) <= 0x8_0000_0000_0000_0000 * step(),
        0x1_0000_0000_0000_0000 * step() <= size(num(D0_0028)) <= 0x8_0000_0000_0000_0000 * step(),
        0x1_0000_0000_0000_0000 * step() <= size(num(D0_0065)) <= 0x8_0000_0000_0000_0000 * step(),
        0x2000_0000_0000_0000_0000 * step() <= size(num(D9_80665)) <= 0x4000_0000_0000_0000_0000 * step(),
        0x4_0000_0000_0000_0000_0000 * step() <= size(num(D287_05287)) <= 0x8_0000_0000_0000_0000_0000 * step(),
        0x4_0000_0000_0000_0000_0000 * step() <= size(num(D288_15)) <= 0x8_0000_0000_0000_0000_0000 * step(),
        0x2_0000_0000_0000_0000_0000 * step() <= size(num(D216_65)) <= 0x4_0000_0000_0000_0000_0000 * step(),
        0x2_0000_0000_0000_0000_0000 * step() <= size(num(D228_65)) <= 0x4_0000_0000_0000_0000_0000 * step(),
        0x4_0000_0000_0000_0000_0000 * step() <= size(num(D270_65)) <= 0x8_0000_0000_0000_0000_0000 * step(),
        0x2_0000_0000_0000_0000_0000 * step() <= size(num(D214_65)) <= 0x4_0000_0000_0000_0000_0000 * step(),
{
    lemma2_to64();
    crate::separation::exponents_in_steps(num(D0_001), 12);
    crate::separation::exponents_in_steps(num(D0_002), 13);
    crate::separation::exponents_in_steps(num(D0_0028), 13);
    crate::separation::exponents_in_steps(num(D0_0065), 14);
    crate::separation::exponents_in_steps(num(D1EM6), 2);
    crate::separation::exponents_in_steps(num(D1000), 31);
    crate::separation::exponents_in_steps(num(D9_80665), 25);
    crate::separation::exponents_in_steps(num(D287_05287), 30);
    crate::separation::exponents_in_steps(num(D288_15), 30);
    crate::separation::exponents_in_steps(num(D216_65), 29);
    crate::separation::exponents_in_steps(num(D228_65), 29);
    crate::separation::exponents_in_steps(num(D270_65), 30);
    crate::separation::exponents_in_steps(num(D214_65), 29);
    lemma_small_in_steps();
}

proof fn lemma_small_in_steps()
    ensures
        size(num(D1EM10)) >= 0x100_0000_0000 * step(),
        size(num(D1EM8)) <= 0x1_0000_0000_0000 * step(),
{
    lemma2_to64();
    lemma_pow2_adds(995, 5);
    lemma_pow2_adds(988, 12);
    let (p, q) = (pow2(995), pow2(988));
    let (f, g) = (num(D1EM8).magnitude() % 0x10_0000_0000_0000, num(D1EM10).magnitude() % 0x10_0000_0000_0000);
    assert(size(num(D1EM8)) == (0x10_0000_0000_0000 + f) * p);
    assert(size(num(D1EM10)) == (0x10_0000_0000_0000 + g) * q);
    assert((0x10_0000_0000_0000 + f) * p <= 0x1_0000_0000_0000 * (p * 32)) by (nonlinear_arith)
        requires
            0 <= f < 0x10_0000_0000_0000,
    ;
    assert((0x10_0000_0000_0000 + g) * q >= 0x100_0000_0000 * (q * 4096)) by (nonlinear_arith)
        requires
            0 <= g,
    ;
}

/// The same of the altitudes and pressures at which the layers begin.
pub(crate) proof fn lemma_layers_in_steps()
    ensures
        size(num(D11000)) <= 0x100_0000_0000_0000_0000_0000 * step(),
        size(num(D20000)) <= 0x800_0000_0000_0000_0000_0000 * step(),
        size(num(D32000)) <= 0x800_0000_0000_0000_0000_0000 * step(),
        size(num(D47000)) <= 0x800_0000_0000_0000_0000_0000 * step(),
        size(num(D51000)) <= 0x800_0000_0000_0000_0000_0000 * step(),
        size(num(D71000)) <= 0x800_0000_0000_0000_0000_0000 * step(),
        size(num(D86000)) <= 0x800_0000_0000_0000_0000_0000 * step(),
        0x800_0000_0000_0000_0000 * step() <= size(num(D101325)) <= 0x800_0000_0000_0000_0000_0000 * step(),
        0x800_0000_0000_0000_0000 * step() <= size(num(D22632_06)) <= 0x800_0000_0000_0000_0000_0000 * step(),
        0x800_0000_0000_0000_0000 * step() <= size(num(D868_0187)) <= 0x800_0000_0000_0000_0000_0000 * step(),
        0x800_0000_0000_0000_0000 * step() <= size(num(D110_9063)) <= 0x800_0000_0000_0000_0000_0000 * step(),
        0x800_0000_0000_0000_0000 * step() <= size(num(D66_93887)) <= 0x800_0000_0000_0000_0000_0000 * step(),
        0x800_0000_0000_0000_0000 * step() <= size(num(D3_95642)) <= 0x800_0000_0000_0000_0000_0000 * step(),
{
    lemma2_to64();
    lemma_pow2_adds(32, 3);
    lemma_pow2_adds(32, 4);
    lemma_pow2_adds(32, 5);
    lemma_pow2_adds(32, 6);
    crate::separation::exponents_in_steps(num(D11000), 35);
    crate::separation::exponents_in_steps(num(D20000), 36);
    crate::separation::exponents_in_steps(num(D32000), 36);
    crate::separation::exponents_in_steps(num(D47000), 37);
    crate::separation::exponents_in_steps(num(D51000), 37);
    crate::separation::exponents_in_steps(num(D71000), 38);
    crate::separation::exponents_in_steps(num(D86000), 38);
    crate::separation::exponents_in_steps(num(D101325), 38);
    crate::separation::exponents_in_steps(num(D22632_06), 36);
    crate::separation::exponents_in_steps(num(D868_0187), 31);
    crate::separation::exponents_in_steps(num(D110_9063), 28);
    crate::separation::exponents_in_steps(num(D66_93887), 28);
    crate::separation::exponents_in_steps(num(D3_95642), 23);
}

/// Altitudes above the foot of a layer are as far apart as the altitudes.
proof fn lemma_above_foot(foot: Binary64, a: Binary64, b: Binary64)
    requires
        a.finite() && b.finite() && foot.finite(),
        b.exact() - a.exact() >= 0x100_0000_0000_0000_0000 * step(),
        size(a) <= 0x800_0000_0000_0000_0000_0000 * step(),
        size(b) <= 0x800_0000_0000_0000_0000_0000 * step(),
        size(foot) <= 0x800_0000_0000_0000_0000_0000 * step(),
    ensures
        a.difference(foot).finite() && b.difference(foot).finite(),
        b.difference(foot).exact() - a.difference(foot).exact() >= 0x80_0000_0000_0000_0000 * step(),
        size(a.difference(foot)) <= 0x2000_0000_0000_0000_0000_0000 * step(),
        size(b.difference(foot)) <= 0x2000_0000_0000_0000_0000_0000 * step(),
{
    crate::separation::one_in_steps();
    crate::separation::many_steps();
    let c = foot.negated();
    assert(size(c) == size(foot) && c.finite());
    crate::separation::sums_stay_finite(a, c);
    crate::separation::sums_stay_finite(b, c);
    crate::separation::sums_have_size(a, c, 0x1000_0000_0000_0000_0000_0000 * step());
    crate::separation::sums_have_size(b, c, 0x1000_0000_0000_0000_0000_0000 * step());
    crate::separation::sums_stay_apart(a, b, c, 0x100_0000_0000_0000_0000 * step(), 0x2000_0000_0000_0000_0000_0000 * step());
}

/// A lapse of temperature with altitude keeps altitudes apart.
proof fn lemma_lapsed(k: Binary64, a: Binary64, b: Binary64)
    requires
        a.finite() && b.finite() && k.finite(),
        0x1_0000_0000_0000_0000 * step() <= k.exact() <= 0x8_0000_0000_0000_0000 * step(),
        b.exact() - a.exact() >= 0x80_0000_0000_0000_0000 * step(),
        size(a) <= 0x2000_0000_0000_0000_0000_0000 * step(),
        size(b) <= 0x2000_0000_0000_0000_0000_0000 * step(),
    ensures
        k.product(a).finite() && k.product(b).finite(),
        k.product(b).exact() - k.product(a).exact() >= 0x1000_0000_0000_0000 * step(),
        size(k.product(a)) <= 0x4000_0000_0000_0000_0000_0000 * step(),
        size(k.product(b)) <= 0x4000_0000_0000_0000_0000_0000 * step(),
{
    crate::separation::one_in_steps();
    crate::separation::many_steps();
    let r = step();
    let one = pow2(UNIT_EXPONENT as nat) as int;
    let limit = pow2(1200) as int;
    let w = k.exact();
    let most = 0x2000_0000_0000_0000_0000_0000 * r;
    let (m, n) = (size(a), size(b));
    assert(w * m <= most * one && w * n <= most * one) by (nonlinear_arith)
        requires
            0 <= w <= one,
            0 <= m <= most,
            0 <= n <= most,
    ;
    assert(most * one <= limit * one) by (nonlinear_arith)
        requires
            most <= limit,
            one > 0,
    ;
    assert(size(k) == w);
    crate::separation::products_stay_finite(k, a);
    crate::separation::products_stay_finite(k, b);
    crate::separation::products_have_size(k, a, most);
    crate::separation::products_have_size(k, b, most);
    let half = 0x10_0000_0000_0000int;
    let least = 0x1_0000_0000_0000_0000 * r;
    let gap = 0x80_0000_0000_0000_0000 * r;
    let apart = k.product(b).exact() - k.product(a).exact();
    crate::separation::products_stay_apart(k, a, b, least, gap, 2 * most);
    assert(half * apart >= half * (0x2000_0000_0000_0000 * r) - 2 * most - half) by (nonlinear_arith)
        requires
            half * one * apart >= half * (least * gap) - one * (2 * most + half),
            1024 * least == one,
            gap == 1024 * (0x2000_0000_0000_0000 * r),
            one > 0,
    ;
}

/// Gravity keeps altitudes apart.
proof fn lemma_weighed(k: Binary64, a: Binary64, b: Binary64)
    requires
        a.finite() && b.finite() && k.finite(),
        0x2000_0000_0000_0000_0000 * step() <= k.exact() <= 0x4000_0000_0000_0000_0000 * step(),
        b.exact() - a.exact() >= 0x80_0000_0000_0000_0000 * step(),
        size(a) <= 0x2000_0000_0000_0000_0000_0000 * step(),
        size(b) <= 0x2000_0000_0000_0000_0000_0000 * step(),
    ensures
        k.product(a).finite() && k.product(b).finite(),
        k.product(b).exact() - k.product(a).exact() >= 0x40_0000_0000_0000_0000 * step(),
        size(k.product(a)) <= 0x4_0000_0000_0000_0000_0000_0000 * step(),
        size(k.product(b)) <= 0x4_0000_0000_0000_0000_0000_0000 * step(),
{
    crate::separation::one_in_steps();
    crate::separation::many_steps();
    let r = step();
    let one = pow2(UNIT_EXPONENT as nat) as int;
    let limit = pow2(1200) as int;
    let w = k.exact();
    let most = 0x2_0000_0000_0000_0000_0000_0000 * r;
    let (m, n) = (size(a), size(b));
    assert(w * m <= most * one && w * n <= most * one) by (nonlinear_arith)
        requires
            0 <= w <= 16 * one,
            0 <= m,
            0 <= n,
            16 * m <= most,
            16 * n <= most,
    ;
    assert(most * one <= limit * one) by (nonlinear_arith)
        requires
            most <= limit,
            one > 0,
    ;
    assert(size(k) == w);
    crate::separation::products_stay_finite(k, a);
    crate::separation::products_stay_finite(k, b);
    crate::separation::products_have_size(k, a, most);
    crate::separation::products_have_size(k, b, most);
    let half = 0x10_0000_0000_0000int;
    let gap = 0x80_0000_0000_0000_0000 * r;
    let apart = k.product(b).exact() - k.product(a).exact();
    crate::separation::products_stay_apart(k, a, b, one, gap, 2 * most);
    assert(half * apart >= half * gap - 2 * most - half) by (nonlinear_arith)
        requires
            half * one * apart >= half * (one * gap) - one * (2 * most + half),
            one > 0,
    ;
}

/// Temperatures that rise from the same start are apart.
proof fn lemma_warmed(t: Binary64, a: Binary64, b: Binary64)
    requires
        a.finite() && b.finite() && t.finite(),
        b.exact() - a.exact() >= 0x1000_0000_0000_0000 * step(),
        size(t) <= 0x8_0000_0000_0000_0000_0000 * step(),
        size(a) <= 0x4000_0000_0000_0000_0000_0000 * step(),
        size(b) <= 0x4000_0000_0000_0000_0000_0000 * step(),
    ensures
        t.sum(a).finite() && t.sum(b).finite(),
        t.sum(b).exact() - t.sum(a).exact() >= 0x800_0000_0000_0000 * step(),
        size(t.sum(a)) <= 0x1_0000_0000_0000_0000_0000_0000 * step(),
        size(t.sum(b)) <= 0x1_0000_0000_0000_0000_0000_0000 * step(),
{
    crate::separation::one_in_steps();
    crate::separation::many_steps();
    crate::rounding::sums_commute(t, a);
    crate::rounding::sums_commute(t, b);
    crate::separation::sums_stay_finite(a, t);
    crate::separation::sums_stay_finite(b, t);
    crate::separation::sums_have_size(a, t, 0x8000_0000_0000_0000_0000_0000 * step());
    crate::separation::sums_have_size(b, t, 0x8000_0000_0000_0000_0000_0000 * step());
    crate::separation::sums_stay_apart(a, b, t, 0x1000_0000_0000_0000 * step(), 0x1_0000_0000_0000_0000_0000_0000 * step());
}

/// A divisor of at most `hi` keeps numbers apart that are far enough apart.
proof fn lemma_divided(a: Binary64, b: Binary64, d: Binary64, hi: int)
    requires
        a.finite() && b.finite() && d.finite(),
        0x400_0000_0000_0000_0000 * step() <= d.exact() <= hi * (0x400_0000_0000_0000_0000 * step()),
        b.exact() - a.exact() >= hi * (0x4_0000_0000_0000 * step()),
        size(a) <= 0x4_0000_0000_0000_0000_0000_0000 * step(),
        size(b) <= 0x4_0000_0000_0000_0000_0000_0000 * step(),
    ensures
        a.quotient(d).finite() && b.quotient(d).finite(),
        b.quotient(d).exact() - a.quotient(d).exact() >= 0x2_0000_0000_0000 * step(),
        size(a.quotient(d)) <= 0x8_0000_0000_0000_0000_0000_0000 * step(),
        size(b.quotient(d)) <= 0x8_0000_0000_0000_0000_0000_0000 * step(),
{
    crate::separation::one_in_steps();
    crate::separation::many_steps();
    let r = step();
    let one = pow2(UNIT_EXPONENT as nat) as int;
    let limit = pow2(1200) as int;
    let x = d.exact();
    let most = 0x4_0000_0000_0000_0000_0000_0000 * r;
    let (m, n) = (size(a), size(b));
    assert(m * one <= most * x && n * one <= most * x) by (nonlinear_arith)
        requires
            0 < one <= x,
            0 <= m <= most,
            0 <= n <= most,
    ;
    assert(most * x <= limit * x) by (nonlinear_arith)
        requires
            most <= limit,
            x > 0,
    ;
    crate::separation::quotients_stay_finite(a, d);
    crate::separation::quotients_stay_finite(b, d);
    crate::separation::quotients_have_size(a, d, most);
    crate::separation::quotients_have_size(b, d, most);
    let half = 0x10_0000_0000_0000int;
    let small = 0x4_0000_0000_0000 * r;
    let apart = b.quotient(d).exact() - a.quotient(d).exact();
    crate::separation::quotients_stay_apart(a, b, d, hi * small, 2 * most);
    assert((hi * small) * one >= x * small) by (nonlinear_arith)
        requires
            x <= hi * one,
            small >= 0,
    ;
    assert(half * apart >= half * small - 2 * most - half) by (nonlinear_arith)
        requires
            half * x * apart >= half * ((hi * small) * one) - x * (2 * most + half),
            (hi * small) * one >= x * small,
            half > 0,
            x > 0,
    ;
}

/// Arguments that are apart by 2 to the power -25 are clearly apart.
proof fn lemma_clear(low: Binary64, high: Binary64)
    requires
        low.finite() && high.finite(),
        high.exact() - low.exact() >= 0x2_0000_0000_0000 * step(),
        size(low) <= 0x8_0000_0000_0000_0000_0000_0000 * step(),
        size(high) <= 0x8_0000_0000_0000_0000_0000_0000 * step(),
    ensures
        clearly_below(low, high),
{
    crate::separation::one_in_steps();
    crate::separation::many_steps();
    lemma_constants_in_steps();
    let c = low.negated();
    assert(size(c) == size(low) && c.finite());
    let s = high.difference(low);
    crate::separation::sums_stay_finite(high, c);
    crate::separation::sums_move_little(high, c);
    crate::separation::sums_have_size(high, c, 0x10_0000_0000_0000_0000_0000_0000 * step());
    assert(s.exact() >= 0x1_0000_0000_0000 * step());
    crate::rounding::ranks_order_as_values(num(D1EM8), s);
}

/// Results that can be told apart differ.
proof fn lemma_told(low: Binary64, high: Binary64)
    requires
        low.finite() && high.finite(),
        told_from(low, high),
        size(low) <= 0x10_0000_0000_0000_0000_0000 * step(),
        size(high) <= 0x10_0000_0000_0000_0000_0000 * step(),
    ensures
        high.exact() - low.exact() >= 0x80_0000_0000 * step(),
{
    crate::separation::one_in_steps();
    crate::separation::many_steps();
    lemma_constants_in_steps();
    let c = low.negated();
    assert(size(c) == size(low) && c.finite());
    let s = high.difference(low);
    crate::separation::sums_stay_finite(high, c);
    crate::separation::sums_move_little(high, c);
    crate::separation::sums_have_size(high, c, 0x20_0000_0000_0000_0000_0000 * step());
    crate::rounding::ranks_order_as_values(num(D1EM10), s);
}

/// An ordinary factor lies between a millionth and a thousand.
pub(crate) proof fn lemma_ordinary(f: Binary64)
    requires
        is_ordinary(f),
    ensures
        f.finite(),
        0x40_0000_0000_0000 * step() <= f.exact() <= 0x10_0000_0000_0000_0000_0000 * step(),
        size(f) == f.exact(),
{
    lemma_constants_in_steps();
    crate::separation::one_in_steps();
    crate::rounding::ranks_order_as_values(num(D1EM6), f);
    crate::rounding::ranks_order_as_values(f, num(D1000));
}

/// A pressure times an ordinary factor is above zero.
pub(crate) proof fn lemma_is_positive(c: Binary64, f: Binary64)
    requires
        c.finite(),
        0x40_0000_0000_0000 * step() <= c.exact() <= 0x4000_0000_0000_0000_0000_0000_0000 * step(),
        is_ordinary(f),
    ensures
        c.product(f).finite(),
        num(D0).below(c.product(f)),
{
    crate::separation::one_in_steps();
    crate::separation::many_steps();
    lemma_ordinary(f);
    let r = step();
    let one = pow2(UNIT_EXPONENT as nat) as int;
    let limit = pow2(1200) as int;
    let half = 0x10_0000_0000_0000int;
    let (w, m) = (c.exact(), f.exact());
    let p = c.product(f);
    assert(size(c) == w);
    assert(w * m <= (1024 * w) * one) by (nonlinear_arith)
        requires
            0 <= w,
            0 <= m <= 1024 * one,
    ;
    assert((1024 * w) * one <= limit * one) by (nonlinear_arith)
        requires
            1024 * w <= limit,
            one > 0,
    ;
    crate::separation::products_stay_finite(c, f);
    crate::separation::products_move_little(c, f);
    crate::rounding::products_are_numbers(c, f);
    assert(!p.negative());
    assert(p.exact() > 0) by {
        if p.exact() <= 0 {
            let x = w * m;
            assert(x >= one * (0x4_0000_0000 * r)) by (nonlinear_arith)
                requires
                    x == w * m,
                    w >= 0x40_0000_0000_0000 * r,
                    m >= 0x40_0000_0000_0000 * r,
                    one == 0x400_0000_0000_0000_0000 * r,
                    r > 0,
            ;
            assert(p.exact() * one == 0) by (nonlinear_arith)
                requires
                    p.exact() == 0,
            ;
            assert(2 * half * x <= one * half);
            assert(false) by (nonlinear_arith)
                requires
                    2 * half * x <= one * half,
                    x >= one * (0x4_0000_0000 * r),
                    one > 0,
                    r > 0,
                    half > 0,
            ;
        }
    }
    assert(num(D0).exact() == 0);
    crate::rounding::ranks_order_as_values(num(D0), p);
}

/// A pressure times factors that can be told apart gives pressures that
/// differ.
proof fn lemma_pressures_differ(c: Binary64, low: Binary64, high: Binary64)
    requires
        c.finite(),
        0x40_0000_0000_0000 * step() <= c.exact() <= 0x4000_0000_0000_0000_0000_0000_0000 * step(),
        is_ordinary(low),
        is_ordinary(high),
        told_from(low, high),
    ensures
        num(D0).below(c.product(low)),
        c.product(low).below(c.product(high)),
{
    crate::separation::one_in_steps();
    crate::separation::many_steps();
    lemma_ordinary(low);
    lemma_ordinary(high);
    lemma_told(low, high);
    let r = step();
    let one = pow2(UNIT_EXPONENT as nat) as int;
    let limit = pow2(1200) as int;
    let w = c.exact();
    let (m, n) = (low.exact(), high.exact());
    let most = 1024 * w;
    assert(size(c) == w);
    assert(w * m <= most * one && w * n <= most * one) by (nonlinear_arith)
        requires
            0 <= w,
            0 <= m <= 1024 * one,
            0 <= n <= 1024 * one,
            most == 1024 * w,
    ;
    assert(most * one <= limit * one) by (nonlinear_arith)
        requires
            most <= limit,
            one > 0,
    ;
    crate::separation::products_stay_finite(c, low);
    crate::separation::products_stay_finite(c, high);
    crate::separation::products_have_size(c, low, most);
    crate::separation::products_have_size(c, high, most);
    let half = 0x10_0000_0000_0000int;
    let gap = 0x80_0000_0000 * r;
    let (p, q) = (c.product(low), c.product(high));
    let apart = q.exact() - p.exact();
    crate::separation::products_stay_apart(c, low, high, w, gap, 1025 * w);
    assert(half * apart >= 0x2_0000 * w - 1025 * w - half) by (nonlinear_arith)
        requires
            half * one * apart >= half * (w * gap) - one * (1025 * w + half),
            0x8_0000_0000 * gap == one,
            half == 0x10_0000_0000_0000,
            one > 0,
    ;
    crate::rounding::ranks_order_as_values(p, q);
    lemma_is_positive(c, low);
}

/// The gas constant times a temperature.
pub(crate) proof fn lemma_specific_energy(t: Binary64)
    requires
        t.finite(),
        0x8000_0000_0000_0000_0000 * step() <= t.exact() <= 0x8_0000_0000_0000_0000_0000 * step(),
    ensures
        num(D287_05287).product(t).finite(),
        0x400_0000_0000_0000_0000 * step() <= num(D287_05287).product(t).exact() <= 0x2000_0000_0000_0000_0000_0000 * step(),
{
    crate::separation::one_in_steps();
    crate::separation::many_steps();
    lemma_constants_in_steps();
    let r = step();
    let one = pow2(UNIT_EXPONENT as nat) as int;
    let limit = pow2(1200) as int;
    let c = num(D287_05287);
    let (w, m) = (c.exact(), t.exact());
    let most = 0x1000_0000_0000_0000_0000_0000 * r;
    assert(size(c) == w && size(t) == m);
    assert(w * m <= most * one && w * m >= (0x80_0000_0000_0000_0000_0000 * r) * one) by (nonlinear_arith)
        requires
            0x4_0000_0000_0000_0000_0000 * r <= w <= 0x8_0000_0000_0000_0000_0000 * r,
            0x8000_0000_0000_0000_0000 * r <= m <= 0x8_0000_0000_0000_0000_0000 * r,
            one == 0x400_0000_0000_0000_0000 * r,
            most == 0x1000_0000_0000_0000_0000_0000 * r,
            r > 0,
    ;
    assert(most * one <= limit * one) by (nonlinear_arith)
        requires
            most <= limit,
            one > 0,
    ;
    crate::separation::products_stay_finite(c, t);
    crate::separation::products_have_size(c, t, most);
    crate::separation::products_move_little(c, t);
    let half = 0x10_0000_0000_0000int;
    let p = c.product(t);
    let s = size(p);
    assert(0x20_0000_0000_0000 * (0x80_0000_0000_0000_0000_0000 * r - p.exact()) <= s + 0x10_0000_0000_0000) by (nonlinear_arith)
        requires
            2 * half * (w * m - p.exact() * one) <= one * (s + half),
            w * m >= (0x80_0000_0000_0000_0000_0000 * r) * one,
            one > 0,
            half == 0x10_0000_0000_0000,
    ;
    assert(s <= 0x2000_0000_0000_0000_0000_0000 * r);
    assert(-s <= p.exact() <= s);
}

/// The exponent of a layer is larger than one in size.
pub(crate) proof fn lemma_exponent(k: Binary64)
    requires
        k.finite(),
        0x1_0000_0000_0000_0000 * step() <= k.exact() <= 0x8_0000_0000_0000_0000 * step(),
    ensures
        num(D1).not_above(num(D9_80665).quotient(k.product(num(D287_05287)))),
        num(D9_80665).negated().quotient(k.product(num(D287_05287))).not_above(num(M1)),
{
    crate::separation::one_in_steps();
    crate::separation::many_steps();
    lemma_constants_in_steps();
    let r = step();
    let one = pow2(UNIT_EXPONENT as nat) as int;
    let limit = pow2(1200) as int;
    let c = num(D287_05287);
    let (w, m) = (k.exact(), c.exact());
    let most = 0x1000_0000_0000_0000_0000 * r;
    assert(size(c) == m && size(k) == w);
    assert(w * m <= most * one && w * m >= (0x100_0000_0000_0000_0000 * r) * one) by (nonlinear_arith)
        requires
            0x1_0000_0000_0000_0000 * r <= w <= 0x8_0000_0000_0000_0000 * r,
            0x4_0000_0000_0000_0000_0000 * r <= m <= 0x8_0000_0000_0000_0000_0000 * r,
            one == 0x400_0000_0000_0000_0000 * r,
            most == 0x1000_0000_0000_0000_0000 * r,
            r > 0,
    ;
    assert(most * one <= limit * one) by (nonlinear_arith)
        requires
            most <= limit,
            one > 0,
    ;
    crate::separation::products_stay_finite(k, c);
    crate::separation::products_have_size(k, c, most);
    crate::separation::products_move_little(k, c);
    let half = 0x10_0000_0000_0000int;
    let d = k.product(c);
    let s = size(d);
    assert(0x20_0000_0000_0000 * (0x100_0000_0000_0000_0000 * r - d.exact()) <= s + 0x10_0000_0000_0000) by (nonlinear_arith)
        requires
            2 * half * (w * m - d.exact() * one) <= one * (s + half),
            w * m >= (0x100_0000_0000_0000_0000 * r) * one,
            one > 0,
            half == 0x10_0000_0000_0000,
    ;
    let x = d.exact();
    assert(s <= 5 * one);
    assert(-s <= x <= s);
    assert(0x80_0000_0000_0000_0000 * r <= x);
    let g = num(D9_80665);
    let e = g.exact();
    assert(e * one <= limit * x) by (nonlinear_arith)
        requires
            0 <= e <= 16 * one,
            one == 8 * (0x80_0000_0000_0000_0000 * r),
            x >= 0x80_0000_0000_0000_0000 * r,
            limit >= 128 * one,
            r > 0,
    ;
    crate::separation::quotients_stay_finite(g, d);
    crate::separation::quotients_move_little(g, d);
    crate::rounding::quotients_are_numbers(g, d);
    let q = g.quotient(d);
    assert(!q.negative());
    let v = q.exact();
    assert(v >= one) by (nonlinear_arith)
        requires
            2 * half * (e * one - v * x) <= x * (v + half),
            e >= 8 * one,
            0 < x <= 5 * one,
            v >= 0,
            half == 0x10_0000_0000_0000,
            one >= half,
    ;
    vstd::arithmetic::power2::lemma_pow2_adds(32, 20);
    vstd::arithmetic::power2::lemma_pow2_adds(1022, 52);
    lemma2_to64();
    assert(num(D1).exact() == 0x10_0000_0000_0000 * pow2(1022));
    assert(pow2(1022) * pow2(52) == 0x10_0000_0000_0000 * pow2(1022)) by (nonlinear_arith)
        requires
            pow2(52) == 0x10_0000_0000_0000,
    ;
    assert(num(D1).exact() == one);
    crate::rounding::ranks_order_as_values(num(D1), q);
    let n = crate::binary64::magnitude_value(g.magnitude()) * pow2(UNIT_EXPONENT as nat);
    crate::rounding::rounding_is_total(n, crate::binary64::magnitude_value(d.magnitude()));
    assert(g.negated().magnitude() == g.magnitude());
    assert(g.negated().negative());
    assert(g.negated().quotient(d) == q.negated());
}

/// Where temperature falls, the base of the power falls with altitude.
proof fn lemma_base_falls(k: Binary64, t: Binary64, t0: Binary64, a: Binary64, b: Binary64)
    requires
        a.finite() && b.finite() && k.finite() && t.finite() && t0.finite(),
        0x1_0000_0000_0000_0000 * step() <= k.exact() <= 0x8_0000_0000_0000_0000 * step(),
        size(t) <= 0x8_0000_0000_0000_0000_0000 * step(),
        0x400_0000_0000_0000_0000 * step() <= t0.exact() <= 0x8_0000_0000_0000_0000_0000 * step(),
        b.exact() - a.exact() >= 0x80_0000_0000_0000_0000 * step(),
        size(a) <= 0x2000_0000_0000_0000_0000_0000 * step(),
        size(b) <= 0x2000_0000_0000_0000_0000_0000 * step(),
    ensures
        clearly_below(
            t.difference(k.product(b)).quotient(t0),
            t.difference(k.product(a)).quotient(t0),
        ),
{
    lemma_lapsed(k, a, b);
    let (p, q) = (k.product(a).negated(), k.product(b).negated());
    assert(p.finite() && q.finite());
    assert(p.exact() == -k.product(a).exact() && q.exact() == -k.product(b).exact());
    lemma_warmed(t, q, p);
    lemma_divided(t.sum(q), t.sum(p), t0, 512);
    lemma_clear(t.sum(q).quotient(t0), t.sum(p).quotient(t0));
}

/// Where temperature rises, the base of the power rises with altitude.
proof fn lemma_base_rises(k: Binary64, t: Binary64, t0: Binary64, a: Binary64, b: Binary64)
    requires
        a.finite() && b.finite() && k.finite() && t.finite() && t0.finite(),
        0x1_0000_0000_0000_0000 * step() <= k.exact() <= 0x8_0000_0000_0000_0000 * step(),
        size(t) <= 0x8_0000_0000_0000_0000_0000 * step(),
        0x400_0000_0000_0000_0000 * step() <= t0.exact() <= 0x8_0000_0000_0000_0000_0000 * step(),
        b.exact() - a.exact() >= 0x80_0000_0000_0000_0000 * step(),
        size(a) <= 0x2000_0000_0000_0000_0000_0000 * step(),
        size(b) <= 0x2000_0000_0000_0000_0000_0000 * step(),
    ensures
        clearly_below(t.sum(k.product(a)).quotient(t0), t.sum(k.product(b)).quotient(t0)),
{
    lemma_lapsed(k, a, b);
    let (p, q) = (k.product(a), k.product(b));
    lemma_warmed(t, p, q);
    lemma_divided(t.sum(p), t.sum(q), t0, 512);
    lemma_clear(t.sum(p).quotient(t0), t.sum(q).quotient(t0));
}

/// Where temperature is constant, the argument of the exponential falls with
/// altitude.
proof fn lemma_decay_falls(t: Binary64, a: Binary64, b: Binary64)
    requires
        a.finite() && b.finite() && t.finite(),
        0x8000_0000_0000_0000_0000 * step() <= t.exact() <= 0x8_0000_0000_0000_0000_0000 * step(),
        b.exact() - a.exact() >= 0x80_0000_0000_0000_0000 * step(),
        size(a) <= 0x2000_0000_0000_0000_0000_0000 * step(),
        size(b) <= 0x2000_0000_0000_0000_0000_0000 * step(),
    ensures
        clearly_below(
            num(D9_80665).negated().product(b).quotient(num(D287_05287).product(t)),
            num(D9_80665).negated().product(a).quotient(num(D287_05287).product(t)),
        ),
{
    lemma_constants_in_steps();
    let g = num(D9_80665);
    lemma_weighed(g, a, b);
    lemma_specific_energy(t);
    let d = num(D287_05287).product(t);
    crate::rounding::products_commute(g.negated(), a);
    crate::rounding::products_commute(g.negated(), b);
    crate::rounding::products_commute(g, a);
    crate::rounding::products_commute(g, b);
    crate::rounding::negated_factors(a, g);
    crate::rounding::negated_factors(b, g);
    let (p, q) = (g.negated().product(a), g.negated().product(b));
    assert(p == g.product(a).negated() && q == g.product(b).negated());
    assert(p.finite() && q.finite());
    assert(p.exact() == -g.product(a).exact() && q.exact() == -g.product(b).exact());
    lemma_divided(q, p, d, 524288);
    lemma_clear(q.quotient(d), p.quotient(d));
}

/// The pressure at the foot of a layer times an ordinary factor.
pub(crate) proof fn lemma_foot_pressure(c: Binary64, f: Binary64)
    requires
        c.finite(),
        0x800_0000_0000_0000_0000 * step() <= c.exact() <= 0x800_0000_0000_0000_0000_0000 * step(),
        is_ordinary(f),
    ensures
        c.product(f).finite(),
        0x40_0000_0000_0000 * step() <= c.product(f).exact() <= 0x4000_0000_0000_0000_0000_0000_0000 * step(),
{
    crate::separation::one_in_steps();
    crate::separation::many_steps();
    lemma_ordinary(f);
    let r = step();
    let one = pow2(UNIT_EXPONENT as nat) as int;
    let limit = pow2(1200) as int;
    let (w, m) = (c.exact(), f.exact());
    let most = 0x20_0000_0000_0000_0000_0000_0000 * r;
    assert(size(c) == w);
    assert(w * m <= most * one && w * m >= (0x80_0000_0000_0000 * r) * one) by (nonlinear_arith)
        requires
            0x800_0000_0000_0000_0000 * r <= w <= 0x800_0000_0000_0000_0000_0000 * r,
            0x40_0000_0000_0000 * r <= m <= 0x10_0000_0000_0000_0000_0000 * r,
            one == 0x400_0000_0000_0000_0000 * r,
            most == 0x20_0000_0000_0000_0000_0000_0000 * r,
            r > 0,
    ;
    assert(most * one <= limit * one) by (nonlinear_arith)
        requires
            most <= limit,
            one > 0,
    ;
    crate::separation::products_stay_finite(c, f);
    crate::separation::products_have_size(c, f, most);
    crate::separation::products_move_little(c, f);
    crate::rounding::products_are_numbers(c, f);
    let p = c.product(f);
    let v = p.exact();
    assert(!p.negative());
    assert(size(p) == v);
    assert(0x20_0000_0000_0000 * v + v >= 0x20_0000_0000_0000 * (0x80_0000_0000_0000 * r) - 0x10_0000_0000_0000) by (nonlinear_arith)
        requires
            0x20_0000_0000_0000 * (w * m - v * one) <= one * (v + 0x10_0000_0000_0000),
            w * m >= (0x80_0000_0000_0000 * r) * one,
            one > 0,
    ;
}

/// Altitudes of the layers, and how far apart they are.
pub(crate) proof fn lemma_heights(a: Binary64, b: Binary64)
    requires
        num(M1000).not_above(a) && a.not_above(num(D86000)),
        b.not_above(num(D86000)),
        num(D0_5).not_above(b.difference(a)),
    ensures
        a.finite() && b.finite(),
        b.exact() - a.exact() >= 0x100_0000_0000_0000_0000 * step(),
        size(a) <= 0x800_0000_0000_0000_0000_0000 * step(),
        size(b) <= 0x800_0000_0000_0000_0000_0000 * step(),
{
    crate::separation::one_in_steps();
    crate::separation::many_steps();
    lemma_constants_in_steps();
    lemma_layers_in_steps();
    lemma2_to64();
    crate::separation::exponents_in_steps(num(D0_5), 21);
    assert(num(M1000).exact() == -size(num(D1000)));
    let s = b.difference(a);
    let c = a.negated();
    crate::rounding::ranks_order_as_values(num(M1000), a);
    crate::rounding::ranks_order_as_values(a, num(D86000));
    assert(a.finite() && c.finite() && size(c) == size(a));
    assert(b.finite()) by {
        if b.infinite() {
            assert(b.negative());
            assert(s == b);
        }
    }
    crate::rounding::ranks_order_as_values(b, num(D86000));
    crate::rounding::ranks_order_as_values(num(D0_5), s);
    assert(s.exact() >= 0x200_0000_0000_0000_0000 * step());
    let x = b.exact() + c.exact();
    assert(x == b.exact() - a.exact());
    assert(x > 0) by {
        if x <= 0 {
            if x < 0 {
                crate::rounding::rounding_is_total((-x) as nat, 1);
            }
            assert(s.exact() <= 0);
        }
    }
    crate::separation::sums_stay_finite(b, c);
    crate::separation::sums_move_little(b, c);
    crate::separation::sums_have_size(b, c, 0x1000_0000_0000_0000_0000_0000 * step());
}

/// The temperature of the tropopause.
pub(crate) proof fn lemma_tropopause()
    ensures
        Atmosphere::tropopause().finite(),
        0x8000_0000_0000_0000_0000 * step() <= Atmosphere::tropopause().exact() <= 0x8_0000_0000_0000_0000_0000 * step(),
{
    crate::separation::one_in_steps();
    crate::separation::many_steps();
    lemma_constants_in_steps();
    lemma_layers_in_steps();
    let r = step();
    let one = pow2(UNIT_EXPONENT as nat) as int;
    let limit = pow2(1200) as int;
    let (k, h, t) = (num(D0_0065), num(D11000), num(D288_15));
    let most = 0x2_0000_0000_0000_0000_0000 * r;
    let (w, m) = (k.exact(), h.exact());
    assert(size(k) == w && size(h) == m);
    assert(w * m <= most * one) by (nonlinear_arith)
        requires
            0 <= w <= 0x8_0000_0000_0000_0000 * r,
            0 <= m <= 0x100_0000_0000_0000_0000_0000 * r,
            one == 0x400_0000_0000_0000_0000 * r,
            most == 0x2_0000_0000_0000_0000_0000 * r,
            r > 0,
    ;
    assert(most * one <= limit * one) by (nonlinear_arith)
        requires
            most <= limit,
            one > 0,
    ;
    crate::separation::products_stay_finite(k, h);
    crate::separation::products_have_size(k, h, most);
    crate::rounding::products_are_numbers(k, h);
    let y = k.product(h);
    let c = y.negated();
    assert(!y.negative() && c.finite() && size(c) == size(y) && c.exact() == -size(y));
    assert(size(y) <= most + 0x100_0000_0000 * r);
    crate::separation::sums_stay_finite(t, c);
    crate::separation::sums_have_size(t, c, 0x10_0000_0000_0000_0000_0000 * r);
    crate::separation::sums_move_little(t, c);
    assert(t.exact() == size(t));
    lemma_below_start(t, c);
}

/// Taking something away from a temperature does not raise it.
proof fn lemma_below_start(t: Binary64, c: Binary64)
    requires
        t.finite() && c.finite(),
        t.exact() >= 0,
        c.exact() <= 0,
        t.sum(c).finite(),
    ensures
        t.sum(c).exact() <= t.exact(),
{
    let z = num(D0);
    assert(z.exact() == 0);
    crate::rounding::ranks_order_as_values(c, z);
    crate::rounding::sums_commute(t, c);
    crate::rounding::sums_commute(t, z);
    crate::rounding::zeros_add_nothing(t, z);
    crate::rounding::sums_keep_order(c, z, t);
    crate::rounding::ranks_order_as_values(t.sum(c), t.sum(z));
    assert(t.sum(z).exact() == t.exact()) by {
        assert(crate::binary64::magnitude_value(0) == 0);
    }
}

/// Within a layer the pressure falls with the geopotential altitude, where
/// powers and exponentials keep order: half a metre higher it is lower, and
/// never zero.
pub proof fn pressure_falls_with_height(
    a: Binary64,
    b: Binary64,
    at_a: AirFactors,
    at_b: AirFactors,
)
    requires
        Atmosphere::terms_at(a).layer == Atmosphere::terms_at(b).layer,
        Atmosphere::terms_at(b).layer != Layer::Beyond,
        num(M1000).not_above(Atmosphere::potential(a)),
        num(D0_5).not_above(Atmosphere::potential(b).difference(Atmosphere::potential(a))),
        is_ordinary(at_a.power) && is_ordinary(at_a.exponential),
        is_ordinary(at_b.power) && is_ordinary(at_b.exponential),
        factors_keep_order(Atmosphere::terms_at(a), at_a, Atmosphere::terms_at(b), at_b),
    ensures
        num(D0).below(Atmosphere::pressure_at(Atmosphere::terms_at(b), at_b)),
        Atmosphere::pressure_at(Atmosphere::terms_at(b), at_b).below(
            Atmosphere::pressure_at(Atmosphere::terms_at(a), at_a),
        ),
{
    let (low, high) = (Atmosphere::potential(a), Atmosphere::potential(b));
    assert(Atmosphere::layer_at(low) == Atmosphere::layer_at(high));
    assert(low.not_above(num(D86000)) && high.not_above(num(D86000)));
    lemma_heights(low, high);
    lemma_constants_in_steps();
    lemma_layers_in_steps();
    crate::separation::one_in_steps();
    match Atmosphere::layer_at(low) {
        Layer::Troposphere => {
            assert(low.larger(num(M1000)) == low);
            assert(high.larger(num(M1000)) == high) by {
                crate::rounding::ranks_order_as_values(low, high);
            }
            lemma_base_falls(num(D0_0065), num(D288_15), num(D288_15), low, high);
            lemma_exponent(num(D0_0065));
            lemma_pressures_differ(num(D101325), at_b.power, at_a.power);
        },
        Layer::Tropopause => {
            lemma_tropopause();
            lemma_above_foot(num(D11000), low, high);
            lemma_decay_falls(
                Atmosphere::tropopause(),
                low.difference(num(D11000)),
                high.difference(num(D11000)),
            );
            lemma_foot_pressure(num(D101325), at_a.power);
            lemma_pressures_differ(
                num(D101325).product(at_a.power),
                at_b.exponential,
                at_a.exponential,
            );
        },
        Layer::Stratosphere => {
            lemma_above_foot(num(D20000), low, high);
            lemma_base_rises(
                num(D0_001),
                num(D216_65),
                num(D216_65),
                low.difference(num(D20000)),
                high.difference(num(D20000)),
            );
            lemma_exponent(num(D0_001));
            lemma_foot_pressure(num(D22632_06), at_a.exponential);
            lemma_pressures_differ(
                num(D22632_06).product(at_a.exponential),
                at_b.power,
                at_a.power,
            );
        },
        Layer::UpperStratosphere => {
            lemma_above_foot(num(D32000), low, high);
            lemma_base_rises(
                num(D0_0028),
                num(D228_65),
                num(D228_65),
                low.difference(num(D32000)),
                high.difference(num(D32000)),
            );
            lemma_exponent(num(D0_0028));
            lemma_pressures_differ(num(D868_0187), at_b.power, at_a.power);
        },
        Layer::Stratopause => {
            lemma_above_foot(num(D47000), low, high);
            lemma_decay_falls(
                num(D270_65),
                low.difference(num(D47000)),
                high.difference(num(D47000)),
            );
            lemma_pressures_differ(num(D110_9063), at_b.exponential, at_a.exponential);
        },
        Layer::Mesosphere => {
            lemma_above_foot(num(D51000), low, high);
            lemma_base_falls(
                num(D0_0028),
                num(D270_65),
                num(D270_65),
                low.difference(num(D51000)),
                high.difference(num(D51000)),
            );
            lemma_exponent(num(D0_0028));
            lemma_pressures_differ(num(D66_93887), at_b.power, at_a.power);
        },
        Layer::UpperMesosphere => {
            lemma_above_foot(num(D71000), low, high);
            lemma_base_falls(
                num(D0_002),
                num(D214_65),
                num(D214_65),
                low.difference(num(D71000)),
                high.difference(num(D71000)),
            );
            lemma_exponent(num(D0_002));
            lemma_pressures_differ(num(D3_95642), at_b.power, at_a.power);
        },
        Layer::Beyond => {},
    }
}

/// Whether numbers are those of the geopotential altitude of `a`, but for
/// roundings: `n` of the product, `d` of the sum and `q` of the quotient.
spec fn near_potential(radius: int, a: int, n: int, d: int, q: int, one: int, r: int) -> bool {
    &&& n * one - radius * a <= one * (0x8000_0000_0000_0000 * r)
    &&& radius * a - n * one <= one * (0x8000_0000_0000_0000 * r)
    &&& d - (radius + a) <= 0x2000_0000_0000 * r
    &&& (radius + a) - d <= 0x2000_0000_0000 * r
    &&& q * d - n * one <= d * (0x200_0000_0000 * r)
    &&& n * one - q * d <= d * (0x200_0000_0000 * r)
    &&& 0 <= q <= 0x2000_0000_0000_0000_0000_0000 * r
}

/// The geopotential altitude is near its exact value.
proof fn lemma_near_potential(a: Binary64)
    requires
        a.finite(),
        0 <= a.exact() <= 0x800_0000_0000_0000_0000_0000 * step(),
        !a.negative() || a.zero(),
    ensures
        ({
            let radius = num(D6356766);
            let n = radius.product(a);
            let d = radius.sum(a);
            let q = Atmosphere::potential(a);
            &&& q.finite()
            &&& 0x1_0000_0000_0000_0000_0000_0000 * step() <= radius.exact() <= 0x2_0000_0000_0000_0000_0000_0000 * step()
            &&& near_potential(
                radius.exact(),
                a.exact(),
                n.exact(),
                d.exact(),
                q.exact(),
                pow2(UNIT_EXPONENT as nat) as int,
                step(),
            )
        }),
{
    crate::separation::one_in_steps();
    crate::separation::many_steps();
    lemma2_to64();
    lemma_pow2_adds(32, 12);
    let radius = num(D6356766);
    crate::separation::exponents_in_steps(radius, 44);
    let r = step();
    let one = pow2(UNIT_EXPONENT as nat) as int;
    let limit = pow2(1200) as int;
    let (w, m) = (radius.exact(), a.exact());
    assert(size(radius) == w && size(a) == m);
    let n = radius.product(a);
    let d = radius.sum(a);
    let q = Atmosphere::potential(a);
    let most = 0x4_0000_0000_0000_0000_0000_0000_0000 * r;
    assert(w * m <= most * one) by (nonlinear_arith)
        requires
            0 <= w <= 0x2_0000_0000_0000_0000_0000_0000 * r,
            0 <= m <= 0x800_0000_0000_0000_0000_0000 * r,
            one == 0x400_0000_0000_0000_0000 * r,
            most == 0x4_0000_0000_0000_0000_0000_0000_0000 * r,
            r > 0,
    ;
    assert(most * one <= limit * one) by (nonlinear_arith)
        requires
            most <= limit,
            one > 0,
    ;
    crate::separation::products_stay_finite(radius, a);
    crate::separation::products_have_size(radius, a, most);
    crate::separation::products_move_little(radius, a);
    assert(size(n) <= 0x8_0000_0000_0000_0000_0000_0000_0000 * r);
    lemma_small_error(n.exact() * one, w * m, size(n), one, r, 0x8000_0000_0000_0000 * r);
    crate::separation::sums_stay_finite(radius, a);
    crate::separation::sums_have_size(radius, a, 0x2_0000_0000_0000_0000_0000_0000 * r + 0x800_0000_0000_0000_0000_0000 * r);
    crate::separation::sums_move_little(radius, a);
    assert(size(d) <= 0x4_0000_0000_0000_0000_0000_0000 * r);
    assert(d.exact() >= 0x8000_0000_0000_0000_0000_0000 * r);
    let top = 0x1000_0000_0000_0000_0000_0000 * r;
    assert(n.exact() >= 0) by {
        if n.exact() < 0 {
            assert(n.negative());
            if !a.zero() {
                crate::rounding::products_are_numbers(radius, a);
            }
        }
    }
    assert(crate::binary64::magnitude_value(0) == 0);
    assert(size(n) == n.exact());
    let (u, v) = (n.exact(), d.exact());
    assert(u * one <= top * v) by (nonlinear_arith)
        requires
            u * one - w * m <= one * (0x8000_0000_0000_0000 * r),
            0 <= m <= 0x800_0000_0000_0000_0000_0000 * r,
            0x1_0000_0000_0000_0000_0000_0000 * r <= w,
            v >= w + m - 0x2000_0000_0000 * r,
            one == 0x400_0000_0000_0000_0000 * r,
            top == 0x1000_0000_0000_0000_0000_0000 * r,
            r > 0,
    ;
    assert(top * v <= limit * v) by (nonlinear_arith)
        requires
            top <= limit,
            v > 0,
    ;
    crate::separation::quotients_stay_finite(n, d);
    crate::separation::quotients_have_size(n, d, top);
    crate::separation::quotients_move_little(n, d);
    assert(size(q) <= 0x2000_0000_0000_0000_0000_0000 * r);
    lemma_small_error(q.exact() * v, u * one, size(q), v, r, 0x200_0000_0000 * r);
    assert(q.exact() >= 0) by {
        if q.exact() < 0 {
            assert(q.negative());
            assert(!d.negative());
            crate::rounding::quotients_are_numbers(n, d);
            assert(n.negative());
            crate::binary64::magnitudes_order_as_values(0, n.magnitude());
            assert(n.zero());
        }
    }
}

/// An error of one part in 2 to the power 53 is small.
proof fn lemma_small_error(x: int, y: int, s: int, weight: int, r: int, error: int)
    requires
        weight > 0,
        r > 0,
        0x20_0000_0000_0000 * (x - y) <= weight * (s + 0x10_0000_0000_0000),
        0x20_0000_0000_0000 * (y - x) <= weight * (s + 0x10_0000_0000_0000),
        s + 0x10_0000_0000_0000 <= 0x20_0000_0000_0000 * error,
    ensures
        x - y <= weight * error,
        y - x <= weight * error,
{
    assert(weight * (s + 0x10_0000_0000_0000) <= 0x20_0000_0000_0000 * (weight * error)) by (nonlinear_arith)
        requires
            weight > 0,
            s + 0x10_0000_0000_0000 <= 0x20_0000_0000_0000 * error,
    ;
}

/// Geopotential altitudes of altitudes that are apart by a metre are apart by
/// five eighths of it.
proof fn lemma_climb(
    w: int,
    a: int,
    na: int,
    da: int,
    qa: int,
    b: int,
    nb: int,
    db: int,
    qb: int,
    one: int,
    r: int,
)
    requires
        r > 0,
        one == 0x400_0000_0000_0000_0000 * r,
        0x1_0000_0000_0000_0000_0000_0000 * r <= w <= 0x2_0000_0000_0000_0000_0000_0000 * r,
        0 <= a <= 0x800_0000_0000_0000_0000_0000 * r,
        0 <= b <= 0x800_0000_0000_0000_0000_0000 * r,
        b - a >= 15 * (0x40_0000_0000_0000_0000 * r),
        near_potential(w, a, na, da, qa, one, r),
        near_potential(w, b, nb, db, qb, one, r),
    ensures
        qb - qa >= 10 * (0x40_0000_0000_0000_0000 * r),
{
    let delta = b - a;
    let gap = qb - qa;
    assert(qa * (db - da) <= qa * (delta + 0x4000_0000_0000 * r)) by (nonlinear_arith)
        requires
            qa >= 0,
            db - da <= delta + 0x4000_0000_0000 * r,
    ;
    assert(gap * db == qb * db - qa * da - qa * (db - da)) by (nonlinear_arith)
        requires
            gap == qb - qa,
    ;
    assert(w * b - w * a == w * delta) by (nonlinear_arith)
        requires
            delta == b - a,
    ;
    let errors = 2 * (one * (0x8000_0000_0000_0000 * r)) + da * (0x200_0000_0000 * r) + db * (0x200_0000_0000 * r) + qa * (0x4000_0000_0000 * r);
    assert(qa * (delta + 0x4000_0000_0000 * r) == qa * delta + qa * (0x4000_0000_0000 * r)) by (nonlinear_arith);
    assert(gap * db >= w * delta - qa * delta - errors);
    assert(errors <= 0x2000_0000_0000_0000_0000_0000_0000_0000_0000 * (r * r)) by (nonlinear_arith)
        requires
            errors == 2 * (one * (0x8000_0000_0000_0000 * r)) + da * (0x200_0000_0000 * r) + db * (0x200_0000_0000 * r) + qa * (0x4000_0000_0000 * r),
            one == 0x400_0000_0000_0000_0000 * r,
            da <= 0x4_0000_0000_0000_0000_0000_0000 * r,
            db <= 0x4_0000_0000_0000_0000_0000_0000 * r,
            qa <= 0x2000_0000_0000_0000_0000_0000 * r,
            r > 0,
    ;
    assert(8 * (qa * delta) <= w * delta) by (nonlinear_arith)
        requires
            8 * qa <= w,
            delta >= 0,
    ;
    assert(w * delta >= 0x200_0000_0000_0000_0000_0000_0000_0000_0000_0000_0000 * (r * r)) by (nonlinear_arith)
        requires
            w >= 0x1_0000_0000_0000_0000_0000_0000 * r,
            delta >= 0x200_0000_0000_0000_0000 * r,
            r > 0,
    ;
    assert(r * r > 0) by (nonlinear_arith)
        requires
            r > 0,
    ;
    assert(4 * (gap * db) >= 3 * (w * delta));
    assert(16 * db <= 17 * w);
    if gap < 10 * (0x40_0000_0000_0000_0000 * r) {
        let x = 10 * (0x40_0000_0000_0000_0000 * r);
        assert(db > 0);
        assert(gap * db <= x * db) by (nonlinear_arith)
            requires
                gap <= x,
                db > 0,
        ;
        assert(16 * (x * db) <= 17 * (x * w)) by (nonlinear_arith)
            requires
                16 * db <= 17 * w,
                x >= 0,
        ;
        assert(2 * (w * delta) >= 3 * (x * w)) by (nonlinear_arith)
            requires
                2 * delta >= 3 * x,
                w >= 0,
        ;
        assert(x * w > 0) by (nonlinear_arith)
            requires
                x > 0,
                w > 0,
        ;
    }
}

/// The geopotential altitude does not exceed the altitude, but for small ones.
proof fn lemma_not_above_altitude(w: int, a: int, n: int, d: int, q: int, one: int, r: int)
    requires
        r > 0,
        one == 0x400_0000_0000_0000_0000 * r,
        0x1_0000_0000_0000_0000_0000_0000 * r <= w <= 0x2_0000_0000_0000_0000_0000_0000 * r,
        0 <= a <= 0x800_0000_0000_0000_0000_0000 * r,
        near_potential(w, a, n, d, q, one, r),
    ensures
        q <= a || q <= 0x400_0000_0000_0000_0000_0000 * r,
{
    if q > a && q > 0x400_0000_0000_0000_0000_0000 * r {
        assert(r * r > 0) by (nonlinear_arith)
            requires
                r > 0,
        ;
        assert(q * d <= w * a + 0x1000_0000_0000_0000_0000_0000_0000_0000_0000 * (r * r)) by (nonlinear_arith)
            requires
                q * d - n * one <= d * (0x200_0000_0000 * r),
                n * one - w * a <= one * (0x8000_0000_0000_0000 * r),
                d <= 0x4_0000_0000_0000_0000_0000_0000 * r,
                one == 0x400_0000_0000_0000_0000 * r,
                r > 0,
        ;
        let less = w + a - 0x2000_0000_0000 * r;
        if a >= 0x100_0000_0000_0000_0000_0000 * r {
            assert(q * d >= a * less) by (nonlinear_arith)
                requires
                    q >= a >= 0,
                    d >= less >= 0,
            ;
            assert(a * less == w * a + a * a - a * (0x2000_0000_0000 * r)) by (nonlinear_arith)
                requires
                    less == w + a - 0x2000_0000_0000 * r,
            ;
            assert(a * a - a * (0x2000_0000_0000 * r) >= 0x400_0000_0000_0000_0000_0000_0000_0000_0000_0000_0000 * (r * r)) by (nonlinear_arith)
                requires
                    a >= 0x100_0000_0000_0000_0000_0000 * r,
                    r > 0,
            ;
        } else {
            assert(q * d >= (0x400_0000_0000_0000_0000_0000 * r) * less) by (nonlinear_arith)
                requires
                    q >= 0x400_0000_0000_0000_0000_0000 * r >= 0,
                    d >= less >= 0,
            ;
            assert((0x400_0000_0000_0000_0000_0000 * r) * less >= w * a + 0x400_0000_0000_0000_0000_0000_0000_0000_0000_0000_0000 * (r * r)) by (nonlinear_arith)
                requires
                    less >= w - 0x2000_0000_0000 * r,
                    0 <= a <= 0x100_0000_0000_0000_0000_0000 * r,
                    w >= 0x1_0000_0000_0000_0000_0000_0000 * r,
                    r > 0,
            ;
        }
    }
}

/// A metre higher the geopotential altitude is higher by more than half a
/// metre, and up to 86 km it does not exceed that.
pub proof fn geopotential_altitude_climbs(a: Binary64, b: Binary64)
    requires
        num(D0).not_above(a),
        a.sum(num(D1)).not_above(b),
        b.not_above(num(D86000)),
    ensures
        num(D0).not_above(Atmosphere::potential(a)),
        num(D0_5).not_above(Atmosphere::potential(b).difference(Atmosphere::potential(a))),
        Atmosphere::potential(b).not_above(num(D86000)),
{
    crate::separation::one_in_steps();
    crate::separation::many_steps();
    lemma_layers_in_steps();
    lemma2_to64();
    lemma_pow2_adds(1000, 21);
    lemma_pow2_adds(1000, 22);
    let r = step();
    let one = pow2(UNIT_EXPONENT as nat) as int;
    assert(pow2(1000) * pow2(21) == 0x20_0000 * pow2(1000)) by (nonlinear_arith)
        requires
            pow2(21) == 0x20_0000,
    ;
    assert(pow2(1000) * pow2(22) == 0x40_0000 * pow2(1000)) by (nonlinear_arith)
        requires
            pow2(22) == 0x40_0000,
    ;
    assert(size(num(D0_5)) == 0x10_0000_0000_0000 * pow2(1021));
    assert(size(num(D1)) == 0x10_0000_0000_0000 * pow2(1022));
    assert(num(D0).exact() == 0);
    let c = num(D1);
    let s = a.sum(c);
    assert(a.finite()) by {
        if !a.finite() {
            assert(s == a);
        }
    }
    crate::rounding::sums_grow(a, c);
    assert(b.finite() && s.finite());
    crate::rounding::ranks_order_as_values(num(D0), a);
    crate::rounding::ranks_order_as_values(s, b);
    crate::rounding::ranks_order_as_values(b, num(D86000));
    crate::rounding::ranks_order_as_values(a, s);
    crate::separation::sums_move_little(a, c);
    assert(a.exact() + one <= s.exact() + 0x100_0000_0000 * r);
    lemma_near_potential(a);
    lemma_near_potential(b);
    let radius = num(D6356766);
    let (low, high) = (Atmosphere::potential(a), Atmosphere::potential(b));
    lemma_climb(
        radius.exact(),
        a.exact(),
        radius.product(a).exact(),
        radius.sum(a).exact(),
        low.exact(),
        b.exact(),
        radius.product(b).exact(),
        radius.sum(b).exact(),
        high.exact(),
        one,
        r,
    );
    crate::rounding::ranks_order_as_values(num(D0), low);
    let k = low.negated();
    assert(k.finite() && size(k) == size(low) && k.exact() == -low.exact());
    crate::separation::sums_stay_finite(high, k);
    crate::separation::sums_have_size(high, k, 0x4000_0000_0000_0000_0000_0000 * r);
    crate::separation::sums_move_little(high, k);
    let x = high.difference(low);
    assert(x.exact() >= 0x200_0000_0000_0000_0000 * r);
    crate::rounding::ranks_order_as_values(num(D0_5), x);
    lemma_not_above_altitude(
        radius.exact(),
        b.exact(),
        radius.product(b).exact(),
        radius.sum(b).exact(),
        high.exact(),
        one,
        r,
    );
    assert(0x400_0000_0000_0000_0000_0000 * r <= size(num(D86000))) by {
        lemma_pow2_adds(32, 6);
        crate::separation::exponents_in_steps(num(D86000), 38);
    }
    crate::rounding::ranks_order_as_values(high, num(D86000));
}

/// Within a layer the pressure falls with altitude, where powers and
/// exponentials keep order: a metre higher it is lower, and never zero.
pub proof fn pressure_falls_with_altitude(
    a: Binary64,
    b: Binary64,
    at_a: AirFactors,
    at_b: AirFactors,
)
    requires
        num(D0).not_above(a),
        a.sum(num(D1)).not_above(b),
        b.not_above(num(D86000)),
        Atmosphere::terms_at(a).layer == Atmosphere::terms_at(b).layer,
        is_ordinary(at_a.power) && is_ordinary(at_a.exponential),
        is_ordinary(at_b.power) && is_ordinary(at_b.exponential),
        factors_keep_order(Atmosphere::terms_at(a), at_a, Atmosphere::terms_at(b), at_b),
    ensures
        num(D0).below(Atmosphere::air_at(b, at_b).pressure),
        Atmosphere::air_at(b, at_b).pressure.below(Atmosphere::air_at(a, at_a).pressure),
{
    geopotential_altitude_climbs(a, b);
    pressure_falls_with_height(a, b, at_a, at_b);
}

} // verus!
