//! How the pressure of the air falls through the layers of the atmosphere.
use crate::atmosphere::{AirFactors, AirTerms, Atmosphere, Layer};
use crate::binary64::Binary64;
use crate::elementary::Elementary;
use crate::literal::{
    num, D0, D0_001, D0_002, D0_0028, D0_0065, D0_5, D1, D101325, D10999_875, D11000,
    D11000_125, D110_9063, D19999_875, D1_5, D20000, D20000_125, D214_65, D216_65, D22632_06, D228_65, D270_65,
    D287_05287, D288_15, D31999_875, D32000, D32000_125, D3_95642, D46999_875, D47000, D47000_125,
    D50999_875, D51000, D51000_125, D66_93887, D70999_875, D71000, D71000_125, D86000, D868_0187,
    D9_80665, M1000,
};
use crate::separation::{size, step};
use vstd::arithmetic::power2::*;
use vstd::prelude::*;

verus! {

/// Powers and exponentials, as functions of their arguments.
pub struct Functions {
    pub power: spec_fn(Binary64, Binary64) -> Binary64,
    pub exponential: spec_fn(Binary64) -> Binary64,
}

impl Functions {
    /// The factors of the air for its terms.
    pub open spec fn factors(self, t: AirTerms) -> AirFactors {
        AirFactors {
            power: (self.power)(t.base, t.exponent),
            exponential: (self.exponential)(t.decay),
            temperature_power: (self.power)(t.temperature, num(D1_5)),
        }
    }

    /// The pressure that a layer has at a geopotential altitude.
    #[verifier::opaque]
    pub open spec fn pressure(self, layer: Layer, h: Binary64) -> Binary64 {
        let t = Atmosphere::terms_in(layer, h);
        Atmosphere::pressure_at(t, self.factors(t))
    }

    /// Whether the factors of a layer have an ordinary size at an altitude.
    #[verifier::opaque]
    pub open spec fn ordinary_at(self, layer: Layer, h: Binary64) -> bool {
        let f = self.factors(Atmosphere::terms_in(layer, h));
        crate::pressure::is_ordinary(f.power) && crate::pressure::is_ordinary(f.exponential)
    }

    /// Whether the factors of a layer keep order between two altitudes.
    #[verifier::opaque]
    pub open spec fn ordered_between(self, layer: Layer, low: Binary64, high: Binary64) -> bool {
        let (s, t) = (Atmosphere::terms_in(layer, low), Atmosphere::terms_in(layer, high));
        crate::pressure::factors_keep_order(s, self.factors(s), t, self.factors(t))
    }

    /// Whether the functions keep order: within each layer, and at its base,
    /// where the layers meet. There an eighth of a metre outweighs what the
    /// layers disagree by.
    pub open spec fn keep_order(self) -> bool {
        &&& forall|layer: Layer, h: Binary64| #[trigger]
            holds(layer, h) ==> self.ordinary_at(layer, h)
        &&& forall|layer: Layer, low: Binary64, high: Binary64| #[trigger]
            holds(layer, low) && #[trigger] holds(layer, high) && low.not_above(high)
                ==> self.ordered_between(layer, low, high)
        &&& self.steps_down(Layer::Troposphere, Layer::Tropopause)
        &&& self.steps_down(Layer::Tropopause, Layer::Stratosphere)
        &&& self.steps_down(Layer::Stratosphere, Layer::UpperStratosphere)
        &&& self.steps_down(Layer::UpperStratosphere, Layer::Stratopause)
        &&& self.steps_down(Layer::Stratopause, Layer::Mesosphere)
        &&& self.steps_down(Layer::Mesosphere, Layer::UpperMesosphere)
    }

    /// Whether the pressure steps down from one layer to the next within an
    /// eighth of a metre, on either side of the base of the next.
    pub open spec fn steps_down(self, layer: Layer, next: Layer) -> bool {
        &&& self.pressure(next, foot(next)).below(self.pressure(layer, below_top(layer)))
        &&& self.pressure(next, above_foot(next)).below(self.pressure(layer, top(layer)))
    }
}

/// The geopotential altitude at which a layer begins.
pub open spec fn foot(layer: Layer) -> Binary64 {
    match layer {
        Layer::Troposphere => num(D0),
        Layer::Tropopause => num(D11000),
        Layer::Stratosphere => num(D20000),
        Layer::UpperStratosphere => num(D32000),
        Layer::Stratopause => num(D47000),
        Layer::Mesosphere => num(D51000),
        Layer::UpperMesosphere => num(D71000),
        Layer::Beyond => num(D86000),
    }
}

/// An eighth of a metre above that.
pub open spec fn above_foot(layer: Layer) -> Binary64 {
    match layer {
        Layer::Tropopause => num(D11000_125),
        Layer::Stratosphere => num(D20000_125),
        Layer::UpperStratosphere => num(D32000_125),
        Layer::Stratopause => num(D47000_125),
        Layer::Mesosphere => num(D51000_125),
        Layer::UpperMesosphere => num(D71000_125),
        _ => foot(layer),
    }
}

/// The geopotential altitude at which a layer ends.
pub open spec fn top(layer: Layer) -> Binary64 {
    match layer {
        Layer::Troposphere => num(D11000),
        Layer::Tropopause => num(D20000),
        Layer::Stratosphere => num(D32000),
        Layer::UpperStratosphere => num(D47000),
        Layer::Stratopause => num(D51000),
        Layer::Mesosphere => num(D71000),
        _ => num(D86000),
    }
}

/// An eighth of a metre below that.
pub open spec fn below_top(layer: Layer) -> Binary64 {
    match layer {
        Layer::Troposphere => num(D10999_875),
        Layer::Tropopause => num(D19999_875),
        Layer::Stratosphere => num(D31999_875),
        Layer::UpperStratosphere => num(D46999_875),
        Layer::Stratopause => num(D50999_875),
        Layer::Mesosphere => num(D70999_875),
        _ => top(layer),
    }
}

/// The layer above a layer.
pub open spec fn next(layer: Layer) -> Layer {
    match layer {
        Layer::Troposphere => Layer::Tropopause,
        Layer::Tropopause => Layer::Stratosphere,
        Layer::Stratosphere => Layer::UpperStratosphere,
        Layer::UpperStratosphere => Layer::Stratopause,
        Layer::Stratopause => Layer::Mesosphere,
        Layer::Mesosphere => Layer::UpperMesosphere,
        _ => Layer::Beyond,
    }
}

/// Whether a layer of the standard, with both its ends, holds an altitude.
pub open spec fn holds(layer: Layer, h: Binary64) -> bool {
    layer != Layer::Beyond && foot(layer).not_above(h) && h.not_above(top(layer))
}

/// An altitude of the standard is finite and not too large.
proof fn lemma_height(h: Binary64)
    requires
        num(D0).not_above(h),
        h.not_above(num(D86000)),
    ensures
        h.finite(),
        size(h) <= 0x800_0000_0000_0000_0000_0000 * step(),
{
    crate::pressure::lemma_layers_in_steps();
    crate::separation::one_in_steps();
    assert(num(D0).exact() == 0);
    crate::rounding::ranks_order_as_values(num(D0), h);
    crate::rounding::ranks_order_as_values(h, num(D86000));
}

/// Altitudes above the foot of a layer are ordered as the altitudes.
proof fn lemma_above(base: Binary64, low: Binary64, high: Binary64)
    requires
        num(D0).not_above(base) && base.not_above(num(D86000)),
        num(D0).not_above(low) && low.not_above(high) && high.not_above(num(D86000)),
    ensures
        low.difference(base).finite() && high.difference(base).finite(),
        low.difference(base).not_above(high.difference(base)),
{
    lemma_height(base);
    lemma_height(low);
    lemma_height(high);
    crate::separation::one_in_steps();
    crate::separation::many_steps();
    let c = base.negated();
    assert(size(c) == size(base) && c.finite());
    crate::separation::sums_stay_finite(low, c);
    crate::separation::sums_stay_finite(high, c);
    crate::rounding::sums_keep_order(low, high, c);
}

/// Where temperature falls, the base of the power does not rise.
proof fn lemma_base_sinks(k: Binary64, t: Binary64, low: Binary64, high: Binary64)
    requires
        k.finite() && num(D0).not_above(k),
        t.finite() && num(D0).below(t),
        low.finite() && high.finite() && low.not_above(high),
    ensures
        t.difference(k.product(high)).quotient(t).not_above(
            t.difference(k.product(low)).quotient(t),
        ),
{
    crate::rounding::factors_keep_order(k, low, high);
    crate::rounding::products_are_numbers(k, low);
    crate::rounding::products_are_numbers(k, high);
    let (p, q) = (k.product(low).negated(), k.product(high).negated());
    if p.finite() {
        crate::rounding::sums_are_numbers(t, p);
    }
    if q.finite() {
        crate::rounding::sums_are_numbers(t, q);
    }
    crate::rounding::sums_commute(t, p);
    crate::rounding::sums_commute(t, q);
    crate::rounding::sums_keep_order(q, p, t);
    crate::rounding::divisors_keep_order(t.sum(q), t.sum(p), t);
}

/// Where temperature rises, the base of the power does not sink.
proof fn lemma_base_climbs(k: Binary64, t: Binary64, low: Binary64, high: Binary64)
    requires
        k.finite() && num(D0).not_above(k),
        t.finite() && num(D0).below(t),
        low.finite() && high.finite() && low.not_above(high),
    ensures
        t.sum(k.product(low)).quotient(t).not_above(t.sum(k.product(high)).quotient(t)),
{
    crate::rounding::factors_keep_order(k, low, high);
    crate::rounding::products_are_numbers(k, low);
    crate::rounding::products_are_numbers(k, high);
    let (p, q) = (k.product(low), k.product(high));
    if p.finite() {
        crate::rounding::sums_are_numbers(t, p);
    }
    if q.finite() {
        crate::rounding::sums_are_numbers(t, q);
    }
    crate::rounding::sums_commute(t, p);
    crate::rounding::sums_commute(t, q);
    crate::rounding::sums_keep_order(p, q, t);
    crate::rounding::divisors_keep_order(t.sum(p), t.sum(q), t);
}

/// Where temperature is constant, the argument of the exponential does not
/// rise.
proof fn lemma_decay_sinks(t: Binary64, low: Binary64, high: Binary64)
    requires
        t.finite(),
        0x8000_0000_0000_0000_0000 * step() <= t.exact() <= 0x8_0000_0000_0000_0000_0000 * step(),
        low.finite() && high.finite() && low.not_above(high),
    ensures
        num(D9_80665).negated().product(high).quotient(num(D287_05287).product(t)).not_above(
            num(D9_80665).negated().product(low).quotient(num(D287_05287).product(t)),
        ),
{
    let g = num(D9_80665);
    crate::pressure::lemma_specific_energy(t);
    crate::separation::one_in_steps();
    let d = num(D287_05287).product(t);
    assert(num(D0).exact() == 0);
    crate::rounding::ranks_order_as_values(num(D0), d);
    crate::rounding::factors_keep_order(g, low, high);
    crate::rounding::products_are_numbers(g, low);
    crate::rounding::products_are_numbers(g, high);
    crate::rounding::products_commute(g.negated(), low);
    crate::rounding::products_commute(g.negated(), high);
    crate::rounding::products_commute(g, low);
    crate::rounding::products_commute(g, high);
    crate::rounding::negated_factors(low, g);
    crate::rounding::negated_factors(high, g);
    let (p, q) = (g.negated().product(low), g.negated().product(high));
    assert(p == g.product(low).negated() && q == g.product(high).negated());
    crate::rounding::divisors_keep_order(q, p, d);
}

/// A pressure times ordinary factors in order gives pressures in order, above
/// zero.
proof fn lemma_pressures_ordered(c: Binary64, low: Binary64, high: Binary64)
    requires
        c.finite(),
        0x800_0000_0000_0000_0000 * step() <= c.exact() <= 0x800_0000_0000_0000_0000_0000 * step(),
        crate::pressure::is_ordinary(low),
        crate::pressure::is_ordinary(high),
        low.not_above(high),
    ensures
        num(D0).below(c.product(low)),
        c.product(low).not_above(c.product(high)),
{
    crate::separation::one_in_steps();
    assert(num(D0).exact() == 0);
    crate::rounding::ranks_order_as_values(num(D0), c);
    crate::pressure::lemma_ordinary(low);
    crate::pressure::lemma_ordinary(high);
    crate::rounding::factors_keep_order(c, low, high);
    crate::pressure::lemma_foot_pressure(c, low);
    crate::rounding::ranks_order_as_values(num(D0), c.product(low));
}

/// The same of a pressure of which a factor was taken already.
proof fn lemma_products_ordered(c: Binary64, low: Binary64, high: Binary64)
    requires
        c.finite(),
        0x40_0000_0000_0000 * step() <= c.exact() <= 0x4000_0000_0000_0000_0000_0000_0000 * step(),
        crate::pressure::is_ordinary(low),
        crate::pressure::is_ordinary(high),
        low.not_above(high),
    ensures
        num(D0).below(c.product(low)),
        c.product(low).not_above(c.product(high)),
{
    crate::separation::one_in_steps();
    assert(num(D0).exact() == 0);
    crate::rounding::ranks_order_as_values(num(D0), c);
    crate::pressure::lemma_ordinary(low);
    crate::pressure::lemma_ordinary(high);
    crate::rounding::factors_keep_order(c, low, high);
    crate::pressure::lemma_is_positive(c, low);
}

/// Within a layer the pressure does not rise with altitude, and is never zero.
#[verifier::spinoff_prover]
#[verifier::rlimit(40)]
proof fn lemma_does_not_rise(f: Functions, layer: Layer, low: Binary64, high: Binary64)
    requires
        f.keep_order(),
        holds(layer, low),
        holds(layer, high),
        low.not_above(high),
    ensures
        num(D0).below(f.pressure(layer, high)),
        f.pressure(layer, high).not_above(f.pressure(layer, low)),
{
    assert(f.ordinary_at(layer, low) && f.ordinary_at(layer, high));
    assert(f.ordered_between(layer, low, high));
    reveal(Functions::pressure);
    reveal(Functions::ordinary_at);
    reveal(Functions::ordered_between);
    crate::pressure::lemma_constants_in_steps();
    crate::pressure::lemma_layers_in_steps();
    crate::separation::one_in_steps();
    let (s, t) = (Atmosphere::terms_in(layer, low), Atmosphere::terms_in(layer, high));
    let (x, y) = (f.factors(s), f.factors(t));
    let (a, b) = (low.difference(foot(layer)), high.difference(foot(layer)));
    lemma_height(low);
    lemma_height(high);
    lemma_above(foot(layer), low, high);
    match layer {
        Layer::Troposphere => {
            assert(low.larger(num(M1000)) == low && high.larger(num(M1000)) == high);
            lemma_base_sinks(num(D0_0065), num(D288_15), low, high);
            crate::pressure::lemma_exponent(num(D0_0065));
            lemma_pressures_ordered(num(D101325), y.power, x.power);
        },
        Layer::Tropopause => {
            crate::pressure::lemma_tropopause();
            lemma_decay_sinks(Atmosphere::tropopause(), a, b);
            crate::pressure::lemma_foot_pressure(num(D101325), x.power);
            lemma_products_ordered(num(D101325).product(x.power), y.exponential, x.exponential);
        },
        Layer::Stratosphere => {
            lemma_base_climbs(num(D0_001), num(D216_65), a, b);
            crate::pressure::lemma_exponent(num(D0_001));
            crate::pressure::lemma_foot_pressure(num(D22632_06), x.exponential);
            lemma_products_ordered(num(D22632_06).product(x.exponential), y.power, x.power);
        },
        Layer::UpperStratosphere => {
            lemma_base_climbs(num(D0_0028), num(D228_65), a, b);
            crate::pressure::lemma_exponent(num(D0_0028));
            lemma_pressures_ordered(num(D868_0187), y.power, x.power);
        },
        Layer::Stratopause => {
            lemma_decay_sinks(num(D270_65), a, b);
            lemma_pressures_ordered(num(D110_9063), y.exponential, x.exponential);
        },
        Layer::Mesosphere => {
            lemma_base_sinks(num(D0_0028), num(D270_65), a, b);
            crate::pressure::lemma_exponent(num(D0_0028));
            lemma_pressures_ordered(num(D66_93887), y.power, x.power);
        },
        Layer::UpperMesosphere => {
            lemma_base_sinks(num(D0_002), num(D214_65), a, b);
            crate::pressure::lemma_exponent(num(D0_002));
            lemma_pressures_ordered(num(D3_95642), y.power, x.power);
        },
        Layer::Beyond => {},
    }
}

/// The marks of a layer and of the next one are in order.
proof fn lemma_marks(layer: Layer)
    requires
        layer.level() < 6,
    ensures
        holds(layer, below_top(layer)),
        holds(layer, top(layer)),
        foot(next(layer)) == top(layer),
        holds(next(layer), foot(next(layer))),
        holds(next(layer), above_foot(next(layer))),
        above_foot(layer).not_above(below_top(layer)),
        next(layer).level() == layer.level() + 1,
{
}

/// From an altitude that is not in the last eighth of a metre of its layer, the
/// pressure falls to every altitude in a higher layer.
proof fn lemma_descends(f: Functions, layer: Layer, h: Binary64, last: Layer, high: Binary64)
    requires
        f.keep_order(),
        holds(layer, h),
        h.not_above(below_top(layer)),
        holds(last, high),
        layer.level() < last.level(),
    ensures
        f.pressure(last, high).below(f.pressure(layer, h)),
    decreases last.level() - layer.level(),
{
    lemma_marks(layer);
    let after = next(layer);
    assert(f.steps_down(layer, after));
    lemma_does_not_rise(f, layer, h, below_top(layer));
    if after == last {
        lemma_does_not_rise(f, last, foot(last), high);
    } else {
        assert(after.level() < last.level());
        lemma_marks(after);
        lemma_descends(f, after, foot(after), last, high);
    }
}

/// The pressure falls from an altitude to one in a higher layer that is a
/// quarter of a metre higher or more.
proof fn lemma_crosses(f: Functions, layer: Layer, low: Binary64, last: Layer, high: Binary64)
    requires
        f.keep_order(),
        holds(layer, low),
        holds(last, high),
        layer.level() < last.level(),
        high.exact() - low.exact() >= 0x100_0000_0000_0000_0000 * step(),
    ensures
        f.pressure(last, high).below(f.pressure(layer, low)),
{
    if low.not_above(below_top(layer)) {
        lemma_descends(f, layer, low, last, high);
    } else {
        lemma_marks(layer);
        let after = next(layer);
        assert(f.steps_down(layer, after));
        lemma_does_not_rise(f, layer, low, top(layer));
        if after == last {
            lemma_quarter(layer, low, high);
            lemma_does_not_rise(f, last, above_foot(last), high);
        } else {
            assert(after.level() < last.level());
            lemma_marks(after);
            lemma_descends(f, after, above_foot(after), last, high);
        }
    }
}

/// Numbers with the same binary exponent are as far apart as their magnitudes.
proof fn lemma_same_exponent(a: Binary64, b: Binary64, e: nat, distance: int)
    requires
        !a.negative() && !b.negative(),
        a.magnitude() / 0x10_0000_0000_0000 == 1001 + e,
        b.magnitude() / 0x10_0000_0000_0000 == 1001 + e,
        b.magnitude() - a.magnitude() == distance,
    ensures
        b.exact() - a.exact() == distance * (pow2(e) * step()),
{
    lemma_pow2_adds(1000, e);
    let p = pow2(1000 + e) as int;
    let f = a.magnitude() % 0x10_0000_0000_0000;
    let g = b.magnitude() % 0x10_0000_0000_0000;
    assert(g - f == distance);
    assert(pow2(e) * pow2(1000) == pow2(1000) * pow2(e)) by (nonlinear_arith);
    assert((0x10_0000_0000_0000 + g) * p - (0x10_0000_0000_0000 + f) * p == (g - f) * p)
        by (nonlinear_arith);
}

/// The marks on either side of the base of a layer are a quarter of a metre
/// apart.
proof fn lemma_marks_apart(layer: Layer)
    requires
        layer.level() < 6,
    ensures
        above_foot(next(layer)).exact() - below_top(layer).exact() == 0x100_0000_0000_0000_0000
            * step(),
{
    lemma2_to64();
    lemma_pow2_adds(32, 3);
    lemma_pow2_adds(32, 4);
    lemma_pow2_adds(32, 5);
    lemma_pow2_adds(32, 6);
    let (a, b) = (below_top(layer), above_foot(next(layer)));
    match layer {
        Layer::Troposphere => lemma_same_exponent(a, b, 35, 0x20_0000_0000),
        Layer::Tropopause => lemma_same_exponent(a, b, 36, 0x10_0000_0000),
        Layer::Stratosphere => lemma_same_exponent(a, b, 36, 0x10_0000_0000),
        Layer::UpperStratosphere => lemma_same_exponent(a, b, 37, 0x8_0000_0000),
        Layer::Stratopause => lemma_same_exponent(a, b, 37, 0x8_0000_0000),
        _ => lemma_same_exponent(a, b, 38, 0x4_0000_0000),
    }
}

/// A quarter of a metre above the last eighth of a layer is beyond the first
/// eighth of the next.
proof fn lemma_quarter(layer: Layer, low: Binary64, high: Binary64)
    requires
        layer.level() < 6,
        below_top(layer).not_above(low),
        !high.nan(),
        high.exact() - low.exact() >= 0x100_0000_0000_0000_0000 * step(),
    ensures
        above_foot(next(layer)).not_above(high),
{
    lemma_marks_apart(layer);
    crate::rounding::ranks_order_as_values(below_top(layer), low);
    crate::rounding::ranks_order_as_values(above_foot(next(layer)), high);
}

/// The layer of an altitude holds it.
proof fn lemma_layer_holds(h: Binary64)
    requires
        num(D0).not_above(h),
        h.not_above(num(D86000)),
    ensures
        holds(Atmosphere::layer_at(h), h),
{
}

/// The pressure falls with altitude up to 86 km, through all layers, where
/// powers and exponentials keep order: a metre higher it is lower, and never
/// zero.
pub proof fn pressure_falls_through_the_layers(f: Functions, a: Binary64, b: Binary64)
    requires
        f.keep_order(),
        num(D0).not_above(a),
        a.sum(num(D1)).not_above(b),
        b.not_above(num(D86000)),
    ensures
        ({
            let at_a = Atmosphere::air_at(a, f.factors(Atmosphere::terms_at(a)));
            let at_b = Atmosphere::air_at(b, f.factors(Atmosphere::terms_at(b)));
            num(D0).below(at_b.pressure) && at_b.pressure.below(at_a.pressure)
        }),
{
    crate::pressure::geopotential_altitude_climbs(a, b);
    let (low, high) = (Atmosphere::potential(a), Atmosphere::potential(b));
    let (first, last) = (Atmosphere::layer_at(low), Atmosphere::layer_at(high));
    assert(low.not_above(high) && low.not_above(num(D86000))) by {
        lemma_lower(low, high);
    }
    crate::pressure::lemma_heights(low, high);
    lemma_layer_holds(low);
    lemma_layer_holds(high);
    crate::atmosphere::layers_are_stacked(low, high);
    lemma_does_not_rise(f, last, high, high);
    lemma_air_pressure(f, a);
    lemma_air_pressure(f, b);
    if first == last {
        assert(f.ordinary_at(first, low) && f.ordinary_at(first, high));
        assert(f.ordered_between(first, low, high));
        lemma_within_layer(f, a, b);
    } else {
        assert(first.level() < last.level());
        lemma_crosses(f, first, low, last, high);
    }
}

/// The pressure of the air is that of its layer.
proof fn lemma_air_pressure(f: Functions, a: Binary64)
    ensures
        Atmosphere::air_at(a, f.factors(Atmosphere::terms_at(a))).pressure == f.pressure(
            Atmosphere::layer_at(Atmosphere::potential(a)),
            Atmosphere::potential(a),
        ),
{
    reveal(Functions::pressure);
}

/// The pressure falls within a layer.
proof fn lemma_within_layer(f: Functions, a: Binary64, b: Binary64)
    requires
        num(D0).not_above(a),
        a.sum(num(D1)).not_above(b),
        b.not_above(num(D86000)),
        ({
            let (low, high) = (Atmosphere::potential(a), Atmosphere::potential(b));
            let layer = Atmosphere::layer_at(low);
            &&& layer == Atmosphere::layer_at(high)
            &&& f.ordinary_at(layer, low) && f.ordinary_at(layer, high)
            &&& f.ordered_between(layer, low, high)
        }),
    ensures
        Atmosphere::air_at(b, f.factors(Atmosphere::terms_at(b))).pressure.below(
            Atmosphere::air_at(a, f.factors(Atmosphere::terms_at(a))).pressure,
        ),
{
    reveal(Functions::ordinary_at);
    reveal(Functions::ordered_between);
    crate::pressure::pressure_falls_with_altitude(
        a,
        b,
        f.factors(Atmosphere::terms_at(a)),
        f.factors(Atmosphere::terms_at(b)),
    );
}

/// What is lower by a difference that is not negative is not above.
proof fn lemma_lower(low: Binary64, high: Binary64)
    requires
        num(D0).not_above(low),
        high.not_above(num(D86000)),
        num(D0_5).not_above(high.difference(low)),
    ensures
        low.not_above(high),
{
    if high.below(low) && high.finite() && low.finite() {
        crate::rounding::sums_keep_order(high, low, low.negated());
        crate::rounding::differences_cancel(low);
        crate::rounding::sums_are_numbers(high, low.negated());
    }
}

/// Whether a machine computes these functions.
pub open spec fn computes<M: Elementary>(m: M, f: Functions) -> bool {
    &&& forall|x: Binary64, y: Binary64, r: Binary64| #[trigger]
        call_ensures(M::powf, (&m, x, y), r) ==> r == (f.power)(x, y)
    &&& forall|x: Binary64, r: Binary64| #[trigger]
        call_ensures(M::exp, (&m, x), r) ==> r == (f.exponential)(x)
}

/// The air of a machine whose powers and exponentials keep order gets thinner
/// with altitude, up to 86 km: a metre higher its pressure is lower, and never
/// zero.
pub proof fn air_thins_with_altitude<M: Elementary>(
    m: M,
    f: Functions,
    a: Binary64,
    b: Binary64,
    at_a: Atmosphere,
    at_b: Atmosphere,
)
    requires
        computes(m, f),
        f.keep_order(),
        num(D0).not_above(a),
        a.sum(num(D1)).not_above(b),
        b.not_above(num(D86000)),
        crate::flight::is_air(m, a, at_a),
        crate::flight::is_air(m, b, at_b),
    ensures
        num(D0).below(at_b.pressure),
        at_b.pressure.below(at_a.pressure),
{
    let x = choose|x: AirFactors| #[trigger]
        crate::flight::air_factors_of(m, Atmosphere::terms_at(a), x) && at_a
            == Atmosphere::air_at(a, x);
    let y = choose|y: AirFactors| #[trigger]
        crate::flight::air_factors_of(m, Atmosphere::terms_at(b), y) && at_b
            == Atmosphere::air_at(b, y);
    assert(x == f.factors(Atmosphere::terms_at(a)));
    assert(y == f.factors(Atmosphere::terms_at(b)));
    pressure_falls_through_the_layers(f, a, b);
}

} // verus!
