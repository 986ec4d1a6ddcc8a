//! How the aircraft answers its controls, its motion and the air.
use crate::aero::{AirAngles, ControlInputs, EngineFlowInputs, Rates};
use crate::atmosphere::Atmosphere;
use crate::binary64::Binary64;
use crate::config::{AircraftConfig, Propulsion};
use crate::literal::{
    num, D0, D0_1, D0_3, D0_4, D0_45, D0_5, D0_574, D1, D1EM3, D1EM6, D2, D20, D3_141592653589793,
    D4, D6, D9_80665, M0_015, M0_45, M1,
};
use crate::state::AircraftState;
use crate::vector::Vec3;
use vstd::prelude::*;

verus! {

/// Whether a cause that goes from `a` to `b` pushes up, or not at all, by a
/// coefficient `k`.
pub open spec fn pushes_up(k: Binary64, a: Binary64, b: Binary64) -> bool {
    &&& k.finite() && a.finite() && b.finite()
    &&& k.product(a).finite() && k.product(b).finite()
    &&& (num(D0).not_above(k) && a.not_above(b)) || (k.not_above(num(D0)) && b.not_above(a))
}

/// What a cause pushes.
proof fn lemma_push(k: Binary64, a: Binary64, b: Binary64)
    requires
        pushes_up(k, a, b),
    ensures
        k.product(a).not_above(k.product(b)),
{
    if num(D0).not_above(k) && a.not_above(b) {
        crate::rounding::factors_keep_order(k, a, b);
    } else {
        let l = k.negated();
        crate::rounding::factors_keep_order(l, b, a);
        crate::rounding::products_commute(l, a);
        crate::rounding::products_commute(l, b);
        crate::rounding::negated_factors(a, k);
        crate::rounding::negated_factors(b, k);
        crate::rounding::products_commute(k, a);
        crate::rounding::products_commute(k, b);
        crate::rounding::products_are_numbers(k, a);
        crate::rounding::products_are_numbers(k, b);
    }
}

/// One more finite term.
proof fn lemma_term(x: Binary64, y: Binary64, s: Binary64, t: Binary64)
    requires
        !x.nan() && !y.nan(),
        x.not_above(y),
        s.finite() && t.finite(),
        s.not_above(t),
    ensures
        !x.sum(s).nan() && !y.sum(t).nan(),
        x.sum(s).not_above(y.sum(t)),
{
    if x.finite() {
        crate::rounding::sums_are_numbers(x, s);
    }
    if y.finite() {
        crate::rounding::sums_are_numbers(y, t);
    }
    crate::rounding::sums_of_ordered_terms(x, y, s, t);
}

/// The rolling moment answers each of its causes by the sign of its coefficient:
/// where none pushes down, the moment is no less.
pub proof fn rolls_answer_their_causes(
    config: AircraftConfig,
    c: ControlInputs,
    d: ControlInputs,
    r: Rates,
    s: Rates,
    beta: Binary64,
    gamma: Binary64,
)
    requires
        pushes_up(config.cl_beta, beta, gamma),
        pushes_up(config.cl_p, r.p, s.p),
        pushes_up(config.cl_r, r.r, s.r),
        pushes_up(config.cl_da, c.aileron, d.aileron),
        pushes_up(config.cl_dr, c.rudder, d.rudder),
    ensures
        crate::aero::roll_coefficient_of(config, c, r, beta).not_above(
            crate::aero::roll_coefficient_of(config, d, s, gamma),
        ),
{
    lemma_push(config.cl_beta, beta, gamma);
    lemma_push(config.cl_p, r.p, s.p);
    lemma_push(config.cl_r, r.r, s.r);
    lemma_push(config.cl_da, c.aileron, d.aileron);
    lemma_push(config.cl_dr, c.rudder, d.rudder);
    let (a, b) = (config.cl_beta.product(beta), config.cl_beta.product(gamma));
    lemma_term(a, b, config.cl_p.product(r.p), config.cl_p.product(s.p));
    let (a, b) = (a.sum(config.cl_p.product(r.p)), b.sum(config.cl_p.product(s.p)));
    lemma_term(a, b, config.cl_r.product(r.r), config.cl_r.product(s.r));
    let (a, b) = (a.sum(config.cl_r.product(r.r)), b.sum(config.cl_r.product(s.r)));
    lemma_term(a, b, config.cl_da.product(c.aileron), config.cl_da.product(d.aileron));
    let (a, b) = (
        a.sum(config.cl_da.product(c.aileron)),
        b.sum(config.cl_da.product(d.aileron)),
    );
    lemma_term(a, b, config.cl_dr.product(c.rudder), config.cl_dr.product(d.rudder));
}

/// The yawing moment answers each of its causes by the sign of its coefficient.
pub proof fn yaws_answer_their_causes(
    config: AircraftConfig,
    c: ControlInputs,
    d: ControlInputs,
    r: Rates,
    s: Rates,
    beta: Binary64,
    gamma: Binary64,
)
    requires
        pushes_up(config.cn_beta, beta, gamma),
        pushes_up(config.cn_p, r.p, s.p),
        pushes_up(config.cn_r, r.r, s.r),
        pushes_up(config.cn_da, c.aileron, d.aileron),
        pushes_up(config.cn_dr, c.rudder, d.rudder),
    ensures
        crate::aero::yaw_coefficient_of(config, c, r, beta).not_above(
            crate::aero::yaw_coefficient_of(config, d, s, gamma),
        ),
{
    lemma_push(config.cn_beta, beta, gamma);
    lemma_push(config.cn_p, r.p, s.p);
    lemma_push(config.cn_r, r.r, s.r);
    lemma_push(config.cn_da, c.aileron, d.aileron);
    lemma_push(config.cn_dr, c.rudder, d.rudder);
    let (a, b) = (config.cn_beta.product(beta), config.cn_beta.product(gamma));
    lemma_term(a, b, config.cn_p.product(r.p), config.cn_p.product(s.p));
    let (a, b) = (a.sum(config.cn_p.product(r.p)), b.sum(config.cn_p.product(s.p)));
    lemma_term(a, b, config.cn_r.product(r.r), config.cn_r.product(s.r));
    let (a, b) = (a.sum(config.cn_r.product(r.r)), b.sum(config.cn_r.product(s.r)));
    lemma_term(a, b, config.cn_da.product(c.aileron), config.cn_da.product(d.aileron));
    let (a, b) = (
        a.sum(config.cn_da.product(c.aileron)),
        b.sum(config.cn_da.product(d.aileron)),
    );
    lemma_term(a, b, config.cn_dr.product(c.rudder), config.cn_dr.product(d.rudder));
}

/// The pitching moment answers elevator, pitch rate and the change of the angle
/// of attack by the signs of their coefficients, at one angle of attack, flap
/// and height.
pub proof fn pitch_answers_its_causes(
    config: AircraftConfig,
    c: ControlInputs,
    d: ControlInputs,
    r: Rates,
    s: Rates,
    alpha: Binary64,
    agl: Option<Binary64>,
)
    requires
        config.cm0.finite(),
        c.flap == d.flap,
        pushes_up(config.cma, alpha, alpha),
        pushes_up(config.cmq, r.q, s.q),
        pushes_up(config.cm_adot, r.alpha_dot, s.alpha_dot),
        pushes_up(config.cme, c.elevator, d.elevator),
        !crate::aero::upright_pitch_of(config, c, r, alpha, agl).nan(),
        !crate::aero::upright_pitch_of(config, d, s, alpha, agl).nan(),
    ensures
        crate::aero::upright_pitch_of(config, c, r, alpha, agl).not_above(
            crate::aero::upright_pitch_of(config, d, s, alpha, agl),
        ),
{
    lemma_push(config.cmq, r.q, s.q);
    lemma_push(config.cm_adot, r.alpha_dot, s.alpha_dot);
    lemma_push(config.cme, c.elevator, d.elevator);
    let t = config.cma.product(alpha);
    lemma_term(config.cm0, config.cm0, t, t);
    let a = config.cm0.sum(t);
    lemma_term(a, a, config.cmq.product(r.q), config.cmq.product(s.q));
    let (a, b) = (a.sum(config.cmq.product(r.q)), a.sum(config.cmq.product(s.q)));
    let (p, q) = (
        config.cm_adot.product(r.alpha_dot),
        config.cm_adot.product(s.alpha_dot),
    );
    lemma_term(a, b, p, q);
    let (a, b) = (a.sum(p), b.sum(q));
    let (p, q) = (config.cme.product(c.elevator), config.cme.product(d.elevator));
    lemma_term(a, b, p, q);
    let (a, b) = (a.sum(p), b.sum(q));
    let ground = match agl {
        Some(h) => crate::aero::ground_share(h, config.wing_span),
        None => num(D0),
    };
    let flap = config.cm_flap.product(crate::aero::flap_within(c));
    let over = crate::aero::pitch_break(config, alpha, crate::aero::stall_with_flap(config, c));
    let near = num(M0_015).product(ground);
    lemma_rest(a, b, flap, over, near);
}

/// Three terms that are the same on both sides.
proof fn lemma_rest(a: Binary64, b: Binary64, s: Binary64, t: Binary64, u: Binary64)
    requires
        a.not_above(b),
        !a.sum(s).sum(t).sum(u).nan(),
        !b.sum(s).sum(t).sum(u).nan(),
    ensures
        a.sum(s).sum(t).sum(u).not_above(b.sum(s).sum(t).sum(u)),
{
    crate::rounding::sums_keep_order(a, b, s);
    crate::rounding::sums_keep_order(a.sum(s), b.sum(s), t);
    crate::rounding::sums_keep_order(a.sum(s).sum(t), b.sum(s).sum(t), u);
}

/// Beyond the stall the nose falls, and more of it; below the negative stall it
/// rises.
pub proof fn stalls_drop_the_nose(
    config: AircraftConfig,
    alpha: Binary64,
    more: Binary64,
    stall: Binary64,
)
    requires
        alpha.finite() && more.finite() && stall.finite() && config.alpha_stall_neg.finite(),
        alpha.not_above(more),
    ensures
        stall.below(alpha) ==> crate::aero::pitch_break(config, alpha, stall).not_above(num(D0)),
        stall.below(alpha) ==> crate::aero::pitch_break(config, more, stall).not_above(
            crate::aero::pitch_break(config, alpha, stall),
        ),
        !stall.below(more) && more.below(config.alpha_stall_neg) ==> num(D0).not_above(
            crate::aero::pitch_break(config, more, stall),
        ),
        !stall.below(alpha) && !alpha.below(config.alpha_stall_neg) ==> crate::aero::pitch_break(
            config,
            alpha,
            stall,
        ).zero(),
{
    crate::rounding::differences_tell_the_order(alpha, stall);
    crate::rounding::differences_tell_the_order(more, stall);
    crate::rounding::differences_tell_the_order(config.alpha_stall_neg, more);
    crate::rounding::sums_keep_order(alpha, more, stall.negated());
    let (a, b) = (
        alpha.difference(stall).smaller(num(D0_4)),
        more.difference(stall).smaller(num(D0_4)),
    );
    if stall.below(alpha) {
        crate::rounding::products_keep_order(num(M0_45), a, b);
        crate::rounding::products_are_numbers(num(M0_45), a);
        crate::rounding::products_keep_signs(num(M0_45), a);
    }
    if more.below(config.alpha_stall_neg) {
        let c = config.alpha_stall_neg.difference(more).smaller(num(D0_4));
        crate::rounding::products_are_numbers(num(D0_45), c);
        crate::rounding::products_keep_signs(num(D0_45), c);
    }
}

/// The thrust grows with the throttle and the density of the air.
pub proof fn throttles_give_thrust(
    thr_max: Binary64,
    pwr_max: Binary64,
    low: Binary64,
    high: Binary64,
    v_tas: Binary64,
    density: Binary64,
    propulsion: Propulsion,
)
    requires
        thr_max.finite() && pwr_max.finite() && v_tas.finite() && density.finite(),
        num(D0).not_above(thr_max) && num(D0).not_above(pwr_max) && num(D0).not_above(density),
        crate::rounding::is_fraction(low) && crate::rounding::is_fraction(high),
        low.not_above(high),
        thr_max.product(high).product(density).finite(),
        thr_max.product(low).product(density).finite(),
        pwr_max.product(high).product(density).finite(),
        pwr_max.product(low).product(density).finite(),
    ensures
        num(D0).not_above(
            crate::aero::thrust_ceiling(thr_max, pwr_max, low, v_tas, density, propulsion),
        ),
        crate::aero::thrust_ceiling(thr_max, pwr_max, low, v_tas, density, propulsion).not_above(
            crate::aero::thrust_ceiling(thr_max, pwr_max, high, v_tas, density, propulsion),
        ),
{
    lemma_driven(thr_max, low, high, density);
    lemma_driven(pwr_max, low, high, density);
    let v = v_tas.larger(num(D6));
    crate::rounding::quotients_keep_order(
        pwr_max.product(low).product(density),
        pwr_max.product(high).product(density),
        v,
    );
}

proof fn lemma_driven(most: Binary64, low: Binary64, high: Binary64, density: Binary64)
    requires
        most.finite() && num(D0).not_above(most),
        crate::rounding::is_fraction(low) && crate::rounding::is_fraction(high),
        low.not_above(high),
        density.finite() && num(D0).not_above(density),
    ensures
        num(D0).not_above(most.product(low).product(density)),
        most.product(low).product(density).not_above(most.product(high).product(density)),
{
    crate::rounding::factors_keep_order(most, low, high);
    crate::rounding::fractions_shrink(most, low);
    crate::rounding::fractions_shrink(most, high);
    crate::rounding::factors_keep_order(density, most.product(low), most.product(high));
    crate::rounding::products_are_numbers(most.product(low), density);
    crate::rounding::products_keep_signs(most.product(low), density);
}

/// A propeller pulls less the faster it flies, a jet as much.
pub proof fn propellers_fade_with_speed(
    thr_max: Binary64,
    pwr_max: Binary64,
    throttle: Binary64,
    slow: Binary64,
    fast: Binary64,
    density: Binary64,
)
    requires
        slow.finite() && fast.finite() && slow.not_above(fast),
        pwr_max.product(throttle).product(density).finite(),
        num(D0).not_above(pwr_max.product(throttle).product(density)),
        !thr_max.product(throttle).product(density).nan(),
    ensures
        crate::aero::thrust_ceiling(
            thr_max,
            pwr_max,
            throttle,
            fast,
            density,
            Propulsion::Propeller,
        ).not_above(
            crate::aero::thrust_ceiling(thr_max, pwr_max, throttle, slow, density, Propulsion::Propeller),
        ),
        crate::aero::thrust_ceiling(thr_max, pwr_max, throttle, fast, density, Propulsion::Jet)
            == crate::aero::thrust_ceiling(thr_max, pwr_max, throttle, slow, density, Propulsion::Jet),
{
    let p = pwr_max.product(throttle).product(density);
    let (v, w) = (slow.larger(num(D6)), fast.larger(num(D6)));
    crate::rounding::larger_divisors_give_less(p, v, w);
    crate::rounding::quotients_are_numbers(p, v);
    crate::rounding::quotients_are_numbers(p, w);
}

/// A split of the throttles drives the left engine harder where it is positive,
/// the right one where it is negative.
pub proof fn splits_favour_a_side(
    config: AircraftConfig,
    throttle: Binary64,
    split: Binary64,
    v_tas: Binary64,
    density: Binary64,
)
    requires
        config.engine_count == 2,
        crate::rounding::is_fraction(throttle),
        split.finite(),
        v_tas.finite() && density.finite() && num(D0).not_above(density),
        config.thrust_max.finite() && num(D0).not_above(config.thrust_max),
        config.power_max.finite() && num(D0).not_above(config.power_max),
        density.not_above(num(D2)),
        config.thrust_max.product(num(D2)).finite() && config.power_max.product(num(D2)).finite(),
    ensures
        ({
            let t = crate::aero::thrusts(config, throttle, split, v_tas, density);
            &&& num(D0).not_above(split) ==> t.right.not_above(t.left)
            &&& split.not_above(num(D0)) ==> t.left.not_above(t.right)
            &&& num(D0).not_above(t.left) && num(D0).not_above(t.right)
            &&& t.single.zero()
        }),
{
    let s = split.clamped(num(M1), num(D1));
    let (p, q) = (num(D1).sum(s), num(D1).difference(s));
    crate::rounding::sums_are_numbers(num(D1), s);
    crate::rounding::sums_are_numbers(num(D1), s.negated());
    crate::rounding::moderate_sums(num(D1), s);
    crate::rounding::moderate_sums(num(D1), s.negated());
    if num(D0).not_above(s) {
        crate::rounding::sums_of_ordered_terms(num(D1), num(D1), s.negated(), s);
        crate::rounding::factors_keep_order(throttle, q, p);
    }
    if s.not_above(num(D0)) {
        crate::rounding::sums_of_ordered_terms(num(D1), num(D1), s, s.negated());
        crate::rounding::factors_keep_order(throttle, p, q);
    }
    crate::rounding::products_are_numbers(throttle, p);
    crate::rounding::products_are_numbers(throttle, q);
    let l = throttle.product(p).clamped(num(D0), num(D1));
    let r = throttle.product(q).clamped(num(D0), num(D1));
    let (ht, hp) = (
        config.thrust_max.product(num(D0_5)),
        config.power_max.product(num(D0_5)),
    );
    crate::rounding::fractions_shrink(config.thrust_max, num(D0_5));
    crate::rounding::fractions_shrink(config.power_max, num(D0_5));
    lemma_bounded_drive(config.thrust_max, ht, l, density);
    lemma_bounded_drive(config.thrust_max, ht, r, density);
    lemma_bounded_drive(config.power_max, hp, l, density);
    lemma_bounded_drive(config.power_max, hp, r, density);
    if r.not_above(l) {
        throttles_give_thrust(ht, hp, r, l, v_tas, density, config.propulsion);
    }
    if l.not_above(r) {
        throttles_give_thrust(ht, hp, l, r, v_tas, density, config.propulsion);
    }
}

proof fn lemma_bounded_drive(most: Binary64, half: Binary64, t: Binary64, density: Binary64)
    requires
        most.finite() && num(D0).not_above(most) && most.product(num(D2)).finite(),
        half.finite() && num(D0).not_above(half) && half.not_above(most),
        crate::rounding::is_fraction(t),
        density.finite() && num(D0).not_above(density) && density.not_above(num(D2)),
    ensures
        half.product(t).product(density).finite(),
{
    crate::rounding::fractions_shrink(half, t);
    let p = half.product(t);
    crate::rounding::factors_keep_order(density, p, most);
    crate::rounding::factors_keep_order(most, density, num(D2));
    crate::rounding::products_are_numbers(p, density);
    crate::rounding::products_keep_signs(p, density);
    crate::rounding::products_are_numbers(most, density);
}

/// Thrust drives the aircraft forward, and neither sideways nor up.
pub proof fn thrust_drives_forward(eng: EngineFlowInputs, config: AircraftConfig)
    requires
        config.engine_count != 2,
        ({
            let t = crate::aero::thrusts(
                config,
                eng.throttle,
                config.throttle_split,
                eng.v_tas,
                eng.density_factor,
            );
            t.single.finite() && num(D0).not_above(t.single)
        }),
        config.thrust_arm.finite() && eng.pitch_sense.finite(),
    ensures
        num(D0).not_above(crate::aero::engine_load(eng, config).force.x),
        crate::aero::engine_load(eng, config).force.y.zero() && crate::aero::engine_load(eng, config).force.z.zero(),
        crate::aero::engine_load(eng, config).moment.x.zero() && crate::aero::engine_load(eng, config).moment.z.zero(),
{
    let t = crate::aero::thrusts(
        config,
        eng.throttle,
        config.throttle_split,
        eng.v_tas,
        eng.density_factor,
    );
    crate::rounding::zeros_add_to_zero(t.left, t.right);
    crate::rounding::zeros_keep_signs(t.single, t.left.sum(t.right));
    crate::rounding::zeros_keep_signs(t.left.sum(t.right).sum(t.single), num(D0));
}

/// Of two jets the stronger pushes the nose to the other side: more thrust on
/// the right does not yaw to the right.
pub proof fn stronger_engines_push_the_nose_away(eng: EngineFlowInputs, config: AircraftConfig)
    requires
        config.engine_count == 2,
        config.propulsion != Propulsion::Propeller,
        config.engine_lateral_arm.finite() && num(D0).not_above(config.engine_lateral_arm),
        ({
            let t = crate::aero::thrusts(
                config,
                eng.throttle,
                config.throttle_split,
                eng.v_tas,
                eng.density_factor,
            );
            t.left.finite() && t.right.finite() && t.right.difference(t.left).finite()
        }),
    ensures
        ({
            let t = crate::aero::thrusts(
                config,
                eng.throttle,
                config.throttle_split,
                eng.v_tas,
                eng.density_factor,
            );
            let z = crate::aero::engine_load(eng, config).moment.z;
            &&& t.left.not_above(t.right) ==> num(D0).not_above(z)
            &&& t.right.not_above(t.left) ==> z.not_above(num(D0))
        }),
{
    let t = crate::aero::thrusts(
        config,
        eng.throttle,
        config.throttle_split,
        eng.v_tas,
        eng.density_factor,
    );
    let d = t.right.difference(t.left);
    crate::rounding::differences_tell_the_order(t.right, t.left);
    let y = d.product(config.engine_lateral_arm);
    crate::rounding::products_are_numbers(d, config.engine_lateral_arm);
    crate::rounding::products_keep_signs(d, config.engine_lateral_arm);
    crate::rounding::zeros_keep_signs(y, num(D0));
}

/// The ground helps the more the nearer it is: it adds to the lift and takes
/// from the induced drag, less with height.
pub proof fn the_ground_helps_when_near(low: Binary64, high: Binary64, span: Binary64)
    requires
        low.finite() && high.finite() && span.finite(),
        low.not_above(high),
        ({
            let x = num(D4).product(high.larger(num(D0)).quotient(span.larger(num(D1EM6))));
            let w = num(D4).product(low.larger(num(D0)).quotient(span.larger(num(D1EM6))));
            &&& high.larger(num(D0)).quotient(span.larger(num(D1EM6))).finite()
            &&& low.larger(num(D0)).quotient(span.larger(num(D1EM6))).finite()
            &&& x.finite() && x.product(x).finite() && num(D1).sum(x.product(x)).finite()
            &&& w.finite() && w.product(w).finite() && num(D1).sum(w.product(w)).finite()
        }),
    ensures
        crate::aero::ground_share(high, span).not_above(crate::aero::ground_share(low, span)),
        crate::aero::ground_factors(high, span).0.not_above(crate::aero::ground_factors(low, span).0),
        crate::aero::ground_factors(low, span).1.not_above(crate::aero::ground_factors(high, span).1),
        num(D1).not_above(crate::aero::ground_factors(high, span).0),
        crate::aero::ground_factors(high, span).1.not_above(num(D1)),
{
    let b = span.larger(num(D1EM6));
    let (g, h) = (low.larger(num(D0)), high.larger(num(D0)));
    crate::rounding::quotients_keep_order(g, h, b);
    let (u, v) = (g.quotient(b), h.quotient(b));
    crate::rounding::factors_keep_order(num(D4), u, v);
    crate::rounding::products_keep_signs(num(D4), u);
    let (w, x) = (num(D4).product(u), num(D4).product(v));
    crate::rounding::squares_grow(w, x);
    let (s, t) = (num(D1).sum(w.product(w)), num(D1).sum(x.product(x)));
    crate::rounding::sums_of_ordered_terms(num(D1), num(D1), w.product(w), x.product(x));
    crate::rounding::sums_grow(num(D1), w.product(w));
    crate::rounding::larger_divisors_give_less(num(D1), s, t);
    crate::rounding::reciprocals_of_large_numbers(s);
    crate::rounding::reciprocals_of_large_numbers(t);
    let (e, f) = (crate::aero::ground_share(low, span), crate::aero::ground_share(high, span));
    lemma_share_of(num(D0_1), e, f);
    lemma_share_of(num(D0_3), e, f);
    let (p, q) = (num(D0_1).product(e), num(D0_1).product(f));
    let (r, z) = (num(D0_3).product(e), num(D0_3).product(f));
    crate::rounding::sums_are_numbers(num(D1), p);
    crate::rounding::sums_are_numbers(num(D1), q);
    crate::rounding::sums_are_numbers(num(D1), r.negated());
    crate::rounding::sums_are_numbers(num(D1), z.negated());
    crate::rounding::sums_of_ordered_terms(num(D1), num(D1), q, p);
    crate::rounding::sums_of_ordered_terms(num(D1), num(D1), r.negated(), z.negated());
    crate::rounding::sums_grow(num(D1), q);
    crate::rounding::differences_shrink(num(D1), z);
}

proof fn lemma_share_of(k: Binary64, e: Binary64, f: Binary64)
    requires
        k.finite() && num(D0).not_above(k),
        crate::rounding::is_fraction(e) && crate::rounding::is_fraction(f),
        f.not_above(e),
    ensures
        k.product(f).not_above(k.product(e)),
        num(D0).not_above(k.product(f)),
        k.product(e).finite() && k.product(f).finite(),
{
    crate::rounding::factors_keep_order(k, f, e);
    crate::rounding::fractions_shrink(k, e);
    crate::rounding::fractions_shrink(k, f);
}

/// In level flow lift points up and drag back: with no angle of attack the force
/// along the third axis is against the lift, that along the first against the
/// drag.
pub proof fn lift_points_up_and_drag_back(
    config: AircraftConfig,
    controls: ControlInputs,
    atm: Atmosphere,
    v_tas: Binary64,
    air: AirAngles,
)
    requires
        air.sin_alpha.zero(),
        air.cos_alpha.finite() && num(D0).not_above(air.cos_alpha),
        air.cos_beta.finite() && num(D0).not_above(air.cos_beta),
        atm.ram(v_tas).product(config.wing_area).finite(),
        num(D0).not_above(atm.ram(v_tas).product(config.wing_area)),
        ({
            let cl = crate::aero::lift_coefficient(config, controls, atm.mach(v_tas), air);
            let cd = crate::aero::drag_coefficient(config, controls, atm.mach(v_tas), air, cl, num(D1));
            let q = atm.ram(v_tas).product(config.wing_area);
            &&& cl.finite() && cd.finite()
            &&& q.product(cl).finite() && q.product(cd).finite()
            &&& q.product(cd).negated().product(air.cos_alpha).finite()
        }),
    ensures
        ({
            let f = crate::aero::air_force(config, controls, atm, v_tas, air, None);
            let cl = crate::aero::lift_coefficient(config, controls, atm.mach(v_tas), air);
            let cd = crate::aero::drag_coefficient(config, controls, atm.mach(v_tas), air, cl, num(D1));
            &&& num(D0).not_above(cl) ==> f.z.not_above(num(D0))
            &&& cl.not_above(num(D0)) ==> num(D0).not_above(f.z)
            &&& num(D0).not_above(cd) ==> f.x.not_above(num(D0))
        }),
{
    let cl = crate::aero::lift_coefficient(config, controls, atm.mach(v_tas), air);
    let cd = crate::aero::drag_coefficient(config, controls, atm.mach(v_tas), air, cl, num(D1));
    let q = atm.ram(v_tas).product(config.wing_area);
    crate::rounding::one_is_neutral(cl);
    let (lift, drag) = (q.product(cl), q.product(cd));
    crate::rounding::products_keep_signs(q, cl);
    crate::rounding::products_keep_signs(q, cd);
    let up = lift.negated().product(air.cos_alpha);
    crate::rounding::products_are_numbers(lift.negated(), air.cos_alpha);
    crate::rounding::products_keep_signs(lift.negated(), air.cos_alpha);
    crate::rounding::zero_absorbs(air.sin_alpha, drag);
    let tilt = drag.product(air.sin_alpha);
    crate::rounding::zero_absorbs(tilt, air.cos_beta);
    crate::rounding::zeros_keep_signs(up, tilt.product(air.cos_beta));
    let back = drag.negated().product(air.cos_alpha);
    crate::rounding::products_keep_signs(drag.negated(), air.cos_alpha);
    crate::rounding::products_are_numbers(back, air.cos_beta);
    crate::rounding::products_keep_signs(back, air.cos_beta);
    crate::rounding::zero_absorbs(air.sin_alpha, lift);
    crate::rounding::zeros_keep_signs(back.product(air.cos_beta), lift.product(air.sin_alpha));
}

/// The side force answers sideslip and rudder by the signs of their
/// coefficients.
pub proof fn side_forces_answer_their_causes(
    config: AircraftConfig,
    c: ControlInputs,
    d: ControlInputs,
    atm: Atmosphere,
    v_tas: Binary64,
    a: AirAngles,
    b: AirAngles,
    agl: Option<Binary64>,
)
    requires
        pushes_up(config.cy_beta, a.beta, b.beta),
        pushes_up(config.cy_dr, c.rudder, d.rudder),
        config.cy_beta.product(a.beta).sum(config.cy_dr.product(c.rudder)).finite(),
        config.cy_beta.product(b.beta).sum(config.cy_dr.product(d.rudder)).finite(),
        atm.ram(v_tas).product(config.wing_area).finite(),
        num(D0).not_above(atm.ram(v_tas).product(config.wing_area)),
    ensures
        crate::aero::air_force(config, c, atm, v_tas, a, agl).y.not_above(
            crate::aero::air_force(config, d, atm, v_tas, b, agl).y,
        ),
{
    lemma_push(config.cy_beta, a.beta, b.beta);
    lemma_push(config.cy_dr, c.rudder, d.rudder);
    let (p, q) = (config.cy_beta.product(a.beta), config.cy_beta.product(b.beta));
    let (r, s) = (config.cy_dr.product(c.rudder), config.cy_dr.product(d.rudder));
    lemma_term(p, q, r, s);
    crate::rounding::factors_keep_order(
        atm.ram(v_tas).product(config.wing_area),
        p.sum(r),
        q.sum(s),
    );
}

/// Upright the weight pulls straight down; with the nose up it pulls back, with
/// a wing down to that side.
pub proof fn weight_pulls_down(state: AircraftState, config: AircraftConfig)
    requires
        state.q0.finite() && state.q1.finite() && state.q2.finite() && state.q3.finite(),
        num(D0).not_above(state.q0),
        crate::state::attitude_length(state).finite(),
        num(D0).below(crate::state::attitude_length(state)),
        config.mass.product(num(D9_80665)).finite(),
        num(D0).not_above(config.mass.product(num(D9_80665))),
        crate::rotation::turns_finitely(
            state.attitude(),
            Vec3 {
                x: num(D0),
                y: num(D0),
                z: config.mass.product(num(D9_80665)),
            },
        ),
    ensures
        state.q1.zero() && state.q3.zero() ==> crate::rounding::like_product(
            crate::aero::weight_of(state, config).x,
            state.q2,
            num(D1),
        ) || crate::aero::weight_of(state, config).x.zero(),
        state.q2.zero() && state.q3.zero() ==> crate::rounding::like_product(
            crate::aero::weight_of(state, config).y,
            state.q1.negated(),
            num(D1),
        ) || crate::aero::weight_of(state, config).y.zero(),
        state.q1.zero() && state.q2.zero() && state.q3.zero() ==> crate::aero::weight_of(
            state,
            config,
        ).z.same(config.mass.product(num(D9_80665))),
{
    let w = Vec3 {
        x: num(D0),
        y: num(D0),
        z: config.mass.product(num(D9_80665)),
    };
    crate::state::attitudes_keep_signs(state);
    if state.q1.zero() && state.q3.zero() {
        crate::rotation::turns_about_the_second_axis(state.attitude(), w);
    }
    if state.q2.zero() && state.q3.zero() {
        crate::rotation::turns_about_the_first_axis(state.attitude(), w);
    }
    if state.q1.zero() && state.q2.zero() && state.q3.zero() {
        crate::state::upright_aircraft_see_the_earth(state, w);
    }
}

/// The rates relative to the stream have the signs of the rates.
pub proof fn relative_rates_keep_signs(
    state: AircraftState,
    config: AircraftConfig,
    v_tas: Binary64,
    alpha_dot: Binary64,
)
    requires
        state.p.finite() && state.q.finite() && state.r.finite() && alpha_dot.finite(),
        config.wing_span.finite() && num(D0).not_above(config.wing_span),
        config.chord.finite() && num(D0).not_above(config.chord),
        state.p.product(config.wing_span).finite() && state.r.product(config.wing_span).finite(),
        state.q.product(config.chord).finite() && alpha_dot.product(config.chord).finite(),
        v_tas.finite() && num(D2).product(v_tas).finite() && num(D0).below(
            num(D2).product(v_tas),
        ),
    ensures
        ({
            let r = crate::aero::relative_rates(state, config, v_tas, alpha_dot);
            let one = num(D1);
            &&& r.p.zero() || crate::rounding::like_product(r.p, state.p, one)
            &&& r.q.zero() || crate::rounding::like_product(r.q, state.q, one)
            &&& r.r.zero() || crate::rounding::like_product(r.r, state.r, one)
            &&& r.alpha_dot.zero() || crate::rounding::like_product(r.alpha_dot, alpha_dot, one)
        }),
{
    let d = num(D2).product(v_tas);
    lemma_relative(state.p, config.wing_span, d);
    lemma_relative(state.q, config.chord, d);
    lemma_relative(state.r, config.wing_span, d);
    lemma_relative(alpha_dot, config.chord, d);
}

proof fn lemma_relative(a: Binary64, l: Binary64, d: Binary64)
    requires
        a.finite() && l.finite() && num(D0).not_above(l),
        a.product(l).finite(),
        d.finite() && num(D0).below(d),
    ensures
        a.product(l).quotient(d).zero() || crate::rounding::like_product(a.product(l).quotient(d), a, num(D1)),
{
    crate::rounding::products_have_their_signs(a, l);
    crate::rounding::quotients_are_numbers(a.product(l), d);
}

/// A steep bank drops the nose, and the steeper the more, to either side.
pub proof fn steep_banks_drop_the_nose(config: AircraftConfig, bank: Binary64)
    requires
        bank.finite(),
        config.spiral_nose_drop_cm.finite() && num(D0).not_above(config.spiral_nose_drop_cm),
        !crate::aero::nose_drop(config, bank).nan(),
    ensures
        crate::aero::nose_drop(config, bank).not_above(num(D0)),
        crate::aero::nose_drop(config, bank.negated()) == crate::aero::nose_drop(config, bank),
{
    let e = bank.absolute().difference(num(D0_574)).quotient(
        num(D1).difference(num(D0_574)),
    ).clamped(num(D0), num(D1));
    let k = config.spiral_nose_drop_cm.negated();
    if !e.nan() {
        crate::rounding::fractions_shrink_negatives(k, e);
        crate::rounding::fractions_shrink_negatives(k.product(e), e);
    }
}

/// In attached flow drag grows with lift, to either side, and flaps add to it.
pub proof fn drag_grows_with_lift(
    config: AircraftConfig,
    controls: ControlInputs,
    mach: Binary64,
    air: AirAngles,
    less: Binary64,
    more: Binary64,
)
    requires
        config.alpha_stall_neg.not_above(air.alpha),
        air.alpha.not_above(crate::aero::stall_with_flap(config, controls)),
        config.cd0.finite(),
        config.induced_factor().finite() && num(D0).not_above(config.induced_factor()),
        less.finite() && more.finite() && less.absolute().not_above(more.absolute()),
        config.induced_factor().product(less).finite(),
        config.induced_factor().product(more).finite(),
        config.induced_factor().product(less).product(less).finite(),
        config.induced_factor().product(more).product(more).finite(),
        !crate::aero::drag_coefficient(config, controls, mach, air, less, num(D1)).nan(),
        !crate::aero::drag_coefficient(config, controls, mach, air, more, num(D1)).nan(),
    ensures
        crate::aero::drag_coefficient(config, controls, mach, air, less, num(D1)).not_above(
            crate::aero::drag_coefficient(config, controls, mach, air, more, num(D1)),
        ),
{
    let k = config.induced_factor();
    crate::rounding::weighed_squares_grow(k, less, more);
    let (p, q) = (k.product(less).product(less), k.product(more).product(more));
    crate::rounding::one_is_neutral(p);
    crate::rounding::one_is_neutral(q);
    lemma_term(config.cd0, config.cd0, p, q);
    let flap = crate::aero::flap_within(controls);
    let dm = mach.difference(config.mach_crit);
    let wave = if config.mach_crit.below(mach) {
        num(D20).product(dm.product(dm).product(dm.product(dm)))
    } else {
        num(D0)
    };
    let f = config.cd_flap.product(flap).product(flap.absolute());
    crate::rounding::sums_keep_order(config.cd0.sum(p), config.cd0.sum(q), wave);
    crate::rounding::sums_keep_order(config.cd0.sum(p).sum(wave), config.cd0.sum(q).sum(wave), f);
}

/// Beyond the stall angle the drag is still the attached one as long as nothing
/// has separated.
pub proof fn unseparated_flow_keeps_its_drag(
    air: AirAngles,
    attached: Binary64,
    config: AircraftConfig,
    stall: Binary64,
)
    requires
        stall.below(air.alpha),
        air.drag_tanh == num(M1),
        attached.finite(),
        config.cd_max.finite() && config.cd0.finite(),
        air.sin_alpha.finite() && air.cos_alpha.finite(),
        config.cd_max.product(air.sin_alpha.product(air.sin_alpha)).sum(
            config.cd0.product(air.cos_alpha.absolute()),
        ).finite(),
    ensures
        crate::aero::stalled_drag(
            air,
            attached,
            config,
            stall,
            config.alpha_stall_neg,
        ).same(attached),
{
    let plate = config.cd_max.product(air.sin_alpha.product(air.sin_alpha)).sum(
        config.cd0.product(air.cos_alpha.absolute()),
    );
    crate::rounding::differences_cancel(num(D1));
    assert(num(M1) == num(D1).negated());
    let blend = num(D1).sum(air.drag_tanh).product(num(D0_5));
    crate::rounding::zero_absorbs(num(D0), num(D0_5));
    crate::rounding::zeros_keep_signs(num(D1), blend);
    crate::rounding::one_is_neutral(attached);
    crate::rounding::zero_absorbs(blend, plate);
    crate::rounding::zeros_keep_signs(attached, blend.product(plate));
}

/// More throttle gives no less force forward, of one engine.
pub proof fn more_throttle_drives_harder(
    a: EngineFlowInputs,
    b: EngineFlowInputs,
    config: AircraftConfig,
)
    requires
        config.engine_count != 2,
        ({
            let s = crate::aero::thrusts(
                config,
                a.throttle,
                config.throttle_split,
                a.v_tas,
                a.density_factor,
            ).single;
            let t = crate::aero::thrusts(
                config,
                b.throttle,
                config.throttle_split,
                b.v_tas,
                b.density_factor,
            ).single;
            s.finite() && t.finite() && s.not_above(t)
        }),
    ensures
        crate::aero::engine_load(a, config).force.x.not_above(
            crate::aero::engine_load(b, config).force.x,
        ),
{
    let s = crate::aero::thrusts(
        config,
        a.throttle,
        config.throttle_split,
        a.v_tas,
        a.density_factor,
    );
    let t = crate::aero::thrusts(
        config,
        b.throttle,
        config.throttle_split,
        b.v_tas,
        b.density_factor,
    );
    crate::rounding::zeros_add_to_zero(s.left, s.right);
    crate::rounding::zeros_keep_signs(s.single, s.left.sum(s.right));
    crate::rounding::zeros_keep_signs(s.left.sum(s.right).sum(s.single), num(D0));
    crate::rounding::zeros_add_to_zero(t.left, t.right);
    crate::rounding::zeros_keep_signs(t.single, t.left.sum(t.right));
    crate::rounding::zeros_keep_signs(t.left.sum(t.right).sum(t.single), num(D0));
}

/// The thrust pitches the aircraft by its arm: with one engine, upright, the
/// pitching moment has the sign of the arm.
pub proof fn thrust_lines_pitch(eng: EngineFlowInputs, config: AircraftConfig)
    requires
        config.engine_count != 2,
        config.thrust_arm.finite(),
        eng.pitch_sense == num(D1),
        ({
            let t = crate::aero::thrusts(
                config,
                eng.throttle,
                config.throttle_split,
                eng.v_tas,
                eng.density_factor,
            ).single;
            t.finite() && num(D0).not_above(t) && !t.negative()
        }),
    ensures
        crate::rounding::like_product(
            crate::aero::engine_load(eng, config).moment.y,
            config.thrust_arm,
            num(D1),
        ),
{
    let t = crate::aero::thrusts(
        config,
        eng.throttle,
        config.throttle_split,
        eng.v_tas,
        eng.density_factor,
    );
    crate::rounding::zeros_add_to_zero(t.left, t.right);
    crate::rounding::zeros_keep_signs(t.single, t.left.sum(t.right));
    let total = t.left.sum(t.right).sum(t.single);
    crate::rounding::products_have_their_signs(total, config.thrust_arm);
    let y = total.product(config.thrust_arm);
    crate::rounding::one_is_neutral(y);
    crate::rounding::zeros_keep_signs(y, num(D0));
}

/// A slender wing has less induced drag: where the factor is not given, it does
/// not grow with the span.
pub proof fn slender_wings_have_less_induced_drag(short: AircraftConfig, long: AircraftConfig)
    requires
        !num(D0).below(short.k_drag) && !num(D0).below(long.k_drag),
        short.wing_area == long.wing_area && short.wing_area.finite(),
        short.oswald_e == long.oswald_e,
        short.oswald_e.finite() && num(D0).not_above(short.oswald_e),
        short.wing_span.finite() && long.wing_span.finite(),
        short.wing_span.absolute().not_above(long.wing_span.absolute()),
        short.wing_span.product(short.wing_span).finite(),
        long.wing_span.product(long.wing_span).finite(),
        short.slenderness().finite() && long.slenderness().finite(),
        num(D3_141592653589793).product(short.slenderness()).finite(),
        num(D3_141592653589793).product(long.slenderness()).finite(),
        num(D3_141592653589793).product(short.slenderness()).product(short.oswald_e).finite(),
        num(D3_141592653589793).product(long.slenderness()).product(long.oswald_e).finite(),
        num(D0).below(
            num(D3_141592653589793).product(short.slenderness()).product(short.oswald_e),
        ),
    ensures
        long.induced_factor().not_above(short.induced_factor()),
{
    let area = short.wing_area.larger(num(D1EM3));
    let (p, q) = (
        short.wing_span.product(short.wing_span),
        long.wing_span.product(long.wing_span),
    );
    crate::rounding::squares_grow(short.wing_span, long.wing_span);
    crate::rounding::quotients_keep_order(p, q, area);
    let pi = num(D3_141592653589793);
    crate::rounding::factors_keep_order(pi, short.slenderness(), long.slenderness());
    crate::rounding::factors_keep_order(
        short.oswald_e,
        pi.product(short.slenderness()),
        pi.product(long.slenderness()),
    );
    crate::rounding::larger_divisors_give_less(
        num(D1),
        pi.product(short.slenderness()).product(short.oswald_e),
        pi.product(long.slenderness()).product(long.oswald_e),
    );
}

} // verus!
