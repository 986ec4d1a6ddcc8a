//! Integration of the rigid body by the classical fourth-order method.
use crate::aero::{ControlInputs, Load};
use crate::binary64::{Binary64, UNIT_EXPONENT};
use crate::config::AircraftConfig;
use crate::literal::{num, D0, D0_5, D1, D2, D6, M0_5, M1};
use crate::state::AircraftState;
use crate::vector::Vec3;
use vstd::arithmetic::power2::*;
use vstd::prelude::*;

verus! {

/// The rate of change of each entry of the state under a load.
pub open spec fn slope(s: AircraftState, config: AircraftConfig, load: Load) -> AircraftState {
    let earth = s.ground_velocity();
    let accel = load.force.divided(config.mass).difference(s.rates().outer(s.velocity()));
    let hp = num(M0_5).product(s.p);
    let hq = num(M0_5).product(s.q);
    let hr = num(M0_5).product(s.r);
    AircraftState {
        pos_x: earth.x,
        pos_y: earth.y,
        pos_z: earth.z,
        u: accel.x,
        v: accel.y,
        w: accel.z,
        q0: hp.product(s.q1).negated().difference(hq.product(s.q2)).difference(hr.product(s.q3)),
        q1: hp.product(s.q0).sum(hq.product(s.q3)).difference(hr.product(s.q2)),
        q2: hq.product(s.q0).sum(hr.product(s.q1)).difference(hp.product(s.q3)),
        q3: hp.product(s.q2).difference(hq.product(s.q1)).sum(hr.product(s.q0)),
        p: load.moment.x.sum(config.iyy.difference(config.izz).product(s.q).product(s.r)).quotient(
            config.ixx,
        ),
        q: load.moment.y.sum(config.izz.difference(config.ixx).product(s.p).product(s.r)).quotient(
            config.iyy,
        ),
        r: load.moment.z.sum(config.ixx.difference(config.iyy).product(s.p).product(s.q)).quotient(
            config.izz,
        ),
    }
}

/// The rate of change of each entry of the state under a load: velocity, force
/// over mass in the turning frame, minus half the rates times the quaternion
/// that turns the earth's axes into those of the body, and the moments with
/// the gyroscopic terms.
pub fn derivatives(
    s: &AircraftState,
    config: &AircraftConfig,
    load: Load,
) -> (r: AircraftState)
    ensures
        r == slope(*s, *config, load),
{
    let earth: Vec3 = s.earth_velocity();
    let accel: Vec3 = load.force.over(config.mass).minus(s.body_rates().cross(s.body_velocity()));
    let hp: Binary64 = num(M0_5).times(s.p);
    let hq: Binary64 = num(M0_5).times(s.q);
    let hr: Binary64 = num(M0_5).times(s.r);
    AircraftState {
        pos_x: earth.x,
        pos_y: earth.y,
        pos_z: earth.z,
        u: accel.x,
        v: accel.y,
        w: accel.z,
        q0: hp.times(s.q1).neg().minus(hq.times(s.q2)).minus(hr.times(s.q3)),
        q1: hp.times(s.q0).plus(hq.times(s.q3)).minus(hr.times(s.q2)),
        q2: hq.times(s.q0).plus(hr.times(s.q1)).minus(hp.times(s.q3)),
        q3: hp.times(s.q2).minus(hq.times(s.q1)).plus(hr.times(s.q0)),
        p: load.moment.x.plus(config.iyy.minus(config.izz).times(s.q).times(s.r)).over(config.ixx),
        q: load.moment.y.plus(config.izz.minus(config.ixx).times(s.p).times(s.r)).over(config.iyy),
        r: load.moment.z.plus(config.ixx.minus(config.iyy).times(s.p).times(s.q)).over(config.izz),
    }
}

/// A state moved along a slope.
pub open spec fn moved(a: AircraftState, b: AircraftState, scale: Binary64) -> AircraftState {
    AircraftState {
        pos_x: a.pos_x.sum(scale.product(b.pos_x)),
        pos_y: a.pos_y.sum(scale.product(b.pos_y)),
        pos_z: a.pos_z.sum(scale.product(b.pos_z)),
        u: a.u.sum(scale.product(b.u)),
        v: a.v.sum(scale.product(b.v)),
        w: a.w.sum(scale.product(b.w)),
        q0: a.q0.sum(scale.product(b.q0)),
        q1: a.q1.sum(scale.product(b.q1)),
        q2: a.q2.sum(scale.product(b.q2)),
        q3: a.q3.sum(scale.product(b.q3)),
        p: a.p.sum(scale.product(b.p)),
        q: a.q.sum(scale.product(b.q)),
        r: a.r.sum(scale.product(b.r)),
    }
}

/// A state moved along a slope.
pub fn add_scaled(a: &AircraftState, b: &AircraftState, scale: Binary64) -> (r: AircraftState)
    ensures
        r == moved(*a, *b, scale),
{
    AircraftState {
        pos_x: a.pos_x.plus(scale.times(b.pos_x)),
        pos_y: a.pos_y.plus(scale.times(b.pos_y)),
        pos_z: a.pos_z.plus(scale.times(b.pos_z)),
        u: a.u.plus(scale.times(b.u)),
        v: a.v.plus(scale.times(b.v)),
        w: a.w.plus(scale.times(b.w)),
        q0: a.q0.plus(scale.times(b.q0)),
        q1: a.q1.plus(scale.times(b.q1)),
        q2: a.q2.plus(scale.times(b.q2)),
        q3: a.q3.plus(scale.times(b.q3)),
        p: a.p.plus(scale.times(b.p)),
        q: a.q.plus(scale.times(b.q)),
        r: a.r.plus(scale.times(b.r)),
    }
}

/// The weighted sum of one entry of the four slopes.
pub open spec fn weighted_sum(
    k1: Binary64,
    k2: Binary64,
    k3: Binary64,
    k4: Binary64,
    w: Binary64,
) -> Binary64 {
    k1.sum(num(D2).product(k2)).sum(num(D2).product(k3)).sum(k4).product(w)
}

/// The weighted sum of one entry of the four slopes.
pub fn weighted(
    k1: Binary64,
    k2: Binary64,
    k3: Binary64,
    k4: Binary64,
    w: Binary64,
) -> (r: Binary64)
    ensures
        r == weighted_sum(k1, k2, k3, k4, w),
{
    k1.plus(num(D2).times(k2)).plus(num(D2).times(k3)).plus(k4).times(w)
}

/// The weighted sum of the four slopes.
pub open spec fn combined(
    k1: AircraftState,
    k2: AircraftState,
    k3: AircraftState,
    k4: AircraftState,
    w: Binary64,
) -> AircraftState {
    AircraftState {
        pos_x: weighted_sum(k1.pos_x, k2.pos_x, k3.pos_x, k4.pos_x, w),
        pos_y: weighted_sum(k1.pos_y, k2.pos_y, k3.pos_y, k4.pos_y, w),
        pos_z: weighted_sum(k1.pos_z, k2.pos_z, k3.pos_z, k4.pos_z, w),
        u: weighted_sum(k1.u, k2.u, k3.u, k4.u, w),
        v: weighted_sum(k1.v, k2.v, k3.v, k4.v, w),
        w: weighted_sum(k1.w, k2.w, k3.w, k4.w, w),
        q0: weighted_sum(k1.q0, k2.q0, k3.q0, k4.q0, w),
        q1: weighted_sum(k1.q1, k2.q1, k3.q1, k4.q1, w),
        q2: weighted_sum(k1.q2, k2.q2, k3.q2, k4.q2, w),
        q3: weighted_sum(k1.q3, k2.q3, k3.q3, k4.q3, w),
        p: weighted_sum(k1.p, k2.p, k3.p, k4.p, w),
        q: weighted_sum(k1.q, k2.q, k3.q, k4.q, w),
        r: weighted_sum(k1.r, k2.r, k3.r, k4.r, w),
    }
}

/// The weighted sum of the four slopes.
pub fn combine_k(
    k1: &AircraftState,
    k2: &AircraftState,
    k3: &AircraftState,
    k4: &AircraftState,
    w: Binary64,
) -> (r: AircraftState)
    ensures
        r == combined(*k1, *k2, *k3, *k4, w),
{
    AircraftState {
        pos_x: weighted(k1.pos_x, k2.pos_x, k3.pos_x, k4.pos_x, w),
        pos_y: weighted(k1.pos_y, k2.pos_y, k3.pos_y, k4.pos_y, w),
        pos_z: weighted(k1.pos_z, k2.pos_z, k3.pos_z, k4.pos_z, w),
        u: weighted(k1.u, k2.u, k3.u, k4.u, w),
        v: weighted(k1.v, k2.v, k3.v, k4.v, w),
        w: weighted(k1.w, k2.w, k3.w, k4.w, w),
        q0: weighted(k1.q0, k2.q0, k3.q0, k4.q0, w),
        q1: weighted(k1.q1, k2.q1, k3.q1, k4.q1, w),
        q2: weighted(k1.q2, k2.q2, k3.q2, k4.q2, w),
        q3: weighted(k1.q3, k2.q3, k3.q3, k4.q3, w),
        p: weighted(k1.p, k2.p, k3.p, k4.p, w),
        q: weighted(k1.q, k2.q, k3.q, k4.q, w),
        r: weighted(k1.r, k2.r, k3.r, k4.r, w),
    }
}

/// The loads at the four points of a step.
#[derive(Clone, Copy, Debug, PartialEq, Eq, Structural)]
pub struct StageLoads {
    pub first: Load,
    pub second: Load,
    pub third: Load,
    pub fourth: Load,
}

/// The second point of a step: half a step along the slope at the first.
pub open spec fn second_point(
    s: AircraftState,
    config: AircraftConfig,
    l: StageLoads,
    dt: Binary64,
) -> AircraftState {
    moved(s, slope(s, config, l.first), dt.product(num(D0_5)))
}

/// The third point of a step: half a step along the slope at the second.
pub open spec fn third_point(
    s: AircraftState,
    config: AircraftConfig,
    l: StageLoads,
    dt: Binary64,
) -> AircraftState {
    moved(s, slope(second_point(s, config, l, dt), config, l.second), dt.product(num(D0_5)))
}

/// The fourth point of a step: a step along the slope at the third.
pub open spec fn fourth_point(
    s: AircraftState,
    config: AircraftConfig,
    l: StageLoads,
    dt: Binary64,
) -> AircraftState {
    moved(s, slope(third_point(s, config, l, dt), config, l.third), dt)
}

/// The state after a step: along the weighted sum of the slopes at the four
/// points, with the quaternion scaled to unit length.
pub open spec fn advanced(
    s: AircraftState,
    config: AircraftConfig,
    l: StageLoads,
    dt: Binary64,
) -> AircraftState {
    moved(
        s,
        combined(
            slope(s, config, l.first),
            slope(second_point(s, config, l, dt), config, l.second),
            slope(third_point(s, config, l, dt), config, l.third),
            slope(fourth_point(s, config, l, dt), config, l.fourth),
            dt.quotient(num(D6)),
        ),
        num(D1),
    ).straightened()
}

/// Whether `loads` gives the four loads at the four points of a step.
pub open spec fn loads_taken<F: Fn(AircraftState, ControlInputs, Vec3) -> Load>(
    loads: F,
    s: AircraftState,
    config: AircraftConfig,
    controls: ControlInputs,
    wind: Vec3,
    l: StageLoads,
    dt: Binary64,
) -> bool {
    &&& call_ensures(loads, (s, controls, wind), l.first)
    &&& call_ensures(loads, (second_point(s, config, l, dt), controls, wind), l.second)
    &&& call_ensures(loads, (third_point(s, config, l, dt), controls, wind), l.third)
    &&& call_ensures(loads, (fourth_point(s, config, l, dt), controls, wind), l.fourth)
}

/// Advances the state by `dt` seconds. `loads` gives force and moment at a
/// state under the controls and the wind; it is asked at the four points of
/// the step.
pub fn step<F: Fn(AircraftState, ControlInputs, Vec3) -> Load>(
    state: &mut AircraftState,
    config: &AircraftConfig,
    controls: ControlInputs,
    wind: Vec3,
    dt: Binary64,
    loads: F,
)
    requires
        forall|s: AircraftState| #[trigger] call_requires(loads, (s, controls, wind)),
    ensures
        exists|l: StageLoads| #[trigger]
            loads_taken(loads, *old(state), *config, controls, wind, l, dt) && *final(state)
                == advanced(*old(state), *config, l, dt),
{
    let s0: AircraftState = *state;
    let half: Binary64 = dt.times(num(D0_5));
    let l1: Load = loads(s0, controls, wind);
    let k1: AircraftState = derivatives(&s0, config, l1);
    let s2: AircraftState = add_scaled(&s0, &k1, half);
    let l2: Load = loads(s2, controls, wind);
    let k2: AircraftState = derivatives(&s2, config, l2);
    let s3: AircraftState = add_scaled(&s0, &k2, half);
    let l3: Load = loads(s3, controls, wind);
    let k3: AircraftState = derivatives(&s3, config, l3);
    let s4: AircraftState = add_scaled(&s0, &k3, dt);
    let l4: Load = loads(s4, controls, wind);
    let k4: AircraftState = derivatives(&s4, config, l4);
    let one_sixth: Binary64 = dt.over(num(D6));
    let total: AircraftState = combine_k(&k1, &k2, &k3, &k4, one_sixth);
    *state = add_scaled(&s0, &total, num(D1));
    state.normalize_quaternion();
    proof {
        let l = StageLoads { first: l1, second: l2, third: l3, fourth: l4 };
        assert(loads_taken(loads, s0, *config, controls, wind, l, dt));
    }
}

/// A velocity without its part against a direction.
pub open spec fn unsunk(v: Vec3, up: Vec3) -> Vec3 {
    let once = if v.inner(up).below(num(D0)) {
        v.difference(up.scaled(v.inner(up)))
    } else {
        v
    };
    let twice = if once.inner(up).below(num(D0)) {
        once.difference(up.scaled(num(D2).product(once.inner(up))))
    } else {
        once
    };
    if twice.inner(up).below(num(D0)) {
        Vec3::zero()
    } else {
        twice
    }
}

/// A velocity without its part against a direction. What rounding leaves of it
/// is turned round, and where that does not help nothing is left at all.
pub fn without_sink(v: Vec3, up: Vec3) -> (r: Vec3)
    ensures
        r == unsunk(v, up),
{
    let once: Vec3 = if v.dot(up).lt(num(D0)) {
        v.minus(up.times(v.dot(up)))
    } else {
        v
    };
    let twice: Vec3 = if once.dot(up).lt(num(D0)) {
        once.minus(up.times(num(D2).times(once.dot(up))))
    } else {
        once
    };
    if twice.dot(up).lt(num(D0)) {
        Vec3::zeros()
    } else {
        twice
    }
}

/// A state that does not reach below the ground.
pub open spec fn grounded(s: AircraftState, ground: Binary64) -> AircraftState {
    let up = s.attitude().rotated(Vec3 { x: num(D0), y: num(D0), z: num(M1) });
    let v = unsunk(s.velocity(), up);
    if ground.negated().below(s.pos_z) {
        AircraftState { pos_z: ground.negated(), u: v.x, v: v.y, w: v.z, ..s }
    } else {
        s
    }
}

/// A state that does not reach below the ground: on it, and not sinking, where
/// it was below.
pub fn on_ground(s: &AircraftState, ground: Binary64) -> (r: AircraftState)
    ensures
        r == grounded(*s, ground),
{
    let up: Vec3 = s.rotation_earth_to_body().transform_vector(Vec3 { x: num(D0), y: num(D0), z: num(M1) });
    let v: Vec3 = without_sink(s.body_velocity(), up);
    if s.pos_z.gt(ground.neg()) {
        AircraftState { pos_z: ground.neg(), u: v.x, v: v.y, w: v.z, ..*s }
    } else {
        *s
    }
}

/// Keeps the aircraft above the ground.
pub fn rest_on_ground(state: &mut AircraftState, ground: Binary64)
    ensures
        *final(state) == grounded(*old(state), ground),
{
    *state = on_ground(state, ground);
}

/// Whether `after` is a state a step later over the ground: `ground` gives the
/// height below the point that the step reaches.
pub open spec fn lands<
    F: Fn(AircraftState, ControlInputs, Vec3) -> Load,
    G: Fn(Binary64, Binary64) -> Binary64,
>(
    loads: F,
    ground: G,
    before: AircraftState,
    config: AircraftConfig,
    controls: ControlInputs,
    wind: Vec3,
    dt: Binary64,
    after: AircraftState,
) -> bool {
    exists|l: StageLoads, h: Binary64| #[trigger]
        loads_taken(loads, before, config, controls, wind, l, dt) && #[trigger] call_ensures(
            ground,
            (advanced(before, config, l, dt).pos_x, advanced(before, config, l, dt).pos_y),
            h,
        ) && after == grounded(advanced(before, config, l, dt), h)
}

/// Advances the state by `dt` seconds over the ground, which it does not
/// pierce. `ground` gives the height of the ground at a place north and east.
pub fn step_over_ground<
    F: Fn(AircraftState, ControlInputs, Vec3) -> Load,
    G: Fn(Binary64, Binary64) -> Binary64,
>(
    state: &mut AircraftState,
    config: &AircraftConfig,
    controls: ControlInputs,
    wind: Vec3,
    dt: Binary64,
    loads: F,
    ground: G,
)
    requires
        forall|s: AircraftState| #[trigger] call_requires(loads, (s, controls, wind)),
        forall|n: Binary64, e: Binary64| #[trigger] call_requires(ground, (n, e)),
    ensures
        lands(loads, ground, *old(state), *config, controls, wind, dt, *final(state)),
{
    let ghost before = *state;
    step(state, config, controls, wind, dt, loads);
    let ghost l = choose|l: StageLoads| #[trigger]
        loads_taken(loads, before, *config, controls, wind, l, dt) && *state == advanced(
            before,
            *config,
            l,
            dt,
        );
    let h: Binary64 = ground(state.pos_x, state.pos_y);
    proof {
        assert(loads_taken(loads, before, *config, controls, wind, l, dt));
        assert(call_ensures(
            ground,
            (advanced(before, *config, l, dt).pos_x, advanced(before, *config, l, dt).pos_y),
            h,
        ));
    }
    rest_on_ground(state, h);
}

/// The ground cannot be pierced: afterwards no state lies below it, and one
/// that lay above it is as it was.
pub proof fn ground_holds(s: AircraftState, ground: Binary64)
    requires
        !s.pos_z.nan(),
        !ground.nan(),
    ensures
        grounded(s, ground).pos_z.not_above(ground.negated()),
        s.pos_z.not_above(ground.negated()) ==> grounded(s, ground) == s,
        grounded(grounded(s, ground), ground) == grounded(s, ground),
{
}

/// The ground takes the sink of an aircraft that reached below it.
pub proof fn the_ground_takes_the_sink(s: AircraftState, ground: Binary64)
    requires
        ground.negated().below(s.pos_z),
    ensures
        ({
            let up = s.attitude().rotated(Vec3 { x: num(D0), y: num(D0), z: num(M1) });
            !grounded(s, ground).velocity().inner(up).below(num(D0))
        }),
{
    let up = s.attitude().rotated(Vec3 { x: num(D0), y: num(D0), z: num(M1) });
    rest_is_level(up);
}

/// What rests neither climbs nor sinks.
pub proof fn rest_is_level(up: Vec3)
    ensures
        !Vec3::zero().inner(up).below(num(D0)),
{
}

/// The position changes by the velocity over the ground, axis by axis: north,
/// east and down.
pub proof fn positions_follow_the_velocity(s: AircraftState, config: AircraftConfig, load: Load)
    ensures
        ({
            let k = slope(s, config, load);
            let e = s.ground_velocity();
            k.pos_x == e.x && k.pos_y == e.y && k.pos_z == e.z
        }),
{
}

/// A weighted sum of slopes of one sign has that sign.
proof fn lemma_weighted_sign(
    k1: Binary64,
    k2: Binary64,
    k3: Binary64,
    k4: Binary64,
    w: Binary64,
)
    requires
        k1.finite() && k2.finite() && k3.finite() && k4.finite(),
        w.finite() && num(D0).not_above(w),
        weighted_sum(k1, k2, k3, k4, w).finite(),
    ensures
        num(D0).not_above(k1) && num(D0).not_above(k2) && num(D0).not_above(k3)
            && num(D0).not_above(k4) ==> num(D0).not_above(weighted_sum(k1, k2, k3, k4, w)),
        k1.not_above(num(D0)) && k2.not_above(num(D0)) && k3.not_above(num(D0)) && k4.not_above(
            num(D0),
        ) ==> weighted_sum(k1, k2, k3, k4, w).not_above(num(D0)),
{
    let (a, b) = (num(D2).product(k2), num(D2).product(k3));
    crate::rounding::products_are_numbers(num(D2), k2);
    crate::rounding::products_are_numbers(num(D2), k3);
    crate::rounding::products_keep_signs(num(D2), k2);
    crate::rounding::products_keep_signs(num(D2), k3);
    crate::rounding::sums_keep_signs(k1, a);
    crate::rounding::sums_keep_signs(k1.sum(a), b);
    crate::rounding::sums_keep_signs(k1.sum(a).sum(b), k4);
    crate::rounding::products_keep_signs(k1.sum(a).sum(b).sum(k4), w);
}

/// A place moved by the slopes of one sign moves that way.
proof fn lemma_moves_that_way(
    x: Binary64,
    k1: Binary64,
    k2: Binary64,
    k3: Binary64,
    k4: Binary64,
    dt: Binary64,
)
    requires
        x.finite(),
        k1.finite() && k2.finite() && k3.finite() && k4.finite(),
        dt.finite() && num(D0).not_above(dt),
        weighted_sum(k1, k2, k3, k4, dt.quotient(num(D6))).finite(),
    ensures
        ({
            let y = x.sum(
                num(D1).product(weighted_sum(k1, k2, k3, k4, dt.quotient(num(D6)))),
            );
            &&& num(D0).not_above(k1) && num(D0).not_above(k2) && num(D0).not_above(k3)
                && num(D0).not_above(k4) ==> x.not_above(y)
            &&& k1.not_above(num(D0)) && k2.not_above(num(D0)) && k3.not_above(num(D0))
                && k4.not_above(num(D0)) ==> y.not_above(x)
        }),
{
    let w = dt.quotient(num(D6));
    crate::rounding::quotients_are_numbers(dt, num(D6));
    crate::rounding::divisors_keep_order(num(D0), dt, num(D6));
    assert(num(D0).quotient(num(D6)).zero());
    let t = weighted_sum(k1, k2, k3, k4, w);
    lemma_short_step(dt);
    lemma_weighted_sign(k1, k2, k3, k4, w);
    crate::rounding::one_is_neutral(t);
    crate::rounding::sums_are_numbers(x, t);
    crate::rounding::sums_are_numbers(x, num(D0));
    crate::rounding::zeros_keep_signs(x, num(D0));
    if num(D0).not_above(t) {
        crate::rounding::sums_of_ordered_terms(x, x, num(D0), t);
    }
    if t.not_above(num(D0)) {
        crate::rounding::sums_of_ordered_terms(x, x, t, num(D0));
    }
}

/// A sixth of a step is finite.
proof fn lemma_short_step(dt: Binary64)
    requires
        dt.finite(),
        num(D0).not_above(dt),
    ensures
        dt.quotient(num(D6)).finite(),
        num(D0).not_above(dt.quotient(num(D6))),
{
    crate::rounding::quotients_are_numbers(dt, num(D6));
    crate::rounding::divisors_keep_order(num(D0), dt, num(D6));
    if !dt.zero() {
        let n = crate::binary64::magnitude_value(dt.magnitude()) * pow2(UNIT_EXPONENT as nat);
        let six = crate::binary64::magnitude_value(num(D6).magnitude());
        lemma_six();
        assert(n <= crate::binary64::magnitude_value(dt.magnitude()) * six) by (nonlinear_arith)
            requires
                n == crate::binary64::magnitude_value(dt.magnitude()) * pow2(UNIT_EXPONENT as nat),
                pow2(UNIT_EXPONENT as nat) <= six,
        ;
        crate::rounding::rounding_keeps_limits(n, six, dt.magnitude());
    }
}

proof fn lemma_six()
    ensures
        pow2(UNIT_EXPONENT as nat) <= crate::binary64::magnitude_value(num(D6).magnitude()),
        crate::binary64::magnitude_value(num(D6).magnitude()) > 0,
{
    lemma_pow2_pos(1024);
    lemma_pow2_adds(1024, 50);
    lemma_pow2_adds(32, 18);
    lemma2_to64();
    let p = pow2(1024);
    assert(crate::binary64::magnitude_value(num(D6).magnitude()) == 0x18_0000_0000_0000 * p);
    assert(p * pow2(50) <= 0x18_0000_0000_0000 * p) by (nonlinear_arith)
        requires
            pow2(50) == 0x4_0000_0000_0000,
            p > 0,
    ;
}

/// The velocities over the ground at the four points of a step.
pub struct StepVelocities {
    pub first: Vec3,
    pub second: Vec3,
    pub third: Vec3,
    pub fourth: Vec3,
}

/// Whether these are the velocities over the ground at four states.
pub open spec fn are_velocities(
    e: StepVelocities,
    s1: AircraftState,
    s2: AircraftState,
    s3: AircraftState,
    s4: AircraftState,
) -> bool {
    &&& e.first == s1.ground_velocity()
    &&& e.second == s2.ground_velocity()
    &&& e.third == s3.ground_velocity()
    &&& e.fourth == s4.ground_velocity()
}

/// Whether four entries, and what a step makes of them, are finite.
pub open spec fn is_tame(
    a: Binary64,
    b: Binary64,
    c: Binary64,
    d: Binary64,
    dt: Binary64,
) -> bool {
    &&& a.finite() && b.finite() && c.finite() && d.finite()
    &&& weighted_sum(a, b, c, d, dt.quotient(num(D6))).finite()
}

/// Whether a step with these velocities keeps to finite positions.
pub open spec fn stays_finite(s: AircraftState, e: StepVelocities, dt: Binary64) -> bool {
    &&& s.pos_x.finite() && s.pos_y.finite() && s.pos_z.finite()
    &&& dt.finite() && num(D0).not_above(dt)
    &&& is_tame(e.first.x, e.second.x, e.third.x, e.fourth.x, dt)
    &&& is_tame(e.first.y, e.second.y, e.third.y, e.fourth.y, dt)
    &&& is_tame(e.first.z, e.second.z, e.third.z, e.fourth.z, dt)
}

/// Whether four numbers are not negative.
pub open spec fn none_negative(a: Binary64, b: Binary64, c: Binary64, d: Binary64) -> bool {
    num(D0).not_above(a) && num(D0).not_above(b) && num(D0).not_above(c) && num(D0).not_above(d)
}

/// Whether four numbers are not positive.
pub open spec fn none_positive(a: Binary64, b: Binary64, c: Binary64, d: Binary64) -> bool {
    a.not_above(num(D0)) && b.not_above(num(D0)) && c.not_above(num(D0)) && d.not_above(num(D0))
}

/// Whether positions went where velocities over the ground point: east
/// throughout, no further west; west throughout, no further east; and so north
/// and south, and up and down.
pub open spec fn went_along(s: AircraftState, e: StepVelocities, after: AircraftState) -> bool {
    &&& none_negative(e.first.x, e.second.x, e.third.x, e.fourth.x) ==> s.pos_x.not_above(
        after.pos_x,
    )
    &&& none_positive(e.first.x, e.second.x, e.third.x, e.fourth.x) ==> after.pos_x.not_above(
        s.pos_x,
    )
    &&& none_negative(e.first.y, e.second.y, e.third.y, e.fourth.y) ==> s.pos_y.not_above(
        after.pos_y,
    )
    &&& none_positive(e.first.y, e.second.y, e.third.y, e.fourth.y) ==> after.pos_y.not_above(
        s.pos_y,
    )
    &&& none_negative(e.first.z, e.second.z, e.third.z, e.fourth.z) ==> s.pos_z.not_above(
        after.pos_z,
    )
    &&& none_positive(e.first.z, e.second.z, e.third.z, e.fourth.z) ==> after.pos_z.not_above(
        s.pos_z,
    )
}

/// The same of slopes at any four states.
proof fn lemma_went_along(
    s: AircraftState,
    k1: AircraftState,
    k2: AircraftState,
    k3: AircraftState,
    k4: AircraftState,
    e: StepVelocities,
    dt: Binary64,
)
    requires
        k1.pos_x == e.first.x && k1.pos_y == e.first.y && k1.pos_z == e.first.z,
        k2.pos_x == e.second.x && k2.pos_y == e.second.y && k2.pos_z == e.second.z,
        k3.pos_x == e.third.x && k3.pos_y == e.third.y && k3.pos_z == e.third.z,
        k4.pos_x == e.fourth.x && k4.pos_y == e.fourth.y && k4.pos_z == e.fourth.z,
        stays_finite(s, e, dt),
    ensures
        went_along(
            s,
            e,
            moved(s, combined(k1, k2, k3, k4, dt.quotient(num(D6))), num(D1)).straightened(),
        ),
{
    let m = moved(s, combined(k1, k2, k3, k4, dt.quotient(num(D6))), num(D1));
    crate::state::straightening_turns_only_the_quaternion(m);
    lemma_moves_that_way(s.pos_x, e.first.x, e.second.x, e.third.x, e.fourth.x, dt);
    lemma_moves_that_way(s.pos_y, e.first.y, e.second.y, e.third.y, e.fourth.y, dt);
    lemma_moves_that_way(s.pos_z, e.first.z, e.second.z, e.third.z, e.fourth.z, dt);
}

proof fn lemma_went_along_states(
    s: AircraftState,
    s2: AircraftState,
    s3: AircraftState,
    s4: AircraftState,
    config: AircraftConfig,
    l: StageLoads,
    e: StepVelocities,
    dt: Binary64,
)
    requires
        are_velocities(e, s, s2, s3, s4),
        stays_finite(s, e, dt),
    ensures
        went_along(
            s,
            e,
            moved(
                s,
                combined(
                    slope(s, config, l.first),
                    slope(s2, config, l.second),
                    slope(s3, config, l.third),
                    slope(s4, config, l.fourth),
                    dt.quotient(num(D6)),
                ),
                num(D1),
            ).straightened(),
        ),
{
    positions_follow_the_velocity(s, config, l.first);
    positions_follow_the_velocity(s2, config, l.second);
    positions_follow_the_velocity(s3, config, l.third);
    positions_follow_the_velocity(s4, config, l.fourth);
    lemma_went_along(
        s,
        slope(s, config, l.first),
        slope(s2, config, l.second),
        slope(s3, config, l.third),
        slope(s4, config, l.fourth),
        e,
        dt,
    );
}

/// An aircraft that flies east throughout a step comes out no further west, one
/// that flies west no further east; the same holds of north and south, and of
/// up and down.
pub proof fn steps_go_where_the_velocity_points(
    s: AircraftState,
    config: AircraftConfig,
    l: StageLoads,
    e: StepVelocities,
    dt: Binary64,
)
    requires
        are_velocities(
            e,
            s,
            second_point(s, config, l, dt),
            third_point(s, config, l, dt),
            fourth_point(s, config, l, dt),
        ),
        stays_finite(s, e, dt),
    ensures
        went_along(s, e, advanced(s, config, l, dt)),
{
    lemma_went_along_states(
        s,
        second_point(s, config, l, dt),
        third_point(s, config, l, dt),
        fourth_point(s, config, l, dt),
        config,
        l,
        e,
        dt,
    );
}

/// The slopes in the middle of a step count twice as much as those at its ends,
/// and the two of each the same.
pub proof fn middle_slopes_count_twice(k: Binary64, w: Binary64)
    requires
        k.finite() && !k.zero(),
        k.sum(k).finite(),
    ensures
        ({
            let z = num(D0);
            &&& weighted_sum(z, k, z, z, w) == weighted_sum(k, z, z, k, w)
            &&& weighted_sum(z, z, k, z, w) == weighted_sum(k, z, z, k, w)
            &&& weighted_sum(k, z, z, z, w) == weighted_sum(z, z, z, k, w)
            &&& weighted_sum(k, z, z, z, num(D1)) == k
        }),
{
    let z = num(D0);
    let none = num(D2).product(z);
    crate::rounding::zero_absorbs(z, num(D2));
    crate::rounding::products_commute(z, num(D2));
    crate::rounding::doubles_are_sums(k);
    let twice = num(D2).product(k);
    crate::rounding::zeros_keep_signs(k, none);
    crate::rounding::zeros_keep_signs(k, z);
    crate::rounding::zeros_keep_signs(twice, none);
    crate::rounding::zeros_keep_signs(twice, z);
    crate::rounding::zeros_add_to_zero(z, none);
    crate::rounding::zeros_keep_signs(twice, z.sum(none));
    crate::rounding::zeros_add_to_zero(z.sum(none), none);
    crate::rounding::zeros_keep_signs(k, z.sum(none).sum(none));
    crate::rounding::one_is_neutral(k);
    lemma_double_is_not_zero(k);
}

proof fn lemma_double_is_not_zero(k: Binary64)
    requires
        k.finite() && !k.zero(),
    ensures
        !k.sum(k).zero(),
{
    let x = k.exact() + k.exact();
    crate::binary64::magnitudes_order_as_values(0, k.magnitude());
    assert(crate::binary64::magnitude_value(0) == 0);
    assert(crate::binary64::magnitude_value(1) == 1);
    if x > 0 {
        crate::rounding::rounding_keeps_limits(x as nat, 1, 1);
    } else {
        crate::rounding::rounding_keeps_limits((-x) as nat, 1, 1);
    }
}

/// The middle of a step is half-way: the second point of a step of twice the
/// length is a whole step along the first slope, and the third one along the
/// second.
pub proof fn middle_points_lie_half_way(
    s: AircraftState,
    config: AircraftConfig,
    l: StageLoads,
    dt: Binary64,
)
    requires
        dt.finite(),
        dt.sum(dt).finite(),
    ensures
        ({
            let long = dt.sum(dt);
            let middle = second_point(s, config, l, long);
            &&& middle == moved(s, slope(s, config, l.first), dt)
            &&& third_point(s, config, l, long) == moved(
                s,
                slope(middle, config, l.second),
                dt,
            )
        }),
{
    crate::rounding::halves_undo_doubles(dt);
}

/// The last point of a step is a whole step away: where the third point and the
/// second point of a step of twice the length have the same slope, it is the
/// third point of that step.
pub proof fn the_last_point_is_a_step_away(
    s: AircraftState,
    config: AircraftConfig,
    l: StageLoads,
    dt: Binary64,
)
    requires
        dt.finite(),
        dt.sum(dt).finite(),
        slope(third_point(s, config, l, dt), config, l.third) == slope(
            second_point(s, config, l, dt.sum(dt)),
            config,
            l.second,
        ),
    ensures
        fourth_point(s, config, l, dt) == third_point(s, config, l, dt.sum(dt)),
{
    crate::rounding::halves_undo_doubles(dt);
}

/// A force speeds the aircraft up along itself: without rotation each axis of
/// the velocity changes in the direction of the force on it.
pub proof fn forces_accelerate_along_themselves(
    s: AircraftState,
    config: AircraftConfig,
    load: Load,
)
    requires
        s.p.zero() && s.q.zero() && s.r.zero(),
        crate::vector::is_finite(s.velocity()),
        crate::vector::is_finite(load.force),
        config.mass.finite() && num(D0).below(config.mass),
    ensures
        ({
            let k = slope(s, config, load);
            &&& crate::rounding::like_product(k.u, load.force.x, num(D1))
            &&& crate::rounding::like_product(k.v, load.force.y, num(D1))
            &&& crate::rounding::like_product(k.w, load.force.z, num(D1))
        }),
{
    lemma_no_transport(s);
    lemma_quotient_sign(load.force.x, config.mass);
    lemma_quotient_sign(load.force.y, config.mass);
    lemma_quotient_sign(load.force.z, config.mass);
    let t = s.rates().outer(s.velocity());
    crate::rounding::zeros_keep_signs(load.force.x.quotient(config.mass), t.x);
    crate::rounding::zeros_keep_signs(load.force.y.quotient(config.mass), t.y);
    crate::rounding::zeros_keep_signs(load.force.z.quotient(config.mass), t.z);
}

proof fn lemma_no_transport(s: AircraftState)
    requires
        s.p.zero() && s.q.zero() && s.r.zero(),
        crate::vector::is_finite(s.velocity()),
    ensures
        crate::vector::vanishes(s.rates().outer(s.velocity())),
{
    let (w, v) = (s.rates(), s.velocity());
    crate::rounding::zero_absorbs(w.y, v.z);
    crate::rounding::zero_absorbs(w.z, v.y);
    crate::rounding::zero_absorbs(w.z, v.x);
    crate::rounding::zero_absorbs(w.x, v.z);
    crate::rounding::zero_absorbs(w.x, v.y);
    crate::rounding::zero_absorbs(w.y, v.x);
    crate::rounding::zeros_add_to_zero(w.y.product(v.z), w.z.product(v.y));
    crate::rounding::zeros_add_to_zero(w.z.product(v.x), w.x.product(v.z));
    crate::rounding::zeros_add_to_zero(w.x.product(v.y), w.y.product(v.x));
}

/// A quotient by a positive number has the sign of what is divided.
proof fn lemma_quotient_sign(a: Binary64, d: Binary64)
    requires
        a.finite(),
        d.finite() && num(D0).below(d),
    ensures
        crate::rounding::like_product(a.quotient(d), a, num(D1)),
{
    crate::rounding::quotients_are_numbers(a, d);
}

/// More force along an axis gives no less acceleration along it, and changes
/// nothing else.
pub proof fn more_force_more_acceleration(
    s: AircraftState,
    config: AircraftConfig,
    load: Load,
    more: Binary64,
)
    requires
        config.mass.finite() && num(D0).below(config.mass),
        load.force.x.finite() && more.finite(),
        load.force.x.not_above(more),
        s.rates().outer(s.velocity()).x.finite(),
    ensures
        ({
            let k = slope(s, config, load);
            let n = slope(
                s,
                config,
                Load { force: Vec3 { x: more, ..load.force }, ..load },
            );
            &&& k.u.not_above(n.u)
            &&& n == (AircraftState { u: n.u, ..k })
        }),
{
    let t = s.rates().outer(s.velocity()).x;
    crate::rounding::divisors_keep_order(load.force.x, more, config.mass);
    let (a, b) = (load.force.x.quotient(config.mass), more.quotient(config.mass));
    if a.finite() {
        crate::rounding::sums_are_numbers(a, t.negated());
    }
    if b.finite() {
        crate::rounding::sums_are_numbers(b, t.negated());
    }
    crate::rounding::sums_keep_order(a, b, t.negated());
}

/// A velocity stays where it points while the axes turn: without force its
/// parts change as the axes leave it. Rolling right turns a downward motion
/// into one to the right, pitching up a forward motion into a downward one, and
/// yawing right a motion to the right into a forward one.
pub proof fn turning_axes_carry_the_velocity(
    s: AircraftState,
    config: AircraftConfig,
    load: Load,
)
    requires
        crate::vector::vanishes(load.force),
        config.mass.finite() && num(D0).below(config.mass),
        crate::vector::is_finite(s.velocity()),
        crate::vector::is_finite(s.rates()),
    ensures
        ({
            let k = slope(s, config, load);
            &&& s.q.zero() && s.r.zero() ==> crate::rounding::like_product(k.v, s.p, s.w)
                && crate::rounding::like_product(k.w, s.p.negated(), s.v) && k.u.zero()
            &&& s.p.zero() && s.r.zero() ==> crate::rounding::like_product(k.w, s.q, s.u)
                && crate::rounding::like_product(k.u, s.q.negated(), s.w) && k.v.zero()
            &&& s.p.zero() && s.q.zero() ==> crate::rounding::like_product(k.u, s.r, s.v)
                && crate::rounding::like_product(k.v, s.r.negated(), s.u) && k.w.zero()
        }),
{
    let (w, v) = (s.rates(), s.velocity());
    lemma_carried(load.force.x, config.mass, w.y, v.z, w.z, v.y);
    lemma_carried(load.force.y, config.mass, w.z, v.x, w.x, v.z);
    lemma_carried(load.force.z, config.mass, w.x, v.y, w.y, v.x);
}

/// What is left of a transport term of which one part, or both, vanish.
proof fn lemma_carried(
    f: Binary64,
    mass: Binary64,
    a: Binary64,
    b: Binary64,
    c: Binary64,
    d: Binary64,
)
    requires
        f.zero(),
        mass.finite() && num(D0).below(mass),
        a.finite() && b.finite() && c.finite() && d.finite(),
    ensures
        ({
            let r = f.quotient(mass).difference(a.product(b).difference(c.product(d)));
            &&& a.zero() ==> crate::rounding::like_product(r, c, d)
            &&& c.zero() ==> crate::rounding::like_product(r, a.negated(), b)
            &&& a.zero() && c.zero() ==> r.zero()
        }),
{
    let (x, y) = (a.product(b), c.product(d));
    crate::rounding::products_have_their_signs(a, b);
    crate::rounding::products_have_their_signs(c, d);
    let g = f.quotient(mass);
    let t = x.difference(y);
    if a.zero() {
        crate::rounding::zeros_keep_signs(y.negated(), x);
        crate::rounding::zeros_keep_signs(t.negated(), g);
        if y.zero() {
            crate::rounding::zeros_add_to_zero(x, y);
        }
    }
    if c.zero() {
        crate::rounding::zeros_keep_signs(x, y);
        crate::rounding::zeros_keep_signs(t.negated(), g);
        if x.zero() {
            crate::rounding::zeros_add_to_zero(x, y);
        }
    }
    if t.zero() {
        crate::rounding::zeros_add_to_zero(g, t);
    }
}

/// A rotation about one axis of the body turns the quaternion, which leads from
/// earth to body, against itself: each entry changes by minus half the rate
/// times the entry with which it pairs, and that one the other way.
pub proof fn rates_turn_the_quaternion(s: AircraftState, config: AircraftConfig, load: Load)
    requires
        s.q0.finite() && s.q1.finite() && s.q2.finite() && s.q3.finite(),
        crate::vector::is_finite(s.rates()),
    ensures
        ({
            let k = slope(s, config, load);
            &&& s.q.zero() && s.r.zero() ==> crate::rounding::like_product(k.q0, s.p, s.q1)
                && crate::rounding::like_product(k.q1, s.p.negated(), s.q0)
                && crate::rounding::like_product(k.q2, s.p, s.q3)
                && crate::rounding::like_product(k.q3, s.p.negated(), s.q2)
            &&& s.p.zero() && s.r.zero() ==> crate::rounding::like_product(k.q0, s.q, s.q2)
                && crate::rounding::like_product(k.q2, s.q.negated(), s.q0)
                && crate::rounding::like_product(k.q3, s.q, s.q1)
                && crate::rounding::like_product(k.q1, s.q.negated(), s.q3)
            &&& s.p.zero() && s.q.zero() ==> crate::rounding::like_product(k.q0, s.r, s.q3)
                && crate::rounding::like_product(k.q3, s.r.negated(), s.q0)
                && crate::rounding::like_product(k.q1, s.r, s.q2)
                && crate::rounding::like_product(k.q2, s.r.negated(), s.q1)
        }),
{
    let (hp, hq, hr) = (
        num(M0_5).product(s.p),
        num(M0_5).product(s.q),
        num(M0_5).product(s.r),
    );
    lemma_half_rate(s.p);
    lemma_half_rate(s.q);
    lemma_half_rate(s.r);
    lemma_quaternion_sum(s.p, s.q1, s.q, s.q2, s.r, s.q3);
    lemma_quaternion_sum(s.p, s.q0, s.q, s.q3, s.r, s.q2);
    lemma_quaternion_sum(s.q, s.q0, s.r, s.q1, s.p, s.q3);
    lemma_quaternion_sum(s.p, s.q2, s.q, s.q1, s.r, s.q0);
}

proof fn lemma_half_rate(p: Binary64)
    requires
        p.finite(),
    ensures
        num(M0_5).product(p).finite(),
        p.zero() ==> num(M0_5).product(p).zero(),
        !p.zero() && !num(M0_5).product(p).zero() ==> num(M0_5).product(p).negative()
            != p.negative(),
{
    crate::rounding::products_are_numbers(num(M0_5), p);
    crate::rounding::negated_factors(p, num(D0_5));
    crate::rounding::products_commute(p, num(D0_5));
    crate::rounding::products_commute(p, num(M0_5));
    assert(num(M0_5) == num(D0_5).negated());
    if num(D0).not_above(p) {
        crate::rounding::fractions_shrink(p, num(D0_5));
    } else {
        crate::rounding::fractions_shrink_negatives(p, num(D0_5));
    }
    if p.zero() {
        crate::rounding::zero_absorbs(p, num(M0_5));
    }
}

/// The four patterns of the sums of three terms that turn a quaternion, where
/// two of the rates vanish.
proof fn lemma_quaternion_sum(
    a: Binary64,
    x: Binary64,
    b: Binary64,
    y: Binary64,
    c: Binary64,
    z: Binary64,
)
    requires
        a.finite() && b.finite() && c.finite() && x.finite() && y.finite() && z.finite(),
    ensures
        ({
            let h = num(M0_5);
            let (p, q, r) = (
                h.product(a).product(x),
                h.product(b).product(y),
                h.product(c).product(z),
            );
            &&& b.zero() && c.zero() ==> crate::rounding::like_product(
                p.negated().difference(q).difference(r),
                a,
                x,
            ) && crate::rounding::like_product(p.sum(q).difference(r), a.negated(), x)
                && crate::rounding::like_product(p.difference(q).sum(r), a.negated(), x)
            &&& a.zero() && c.zero() ==> crate::rounding::like_product(
                p.negated().difference(q).difference(r),
                b,
                y,
            ) && crate::rounding::like_product(p.sum(q).difference(r), b.negated(), y)
                && crate::rounding::like_product(p.difference(q).sum(r), b, y)
            &&& a.zero() && b.zero() ==> crate::rounding::like_product(
                p.negated().difference(q).difference(r),
                c,
                z,
            ) && crate::rounding::like_product(p.sum(q).difference(r), c, z)
                && crate::rounding::like_product(p.difference(q).sum(r), c.negated(), z)
        }),
{
    let h = num(M0_5);
    lemma_half_rate(a);
    lemma_half_rate(b);
    lemma_half_rate(c);
    let (p, q, r) = (h.product(a).product(x), h.product(b).product(y), h.product(c).product(z));
    crate::rounding::products_have_their_signs(h.product(a), x);
    crate::rounding::products_have_their_signs(h.product(b), y);
    crate::rounding::products_have_their_signs(h.product(c), z);
    if b.zero() && c.zero() {
        crate::rounding::zeros_keep_signs(p.negated(), q);
        crate::rounding::zeros_keep_signs(p.negated().difference(q), r);
        crate::rounding::zeros_keep_signs(p, q);
        crate::rounding::zeros_keep_signs(p.sum(q), r);
        crate::rounding::zeros_keep_signs(p.difference(q), r);
    }
    if a.zero() && c.zero() {
        crate::rounding::zeros_keep_signs(q.negated(), p.negated());
        crate::rounding::zeros_keep_signs(p.negated().difference(q), r);
        crate::rounding::zeros_keep_signs(q, p);
        crate::rounding::zeros_keep_signs(p.sum(q), r);
        crate::rounding::zeros_keep_signs(q.negated(), p);
        crate::rounding::zeros_keep_signs(p.difference(q), r);
    }
    if a.zero() && b.zero() {
        crate::rounding::zeros_add_to_zero(p.negated(), q);
        crate::rounding::zeros_keep_signs(r.negated(), p.negated().difference(q));
        crate::rounding::zeros_add_to_zero(p, q);
        crate::rounding::zeros_keep_signs(r.negated(), p.sum(q));
        crate::rounding::zeros_keep_signs(r, p.difference(q));
    }
}

/// A moment turns the aircraft about itself: with no more than one rate, which
/// has no gyroscopic effect, each rate changes in the direction of the moment
/// about its axis.
pub proof fn moments_turn_about_themselves(
    s: AircraftState,
    config: AircraftConfig,
    load: Load,
)
    requires
        crate::vector::is_finite(load.moment),
        crate::vector::is_finite(s.rates()),
        (s.p.zero() && s.q.zero()) || (s.q.zero() && s.r.zero()) || (s.p.zero() && s.r.zero()),
        config.ixx.finite() && num(D0).below(config.ixx),
        config.iyy.finite() && num(D0).below(config.iyy),
        config.izz.finite() && num(D0).below(config.izz),
        config.iyy.difference(config.izz).finite(),
        config.izz.difference(config.ixx).finite(),
        config.ixx.difference(config.iyy).finite(),
        config.iyy.difference(config.izz).product(s.q).finite(),
        config.izz.difference(config.ixx).product(s.p).finite(),
        config.ixx.difference(config.iyy).product(s.p).finite(),
    ensures
        ({
            let k = slope(s, config, load);
            &&& crate::rounding::like_product(k.p, load.moment.x, num(D1))
            &&& crate::rounding::like_product(k.q, load.moment.y, num(D1))
            &&& crate::rounding::like_product(k.r, load.moment.z, num(D1))
        }),
{
    lemma_moment(load.moment.x, config.iyy.difference(config.izz), s.q, s.r, config.ixx);
    lemma_moment(load.moment.y, config.izz.difference(config.ixx), s.p, s.r, config.iyy);
    lemma_moment(load.moment.z, config.ixx.difference(config.iyy), s.p, s.q, config.izz);
}

proof fn lemma_moment(m: Binary64, d: Binary64, a: Binary64, b: Binary64, inertia: Binary64)
    requires
        m.finite() && d.finite() && a.finite() && b.finite() && d.product(a).finite(),
        a.zero() || b.zero(),
        inertia.finite() && num(D0).below(inertia),
    ensures
        crate::rounding::like_product(
            m.sum(d.product(a).product(b)).quotient(inertia),
            m,
            num(D1),
        ),
{
    crate::rounding::products_have_their_signs(d, a);
    crate::rounding::products_have_their_signs(d.product(a), b);
    let g = d.product(a).product(b);
    assert(g.zero());
    crate::rounding::zeros_keep_signs(m, g);
    lemma_quotient_sign(m.sum(g), inertia);
}

/// A body that turns about two axes is turned about the third by its own
/// inertia: without moment, and with both rates positive, the rate about the
/// third axis grows where the inertia about the axis after it exceeds that
/// about the one before, and falls where it is the other way round.
pub proof fn spinning_bodies_precess(s: AircraftState, config: AircraftConfig, load: Load)
    requires
        crate::vector::vanishes(load.moment),
        crate::vector::is_finite(s.rates()),
        num(D0).not_above(s.p) && num(D0).not_above(s.q) && num(D0).not_above(s.r),
        config.ixx.finite() && num(D0).below(config.ixx),
        config.iyy.finite() && num(D0).below(config.iyy),
        config.izz.finite() && num(D0).below(config.izz),
        config.iyy.difference(config.izz).product(s.q).product(s.r).finite(),
        config.izz.difference(config.ixx).product(s.p).product(s.r).finite(),
        config.ixx.difference(config.iyy).product(s.p).product(s.q).finite(),
    ensures
        ({
            let k = slope(s, config, load);
            &&& config.izz.not_above(config.iyy) ==> num(D0).not_above(k.p)
            &&& config.iyy.not_above(config.izz) ==> k.p.not_above(num(D0))
            &&& config.ixx.not_above(config.izz) ==> num(D0).not_above(k.q)
            &&& config.izz.not_above(config.ixx) ==> k.q.not_above(num(D0))
            &&& config.iyy.not_above(config.ixx) ==> num(D0).not_above(k.r)
            &&& config.ixx.not_above(config.iyy) ==> k.r.not_above(num(D0))
        }),
{
    lemma_precession(load.moment.x, config.iyy, config.izz, s.q, s.r, config.ixx);
    lemma_precession(load.moment.y, config.izz, config.ixx, s.p, s.r, config.iyy);
    lemma_precession(load.moment.z, config.ixx, config.iyy, s.p, s.q, config.izz);
}

proof fn lemma_precession(
    m: Binary64,
    i: Binary64,
    j: Binary64,
    a: Binary64,
    b: Binary64,
    inertia: Binary64,
)
    requires
        m.zero(),
        i.finite() && j.finite(),
        a.finite() && num(D0).not_above(a),
        b.finite() && num(D0).not_above(b),
        inertia.finite() && num(D0).below(inertia),
        i.difference(j).product(a).product(b).finite(),
    ensures
        j.not_above(i) ==> num(D0).not_above(
            m.sum(i.difference(j).product(a).product(b)).quotient(inertia),
        ),
        i.not_above(j) ==> m.sum(i.difference(j).product(a).product(b)).quotient(
            inertia,
        ).not_above(num(D0)),
{
    let d = i.difference(j);
    crate::rounding::differences_tell_the_order(i, j);
    crate::rounding::products_keep_signs(d, a);
    crate::rounding::products_keep_signs(d.product(a), b);
    let g = d.product(a).product(b);
    crate::rounding::zeros_keep_signs(g, m);
    lemma_quotient_sign(m.sum(g), inertia);
}

} // verus!
