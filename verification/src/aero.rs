//! Aerodynamic, propulsive and gravitational forces and moments.
use crate::atmosphere::Atmosphere;
use crate::binary64::{Binary64, UNIT_EXPONENT};
use crate::config::{AircraftConfig, Propulsion};
use crate::literal::{
    num, D0, D0_01, D0_1, D0_3, D0_4, D0_45, D0_5, D0_574, D0_7, D1, D100, D1000, D1EM6, D1_2, D2,
    D20, D4, D5, D6, D8, D9_80665, M0_015, M0_45, M1, M1EM6,
};
use crate::separation::{size, step};
use crate::state::{compressibility_factor, AircraftState};
use crate::vector::Vec3;
use vstd::prelude::*;

verus! {

/// Control surfaces (rad), throttle and flap.
#[derive(Clone, Copy, Debug, PartialEq, Eq, Structural)]
pub struct ControlInputs {
    pub elevator: Binary64,
    pub aileron: Binary64,
    pub rudder: Binary64,
    /// Throttle, a fraction.
    pub throttle: Binary64,
    /// Flap (rad).
    pub flap: Binary64,
}

impl ControlInputs {
    /// All controls at zero.
    pub open spec fn idle() -> ControlInputs {
        ControlInputs {
            elevator: num(D0),
            aileron: num(D0),
            rudder: num(D0),
            throttle: num(D0),
            flap: num(D0),
        }
    }
}

impl Default for ControlInputs {
    fn default() -> (r: Self)
        ensures
            r == ControlInputs::idle(),
    {
        ControlInputs {
            elevator: num(D0),
            aileron: num(D0),
            rudder: num(D0),
            throttle: num(D0),
            flap: num(D0),
        }
    }
}

/// The angles of the air and the functions of them that the forces need.
#[derive(Clone, Copy, Debug, PartialEq, Eq, Structural)]
pub struct AirAngles {
    /// Angle of attack.
    pub alpha: Binary64,
    /// Sideslip angle.
    pub beta: Binary64,
    pub sin_alpha: Binary64,
    pub cos_alpha: Binary64,
    pub cos_beta: Binary64,
    /// Sine of twice the angle of attack.
    pub sin_two_alpha: Binary64,
    /// Hyperbolic tangent of the argument of the lift blend.
    pub lift_tanh: Binary64,
    /// Hyperbolic tangent of the argument of the drag blend.
    pub drag_tanh: Binary64,
}

/// The functions of the attitude that the moments need.
#[derive(Clone, Copy, Debug, PartialEq, Eq, Structural)]
pub struct AttitudeFactors {
    /// Sine of the roll angle.
    pub sin_bank: Binary64,
    /// Hyperbolic tangent of the argument of the pitch sense.
    pub pitch_sense: Binary64,
}

/// What the engines need to know of the flow.
#[derive(Clone, Copy, Debug, PartialEq, Eq, Structural)]
pub struct EngineFlowInputs {
    pub throttle: Binary64,
    pub v_tas: Binary64,
    pub density_factor: Binary64,
    pub alpha: Binary64,
    pub q: Binary64,
    pub r: Binary64,
    pub pitch_sense: Binary64,
}

/// Thrust of the left, the right and the single engine.
#[derive(Clone, Copy, Debug, PartialEq, Eq, Structural)]
pub struct Thrusts {
    pub left: Binary64,
    pub right: Binary64,
    pub single: Binary64,
}

/// A force and a moment in body axes.
#[derive(Clone, Copy, Debug, PartialEq, Eq, Structural)]
pub struct Load {
    pub force: Vec3,
    pub moment: Vec3,
}

/// Dimensionless rates.
#[derive(Clone, Copy, Debug, PartialEq, Eq, Structural)]
pub struct Rates {
    pub p: Binary64,
    pub q: Binary64,
    pub r: Binary64,
    pub alpha_dot: Binary64,
}

/// The thrust of an engine at a throttle: a jet keeps it at speed, a propeller
/// is limited by its power.
pub open spec fn thrust_ceiling(
    thr_max: Binary64,
    pwr_max: Binary64,
    thr: Binary64,
    v_tas: Binary64,
    density_factor: Binary64,
    propulsion: Propulsion,
) -> Binary64 {
    match propulsion {
        Propulsion::Jet => thr_max.product(thr).product(density_factor),
        Propulsion::Propeller => thr_max.product(thr).product(density_factor).smaller(
            pwr_max.product(thr).product(density_factor).quotient(v_tas.larger(num(D6))),
        ),
    }
}

/// The thrust of an engine at a throttle: a jet keeps it at speed, a propeller
/// is limited by its power.
pub fn engine_thrust_ceiling(
    thr_max: Binary64,
    pwr_max: Binary64,
    thr: Binary64,
    v_tas: Binary64,
    density_factor: Binary64,
    propulsion: Propulsion,
) -> (r: Binary64)
    ensures
        r == thrust_ceiling(thr_max, pwr_max, thr, v_tas, density_factor, propulsion),
{
    match propulsion {
        Propulsion::Jet => thr_max.times(thr).times(density_factor),
        Propulsion::Propeller => thr_max.times(thr).times(density_factor).min(
            pwr_max.times(thr).times(density_factor).over(v_tas.max(num(D6))),
        ),
    }
}

/// The thrust of each engine; the engines of a twin share the total, skewed by the split.
pub open spec fn thrusts(
    config: AircraftConfig,
    throttle: Binary64,
    throttle_split: Binary64,
    v_tas: Binary64,
    density_factor: Binary64,
) -> Thrusts {
    let split = throttle_split.clamped(num(M1), num(D1));
    if config.engine_count != 2 {
        Thrusts {
            left: num(D0),
            right: num(D0),
            single: thrust_ceiling(
                config.thrust_max,
                config.power_max,
                throttle,
                v_tas,
                density_factor,
                config.propulsion,
            ),
        }
    } else {
        let half_t = config.thrust_max.product(num(D0_5));
        let half_p = config.power_max.product(num(D0_5));
        let left_thr = throttle.product(num(D1).sum(split)).clamped(num(D0), num(D1));
        let right_thr = throttle.product(num(D1).difference(split)).clamped(num(D0), num(D1));
        Thrusts {
            left: thrust_ceiling(half_t, half_p, left_thr, v_tas, density_factor, config.propulsion),
            right: thrust_ceiling(half_t, half_p, right_thr, v_tas, density_factor, config.propulsion),
            single: num(D0),
        }
    }
}

/// The thrust of each engine; the engines of a twin share the total, skewed by
/// the split.
pub fn engine_thrusts(
    config: &AircraftConfig,
    throttle: Binary64,
    throttle_split: Binary64,
    v_tas: Binary64,
    density_factor: Binary64,
) -> (r: Thrusts)
    ensures
        r == thrusts(*config, throttle, throttle_split, v_tas, density_factor),
{
    let split: Binary64 = throttle_split.clamp(num(M1), num(D1));
    if config.engine_count != 2 {
        Thrusts {
            left: num(D0),
            right: num(D0),
            single: engine_thrust_ceiling(
                config.thrust_max,
                config.power_max,
                throttle,
                v_tas,
                density_factor,
                config.propulsion,
            ),
        }
    } else {
        let half_t: Binary64 = config.thrust_max.times(num(D0_5));
        let half_p: Binary64 = config.power_max.times(num(D0_5));
        let left_thr: Binary64 = throttle.times(num(D1).plus(split)).clamp(num(D0), num(D1));
        let right_thr: Binary64 = throttle.times(num(D1).minus(split)).clamp(num(D0), num(D1));
        Thrusts {
            left: engine_thrust_ceiling(
                half_t,
                half_p,
                left_thr,
                v_tas,
                density_factor,
                config.propulsion,
            ),
            right: engine_thrust_ceiling(
                half_t,
                half_p,
                right_thr,
                v_tas,
                density_factor,
                config.propulsion,
            ),
            single: num(D0),
        }
    }
}

/// Force and moment of the engines: thrust, its line, and for a twin its
/// asymmetry; a propeller adds torque, blade asymmetry and precession.
pub open spec fn engine_load(eng: EngineFlowInputs, config: AircraftConfig) -> Load {
    let t = thrusts(config, eng.throttle, config.throttle_split, eng.v_tas, eng.density_factor);
    let total = t.left.sum(t.right).sum(t.single);
    let force = Vec3 { x: num(D0).sum(total), y: num(D0), z: num(D0) };
    let line = num(D0).sum(total.product(config.thrust_arm).product(eng.pitch_sense));
    let arm = config.engine_lateral_arm;
    let yaw = num(D0).sum(t.right.difference(t.left).product(arm));
    let gyro = config.gyro_coeff.product(total);
    if config.engine_count != 2 {
        Load { force, moment: Vec3 { x: num(D0), y: line, z: num(D0) } }
    } else if config.propulsion == Propulsion::Propeller {
        Load {
            force,
            moment: Vec3 {
                x: num(D0).sum(
                    config.prop_torque_coeff.product(t.left.difference(t.right)).product(arm),
                ),
                y: line.sum(gyro.product(eng.r)),
                z: yaw.sum(config.p_factor_coeff.product(total).product(eng.alpha)).sum(
                    gyro.negated().product(eng.q),
                ),
            },
        }
    } else {
        Load { force, moment: Vec3 { x: num(D0), y: line, z: yaw } }
    }
}

/// Force and moment of the engines: thrust, its line, and for a twin its
/// asymmetry; a propeller adds torque, blade asymmetry and precession.
pub fn engine_forces_moments(eng: EngineFlowInputs, config: &AircraftConfig) -> (r: Load)
    ensures
        r == engine_load(eng, *config),
{
    let t: Thrusts = engine_thrusts(config, eng.throttle, config.throttle_split, eng.v_tas, eng.density_factor);
    let total: Binary64 = t.left.plus(t.right).plus(t.single);
    let force: Vec3 = Vec3 { x: num(D0).plus(total), y: num(D0), z: num(D0) };
    let line: Binary64 = num(D0).plus(total.times(config.thrust_arm).times(eng.pitch_sense));
    let arm: Binary64 = config.engine_lateral_arm;
    let yaw: Binary64 = num(D0).plus(t.right.minus(t.left).times(arm));
    let gyro: Binary64 = config.gyro_coeff.times(total);
    if config.engine_count != 2 {
        Load { force, moment: Vec3 { x: num(D0), y: line, z: num(D0) } }
    } else if config.propulsion == Propulsion::Propeller {
        Load {
            force,
            moment: Vec3 {
                x: num(D0).plus(config.prop_torque_coeff.times(t.left.minus(t.right)).times(arm)),
                y: line.plus(gyro.times(eng.r)),
                z: yaw.plus(config.p_factor_coeff.times(total).times(eng.alpha)).plus(
                    gyro.neg().times(eng.q),
                ),
            },
        }
    } else {
        Load { force, moment: Vec3 { x: num(D0), y: line, z: yaw } }
    }
}

/// The share of ground effect at a height above ground: one at the ground, a
/// half at a quarter of the span.
pub open spec fn ground_share(altitude_above_ground: Binary64, wing_span: Binary64) -> Binary64 {
    let h = altitude_above_ground.larger(num(D0));
    let x = num(D4).product(h.quotient(wing_span.larger(num(D1EM6))));
    num(D1).quotient(num(D1).sum(x.product(x)))
}

/// The share of ground effect at a height above ground: one at the ground, a
/// half at a quarter of the span.
pub fn ground_effect_factor(
    altitude_above_ground: Binary64,
    wing_span: Binary64,
) -> (r: Binary64)
    ensures
        r == ground_share(altitude_above_ground, wing_span),
{
    let h: Binary64 = altitude_above_ground.max(num(D0));
    let x: Binary64 = num(D4).times(h.over(wing_span.max(num(D1EM6))));
    num(D1).over(num(D1).plus(x.times(x)))
}

/// The factors of lift and of induced drag in ground effect.
pub open spec fn ground_factors(
    altitude_above_ground: Binary64,
    wing_span: Binary64,
) -> (Binary64, Binary64) {
    let ge = ground_share(altitude_above_ground, wing_span);
    (num(D1).sum(num(D0_1).product(ge)), num(D1).difference(num(D0_3).product(ge)))
}

/// The factors of lift and of induced drag in ground effect.
pub fn ground_effect_factors(
    altitude_above_ground: Binary64,
    wing_span: Binary64,
) -> (r: (Binary64, Binary64))
    ensures
        r == ground_factors(altitude_above_ground, wing_span),
{
    let ge: Binary64 = ground_effect_factor(altitude_above_ground, wing_span);
    (num(D1).plus(num(D0_1).times(ge)), num(D1).minus(num(D0_3).times(ge)))
}

/// The force that ground effect adds, at right angles to the wind.
pub open spec fn ground_force(
    q_dyn: Binary64,
    wing_area: Binary64,
    cl: Binary64,
    sin_alpha: Binary64,
    cos_alpha: Binary64,
    ge_factors: (Binary64, Binary64),
) -> Vec3 {
    let dlift = q_dyn.product(wing_area).product(cl).product(ge_factors.0.difference(num(D1)));
    Vec3 { x: dlift.product(sin_alpha), y: num(D0), z: dlift.negated().product(cos_alpha) }
}

/// The force that ground effect adds, at right angles to the wind.
pub fn ground_effect_force_delta(
    q_dyn: Binary64,
    wing_area: Binary64,
    cl: Binary64,
    sin_alpha: Binary64,
    cos_alpha: Binary64,
    ge_factors: (Binary64, Binary64),
) -> (r: Vec3)
    ensures
        r == ground_force(q_dyn, wing_area, cl, sin_alpha, cos_alpha, ge_factors),
{
    let dlift: Binary64 = q_dyn.times(wing_area).times(cl).times(ge_factors.0.minus(num(D1)));
    Vec3 { x: dlift.times(sin_alpha), y: num(D0), z: dlift.neg().times(cos_alpha) }
}

/// The flap within its range.
pub open spec fn flap_within(controls: ControlInputs) -> Binary64 {
    controls.flap.clamped(num(D0), num(D0_7))
}

/// The flap within its range.
pub fn flap_of(controls: ControlInputs) -> (r: Binary64)
    ensures
        r == flap_within(controls),
{
    controls.flap.clamp(num(D0), num(D0_7))
}

/// The positive stall angle, lowered by the flap.
pub open spec fn stall_with_flap(config: AircraftConfig, controls: ControlInputs) -> Binary64 {
    config.alpha_stall_pos.difference(config.flap_stall_shift.product(flap_within(controls)))
}

/// The positive stall angle, lowered by the flap.
pub fn stall_angle(config: &AircraftConfig, controls: ControlInputs) -> (r: Binary64)
    ensures
        r == stall_with_flap(*config, controls),
{
    config.alpha_stall_pos.minus(config.flap_stall_shift.times(flap_of(controls)))
}

/// How far the angle of attack is beyond a stall angle.
pub open spec fn excess(alpha: Binary64, alpha_pos: Binary64, alpha_neg: Binary64) -> Binary64 {
    if alpha_pos.below(alpha) {
        alpha.difference(alpha_pos)
    } else {
        alpha_neg.difference(alpha)
    }
}

/// How far the angle of attack is beyond a stall angle.
pub fn stall_excess(alpha: Binary64, alpha_pos: Binary64, alpha_neg: Binary64) -> (r: Binary64)
    ensures
        r == excess(alpha, alpha_pos, alpha_neg),
{
    if alpha.gt(alpha_pos) {
        alpha.minus(alpha_pos)
    } else {
        alpha_neg.minus(alpha)
    }
}

/// The argument of the hyperbolic tangent of the lift blend.
pub open spec fn lift_blend_at(
    alpha: Binary64,
    alpha_pos: Binary64,
    alpha_neg: Binary64,
) -> Binary64 {
    num(D5).product(excess(alpha, alpha_pos, alpha_neg))
}

/// The argument of the hyperbolic tangent of the lift blend.
pub fn lift_blend_argument(
    alpha: Binary64,
    alpha_pos: Binary64,
    alpha_neg: Binary64,
) -> (r: Binary64)
    ensures
        r == lift_blend_at(alpha, alpha_pos, alpha_neg),
{
    num(D5).times(stall_excess(alpha, alpha_pos, alpha_neg))
}

/// The argument of the hyperbolic tangent of the drag blend.
pub open spec fn drag_blend_at(
    alpha: Binary64,
    alpha_pos: Binary64,
    alpha_neg: Binary64,
) -> Binary64 {
    num(D6).product(excess(alpha, alpha_pos, alpha_neg))
}

/// The argument of the hyperbolic tangent of the drag blend.
pub fn drag_blend_argument(
    alpha: Binary64,
    alpha_pos: Binary64,
    alpha_neg: Binary64,
) -> (r: Binary64)
    ensures
        r == drag_blend_at(alpha, alpha_pos, alpha_neg),
{
    num(D6).times(stall_excess(alpha, alpha_pos, alpha_neg))
}

/// The lift coefficient: linear up to the stall angles, blended into that of a
/// flat plate beyond.
pub open spec fn stalled_lift(
    air: AirAngles,
    cl_linear: Binary64,
    config: AircraftConfig,
    alpha_pos: Binary64,
    alpha_neg: Binary64,
) -> Binary64 {
    let blend = num(D1).sum(air.lift_tanh).product(num(D0_5));
    if alpha_neg.not_above(air.alpha) && air.alpha.not_above(alpha_pos) {
        cl_linear
    } else if alpha_pos.below(air.alpha) {
        let peak = config.cl0.sum(config.cla.product(alpha_pos));
        let separated = config.cd_max.product(num(D0_5)).product(air.sin_two_alpha).sum(
            num(D0_1).product(air.cos_alpha.product(air.cos_alpha)).quotient(
                air.sin_alpha.larger(num(D0_01)),
            ),
        );
        num(D1).difference(blend).product(peak).sum(blend.product(separated))
    } else {
        let peak = config.cl0.sum(config.cla.product(alpha_neg));
        let separated = config.cd_max.product(num(D0_5)).product(air.sin_two_alpha);
        num(D1).difference(blend).product(peak).sum(blend.product(separated))
    }
}

/// The lift coefficient: linear up to the stall angles, blended into that of a
/// flat plate beyond.
pub fn compute_viterna_lift(
    air: AirAngles,
    cl_linear: Binary64,
    config: &AircraftConfig,
    alpha_pos: Binary64,
    alpha_neg: Binary64,
) -> (r: Binary64)
    ensures
        r == stalled_lift(air, cl_linear, *config, alpha_pos, alpha_neg),
{
    let blend: Binary64 = num(D1).plus(air.lift_tanh).times(num(D0_5));
    if air.alpha.ge(alpha_neg) && air.alpha.le(alpha_pos) {
        cl_linear
    } else if air.alpha.gt(alpha_pos) {
        let peak: Binary64 = config.cl0.plus(config.cla.times(alpha_pos));
        let separated: Binary64 = config.cd_max.times(num(D0_5)).times(air.sin_two_alpha).plus(
            num(D0_1).times(air.cos_alpha.times(air.cos_alpha)).over(
                air.sin_alpha.max(num(D0_01)),
            ),
        );
        num(D1).minus(blend).times(peak).plus(blend.times(separated))
    } else {
        let peak: Binary64 = config.cl0.plus(config.cla.times(alpha_neg));
        let separated: Binary64 = config.cd_max.times(num(D0_5)).times(air.sin_two_alpha);
        num(D1).minus(blend).times(peak).plus(blend.times(separated))
    }
}

/// The drag coefficient: the given one up to the stall angles, blended into
/// that of a flat plate beyond.
pub open spec fn stalled_drag(
    air: AirAngles,
    cd_attached: Binary64,
    config: AircraftConfig,
    alpha_pos: Binary64,
    alpha_neg: Binary64,
) -> Binary64 {
    let blend = num(D1).sum(air.drag_tanh).product(num(D0_5));
    if alpha_neg.not_above(air.alpha) && air.alpha.not_above(alpha_pos) {
        cd_attached
    } else {
        let plate = config.cd_max.product(air.sin_alpha.product(air.sin_alpha)).sum(
            config.cd0.product(air.cos_alpha.absolute()),
        );
        num(D1).difference(blend).product(cd_attached).sum(blend.product(plate))
    }
}

/// The drag coefficient: the given one up to the stall angles, blended into
/// that of a flat plate beyond.
pub fn compute_viterna_drag(
    air: AirAngles,
    cd_attached: Binary64,
    config: &AircraftConfig,
    alpha_pos: Binary64,
    alpha_neg: Binary64,
) -> (r: Binary64)
    ensures
        r == stalled_drag(air, cd_attached, *config, alpha_pos, alpha_neg),
{
    let blend: Binary64 = num(D1).plus(air.drag_tanh).times(num(D0_5));
    if air.alpha.ge(alpha_neg) && air.alpha.le(alpha_pos) {
        cd_attached
    } else {
        let plate: Binary64 = config.cd_max.times(air.sin_alpha.times(air.sin_alpha)).plus(
            config.cd0.times(air.cos_alpha.abs()),
        );
        num(D1).minus(blend).times(cd_attached).plus(blend.times(plate))
    }
}

/// Ordinates and abscissas of the angle of attack and of the sideslip angle.
pub open spec fn angle_terms(v_air: Vec3) -> ((Binary64, Binary64), (Binary64, Binary64)) {
    ((v_air.z, v_air.x), (v_air.y, v_air.x.larger(num(D1EM6))))
}

/// Ordinates and abscissas of the angle of attack and of the sideslip angle.
pub fn air_angle_terms(v_air: Vec3) -> (r: ((Binary64, Binary64), (Binary64, Binary64)))
    ensures
        r == angle_terms(v_air),
{
    ((v_air.z, v_air.x), (v_air.y, v_air.x.max(num(D1EM6))))
}

/// Lift without ground effect, as a coefficient.
pub open spec fn lift_coefficient(
    config: AircraftConfig,
    controls: ControlInputs,
    mach: Binary64,
    air: AirAngles,
) -> Binary64 {
    let linear = config.cl0.sum(config.cla.quotient(crate::state::compressibility(mach)).product(air.alpha)).sum(
        config.cl_flap.product(flap_within(controls)),
    );
    stalled_lift(
        air,
        linear,
        config,
        stall_with_flap(config, controls),
        config.alpha_stall_neg,
    )
}

/// Lift without ground effect, as a coefficient.
pub fn clean_lift(
    config: &AircraftConfig,
    controls: ControlInputs,
    mach: Binary64,
    air: AirAngles,
) -> (r: Binary64)
    ensures
        r == lift_coefficient(*config, controls, mach, air),
{
    let linear: Binary64 = config.cl0.plus(config.cla.over(compressibility_factor(mach)).times(air.alpha)).plus(
        config.cl_flap.times(flap_of(controls)),
    );
    compute_viterna_lift(
        air,
        linear,
        config,
        stall_angle(config, controls),
        config.alpha_stall_neg,
    )
}

/// Drag as a coefficient, where `cl` is the lift without ground effect and
/// `induced` the factor of ground effect on induced drag.
pub open spec fn drag_coefficient(
    config: AircraftConfig,
    controls: ControlInputs,
    mach: Binary64,
    air: AirAngles,
    cl: Binary64,
    induced: Binary64,
) -> Binary64 {
    let flap = flap_within(controls);
    let cd_induced = config.induced_factor().product(cl).product(cl).product(induced);
    let base = stalled_drag(
        air,
        config.cd0.sum(cd_induced),
        config,
        stall_with_flap(config, controls),
        config.alpha_stall_neg,
    );
    let dm = mach.difference(config.mach_crit);
    let wave = if config.mach_crit.below(mach) {
        num(D20).product(dm.product(dm).product(dm.product(dm)))
    } else {
        num(D0)
    };
    base.sum(wave).sum(config.cd_flap.product(flap).product(flap.absolute()))
}

/// Drag as a coefficient, where `cl` is the lift without ground effect and
/// `induced` the factor of ground effect on induced drag.
pub fn total_drag(
    config: &AircraftConfig,
    controls: ControlInputs,
    mach: Binary64,
    air: AirAngles,
    cl: Binary64,
    induced: Binary64,
) -> (r: Binary64)
    ensures
        r == drag_coefficient(*config, controls, mach, air, cl, induced),
{
    let flap: Binary64 = flap_of(controls);
    let cd_induced: Binary64 = config.induced_drag_k().times(cl).times(cl).times(induced);
    let base: Binary64 = compute_viterna_drag(
        air,
        config.cd0.plus(cd_induced),
        config,
        stall_angle(config, controls),
        config.alpha_stall_neg,
    );
    let dm: Binary64 = mach.minus(config.mach_crit);
    let wave: Binary64 = if mach.gt(config.mach_crit) {
        num(D20).times(dm.times(dm).times(dm.times(dm)))
    } else {
        num(D0)
    };
    base.plus(wave).plus(config.cd_flap.times(flap).times(flap.abs()))
}

/// The factors of lift and induced drag: those of ground effect, or ones without ground.
pub open spec fn factors_over(
    config: AircraftConfig,
    agl: Option<Binary64>,
) -> (Binary64, Binary64) {
    match agl {
        Some(h) => ground_factors(h, config.wing_span),
        None => (num(D1), num(D1)),
    }
}

/// The factors of lift and induced drag: those of ground effect, or ones
/// without ground.
pub fn surface_factors(
    config: &AircraftConfig,
    agl: Option<Binary64>,
) -> (r: (Binary64, Binary64))
    ensures
        r == factors_over(*config, agl),
{
    match agl {
        Some(h) => ground_effect_factors(h, config.wing_span),
        None => (num(D1), num(D1)),
    }
}

/// The density relative to sea level, within the range that thrust follows.
pub open spec fn thrust_density_of(atm: Atmosphere) -> Binary64 {
    atm.density_ratio.clamped(num(D0_1), num(D1_2))
}

/// The density relative to sea level, within the range that thrust follows.
pub fn thrust_density(atm: &Atmosphere) -> (r: Binary64)
    ensures
        r == thrust_density_of(*atm),
{
    atm.density_ratio.clamp(num(D0_1), num(D1_2))
}

/// Lift, drag and side force in body axes.
pub open spec fn air_force(
    config: AircraftConfig,
    controls: ControlInputs,
    atm: Atmosphere,
    v_tas: Binary64,
    air: AirAngles,
    agl: Option<Binary64>,
) -> Vec3 {
    let q_dyn = atm.ram(v_tas);
    let mach = atm.mach(v_tas);
    let clean = lift_coefficient(config, controls, mach, air);
    let factors = factors_over(config, agl);
    let cd = drag_coefficient(config, controls, mach, air, clean, factors.1);
    let lift = q_dyn.product(config.wing_area).product(clean.product(factors.0));
    let drag = q_dyn.product(config.wing_area).product(cd);
    let cy = config.cy_beta.product(air.beta).sum(config.cy_dr.product(controls.rudder));
    Vec3 {
        x: drag.negated().product(air.cos_alpha).product(air.cos_beta).sum(
            lift.product(air.sin_alpha),
        ),
        y: q_dyn.product(config.wing_area).product(cy),
        z: lift.negated().product(air.cos_alpha).difference(
            drag.product(air.sin_alpha).product(air.cos_beta),
        ),
    }
}

/// Lift, drag and side force in body axes.
pub fn aerodynamic_force(
    config: &AircraftConfig,
    controls: ControlInputs,
    atm: &Atmosphere,
    v_tas: Binary64,
    air: AirAngles,
    agl: Option<Binary64>,
) -> (r: Vec3)
    ensures
        r == air_force(*config, controls, *atm, v_tas, air, agl),
{
    let q_dyn: Binary64 = atm.dynamic_pressure(v_tas);
    let mach: Binary64 = atm.mach_number(v_tas);
    let clean: Binary64 = clean_lift(config, controls, mach, air);
    let factors: (Binary64, Binary64) = surface_factors(config, agl);
    let cd: Binary64 = total_drag(config, controls, mach, air, clean, factors.1);
    let lift: Binary64 = q_dyn.times(config.wing_area).times(clean.times(factors.0));
    let drag: Binary64 = q_dyn.times(config.wing_area).times(cd);
    let cy: Binary64 = config.cy_beta.times(air.beta).plus(config.cy_dr.times(controls.rudder));
    Vec3 {
        x: drag.neg().times(air.cos_alpha).times(air.cos_beta).plus(lift.times(air.sin_alpha)),
        y: q_dyn.times(config.wing_area).times(cy),
        z: lift.neg().times(air.cos_alpha).minus(drag.times(air.sin_alpha).times(air.cos_beta)),
    }
}

/// The weight in body axes.
pub open spec fn weight_of(state: AircraftState, config: AircraftConfig) -> Vec3 {
    state.attitude().rotated(
        Vec3 { x: num(D0), y: num(D0), z: config.mass.product(num(D9_80665)) },
    )
}

/// The weight in body axes.
pub fn weight_in_body(state: &AircraftState, config: &AircraftConfig) -> (r: Vec3)
    ensures
        r == weight_of(*state, *config),
{
    state.rotation_earth_to_body().transform_vector(
        Vec3 { x: num(D0), y: num(D0), z: config.mass.times(num(D9_80665)) },
    )
}

/// The force on the aircraft in body axes: air, engines and weight.
pub open spec fn forces_over(
    state: AircraftState,
    config: AircraftConfig,
    controls: ControlInputs,
    wind_earth: Vec3,
    atm: Atmosphere,
    air: AirAngles,
    agl: Option<Binary64>,
) -> Vec3 {
    let v_tas = state.relative_velocity(wind_earth).length();
    let engines = engine_load(
        EngineFlowInputs {
            throttle: controls.throttle.clamped(num(D0), num(D1)),
            v_tas,
            density_factor: thrust_density_of(atm),
            alpha: air.alpha,
            q: state.q,
            r: state.r,
            pitch_sense: num(D1),
        },
        config,
    );
    air_force(config, controls, atm, v_tas, air, agl).sum(engines.force).sum(
        weight_of(state, config),
    )
}

/// The force on the aircraft in body axes: air, engines and weight. `agl` is
/// the height above ground where there is ground below. `air` are the angles
/// of the velocity relative to the air.
pub fn compute_forces_with_terrain(
    state: &AircraftState,
    config: &AircraftConfig,
    controls: ControlInputs,
    wind_earth: Vec3,
    atm: &Atmosphere,
    air: AirAngles,
    agl: Option<Binary64>,
) -> (r: Vec3)
    ensures
        r == forces_over(*state, *config, controls, wind_earth, *atm, air, agl),
{
    let v_tas: Binary64 = state.air_velocity(wind_earth).norm();
    let engines: Load = engine_forces_moments(
        EngineFlowInputs {
            throttle: controls.throttle.clamp(num(D0), num(D1)),
            v_tas,
            density_factor: thrust_density(atm),
            alpha: air.alpha,
            q: state.q,
            r: state.r,
            pitch_sense: num(D1),
        },
        config,
    );
    aerodynamic_force(config, controls, atm, v_tas, air, agl).plus(engines.force).plus(
        weight_in_body(state, config),
    )
}

/// The force on the aircraft away from the ground.
pub open spec fn forces(
    state: AircraftState,
    config: AircraftConfig,
    controls: ControlInputs,
    wind_earth: Vec3,
    atm: Atmosphere,
    air: AirAngles,
) -> Vec3 {
    forces_over(state, config, controls, wind_earth, atm, air, None)
}

/// The force on the aircraft away from the ground.
pub fn compute_forces(
    state: &AircraftState,
    config: &AircraftConfig,
    controls: ControlInputs,
    wind_earth: Vec3,
    atm: &Atmosphere,
    air: AirAngles,
) -> (r: Vec3)
    ensures
        r == forces(*state, *config, controls, wind_earth, *atm, air),
{
    compute_forces_with_terrain(state, config, controls, wind_earth, atm, air, None)
}

/// Rates relative to the air: zero without airspeed.
pub open spec fn relative_rates(
    state: AircraftState,
    config: AircraftConfig,
    v_tas: Binary64,
    alpha_dot: Binary64,
) -> Rates {
    if num(D1EM6).below(v_tas) {
        Rates {
            p: state.p.product(config.wing_span).quotient(num(D2).product(v_tas)),
            q: state.q.product(config.chord).quotient(num(D2).product(v_tas)),
            r: state.r.product(config.wing_span).quotient(num(D2).product(v_tas)),
            alpha_dot: alpha_dot.product(config.chord).quotient(num(D2).product(v_tas)),
        }
    } else {
        Rates { p: num(D0), q: num(D0), r: num(D0), alpha_dot: num(D0) }
    }
}

/// Rates relative to the air: zero without airspeed.
pub fn dimensionless_rates(
    state: &AircraftState,
    config: &AircraftConfig,
    v_tas: Binary64,
    alpha_dot: Binary64,
) -> (r: Rates)
    ensures
        r == relative_rates(*state, *config, v_tas, alpha_dot),
{
    if v_tas.gt(num(D1EM6)) {
        Rates {
            p: state.p.times(config.wing_span).over(num(D2).times(v_tas)),
            q: state.q.times(config.chord).over(num(D2).times(v_tas)),
            r: state.r.times(config.wing_span).over(num(D2).times(v_tas)),
            alpha_dot: alpha_dot.times(config.chord).over(num(D2).times(v_tas)),
        }
    } else {
        Rates { p: num(D0), q: num(D0), r: num(D0), alpha_dot: num(D0) }
    }
}

/// The moment that pushes a stalled wing back, limited in its arm.
pub open spec fn pitch_break(
    config: AircraftConfig,
    alpha: Binary64,
    alpha_stall_pos: Binary64,
) -> Binary64 {
    if alpha_stall_pos.below(alpha) {
        num(M0_45).product(alpha.difference(alpha_stall_pos).smaller(num(D0_4)))
    } else if alpha.below(config.alpha_stall_neg) {
        num(D0_45).product(config.alpha_stall_neg.difference(alpha).smaller(num(D0_4)))
    } else {
        num(D0)
    }
}

/// The moment that pushes a stalled wing back, limited in its arm.
pub fn pitch_break_moment(
    config: &AircraftConfig,
    alpha: Binary64,
    alpha_stall_pos: Binary64,
) -> (r: Binary64)
    ensures
        r == pitch_break(*config, alpha, alpha_stall_pos),
{
    if alpha.gt(alpha_stall_pos) {
        num(M0_45).times(alpha.minus(alpha_stall_pos).min(num(D0_4)))
    } else if alpha.lt(config.alpha_stall_neg) {
        num(D0_45).times(config.alpha_stall_neg.minus(alpha).min(num(D0_4)))
    } else {
        num(D0)
    }
}

/// The nose-down moment of a steep bank: none up to 35 degrees, all of it at 90.
pub open spec fn nose_drop(config: AircraftConfig, sin_bank: Binary64) -> Binary64 {
    let engage = sin_bank.absolute().difference(num(D0_574)).quotient(num(D1).difference(num(D0_574))).clamped(
        num(D0),
        num(D1),
    );
    config.spiral_nose_drop_cm.negated().product(engage).product(engage)
}

/// The nose-down moment of a steep bank: none up to 35 degrees, all of it at
/// 90.
pub fn spiral_nose_drop(config: &AircraftConfig, sin_bank: Binary64) -> (r: Binary64)
    ensures
        r == nose_drop(*config, sin_bank),
{
    let engage: Binary64 = sin_bank.abs().minus(num(D0_574)).over(num(D1).minus(num(D0_574))).clamp(num(D0), num(D1));
    config.spiral_nose_drop_cm.neg().times(engage).times(engage)
}

/// The argument of the hyperbolic tangent that gives the sense of pitch:
/// positive upright, negative inverted.
pub open spec fn pitch_sense_at(state: AircraftState) -> Binary64 {
    num(D8).product(state.axes().down.z)
}

/// The argument of the hyperbolic tangent that gives the sense of pitch:
/// positive upright, negative inverted.
pub fn pitch_sense_argument(state: &AircraftState) -> (r: Binary64)
    ensures
        r == pitch_sense_at(*state),
{
    num(D8).times(state.body_axes_in_earth().down.z)
}

/// The pitching moment coefficient of an upright aircraft without the moment of
/// a steep bank.
pub open spec fn upright_pitch_of(
    config: AircraftConfig,
    controls: ControlInputs,
    rates: Rates,
    alpha: Binary64,
    agl: Option<Binary64>,
) -> Binary64 {
    let ground = match agl {
        Some(h) => ground_share(h, config.wing_span),
        None => num(D0),
    };
    config.cm0.sum(config.cma.product(alpha)).sum(config.cmq.product(rates.q)).sum(
        config.cm_adot.product(rates.alpha_dot),
    ).sum(config.cme.product(controls.elevator)).sum(
        config.cm_flap.product(flap_within(controls)),
    ).sum(pitch_break(config, alpha, stall_with_flap(config, controls))).sum(
        num(M0_015).product(ground),
    )
}

/// The pitching moment coefficient.
pub open spec fn pitch_coefficient_of(
    state: AircraftState,
    config: AircraftConfig,
    controls: ControlInputs,
    rates: Rates,
    alpha: Binary64,
    attitude: AttitudeFactors,
    agl: Option<Binary64>,
) -> Binary64 {
    let core = upright_pitch_of(config, controls, rates, alpha, agl);
    let spiral_sense = if num(D0).not_above(state.axes().down.z) {
        num(D1)
    } else {
        num(M1)
    };
    core.product(attitude.pitch_sense).sum(
        nose_drop(config, attitude.sin_bank).product(spiral_sense),
    )
}

/// The pitching moment coefficient.
pub fn pitch_coefficient(
    state: &AircraftState,
    config: &AircraftConfig,
    controls: ControlInputs,
    rates: Rates,
    alpha: Binary64,
    attitude: AttitudeFactors,
    agl: Option<Binary64>,
) -> (r: Binary64)
    ensures
        r == pitch_coefficient_of(*state, *config, controls, rates, alpha, attitude, agl),
{
    let ground: Binary64 = match agl {
        Some(h) => ground_effect_factor(h, config.wing_span),
        None => num(D0),
    };
    let core: Binary64 = config.cm0.plus(config.cma.times(alpha)).plus(config.cmq.times(rates.q)).plus(
        config.cm_adot.times(rates.alpha_dot),
    ).plus(config.cme.times(controls.elevator)).plus(
        config.cm_flap.times(flap_of(controls)),
    ).plus(pitch_break_moment(config, alpha, stall_angle(config, controls))).plus(
        num(M0_015).times(ground),
    );
    let spiral_sense: Binary64 = if state.body_axes_in_earth().down.z.ge(num(D0)) {
        num(D1)
    } else {
        num(M1)
    };
    core.times(attitude.pitch_sense).plus(
        spiral_nose_drop(config, attitude.sin_bank).times(spiral_sense),
    )
}

/// The rolling moment coefficient.
pub open spec fn roll_coefficient_of(
    config: AircraftConfig,
    controls: ControlInputs,
    rates: Rates,
    beta: Binary64,
) -> Binary64 {
    config.cl_beta.product(beta).sum(config.cl_p.product(rates.p)).sum(
        config.cl_r.product(rates.r),
    ).sum(config.cl_da.product(controls.aileron)).sum(config.cl_dr.product(controls.rudder))
}

/// The rolling moment coefficient.
pub fn roll_coefficient(
    config: &AircraftConfig,
    controls: ControlInputs,
    rates: Rates,
    beta: Binary64,
) -> (r: Binary64)
    ensures
        r == roll_coefficient_of(*config, controls, rates, beta),
{
    config.cl_beta.times(beta).plus(config.cl_p.times(rates.p)).plus(config.cl_r.times(rates.r)).plus(
        config.cl_da.times(controls.aileron),
    ).plus(config.cl_dr.times(controls.rudder))
}

/// The yawing moment coefficient.
pub open spec fn yaw_coefficient_of(
    config: AircraftConfig,
    controls: ControlInputs,
    rates: Rates,
    beta: Binary64,
) -> Binary64 {
    config.cn_beta.product(beta).sum(config.cn_p.product(rates.p)).sum(
        config.cn_r.product(rates.r),
    ).sum(config.cn_da.product(controls.aileron)).sum(config.cn_dr.product(controls.rudder))
}

/// The yawing moment coefficient.
pub fn yaw_coefficient(
    config: &AircraftConfig,
    controls: ControlInputs,
    rates: Rates,
    beta: Binary64,
) -> (r: Binary64)
    ensures
        r == yaw_coefficient_of(*config, controls, rates, beta),
{
    config.cn_beta.times(beta).plus(config.cn_p.times(rates.p)).plus(config.cn_r.times(rates.r)).plus(
        config.cn_da.times(controls.aileron),
    ).plus(config.cn_dr.times(controls.rudder))
}

/// The moment on the aircraft in body axes: air and engines.
pub open spec fn moments_over(
    state: AircraftState,
    config: AircraftConfig,
    controls: ControlInputs,
    alpha_dot: Binary64,
    wind_earth: Vec3,
    atm: Atmosphere,
    air: AirAngles,
    attitude: AttitudeFactors,
    agl: Option<Binary64>,
) -> Vec3 {
    let v_tas = state.relative_velocity(wind_earth).length();
    let q_dyn = atm.ram(v_tas);
    let rates = relative_rates(state, config, v_tas, alpha_dot);
    let cm = pitch_coefficient_of(state, config, controls, rates, air.alpha, attitude, agl);
    let engines = engine_load(
        EngineFlowInputs {
            throttle: controls.throttle.clamped(num(D0), num(D1)),
            v_tas,
            density_factor: thrust_density_of(atm),
            alpha: air.alpha,
            q: state.q,
            r: state.r,
            pitch_sense: attitude.pitch_sense,
        },
        config,
    );
    (Vec3 {
        x: q_dyn.product(config.wing_area).product(config.wing_span).product(
            roll_coefficient_of(config, controls, rates, air.beta),
        ),
        y: q_dyn.product(config.wing_area).product(config.chord).product(cm),
        z: q_dyn.product(config.wing_area).product(config.wing_span).product(
            yaw_coefficient_of(config, controls, rates, air.beta),
        ),
    }).sum(engines.moment)
}

/// The moment on the aircraft in body axes: air and engines.
pub fn compute_moments_with_terrain(
    state: &AircraftState,
    config: &AircraftConfig,
    controls: ControlInputs,
    alpha_dot: Binary64,
    wind_earth: Vec3,
    atm: &Atmosphere,
    air: AirAngles,
    attitude: AttitudeFactors,
    agl: Option<Binary64>,
) -> (r: Vec3)
    ensures
        r == moments_over(*state, *config, controls, alpha_dot, wind_earth, *atm, air, attitude, agl),
{
    let v_tas: Binary64 = state.air_velocity(wind_earth).norm();
    let q_dyn: Binary64 = atm.dynamic_pressure(v_tas);
    let rates: Rates = dimensionless_rates(state, config, v_tas, alpha_dot);
    let cm: Binary64 = pitch_coefficient(state, config, controls, rates, air.alpha, attitude, agl);
    let engines: Load = engine_forces_moments(
        EngineFlowInputs {
            throttle: controls.throttle.clamp(num(D0), num(D1)),
            v_tas,
            density_factor: thrust_density(atm),
            alpha: air.alpha,
            q: state.q,
            r: state.r,
            pitch_sense: attitude.pitch_sense,
        },
        config,
    );
    (Vec3 {
        x: q_dyn.times(config.wing_area).times(config.wing_span).times(
            roll_coefficient(config, controls, rates, air.beta),
        ),
        y: q_dyn.times(config.wing_area).times(config.chord).times(cm),
        z: q_dyn.times(config.wing_area).times(config.wing_span).times(
            yaw_coefficient(config, controls, rates, air.beta),
        ),
    }).plus(engines.moment)
}

/// The moment on the aircraft away from the ground.
pub open spec fn moments(
    state: AircraftState,
    config: AircraftConfig,
    controls: ControlInputs,
    alpha_dot: Binary64,
    wind_earth: Vec3,
    atm: Atmosphere,
    air: AirAngles,
    attitude: AttitudeFactors,
) -> Vec3 {
    moments_over(state, config, controls, alpha_dot, wind_earth, atm, air, attitude, None)
}

/// The moment on the aircraft away from the ground.
pub fn compute_moments(
    state: &AircraftState,
    config: &AircraftConfig,
    controls: ControlInputs,
    alpha_dot: Binary64,
    wind_earth: Vec3,
    atm: &Atmosphere,
    air: AirAngles,
    attitude: AttitudeFactors,
) -> (r: Vec3)
    ensures
        r == moments(*state, *config, controls, alpha_dot, wind_earth, *atm, air, attitude),
{
    compute_moments_with_terrain(
        state,
        config,
        controls,
        alpha_dot,
        wind_earth,
        atm,
        air,
        attitude,
        None,
    )
}

/// Force and moment away from the ground.
pub open spec fn load(
    state: AircraftState,
    config: AircraftConfig,
    controls: ControlInputs,
    alpha_dot: Binary64,
    wind_earth: Vec3,
    atm: Atmosphere,
    air: AirAngles,
    attitude: AttitudeFactors,
) -> Load {
    Load {
        force: forces(state, config, controls, wind_earth, atm, air),
        moment: moments(state, config, controls, alpha_dot, wind_earth, atm, air, attitude),
    }
}

/// Force and moment away from the ground.
pub fn compute_forces_moments(
    state: &AircraftState,
    config: &AircraftConfig,
    controls: ControlInputs,
    alpha_dot: Binary64,
    wind_earth: Vec3,
    atm: &Atmosphere,
    air: AirAngles,
    attitude: AttitudeFactors,
) -> (r: Load)
    ensures
        r == load(*state, *config, controls, alpha_dot, wind_earth, *atm, air, attitude),
{
    Load {
        force: compute_forces(state, config, controls, wind_earth, atm, air),
        moment: compute_moments(state, config, controls, alpha_dot, wind_earth, atm, air, attitude),
    }
}

/// Ground effect is a share: at most all of it, never negative.
pub proof fn ground_effect_is_a_share(altitude: Binary64, wing_span: Binary64)
    requires
        !(altitude.rank() == wing_span.rank() && altitude.infinite() && !altitude.negative()),
    ensures
        crate::rounding::is_fraction(ground_share(altitude, wing_span)),
{
    let h = altitude.larger(num(D0));
    let b = wing_span.larger(num(D1EM6));
    let ratio = h.quotient(b);
    let x = num(D4).product(ratio);
    if h.finite() {
        crate::rounding::quotients_are_numbers(h, b);
    }
    if ratio.finite() {
        crate::rounding::products_are_numbers(num(D4), ratio);
    }
    crate::rounding::products_keep_signs(num(D4), ratio);
    if x.finite() {
        crate::rounding::products_are_numbers(x, x);
    }
    crate::rounding::products_keep_signs(x, x);
    crate::rounding::sums_grow(num(D1), x.product(x));
    crate::rounding::reciprocals_of_large_numbers(num(D1).sum(x.product(x)));
}

/// Without ground below, ground effect changes nothing.
pub proof fn no_ground_no_effect(config: AircraftConfig)
    ensures
        factors_over(config, None) == (num(D1), num(D1)),
{
}

/// A single engine has no asymmetry: its moment is that of the thrust line
/// alone.
pub proof fn single_engines_do_not_yaw(eng: EngineFlowInputs, config: AircraftConfig)
    requires
        config.engine_count != 2,
    ensures
        engine_load(eng, config).moment.x == num(D0),
        engine_load(eng, config).moment.z == num(D0),
{
}

/// Without a split the engines of a twin give the same thrust.
pub proof fn twins_are_even_without_a_split(
    config: AircraftConfig,
    throttle: Binary64,
    v_tas: Binary64,
    density: Binary64,
)
    requires
        config.engine_count == 2,
    ensures
        thrusts(config, throttle, num(D0), v_tas, density).left == thrusts(
            config,
            throttle,
            num(D0),
            v_tas,
            density,
        ).right,
{
    crate::rounding::zero_is_neutral(num(D1));
}

/// At a full split one engine of a twin is shut down and gives no thrust: the
/// right one at plus one, the left one at minus one.
pub proof fn shut_engines_give_no_thrust(
    config: AircraftConfig,
    throttle: Binary64,
    v_tas: Binary64,
    density: Binary64,
)
    requires
        config.engine_count == 2,
        throttle.finite(),
        config.thrust_max.product(num(D0_5)).finite(),
        config.power_max.product(num(D0_5)).finite(),
        density.finite(),
    ensures
        thrusts(config, throttle, num(D1), v_tas, density).right.zero(),
        thrusts(config, throttle, num(M1), v_tas, density).left.zero(),
{
    let one = num(D1);
    crate::rounding::differences_cancel(one);
    assert(num(M1) == one.negated());
    assert(one.sum(num(M1)) == one.difference(one));
}

/// The split is taken within its range: beyond a full split nothing changes.
pub proof fn splits_saturate(
    config: AircraftConfig,
    throttle: Binary64,
    split: Binary64,
    v_tas: Binary64,
    density: Binary64,
)
    requires
        num(D1).not_above(split),
    ensures
        thrusts(config, throttle, split, v_tas, density) == thrusts(
            config,
            throttle,
            num(D1),
            v_tas,
            density,
        ),
{
}

/// Between the stall angles lift and drag are those of attached flow.
pub proof fn attached_flow_is_linear(
    air: AirAngles,
    c: Binary64,
    config: AircraftConfig,
    pos: Binary64,
    neg: Binary64,
)
    requires
        neg.not_above(air.alpha),
        air.alpha.not_above(pos),
    ensures
        stalled_lift(air, c, config, pos, neg) == c,
        stalled_drag(air, c, config, pos, neg) == c,
{
}

/// The flap never raises the stall angle, where the shift is not negative.
pub proof fn flaps_lower_the_stall_angle(config: AircraftConfig, controls: ControlInputs)
    requires
        config.alpha_stall_pos.finite() && num(D0).not_above(config.alpha_stall_pos),
        config.flap_stall_shift.finite() && num(D0).not_above(config.flap_stall_shift),
        !controls.flap.nan(),
    ensures
        stall_with_flap(config, controls).not_above(config.alpha_stall_pos),
{
    let f = flap_within(controls);
    crate::rounding::products_are_numbers(config.flap_stall_shift, f);
    crate::rounding::products_keep_signs(config.flap_stall_shift, f);
    crate::rounding::differences_shrink(
        config.alpha_stall_pos,
        config.flap_stall_shift.product(f),
    );
}

/// Adding, to the same, first what is smaller and then the same again does not
/// give more.
proof fn lemma_smaller_part(base: Binary64, a: Binary64, b: Binary64, c: Binary64, d: Binary64)
    requires
        a.not_above(b),
        base.sum(a).sum(c).sum(d).finite(),
        base.sum(b).sum(c).sum(d).finite(),
    ensures
        base.sum(a).sum(c).sum(d).not_above(base.sum(b).sum(c).sum(d)),
{
    crate::rounding::sums_commute(base, a);
    crate::rounding::sums_commute(base, b);
    crate::rounding::sums_keep_order(a, b, base);
    crate::rounding::sums_keep_order(base.sum(a), base.sum(b), c);
    crate::rounding::sums_keep_order(base.sum(a).sum(c), base.sum(b).sum(c), d);
}

/// Below the stall the flap does not raise the coefficient, where its own part
/// is not positive.
proof fn lemma_flap_part(
    config: AircraftConfig,
    controls: ControlInputs,
    rates: Rates,
    alpha: Binary64,
    agl: Option<Binary64>,
)
    requires
        config.cm_flap.finite() && config.cm_flap.not_above(num(D0)),
        !controls.flap.nan(),
        config.alpha_stall_neg.not_above(alpha),
        alpha.not_above(stall_with_flap(config, controls)),
        alpha.not_above(stall_with_flap(config, retracted(controls))),
        upright_pitch_of(config, controls, rates, alpha, agl).finite(),
        upright_pitch_of(config, retracted(controls), rates, alpha, agl).finite(),
    ensures
        upright_pitch_of(config, controls, rates, alpha, agl).not_above(
            upright_pitch_of(config, retracted(controls), rates, alpha, agl),
        ),
{
    let flap = flap_within(controls);
    let base = config.cm0.sum(config.cma.product(alpha)).sum(config.cmq.product(rates.q)).sum(
        config.cm_adot.product(rates.alpha_dot),
    ).sum(config.cme.product(controls.elevator));
    let ground = match agl {
        Some(h) => ground_share(h, config.wing_span),
        None => num(D0),
    };
    assert(num(D0).not_above(flap) && flap.not_above(num(D0_7)));
    assert(flap_within(retracted(controls)) == num(D0));
    crate::rounding::products_keep_order(config.cm_flap, num(D0), flap);
    assert(pitch_break(config, alpha, stall_with_flap(config, controls)) == num(D0));
    assert(pitch_break(config, alpha, stall_with_flap(config, retracted(controls))) == num(D0));
    lemma_smaller_part(
        base,
        config.cm_flap.product(flap),
        config.cm_flap.product(num(D0)),
        num(D0),
        num(M0_015).product(ground),
    );
}

/// The controls with the flap retracted.
pub open spec fn retracted(controls: ControlInputs) -> ControlInputs {
    ControlInputs { flap: num(D0), ..controls }
}

/// Extending the flap of an upright aircraft below the stall pushes its nose
/// down, or at least not up, where the flap's own coefficient is not positive,
/// and neither rolls nor yaws it.
pub proof fn flaps_push_the_nose_down(
    state: AircraftState,
    config: AircraftConfig,
    controls: ControlInputs,
    alpha_dot: Binary64,
    wind: Vec3,
    atm: Atmosphere,
    air: AirAngles,
    clean: AirAngles,
    attitude: AttitudeFactors,
    agl: Option<Binary64>,
)
    requires
        config.cm_flap.finite() && config.cm_flap.not_above(num(D0)),
        !controls.flap.nan(),
        air.alpha == clean.alpha,
        air.beta == clean.beta,
        config.alpha_stall_neg.not_above(air.alpha),
        air.alpha.not_above(stall_with_flap(config, controls)),
        air.alpha.not_above(stall_with_flap(config, retracted(controls))),
        attitude.pitch_sense.finite() && num(D0).not_above(attitude.pitch_sense),
        ({
            let v = state.relative_velocity(wind).length();
            let rates = relative_rates(state, config, v, alpha_dot);
            let scale = atm.ram(v).product(config.wing_area).product(config.chord);
            &&& scale.finite() && num(D0).not_above(scale)
            &&& pitch_coefficient_of(state, config, controls, rates, air.alpha, attitude, agl).finite()
            &&& pitch_coefficient_of(
                state,
                config,
                retracted(controls),
                rates,
                air.alpha,
                attitude,
                agl,
            ).finite()
        }),
        !moments_over(state, config, controls, alpha_dot, wind, atm, air, attitude, agl).y.nan(),
        !moments_over(
            state,
            config,
            retracted(controls),
            alpha_dot,
            wind,
            atm,
            clean,
            attitude,
            agl,
        ).y.nan(),
    ensures
        ({
            let a = moments_over(state, config, controls, alpha_dot, wind, atm, air, attitude, agl);
            let b = moments_over(
                state,
                config,
                retracted(controls),
                alpha_dot,
                wind,
                atm,
                clean,
                attitude,
                agl,
            );
            a.y.not_above(b.y) && a.x == b.x && a.z == b.z
        }),
{
    let v = state.relative_velocity(wind).length();
    let rates = relative_rates(state, config, v, alpha_dot);
    let scale = atm.ram(v).product(config.wing_area).product(config.chord);
    let p = upright_pitch_of(config, controls, rates, air.alpha, agl);
    let q = upright_pitch_of(config, retracted(controls), rates, air.alpha, agl);
    let sense = attitude.pitch_sense;
    let spiral = if num(D0).not_above(state.axes().down.z) {
        num(D1)
    } else {
        num(M1)
    };
    let drop = nose_drop(config, attitude.sin_bank).product(spiral);
    let engines = engine_load(
        EngineFlowInputs {
            throttle: controls.throttle.clamped(num(D0), num(D1)),
            v_tas: v,
            density_factor: thrust_density_of(atm),
            alpha: air.alpha,
            q: state.q,
            r: state.r,
            pitch_sense: sense,
        },
        config,
    ).moment.y;
    lemma_finite_parts(p, sense, drop);
    lemma_finite_parts(q, sense, drop);
    lemma_flap_part(config, controls, rates, air.alpha, agl);
    lemma_order_through(p, q, sense, drop, scale, engines);
}

proof fn lemma_finite_parts(p: Binary64, sense: Binary64, drop: Binary64)
    requires
        p.product(sense).sum(drop).finite(),
    ensures
        p.finite(),
        p.product(sense).finite(),
{
}

proof fn lemma_order_through(
    p: Binary64,
    q: Binary64,
    sense: Binary64,
    drop: Binary64,
    scale: Binary64,
    more: Binary64,
)
    requires
        p.finite(),
        q.finite(),
        p.not_above(q),
        sense.finite() && num(D0).not_above(sense),
        p.product(sense).sum(drop).finite(),
        q.product(sense).sum(drop).finite(),
        scale.finite() && num(D0).not_above(scale),
        !scale.product(p.product(sense).sum(drop)).sum(more).nan(),
        !scale.product(q.product(sense).sum(drop)).sum(more).nan(),
    ensures
        scale.product(p.product(sense).sum(drop)).sum(more).not_above(
            scale.product(q.product(sense).sum(drop)).sum(more),
        ),
{
    crate::rounding::factors_keep_order(sense, p, q);
    crate::rounding::sums_keep_order(p.product(sense), q.product(sense), drop);
    crate::rounding::factors_keep_order(
        scale,
        p.product(sense).sum(drop),
        q.product(sense).sum(drop),
    );
    crate::rounding::sums_keep_order(
        scale.product(p.product(sense).sum(drop)),
        scale.product(q.product(sense).sum(drop)),
        more,
    );
}

/// Whether a number has at most a given size.
pub open spec fn at_most(x: Binary64, limit: Binary64) -> bool {
    x.absolute().not_above(limit)
}

/// The sizes of the limits on the terms of the pitching moment.
proof fn lemma_limits_in_steps()
    ensures
        size(num(D1EM6)) >= 0x40_0000_0000_0000 * step(),
        size(num(D0_1)) >= 0x40_0000_0000_0000_0000 * step(),
        size(num(D1)) == 0x400_0000_0000_0000_0000 * step(),
        size(num(D100)) <= 0x2_0000_0000_0000_0000_0000 * step(),
        size(num(D1000)) <= 0x10_0000_0000_0000_0000_0000 * step(),
{
    vstd::arithmetic::power2::lemma2_to64();
    crate::separation::one_in_steps();
    crate::separation::exponents_in_steps(num(D1EM6), 2);
    crate::separation::exponents_in_steps(num(D0_1), 18);
    crate::separation::exponents_in_steps(num(D1), 22);
    crate::separation::exponents_in_steps(num(D100), 28);
    crate::separation::exponents_in_steps(num(D1000), 31);
    vstd::arithmetic::power2::lemma_pow2_adds(1022, 52);
    vstd::arithmetic::power2::lemma_pow2_adds(32, 20);
    assert(size(num(D1)) == 0x10_0000_0000_0000 * vstd::arithmetic::power2::pow2(1022));
    let p = vstd::arithmetic::power2::pow2(1022);
    let m = vstd::arithmetic::power2::pow2(52);
    assert(p * m == 0x10_0000_0000_0000 * p) by (nonlinear_arith)
        requires
            m == 0x10_0000_0000_0000,
    ;
}

/// A number of at most a given size has a value of at most that size.
proof fn lemma_size_within(x: Binary64, limit: Binary64)
    requires
        at_most(x, limit),
        limit.finite(),
    ensures
        x.finite(),
        size(x) <= size(limit),
{
    crate::rounding::ranks_order_as_values(x.absolute(), limit);
}

/// The flap's part keeps the coefficients apart: they differ by half of it at
/// least.
proof fn lemma_parts_apart(base: Binary64, part: Binary64, none: Binary64, ground: Binary64)
    requires
        base.finite() && part.finite() && none.finite() && ground.finite(),
        part.exact() <= -(0x40_0000_0000_0000 * step()),
        none.exact() == 0,
        size(base) <= 0x2_0000_0000_0000_0000_0000 * step(),
        size(part) <= 0x2_0000_0000_0000_0000_0000 * step(),
        size(ground) <= 0x2_0000_0000_0000_0000_0000 * step(),
        base.sum(part).sum(num(D0)).sum(ground).finite(),
        base.sum(none).sum(num(D0)).sum(ground).finite(),
    ensures
        ({
            let u = base.sum(part).sum(num(D0)).sum(ground);
            let v = base.sum(none).sum(num(D0)).sum(ground);
            &&& v.exact() - u.exact() >= 0x20_0000_0000_0000 * step()
            &&& size(u) <= 0x8_0000_0000_0000_0000_0000 * step()
            &&& size(v) <= 0x8_0000_0000_0000_0000_0000 * step()
        }),
{
    crate::separation::one_in_steps();
    let zero = num(D0);
    assert(zero.exact() == 0);
    let (a, b) = (base.sum(part), base.sum(none));
    let (c, d) = (a.sum(zero), b.sum(zero));
    let m = 0x2_0000_0000_0000_0000_0000 * step();
    crate::rounding::sums_commute(base, part);
    crate::rounding::sums_commute(base, none);
    crate::separation::sums_have_size(base, part, 2 * m);
    crate::separation::sums_have_size(base, none, 2 * m);
    crate::separation::sums_stay_apart(part, none, base, none.exact() - part.exact(), 3 * m);
    crate::separation::sums_have_size(a, zero, size(a));
    crate::separation::sums_have_size(b, zero, size(b));
    crate::separation::sums_stay_apart(a, b, zero, b.exact() - a.exact(), 3 * m);
    crate::separation::sums_have_size(c, ground, size(c) + m);
    crate::separation::sums_have_size(d, ground, size(d) + m);
    crate::separation::sums_stay_apart(c, d, ground, d.exact() - c.exact(), 4 * m);
}

/// The attitude and the moment of a bank keep the coefficients apart.
proof fn lemma_attitude_apart(u: Binary64, v: Binary64, sense: Binary64, drop: Binary64)
    requires
        u.finite() && v.finite() && sense.finite() && drop.finite(),
        v.exact() - u.exact() >= 0x20_0000_0000_0000 * step(),
        size(u) <= 0x8_0000_0000_0000_0000_0000 * step(),
        size(v) <= 0x8_0000_0000_0000_0000_0000 * step(),
        0x40_0000_0000_0000_0000 * step() <= sense.exact(),
        sense.exact() <= 0x400_0000_0000_0000_0000 * step(),
        size(drop) <= 0x2_0000_0000_0000_0000_0000 * step(),
        u.product(sense).sum(drop).finite(),
        v.product(sense).sum(drop).finite(),
    ensures
        ({
            let x = u.product(sense).sum(drop);
            let y = v.product(sense).sum(drop);
            &&& y.exact() - x.exact() >= 0x8000_0000_0000 * step()
            &&& size(x) <= 0x10_0000_0000_0000_0000_0000 * step()
            &&& size(y) <= 0x10_0000_0000_0000_0000_0000 * step()
        }),
{
    crate::separation::one_in_steps();
    let r = step();
    let one = vstd::arithmetic::power2::pow2(UNIT_EXPONENT as nat) as int;
    let least = 0x40_0000_0000_0000_0000 * r;
    let gap = 0x20_0000_0000_0000 * r;
    let most = 0x8_0000_0000_0000_0000_0000 * r;
    crate::rounding::products_commute(u, sense);
    crate::rounding::products_commute(v, sense);
    let (p, q) = (u.product(sense), v.product(sense));
    assert(size(u) * size(sense) <= most * one) by (nonlinear_arith)
        requires
            0 <= size(u) <= most,
            0 <= size(sense) <= one,
    ;
    assert(size(v) * size(sense) <= most * one) by (nonlinear_arith)
        requires
            0 <= size(v) <= most,
            0 <= size(sense) <= one,
    ;
    crate::separation::products_have_size(u, sense, most);
    crate::separation::products_have_size(v, sense, most);
    crate::separation::products_stay_apart(sense, u, v, least, gap, 2 * most);
    let half = 0x10_0000_0000_0000int;
    let apart = q.exact() - p.exact();
    assert(half * apart >= half * (0x2_0000_0000_0000 * r) - 2 * most - half)
        by (nonlinear_arith)
        requires
            half * one * apart >= half * (least * gap) - one * (2 * most + half),
            16 * least == one,
            gap == 16 * (0x2_0000_0000_0000 * r),
            one > 0,
    ;
    crate::separation::sums_have_size(p, drop, size(p) + size(drop));
    crate::separation::sums_have_size(q, drop, size(q) + size(drop));
    crate::separation::sums_stay_apart(
        p,
        q,
        drop,
        apart,
        0x10_0000_0000_0000_0000_0000 * r,
    );
}

/// The air and the engines keep the moments apart.
proof fn lemma_moments_apart(x: Binary64, y: Binary64, scale: Binary64, more: Binary64)
    requires
        x.finite() && y.finite() && scale.finite() && more.finite(),
        y.exact() - x.exact() >= 0x8000_0000_0000 * step(),
        size(x) <= 0x10_0000_0000_0000_0000_0000 * step(),
        size(y) <= 0x10_0000_0000_0000_0000_0000 * step(),
        0x40_0000_0000_0000 * step() <= scale.exact(),
        size(more) <= 1025 * scale.exact(),
        scale.product(x).sum(more).finite(),
        scale.product(y).sum(more).finite(),
    ensures
        scale.product(x).sum(more).below(scale.product(y).sum(more)),
{
    crate::separation::one_in_steps();
    let r = step();
    let one = vstd::arithmetic::power2::pow2(UNIT_EXPONENT as nat) as int;
    let w = scale.exact();
    let (p, q) = (scale.product(x), scale.product(y));
    let gap = 0x8000_0000_0000 * r;
    assert(size(scale) == w);
    assert(w * size(x) <= (1024 * w) * one) by (nonlinear_arith)
        requires
            0 <= size(x) <= 1024 * one,
            w >= 0,
    ;
    assert(w * size(y) <= (1024 * w) * one) by (nonlinear_arith)
        requires
            0 <= size(y) <= 1024 * one,
            w >= 0,
    ;
    crate::separation::products_have_size(scale, x, 1024 * w);
    crate::separation::products_have_size(scale, y, 1024 * w);
    crate::separation::products_stay_apart(scale, x, y, w, gap, 1025 * w);
    let half = 0x10_0000_0000_0000int;
    let apart = q.exact() - p.exact();
    assert(half * apart >= 0x200_0000 * w - 1025 * w - half) by (nonlinear_arith)
        requires
            half * one * apart >= half * (w * gap) - one * (1025 * w + half),
            0x800_0000 * gap == one,
            half == 0x10_0000_0000_0000,
            one > 0,
    ;
    crate::separation::sums_have_size(p, more, 2050 * w);
    crate::separation::sums_have_size(q, more, 2050 * w);
    crate::separation::sums_stay_apart(p, q, more, apart, 2051 * w);
    crate::rounding::ranks_order_as_values(p.sum(more), q.sum(more));
}

/// The pitching moment coefficient of what does not depend on flap, stall and
/// ground.
pub open spec fn clean_pitch_of(
    config: AircraftConfig,
    controls: ControlInputs,
    rates: Rates,
    alpha: Binary64,
) -> Binary64 {
    config.cm0.sum(config.cma.product(alpha)).sum(config.cmq.product(rates.q)).sum(
        config.cm_adot.product(rates.alpha_dot),
    ).sum(config.cme.product(controls.elevator))
}

/// Whether a flap tells: its part of the pitching moment coefficient is
/// negative by more than rounding can swallow. The part is a millionth at
/// least and no term is larger than a hundred; the aircraft is upright; and the
/// moment of the engines is at most a thousand times the scale of the
/// coefficients, which is a millionth at least.
pub open spec fn flap_tells(
    base: Binary64,
    part: Binary64,
    ground: Binary64,
    sense: Binary64,
    drop: Binary64,
    scale: Binary64,
    engines: Binary64,
) -> bool {
    &&& part.not_above(num(M1EM6))
    &&& at_most(base, num(D100)) && at_most(part, num(D100))
    &&& at_most(ground, num(D100)) && at_most(drop, num(D100))
    &&& num(D0_1).not_above(sense) && sense.not_above(num(D1))
    &&& num(D1EM6).not_above(scale) && scale.finite()
    &&& at_most(engines, num(D1000).product(scale)) && num(D1000).product(scale).finite()
}

proof fn lemma_finite_sums(a: Binary64, b: Binary64, c: Binary64, d: Binary64)
    requires
        a.sum(b).sum(c).sum(d).finite(),
    ensures
        a.finite() && b.finite() && c.finite() && d.finite(),
{
}

/// A flap that tells lowers the moment.
proof fn lemma_flap_lowers(
    base: Binary64,
    part: Binary64,
    none: Binary64,
    ground: Binary64,
    sense: Binary64,
    drop: Binary64,
    scale: Binary64,
    engines: Binary64,
)
    requires
        flap_tells(base, part, ground, sense, drop, scale, engines),
        none.zero(),
        ({
            let u = base.sum(part).sum(num(D0)).sum(ground);
            let v = base.sum(none).sum(num(D0)).sum(ground);
            &&& scale.product(u.product(sense).sum(drop)).sum(engines).finite()
            &&& scale.product(v.product(sense).sum(drop)).sum(engines).finite()
        }),
    ensures
        ({
            let u = base.sum(part).sum(num(D0)).sum(ground);
            let v = base.sum(none).sum(num(D0)).sum(ground);
            scale.product(u.product(sense).sum(drop)).sum(engines).below(
                scale.product(v.product(sense).sum(drop)).sum(engines),
            )
        }),
{
    lemma_limits_in_steps();
    let u = base.sum(part).sum(num(D0)).sum(ground);
    let v = base.sum(none).sum(num(D0)).sum(ground);
    let (x, y) = (u.product(sense).sum(drop), v.product(sense).sum(drop));
    lemma_finite_parts(u, sense, drop);
    lemma_finite_parts(v, sense, drop);
    lemma_size_within(base, num(D100));
    lemma_size_within(part, num(D100));
    lemma_size_within(ground, num(D100));
    lemma_size_within(drop, num(D100));
    lemma_size_within(engines, num(D1000).product(scale));
    crate::rounding::ranks_order_as_values(part, num(M1EM6));
    crate::rounding::ranks_order_as_values(num(D0_1), sense);
    crate::rounding::ranks_order_as_values(sense, num(D1));
    crate::rounding::ranks_order_as_values(num(D1EM6), scale);
    assert(num(M1EM6).exact() == -size(num(D1EM6)));
    assert(crate::binary64::magnitude_value(0) == 0);
    lemma_parts_apart(base, part, none, ground);
    lemma_attitude_apart(u, v, sense, drop);
    crate::separation::one_in_steps();
    let w = scale.exact();
    let one = vstd::arithmetic::power2::pow2(UNIT_EXPONENT as nat) as int;
    assert(size(num(D1000)) * w <= (1024 * w) * one) by (nonlinear_arith)
        requires
            0 <= size(num(D1000)) <= 1024 * one,
            w >= 0,
    ;
    crate::separation::products_have_size(num(D1000), scale, 1024 * w);
    lemma_moments_apart(x, y, scale, engines);
}

/// A flap that tells pushes the nose of an aircraft below the stall down, and
/// neither rolls nor yaws it.
pub proof fn flaps_that_tell_lower_the_nose(
    state: AircraftState,
    config: AircraftConfig,
    controls: ControlInputs,
    alpha_dot: Binary64,
    wind: Vec3,
    atm: Atmosphere,
    air: AirAngles,
    clean: AirAngles,
    attitude: AttitudeFactors,
    agl: Option<Binary64>,
)
    requires
        config.cm_flap.finite(),
        air.alpha == clean.alpha,
        air.beta == clean.beta,
        config.alpha_stall_neg.not_above(air.alpha),
        air.alpha.not_above(stall_with_flap(config, controls)),
        air.alpha.not_above(stall_with_flap(config, retracted(controls))),
        ({
            let v = state.relative_velocity(wind).length();
            let rates = relative_rates(state, config, v, alpha_dot);
            let spiral = if num(D0).not_above(state.axes().down.z) {
                num(D1)
            } else {
                num(M1)
            };
            let ground = match agl {
                Some(h) => ground_share(h, config.wing_span),
                None => num(D0),
            };
            flap_tells(
                clean_pitch_of(config, controls, rates, air.alpha),
                config.cm_flap.product(flap_within(controls)),
                num(M0_015).product(ground),
                attitude.pitch_sense,
                nose_drop(config, attitude.sin_bank).product(spiral),
                atm.ram(v).product(config.wing_area).product(config.chord),
                engine_load(
                    EngineFlowInputs {
                        throttle: controls.throttle.clamped(num(D0), num(D1)),
                        v_tas: v,
                        density_factor: thrust_density_of(atm),
                        alpha: air.alpha,
                        q: state.q,
                        r: state.r,
                        pitch_sense: attitude.pitch_sense,
                    },
                    config,
                ).moment.y,
            )
        }),
        moments_over(state, config, controls, alpha_dot, wind, atm, air, attitude, agl).y.finite(),
        moments_over(
            state,
            config,
            retracted(controls),
            alpha_dot,
            wind,
            atm,
            clean,
            attitude,
            agl,
        ).y.finite(),
    ensures
        ({
            let a = moments_over(state, config, controls, alpha_dot, wind, atm, air, attitude, agl);
            let b = moments_over(
                state,
                config,
                retracted(controls),
                alpha_dot,
                wind,
                atm,
                clean,
                attitude,
                agl,
            );
            a.y.below(b.y) && a.x == b.x && a.z == b.z
        }),
{
    let v = state.relative_velocity(wind).length();
    let rates = relative_rates(state, config, v, alpha_dot);
    let spiral = if num(D0).not_above(state.axes().down.z) {
        num(D1)
    } else {
        num(M1)
    };
    let ground = match agl {
        Some(h) => ground_share(h, config.wing_span),
        None => num(D0),
    };
    let engines = engine_load(
        EngineFlowInputs {
            throttle: controls.throttle.clamped(num(D0), num(D1)),
            v_tas: v,
            density_factor: thrust_density_of(atm),
            alpha: air.alpha,
            q: state.q,
            r: state.r,
            pitch_sense: attitude.pitch_sense,
        },
        config,
    ).moment.y;
    assert(pitch_break(config, air.alpha, stall_with_flap(config, controls)) == num(D0));
    assert(pitch_break(config, air.alpha, stall_with_flap(config, retracted(controls))) == num(D0));
    assert(flap_within(retracted(controls)) == num(D0));
    crate::rounding::zero_absorbs(num(D0), config.cm_flap);
    crate::rounding::products_commute(num(D0), config.cm_flap);
    lemma_flap_lowers(
        clean_pitch_of(config, controls, rates, air.alpha),
        config.cm_flap.product(flap_within(controls)),
        config.cm_flap.product(num(D0)),
        num(M0_015).product(ground),
        attitude.pitch_sense,
        nose_drop(config, attitude.sin_bank).product(spiral),
        atm.ram(v).product(config.wing_area).product(config.chord),
        engines,
    );
}

/// The flap is taken within its range: beyond 0.7 rad it turns the aircraft as
/// at 0.7 rad, and a negative one as none.
pub proof fn flaps_saturate(
    state: AircraftState,
    config: AircraftConfig,
    controls: ControlInputs,
    alpha_dot: Binary64,
    wind: Vec3,
    atm: Atmosphere,
    air: AirAngles,
    attitude: AttitudeFactors,
    agl: Option<Binary64>,
)
    ensures
        num(D0_7).not_above(controls.flap) ==> moments_over(
            state,
            config,
            controls,
            alpha_dot,
            wind,
            atm,
            air,
            attitude,
            agl,
        ) == moments_over(
            state,
            config,
            ControlInputs { flap: num(D0_7), ..controls },
            alpha_dot,
            wind,
            atm,
            air,
            attitude,
            agl,
        ),
        controls.flap.below(num(D0)) ==> moments_over(
            state,
            config,
            controls,
            alpha_dot,
            wind,
            atm,
            air,
            attitude,
            agl,
        ) == moments_over(
            state,
            config,
            retracted(controls),
            alpha_dot,
            wind,
            atm,
            air,
            attitude,
            agl,
        ),
{
    let full = ControlInputs { flap: num(D0_7), ..controls };
    if num(D0_7).not_above(controls.flap) {
        assert(flap_within(controls) == flap_within(full));
    }
    if controls.flap.below(num(D0)) {
        assert(flap_within(controls) == flap_within(retracted(controls)));
    }
}

} // verus!
