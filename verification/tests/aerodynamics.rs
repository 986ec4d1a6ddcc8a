//! Forces and moments on the aircraft, against the arithmetic of the machine.
use flight_core::aero::ControlInputs;
use flight_core::binary64::Binary64;
use flight_core::config::{AircraftConfig, Propulsion};
use flight_core::elementary::Elementary;
use flight_core::flight;
use flight_core::state::AircraftState;
use flight_core::terrain::{Terrain, TerrainHill};
use flight_core::vector::Vec3;
use nalgebra::{Quaternion, UnitQuaternion, Vector3};

const G: f64 = 9.80665;
const V_TAS_EPS: f64 = 1e-6;
const V_MIN_GUARD: f64 = 6.0;
const VITERNA_BLEND_POS: f64 = 5.0;
const VITERNA_BLEND_NEG: f64 = 5.0;
const SEPARATED_LIFT_KC: f64 = 0.5;
const SEPARATED_LIFT_RESIDUAL: f64 = 0.1;
const SEPARATED_MIN_SIN: f64 = 0.01;
const VITERNA_DRAG_BLEND: f64 = 6.0;
const MACH_DRAG_GAIN_K4: f64 = 20.0;
const STALL_BREAK_MAX_ARM: f64 = 0.4;
const STALL_BREAK_GAIN: f64 = 0.45;
const FLAP_MAX_RAD: f64 = 0.7;
const DENSITY_RATIO_CLAMP: (f64, f64) = (0.1, 1.2);
const PG_MACH_BAND: f64 = 0.85;
const PG_BETA_FLOOR: f64 = 0.20;
const PG_BETA2_FLOOR: f64 = 0.04;
const GE_LIFT_BOOST: f64 = 0.10;
const GE_CDI_SUPPRESS: f64 = 0.30;
const SPIRAL_ENGAGE_SIN: f64 = 0.574;
const PITCH_SENSE_BLEND: f64 = 8.0;
const GE_PITCH_CM: f64 = -0.015;

struct Config {
    engine_count: usize,
    propulsion: Propulsion,
    alpha_stall_neg: f64,
    alpha_stall_pos: f64,
    cd0: f64,
    cd_flap: f64,
    cd_max: f64,
    chord: f64,
    cl0: f64,
    cl_beta: f64,
    cl_da: f64,
    cl_dr: f64,
    cl_flap: f64,
    cl_p: f64,
    cl_r: f64,
    cla: f64,
    cm0: f64,
    cm_adot: f64,
    cm_flap: f64,
    cma: f64,
    cme: f64,
    cmq: f64,
    cn_beta: f64,
    cn_da: f64,
    cn_dr: f64,
    cn_p: f64,
    cn_r: f64,
    cy_beta: f64,
    cy_dr: f64,
    engine_lateral_arm: f64,
    flap_stall_shift: f64,
    gyro_coeff: f64,
    mach_crit: f64,
    mass: f64,
    p_factor_coeff: f64,
    power_max: f64,
    prop_torque_coeff: f64,
    spiral_nose_drop_cm: f64,
    throttle_split: f64,
    thrust_arm: f64,
    thrust_max: f64,
    wing_area: f64,
    wing_span: f64,
    k_drag: f64,
    oswald_e: f64,
}

impl Config {
    fn induced_drag_k(&self) -> f64 {
        if self.k_drag > 0.0 {
            self.k_drag
        } else {
            let aspect = self.wing_span * self.wing_span / self.wing_area;
            1.0 / (std::f64::consts::PI * aspect * self.oswald_e)
        }
    }
}

#[derive(Clone, Copy)]
struct Controls {
    elevator: f64,
    aileron: f64,
    rudder: f64,
    throttle: f64,
    flap: f64,
}

struct State {
    pos_z: f64,
    u: f64,
    v: f64,
    w: f64,
    q0: f64,
    q1: f64,
    q2: f64,
    q3: f64,
    p: f64,
    q: f64,
    r: f64,
}

impl State {
    fn rotation_earth_to_body(&self) -> UnitQuaternion<f64> {
        UnitQuaternion::new_normalize(Quaternion::new(self.q0, self.q1, self.q2, self.q3))
    }

    fn air_velocity(&self, wind: &Vector3<f64>) -> Vector3<f64> {
        Vector3::new(self.u, self.v, self.w) - self.rotation_earth_to_body().transform_vector(wind)
    }

    fn altitude(&self) -> f64 {
        -self.pos_z
    }

    fn body_axes_in_earth(&self) -> (Vector3<f64>, Vector3<f64>, Vector3<f64>) {
        let back = self.rotation_earth_to_body().inverse();
        (
            back.transform_vector(&Vector3::x()),
            back.transform_vector(&Vector3::y()),
            back.transform_vector(&Vector3::z()),
        )
    }

    fn euler_angles(&self) -> (f64, f64, f64) {
        let (fwd, right, down) = self.body_axes_in_earth();
        (right.z.atan2(down.z), (-fwd.z).clamp(-1.0, 1.0).asin(), fwd.y.atan2(fwd.x))
    }
}

struct Air {
    density: f64,
    density_ratio: f64,
    sound: f64,
}

impl Air {
    fn dynamic_pressure(&self, v: f64) -> f64 {
        0.5 * self.density * v * v
    }

    fn mach_number(&self, v: f64) -> f64 {
        v / self.sound.max(1.0)
    }
}

/// The air up to the tropopause.
fn air(altitude: f64) -> Air {
    let h = 6_356_766.0 * altitude / (6_356_766.0 + altitude);
    let t = 288.15 - 0.0065 * h.max(-1_000.0);
    let p = 101_325.0 * (t / 288.15).powf(9.80665 / (0.0065 * 287.05287));
    let density = p / (287.05287 * t);
    Air { density, density_ratio: density / 1.225, sound: (1.4 * 287.05287 * t).sqrt() }
}

fn engine_thrust_ceiling(
    thr_max: f64,
    pwr_max: f64,
    thr: f64,
    v_tas: f64,
    density_factor: f64,
    propulsion: Propulsion,
) -> f64 {
    match propulsion {
        Propulsion::Jet => thr_max * thr * density_factor,
        Propulsion::Propeller => {
            let static_thrust = thr_max * thr * density_factor;
            let power_thrust = pwr_max * thr * density_factor / v_tas.max(V_MIN_GUARD);
            static_thrust.min(power_thrust)
        }
    }
}


fn engine_thrusts(
    config: &Config,
    throttle: f64,
    throttle_split: f64,
    v_tas: f64,
    density_factor: f64,
) -> (f64, f64, f64) {
    let split = throttle_split.clamp(-1.0, 1.0);
    if config.engine_count != 2 {
        let t = engine_thrust_ceiling(
            config.thrust_max,
            config.power_max,
            throttle,
            v_tas,
            density_factor,
            config.propulsion,
        );
        return (0.0, 0.0, t);
    }
    let half_t = config.thrust_max * 0.5;
    let half_p = config.power_max * 0.5;
    let left_thr = (throttle * (1.0 + split)).clamp(0.0, 1.0);
    let right_thr = (throttle * (1.0 - split)).clamp(0.0, 1.0);
    let t_left = engine_thrust_ceiling(half_t, half_p, left_thr, v_tas, density_factor, config.propulsion);
    let t_right = engine_thrust_ceiling(half_t, half_p, right_thr, v_tas, density_factor, config.propulsion);
    (t_left, t_right, 0.0)
}


fn engine_forces_moments(
    eng: &EngineFlowInputs,
    config: &Config,
) -> (Vector3<f64>, Vector3<f64>) {
    let split = config.throttle_split;
    let (t_left, t_right, t_single) = engine_thrusts(
        config,
        eng.throttle,
        split,
        eng.v_tas,
        eng.density_factor,
    );
    let mut force = Vector3::zeros();
    let mut moment = Vector3::zeros();
    let thrust_total = t_left + t_right + t_single;
    force.x += thrust_total;
    moment.y += thrust_total * config.thrust_arm * eng.pitch_sense;
    if config.engine_count == 2 {
        let arm = config.engine_lateral_arm;
        moment.z += (t_right - t_left) * arm;
        if config.propulsion == Propulsion::Propeller {
            let torque = config.prop_torque_coeff * (t_left - t_right) * arm;
            moment.x += torque;
            let pf = config.p_factor_coeff * thrust_total * eng.alpha;
            moment.z += pf;
            let gyro = config.gyro_coeff * thrust_total;
            moment.y += gyro * eng.r;
            moment.z += -gyro * eng.q;
        }
    }
    (force, moment)
}


fn ground_effect_factor(altitude_above_ground: f64, wing_span: f64) -> f64 {
    let h = altitude_above_ground.max(0.0);
    let x = 4.0 * (h / wing_span.max(1e-6));
    1.0 / (1.0 + x * x)
}


fn ground_effect_factors(altitude_above_ground: f64, wing_span: f64) -> (f64, f64) {
    let ge = ground_effect_factor(altitude_above_ground, wing_span);
    let cl_mult = 1.0 + GE_LIFT_BOOST * ge;
    let cd_induced_mult = 1.0 - GE_CDI_SUPPRESS * ge;
    (cl_mult, cd_induced_mult)
}


fn forces(
    state: &State,
    config: &Config,
    controls: Controls,
    wind_earth: &Vector3<f64>,
    terrain: Option<f64>,
) -> Vector3<f64> {
    let v_air = state.air_velocity(wind_earth);
    let v_tas = v_air.norm();
    let alpha = v_air.z.atan2(v_air.x);
    let beta = v_air.y.atan2(v_air.x.max(1e-6));
    let altitude = state.altitude();
    let atm = air(altitude);
    let q_dyn = atm.dynamic_pressure(v_tas);
    let mach = atm.mach_number(v_tas);
    let pg_factor = compressibility_factor(mach);
    let cla_effective = config.cla / pg_factor;
    let flap = controls.flap.clamp(0.0, FLAP_MAX_RAD);
    let dcl_flap = config.cl_flap * flap;
    let dcd_flap = config.cd_flap * flap * flap.abs();
    let alpha_stall_pos = config.alpha_stall_pos - config.flap_stall_shift * flap;
    let alpha_stall_neg = config.alpha_stall_neg;
    let cl_linear = config.cl0 + cla_effective * alpha + dcl_flap;
    let cl_clean = compute_viterna_lift(alpha, cl_linear, config, alpha_stall_pos, alpha_stall_neg);
    let (cl_mult, cd_ind_mult) = match terrain {
        Some(agl) => ground_effect_factors(agl, config.wing_span),
        None => (1.0, 1.0),
    };
    let cl = cl_clean * cl_mult;
    let k_induced = config.induced_drag_k();
    let cd_induced = k_induced * cl_clean * cl_clean * cd_ind_mult;
    let cd_base =
        compute_viterna_drag(alpha, config.cd0 + cd_induced, config, alpha_stall_pos, alpha_stall_neg);
    let cd_mach = if mach > config.mach_crit {
        let dm = mach - config.mach_crit;
        MACH_DRAG_GAIN_K4 * dm.powi(4)
    } else {
        0.0
    };
    let cd = cd_base + cd_mach + dcd_flap;
    let lift = q_dyn * config.wing_area * cl;
    let drag = q_dyn * config.wing_area * cd;
    let cb = beta.cos();
    let force_x = -drag * alpha.cos() * cb + lift * alpha.sin();
    let force_z = -lift * alpha.cos() - drag * alpha.sin() * cb;
    let cy = config.cy_beta * beta + config.cy_dr * controls.rudder;
    let force_y = q_dyn * config.wing_area * cy;
    let mut forces = Vector3::new(force_x, force_y, force_z);
    let throttle = controls.throttle.clamp(0.0, 1.0);
    let density_factor = (atm.density_ratio).clamp(DENSITY_RATIO_CLAMP.0, DENSITY_RATIO_CLAMP.1);
    let (engine_force, _engine_moment) = engine_forces_moments(
        &EngineFlowInputs {
            throttle,
            v_tas,
            density_factor,
            alpha,
            q: state.q,
            r: state.r,
            pitch_sense: 1.0,
        },
        config,
    );
    forces += engine_force;
    let gravity_earth = Vector3::new(0.0, 0.0, config.mass * G);
    let rot: UnitQuaternion<f64> = state.rotation_earth_to_body();
    let gravity_body = rot.transform_vector(&gravity_earth);
    forces += gravity_body;
    forces
}


fn moments_of(
    state: &State,
    config: &Config,
    controls: Controls,
    alpha_dot: f64,
    wind_earth: &Vector3<f64>,
    terrain: Option<f64>,
) -> Vector3<f64> {
    let v_air = state.air_velocity(wind_earth);
    let v_tas = v_air.norm();
    let alpha = v_air.z.atan2(v_air.x);
    let beta = v_air.y.atan2(v_air.x.max(1e-6));
    let altitude = state.altitude();
    let atm = air(altitude);
    let q_dyn = atm.dynamic_pressure(v_tas);
    let mach = atm.mach_number(v_tas);
    let _pg_factor = compressibility_factor(mach);
    let throttle = controls.throttle.clamp(0.0, 1.0);
    let density_factor = (atm.density_ratio).clamp(DENSITY_RATIO_CLAMP.0, DENSITY_RATIO_CLAMP.1);
    let (p_hat, q_hat, r_hat, alpha_dot_hat) = dimensionless_rates(state, config, v_tas, alpha_dot);
    let flap = controls.flap.clamp(0.0, FLAP_MAX_RAD);
    let alpha_stall_pos = config.alpha_stall_pos - config.flap_stall_shift * flap;
    let stall_pitch_break = pitch_break_moment(config, alpha, alpha_stall_pos);
    let (bank, _, _) = state.euler_angles();
    let sin_bank = bank.sin().abs();
    let engage = ((sin_bank - SPIRAL_ENGAGE_SIN) / (1.0 - SPIRAL_ENGAGE_SIN)).clamp(0.0, 1.0);
    let spiral_nose_drop = -config.spiral_nose_drop_cm * engage * engage;
    let (_, _, body_down) = state.body_axes_in_earth();
    let pitch_sense = (PITCH_SENSE_BLEND * body_down.z).tanh();
    let spiral_sense = if body_down.z >= 0.0 { 1.0 } else { -1.0 };
    let cm_core = config.cm0
        + config.cma * alpha
        + config.cmq * q_hat
        + config.cm_adot * alpha_dot_hat
        + config.cme * controls.elevator
        + config.cm_flap * flap
        + stall_pitch_break
        + GE_PITCH_CM * terrain.map_or(0.0, |agl| ground_effect_factor(agl, config.wing_span));
    let cm = cm_core * pitch_sense + spiral_nose_drop * spiral_sense;
    let pitch_moment = q_dyn * config.wing_area * config.chord * cm;
    let cl_roll = config.cl_beta * beta
        + config.cl_p * p_hat
        + config.cl_r * r_hat
        + config.cl_da * controls.aileron
        + config.cl_dr * controls.rudder;
    let roll_moment = q_dyn * config.wing_area * config.wing_span * cl_roll;
    let cn = config.cn_beta * beta
        + config.cn_p * p_hat
        + config.cn_r * r_hat
        + config.cn_da * controls.aileron
        + config.cn_dr * controls.rudder;
    let yaw_moment = q_dyn * config.wing_area * config.wing_span * cn;
    let mut moments = Vector3::new(roll_moment, pitch_moment, yaw_moment);
    let (_, engine_moment) = engine_forces_moments(
        &EngineFlowInputs {
            throttle,
            v_tas,
            density_factor,
            alpha,
            q: state.q,
            r: state.r,
            pitch_sense,
        },
        config,
    );
    moments += engine_moment;
    moments
}


fn dimensionless_rates(
    state: &State,
    config: &Config,
    v_tas: f64,
    alpha_dot: f64,
) -> (f64, f64, f64, f64) {
    let p_hat = if v_tas > V_TAS_EPS {
        state.p * config.wing_span / (2.0 * v_tas)
    } else {
        0.0
    };
    let q_hat = if v_tas > V_TAS_EPS {
        state.q * config.chord / (2.0 * v_tas)
    } else {
        0.0
    };
    let r_hat = if v_tas > V_TAS_EPS {
        state.r * config.wing_span / (2.0 * v_tas)
    } else {
        0.0
    };
    let alpha_dot_hat = if v_tas > V_TAS_EPS {
        alpha_dot * config.chord / (2.0 * v_tas)
    } else {
        0.0
    };
    (p_hat, q_hat, r_hat, alpha_dot_hat)
}


fn pitch_break_moment(config: &Config, alpha: f64, alpha_stall_pos: f64) -> f64 {
    if alpha > alpha_stall_pos {
        -STALL_BREAK_GAIN * (alpha - alpha_stall_pos).min(STALL_BREAK_MAX_ARM)
    } else if alpha < config.alpha_stall_neg {
        STALL_BREAK_GAIN * (config.alpha_stall_neg - alpha).min(STALL_BREAK_MAX_ARM)
    } else {
        0.0
    }
}


fn compressibility_factor(mach: f64) -> f64 {
    if mach < PG_MACH_BAND {
        (1.0 - mach * mach).max(PG_BETA2_FLOOR).sqrt()
    } else {
        PG_BETA_FLOOR
    }
}


fn compute_viterna_lift(
    alpha: f64,
    cl_linear: f64,
    config: &Config,
    alpha_pos: f64,
    alpha_neg: f64,
) -> f64 {
    if alpha >= alpha_neg && alpha <= alpha_pos {
        cl_linear
    } else if alpha > alpha_pos {
        let d_alpha = alpha - alpha_pos;
        let blend = (1.0 + (VITERNA_BLEND_POS * d_alpha).tanh()) * 0.5;
        let cl_stall_peak = config.cl0 + config.cla * alpha_pos;
        let cl_separated = (config.cd_max * SEPARATED_LIFT_KC) * (2.0 * alpha).sin()
            + SEPARATED_LIFT_RESIDUAL * (alpha.cos()).powi(2) / alpha.sin().max(SEPARATED_MIN_SIN);
        (1.0 - blend) * cl_stall_peak + blend * cl_separated
    } else {
        let d_alpha = alpha_neg - alpha;
        let blend = (1.0 + (VITERNA_BLEND_NEG * d_alpha).tanh()) * 0.5;
        let cl_stall_neg_peak = config.cl0 + config.cla * alpha_neg;
        let cl_separated = (config.cd_max * SEPARATED_LIFT_KC) * (2.0 * alpha).sin();
        (1.0 - blend) * cl_stall_neg_peak + blend * cl_separated
    }
}


fn compute_viterna_drag(
    alpha: f64,
    cd_attached: f64,
    config: &Config,
    alpha_pos: f64,
    alpha_neg: f64,
) -> f64 {
    if alpha >= alpha_neg && alpha <= alpha_pos {
        cd_attached
    } else {
        let d_alpha = if alpha > alpha_pos {
            alpha - alpha_pos
        } else {
            alpha_neg - alpha
        };
        let blend = (1.0 + (VITERNA_DRAG_BLEND * d_alpha).tanh()) * 0.5;
        let cd_flat_plate = config.cd_max * (alpha.sin()).powi(2) + config.cd0 * alpha.cos().abs();
        (1.0 - blend) * cd_attached + blend * cd_flat_plate
    }
}


struct EngineFlowInputs {
    throttle: f64,
    v_tas: f64,
    density_factor: f64,
    alpha: f64,
    q: f64,
    r: f64,
    pitch_sense: f64,
}


fn b(x: f64) -> Binary64 {
    Binary64::from_bits(x.to_bits())
}

fn f(x: Binary64) -> f64 {
    f64::from_bits(x.to_bits())
}

struct Machine;

impl Elementary for Machine {
    fn sin(&self, x: Binary64) -> Binary64 {
        b(f(x).sin())
    }

    fn cos(&self, x: Binary64) -> Binary64 {
        b(f(x).cos())
    }

    fn asin(&self, x: Binary64) -> Binary64 {
        b(f(x).asin())
    }

    fn tanh(&self, x: Binary64) -> Binary64 {
        b(f(x).tanh())
    }

    fn exp(&self, x: Binary64) -> Binary64 {
        b(f(x).exp())
    }

    fn ln(&self, x: Binary64) -> Binary64 {
        b(f(x).ln())
    }

    fn atan2(&self, y: Binary64, x: Binary64) -> Binary64 {
        b(f(y).atan2(f(x)))
    }

    fn hypot(&self, x: Binary64, y: Binary64) -> Binary64 {
        b(f(x).hypot(f(y)))
    }

    fn powf(&self, x: Binary64, y: Binary64) -> Binary64 {
        b(f(x).powf(f(y)))
    }
}

fn aircraft_default() -> AircraftConfig {
    AircraftConfig {
        mass: b(1100.0),
        wing_area: b(16.2),
        wing_span: b(11.0),
        chord: b(1.47),
        ixx: b(1300.0),
        iyy: b(1900.0),
        izz: b(2700.0),
        cl0: b(0.3),
        cla: b(5.5),
        cd0: b(0.025),
        k_drag: b(0.04),
        cm0: b(0.0),
        cma: b(-1.1),
        cmq: b(-20.0),
        cme: b(-0.6),
        thrust_max: b(1800.0),
        power_max: b(119_000.0),
        oswald_e: b(0.80),
        alpha_stall_pos: b(16.0_f64.to_radians()),
        alpha_stall_neg: b(-12.0_f64.to_radians()),
        cd_max: b(1.95),
        mach_crit: b(0.65),
        cm_adot: b(-3.0),
        thrust_arm: b(0.0),
        engine_count: 1,
        engine_lateral_arm: b(0.0),
        prop_torque_coeff: b(0.0),
        p_factor_coeff: b(0.0),
        gyro_coeff: b(0.0),
        throttle_split: b(0.0),
        propulsion: Propulsion::Propeller,
        cy_beta: b(-0.31),
        cy_dr: b(-0.15),
        cl_beta: b(-0.09),
        cl_p: b(-0.45),
        cl_r: b(0.10),
        cl_da: b(0.07),
        cl_dr: b(0.01),
        cn_beta: b(0.12),
        cn_p: b(-0.02),
        cn_r: b(-0.16),
        cn_da: b(-0.004),
        cn_dr: b(0.05),
        cl_flap: b(1.10),
        cd_flap: b(0.14),
        cm_flap: b(-0.20),
        flap_stall_shift: b(6.0_f64.to_radians()),
        spiral_nose_drop_cm: b(0.10),
        collision_panels: Vec::new(),
    }
}

fn plain(c: &AircraftConfig) -> Config {
    Config {
        engine_count: c.engine_count as usize,
        propulsion: c.propulsion,
        alpha_stall_neg: f(c.alpha_stall_neg),
        alpha_stall_pos: f(c.alpha_stall_pos),
        cd0: f(c.cd0),
        cd_flap: f(c.cd_flap),
        cd_max: f(c.cd_max),
        chord: f(c.chord),
        cl0: f(c.cl0),
        cl_beta: f(c.cl_beta),
        cl_da: f(c.cl_da),
        cl_dr: f(c.cl_dr),
        cl_flap: f(c.cl_flap),
        cl_p: f(c.cl_p),
        cl_r: f(c.cl_r),
        cla: f(c.cla),
        cm0: f(c.cm0),
        cm_adot: f(c.cm_adot),
        cm_flap: f(c.cm_flap),
        cma: f(c.cma),
        cme: f(c.cme),
        cmq: f(c.cmq),
        cn_beta: f(c.cn_beta),
        cn_da: f(c.cn_da),
        cn_dr: f(c.cn_dr),
        cn_p: f(c.cn_p),
        cn_r: f(c.cn_r),
        cy_beta: f(c.cy_beta),
        cy_dr: f(c.cy_dr),
        engine_lateral_arm: f(c.engine_lateral_arm),
        flap_stall_shift: f(c.flap_stall_shift),
        gyro_coeff: f(c.gyro_coeff),
        mach_crit: f(c.mach_crit),
        mass: f(c.mass),
        p_factor_coeff: f(c.p_factor_coeff),
        power_max: f(c.power_max),
        prop_torque_coeff: f(c.prop_torque_coeff),
        spiral_nose_drop_cm: f(c.spiral_nose_drop_cm),
        throttle_split: f(c.throttle_split),
        thrust_arm: f(c.thrust_arm),
        thrust_max: f(c.thrust_max),
        wing_area: f(c.wing_area),
        wing_span: f(c.wing_span),
        k_drag: f(c.k_drag),
        oswald_e: f(c.oswald_e),
    }
}

/// Numbers spread over a range.
struct Spread(u64);

impl Spread {
    fn next(&mut self, lo: f64, hi: f64) -> f64 {
        self.0 = self.0.wrapping_mul(6364136223846793005).wrapping_add(1442695040888963407);
        lo + (hi - lo) * ((self.0 >> 11) as f64 / 9007199254740992.0)
    }
}

fn near(r: Vec3, e: Vector3<f64>) -> bool {
    let scale = 1e-9 * (1.0 + e.norm());
    (f(r.x) - e.x).abs() < scale && (f(r.y) - e.y).abs() < scale && (f(r.z) - e.z).abs() < scale
}

/// A state, a wind and controls, drawn for a configuration.
fn loads_agree(c: &AircraftConfig, s: &mut Spread) {
    let spread = if s.next(0.0, 1.0) < 0.5 { 0.3 } else { 1.0 };
    let speed = s.next(0.0, 330.0);
    let state = AircraftState {
        pos_x: b(s.next(-500.0, 500.0)),
        pos_y: b(s.next(-500.0, 500.0)),
        pos_z: b(-s.next(-200.0, 9_000.0)),
        u: b(speed),
        v: b(speed * s.next(-spread, spread)),
        w: b(speed * s.next(-spread, spread)),
        q0: b(s.next(-1.0, 1.0)),
        q1: b(s.next(-1.0, 1.0)),
        q2: b(s.next(-1.0, 1.0)),
        q3: b(s.next(-1.0, 1.0)),
        p: b(s.next(-1.0, 1.0)),
        q: b(s.next(-1.0, 1.0)),
        r: b(s.next(-1.0, 1.0)),
    };
    let controls = Controls {
        elevator: s.next(-0.5, 0.5),
        aileron: s.next(-0.5, 0.5),
        rudder: s.next(-0.5, 0.5),
        throttle: s.next(-0.2, 1.2),
        flap: s.next(-0.2, 0.9),
    };
    let wind = Vector3::new(s.next(-20.0, 20.0), s.next(-20.0, 20.0), s.next(-3.0, 3.0));
    let hills = Terrain::from_hills(vec![TerrainHill {
        centre: [b(100.0), b(-50.0)],
        amplitude: b(900.0),
        sigma: b(400.0),
    }]);
    let ground = s.next(0.0, 1.0) < 0.5;
    let terrain = if ground { Some(&hills) } else { None };
    let (north, east) = (f(state.pos_x) - 100.0, f(state.pos_y) + 50.0);
    let height = 900.0 * (-(north * north + east * east) / (2.0 * 400.0 * 400.0)).exp();
    let agl = if ground { Some(-f(state.pos_z) - height) } else { None };

    let r = flight::load(
        &Machine,
        &state,
        c,
        ControlInputs {
            elevator: b(controls.elevator),
            aileron: b(controls.aileron),
            rudder: b(controls.rudder),
            throttle: b(controls.throttle),
            flap: b(controls.flap),
        },
        Vec3::new(b(wind.x), b(wind.y), b(wind.z)),
        terrain,
    );
    let of = plain(c);
    let at = State {
        pos_z: f(state.pos_z),
        u: f(state.u),
        v: f(state.v),
        w: f(state.w),
        q0: f(state.q0),
        q1: f(state.q1),
        q2: f(state.q2),
        q3: f(state.q3),
        p: f(state.p),
        q: f(state.q),
        r: f(state.r),
    };
    let force = forces(&at, &of, controls, &wind, agl);
    let moment = moments_of(&at, &of, controls, 0.0, &wind, agl);
    assert!(near(r.force, force), "{:?} for {:?}", r.force, force);
    assert!(near(r.moment, moment), "{:?} for {:?}", r.moment, moment);
}

#[test]
fn loads_are_those_of_the_machine() {
    let mut s = Spread(4);
    let mut c = aircraft_default();
    c.cm0 = b(0.02);
    c.thrust_arm = b(0.15);
    for _ in 0..400 {
        loads_agree(&c, &mut s);
    }
    c.k_drag = b(0.0);
    c.engine_count = 2;
    c.engine_lateral_arm = b(3.0);
    c.prop_torque_coeff = b(0.02);
    c.p_factor_coeff = b(-0.35);
    c.gyro_coeff = b(0.05);
    for propulsion in [Propulsion::Propeller, Propulsion::Jet] {
        for split in [-1.5, -0.4, 0.0, 1.0] {
            c.propulsion = propulsion;
            c.throttle_split = b(split);
            for _ in 0..100 {
                loads_agree(&c, &mut s);
            }
        }
    }
}
