//! Flight as a whole: level flight, controls, engines, terrain, air and wind.
use flight_core::aero::{ground_effect_factor, ControlInputs, Load};
use flight_core::atmosphere::Atmosphere;
use flight_core::binary64::Binary64;
use flight_core::config::{AircraftConfig, Propulsion};
use flight_core::elementary::Elementary;
use flight_core::flight;
use flight_core::simulator::Simulator;
use flight_core::state::{AircraftState, Trim};
use flight_core::terrain::{Terrain, TerrainHill};
use flight_core::vector::Vec3;
use flight_core::wind::{TurbulenceIntensity, WindConfig, WindEnvironment};

fn b(x: f64) -> Binary64 {
    Binary64::from_bits(x.to_bits())
}

fn f(x: Binary64) -> f64 {
    f64::from_bits(x.to_bits())
}

fn v(x: f64, y: f64, z: f64) -> Vec3 {
    Vec3::new(b(x), b(y), b(z))
}

/// The elementary functions of the machine.
#[derive(Clone, Copy)]
struct Machine;

impl Elementary for Machine {
    fn sin(&self, x: Binary64) -> Binary64 {
        b(f(x).sin())
    }

    fn cos(&self, x: Binary64) -> Binary64 {
        b(f(x).cos())
    }

    fn asin(&self, x: Binary64) -> Binary64 {
        b(f(x).asin())
    }

    fn atan2(&self, y: Binary64, x: Binary64) -> Binary64 {
        b(f(y).atan2(f(x)))
    }

    fn hypot(&self, x: Binary64, y: Binary64) -> Binary64 {
        b(f(x).hypot(f(y)))
    }

    fn tanh(&self, x: Binary64) -> Binary64 {
        b(f(x).tanh())
    }

    fn exp(&self, x: Binary64) -> Binary64 {
        b(f(x).exp())
    }

    fn ln(&self, x: Binary64) -> Binary64 {
        b(f(x).ln())
    }

    fn powf(&self, x: Binary64, y: Binary64) -> Binary64 {
        b(f(x).powf(f(y)))
    }
}

fn aircraft_default() -> AircraftConfig {
    AircraftConfig {
        mass: b(1100.0),
        wing_area: b(16.2),
        wing_span: b(11.0),
        chord: b(1.47),
        ixx: b(1300.0),
        iyy: b(1900.0),
        izz: b(2700.0),
        cl0: b(0.3),
        cla: b(5.5),
        cd0: b(0.025),
        k_drag: b(0.04),
        cm0: b(0.0),
        cma: b(-1.1),
        cmq: b(-20.0),
        cme: b(-0.6),
        thrust_max: b(1800.0),
        power_max: b(119_000.0),
        oswald_e: b(0.80),
        alpha_stall_pos: b(16.0_f64.to_radians()),
        alpha_stall_neg: b(-12.0_f64.to_radians()),
        cd_max: b(1.95),
        mach_crit: b(0.65),
        cm_adot: b(-3.0),
        thrust_arm: b(0.0),
        engine_count: 1,
        engine_lateral_arm: b(0.0),
        prop_torque_coeff: b(0.0),
        p_factor_coeff: b(0.0),
        gyro_coeff: b(0.0),
        throttle_split: b(0.0),
        propulsion: Propulsion::Propeller,
        cy_beta: b(-0.31),
        cy_dr: b(-0.15),
        cl_beta: b(-0.09),
        cl_p: b(-0.45),
        cl_r: b(0.10),
        cl_da: b(0.07),
        cl_dr: b(0.01),
        cn_beta: b(0.12),
        cn_p: b(-0.02),
        cn_r: b(-0.16),
        cn_da: b(-0.004),
        cn_dr: b(0.05),
        cl_flap: b(1.10),
        cd_flap: b(0.14),
        cm_flap: b(-0.20),
        flap_stall_shift: b(6.0_f64.to_radians()),
        spiral_nose_drop_cm: b(0.10),
        collision_panels: Vec::new(),
    }
}

/// A twin-engine variant of the default aircraft.
fn twin_default() -> AircraftConfig {
    let mut c = aircraft_default();
    c.engine_count = 2;
    c.engine_lateral_arm = b(3.0);
    c.p_factor_coeff = b(-0.35);
    c.gyro_coeff = b(0.05);
    c.throttle_split = b(0.0);
    c
}

fn controls(elevator: f64, aileron: f64, rudder: f64, throttle: f64, flap: f64) -> ControlInputs {
    ControlInputs {
        elevator: b(elevator),
        aileron: b(aileron),
        rudder: b(rudder),
        throttle: b(throttle),
        flap: b(flap),
    }
}

fn trimmed(config: &AircraftConfig, altitude: f64, speed: f64) -> (AircraftState, f64, f64) {
    let t: Trim = flight::level_flight(&Machine, config, b(altitude), b(speed));
    (t.state, f(t.elevator), f(t.throttle))
}

fn step(
    state: &mut AircraftState,
    config: &AircraftConfig,
    c: ControlInputs,
    dt: f64,
    terrain: Option<&Terrain>,
) {
    flight::fly(&Machine, state, config, c, Vec3::zeros(), b(dt), terrain);
}

fn load(state: &AircraftState, config: &AircraftConfig, c: ControlInputs) -> Load {
    flight::load(&Machine, state, config, c, Vec3::zeros(), None)
}

fn roll_pitch_yaw(state: &AircraftState) -> (f64, f64, f64) {
    let (r, p, y) = flight::euler_angles(&Machine, state);
    (f(r), f(p), f(y))
}

fn alpha_of(state: &AircraftState) -> f64 {
    f(flight::angle_of_attack(&Machine, state))
}

fn altitude(state: &AircraftState) -> f64 {
    f(state.altitude())
}

fn airspeed(state: &AircraftState) -> f64 {
    f(state.airspeed())
}

fn hill(north: f64, east: f64, amplitude: f64, sigma: f64) -> Terrain {
    Terrain::from_hills(vec![TerrainHill {
        centre: [b(north), b(east)],
        amplitude: b(amplitude),
        sigma: b(sigma),
    }])
}

fn height(t: &Terrain, north: f64, east: f64) -> f64 {
    f(flight::height(&Machine, t, b(north), b(east)))
}

fn above_ground(t: &Terrain, north: f64, east: f64, altitude: f64) -> f64 {
    let bells = flight::bells(&Machine, t, b(north), b(east));
    f(t.altitude_above_ground(b(altitude), &bells))
}

#[test]
fn level_flight_maintains_altitude_and_velocity() {
    let config = aircraft_default();
    let (mut state, elev_trim, throttle_trim) = trimmed(&config, 1000.0, 60.0);
    let start = state;
    for _ in 0..500 {
        step(&mut state, &config, controls(elev_trim, 0.0, 0.0, throttle_trim, 0.0), 0.01, None);
    }
    assert!((altitude(&state) - altitude(&start)).abs() < 5.0);
    assert!((airspeed(&state) - airspeed(&start)).abs() < 1.0);
}

#[test]
fn throttling_up_climbs_instead_of_diving() {
    let config = aircraft_default();
    let (mut state, elev_trim, throttle_trim) = trimmed(&config, 1000.0, 60.0);
    let throttle_high = throttle_trim + 0.25;
    let dt = 1.0 / 60.0;
    for _ in 0..1800 {
        step(&mut state, &config, controls(elev_trim, 0.0, 0.0, throttle_high, 0.0), dt, None);
    }
    assert!(altitude(&state) > 1000.0, "{}", altitude(&state));
    assert!(airspeed(&state) > 45.0, "{}", airspeed(&state));
}

#[test]
fn sustained_throttle_climb_stays_bounded() {
    let config = aircraft_default();
    let (mut state, elev_trim, throttle_trim) = trimmed(&config, 1000.0, 60.0);
    let throttle_high = (throttle_trim + 0.35).min(1.0);
    let dt = 1.0 / 60.0;
    let mut tas_min = f64::INFINITY;
    let mut tas_max = f64::NEG_INFINITY;
    for _ in 0..3600 {
        step(&mut state, &config, controls(elev_trim, 0.0, 0.0, throttle_high, 0.0), dt, None);
        tas_min = tas_min.min(airspeed(&state));
        tas_max = tas_max.max(airspeed(&state));
    }
    let climb_alt = altitude(&state) - 1000.0;
    assert!(climb_alt > 0.0 && climb_alt < 400.0, "gained {climb_alt} m");
    assert!(tas_min > 45.0 && tas_max < 90.0, "TAS [{tas_min:.1}, {tas_max:.1}]");
}

#[test]
fn pitch_oscillation_damps_out() {
    let config = aircraft_default();
    let (mut state, elev_trim, throttle_trim) = trimmed(&config, 1000.0, 60.0);
    let trim_alpha = alpha_of(&state);
    let dt = 1.0 / 60.0;
    for _ in 0..60 {
        let c = controls(elev_trim - 0.06, 0.0, 0.0, throttle_trim, 0.0);
        step(&mut state, &config, c, dt, None);
    }
    assert!(alpha_of(&state).to_degrees() < 10.0);
    let mut q_min = f64::INFINITY;
    for _ in 0..180 {
        step(&mut state, &config, controls(elev_trim, 0.0, 0.0, throttle_trim, 0.0), dt, None);
        q_min = q_min.min(f(state.q).abs());
    }
    let (_, pitch, _) = roll_pitch_yaw(&state);
    assert!(q_min < 0.01, "min |q| in 3 s = {q_min}");
    assert!((alpha_of(&state) - trim_alpha).abs() < 0.02, "alpha {}", alpha_of(&state));
    assert!(pitch.abs() < 60.0_f64.to_radians());
}

#[test]
fn positive_aileron_banks_right_and_turns_right() {
    let config = aircraft_default();
    let (mut state, elev_trim, throttle_trim) = trimmed(&config, 1000.0, 60.0);
    let yaw_start = roll_pitch_yaw(&state).2;
    let dt = 1.0 / 60.0;
    for _ in 0..120 {
        step(&mut state, &config, controls(elev_trim, 0.20, 0.0, throttle_trim, 0.0), dt, None);
    }
    let (roll, _, yaw) = roll_pitch_yaw(&state);
    assert!(roll > 5f64.to_radians() && roll < 60f64.to_radians(), "{}", roll.to_degrees());
    assert!(yaw - yaw_start > 1.5f64.to_radians(), "{}", (yaw - yaw_start).to_degrees());
}

#[test]
fn positive_rudder_yaws_right() {
    let config = aircraft_default();
    let (mut state, elev_trim, throttle_trim) = trimmed(&config, 1000.0, 60.0);
    let yaw_start = roll_pitch_yaw(&state).2;
    let dt = 1.0 / 60.0;
    for _ in 0..90 {
        step(&mut state, &config, controls(elev_trim, 0.0, 0.30, throttle_trim, 0.0), dt, None);
    }
    assert!(roll_pitch_yaw(&state).2 - yaw_start > 1.0f64.to_radians());
}

#[test]
fn pull_elevator_pitches_up() {
    let config = aircraft_default();
    let (mut state, elev_trim, throttle_trim) = trimmed(&config, 1000.0, 60.0);
    let dt = 1.0 / 60.0;
    for _ in 0..120 {
        let c = controls(elev_trim - 0.05, 0.0, 0.0, throttle_trim, 0.0);
        step(&mut state, &config, c, dt, None);
    }
    assert!(roll_pitch_yaw(&state).1 > 2f64.to_radians());
}

#[test]
fn flaps_add_lift_and_nose_down_moment() {
    let config = aircraft_default();
    let (state, _, _) = trimmed(&config, 1000.0, 40.0);
    let flap = 30.0_f64.to_radians();
    let clean = load(&state, &config, controls(0.0, 0.0, 0.0, 0.5, 0.0));
    let flapped = load(&state, &config, controls(0.0, 0.0, 0.0, 0.5, flap));
    assert!(f(flapped.force.z) < f(clean.force.z));
    assert!(f(flapped.moment.y) < f(clean.moment.y));
}

#[test]
fn steep_bank_idle_descends_not_climbs() {
    let config = aircraft_default();
    let (mut state, elev_trim, throttle_trim) = trimmed(&config, 1000.0, 60.0);
    let (_, pitch0, yaw0) = roll_pitch_yaw(&state);
    let q = (nalgebra::UnitQuaternion::from_euler_angles(0.0, pitch0, yaw0)
        * nalgebra::UnitQuaternion::from_axis_angle(
            &nalgebra::Vector3::x_axis(),
            std::f64::consts::FRAC_PI_2,
        ))
    .normalize();
    state.q0 = b(q.w);
    state.q1 = b(q.i);
    state.q2 = b(q.j);
    state.q3 = b(q.k);
    state.p = b(0.0);
    state.q = b(0.0);
    state.r = b(0.0);
    state.v = b(0.0);
    let alt0 = altitude(&state);
    let dt = 1.0 / 60.0;
    for _ in 0..600 {
        step(&mut state, &config, controls(elev_trim, 0.0, 0.0, throttle_trim, 0.0), dt, None);
    }
    assert!(altitude(&state) - alt0 < -10.0, "dAlt {:.1}", altitude(&state) - alt0);
}

#[test]
fn twin_engine_out_yaws_toward_dead_engine() {
    let mut config = twin_default();
    config.throttle_split = b(1.0);
    let (state, elev_trim, _) = trimmed(&config, 1000.0, 60.0);
    let right = load(&state, &config, controls(elev_trim, 0.0, 0.0, 0.8, 0.0));
    assert!(f(right.moment.z) < 0.0, "{}", f(right.moment.z));
    let mut config_l = config.clone();
    config_l.throttle_split = b(-1.0);
    let left = load(&state, &config_l, controls(elev_trim, 0.0, 0.0, 0.8, 0.0));
    assert!(f(left.moment.z) > 0.0, "{}", f(left.moment.z));
}

#[test]
fn twin_symmetric_thrust_matches_single_at_split_zero() {
    let single = aircraft_default();
    let twin = twin_default();
    let (s_single, _, _) = trimmed(&single, 1000.0, 60.0);
    let (s_twin, _, _) = trimmed(&twin, 1000.0, 60.0);
    let c = controls(0.0, 0.0, 0.0, 0.5, 0.0);
    let f_single = load(&s_single, &single, c).force;
    let f_twin = load(&s_twin, &twin, c).force;
    assert!((f(f_single.x) - f(f_twin.x)).abs() < 1.0);
}

#[test]
fn twin_asymmetric_yaw_scales_with_engine_arm() {
    let state = AircraftState::default();
    let base = twin_default();
    let mut wide = base.clone();
    wide.engine_lateral_arm = b(2.0);
    let mut narrow = base.clone();
    narrow.engine_lateral_arm = b(1.0);
    let yaw_for = |c: &AircraftConfig, split: f64| {
        let mut cc = c.clone();
        cc.throttle_split = b(split);
        f(load(&state, &cc, controls(0.0, 0.0, 0.0, 1.0, 0.0)).moment.z)
    };
    let wide_yaw = yaw_for(&wide, 1.0);
    let narrow_yaw = yaw_for(&narrow, 1.0);
    assert!((wide_yaw - 2.0 * narrow_yaw).abs() < 1e-6, "{wide_yaw} vs 2*{narrow_yaw}");
}

#[test]
fn twin_vmc_rudder_authority_grows_faster_than_asymmetric_yaw() {
    let base = twin_default();
    let speeds = [30.0f64, 60.0, 90.0];
    let mut prev_auth_ratio = f64::NEG_INFINITY;
    for speed in speeds {
        let mut c = base.clone();
        c.throttle_split = b(0.0);
        let (st, _, _) = trimmed(&c, 1000.0, speed);
        let mut c_aero = c.clone();
        c_aero.thrust_max = b(1.0);
        c_aero.power_max = b(1.0);
        let rud = f(load(&st, &c_aero, controls(0.0, 0.0, -0.35, 0.0, 0.0)).moment.z);
        let mut c_out = c.clone();
        c_out.throttle_split = b(1.0);
        let asym = f(load(&st, &c_out, controls(0.0, 0.0, 0.0, 1.0, 0.0)).moment.z);
        let ratio = rud.abs() / asym.abs().max(1e-9);
        assert!(ratio > prev_auth_ratio, "V={speed}: {ratio:.3} <= prev {prev_auth_ratio:.3}");
        prev_auth_ratio = ratio;
    }
}

#[test]
fn terrain_collision_stops_descent_on_a_mountain() {
    let config = aircraft_default();
    let auth = hill(0.0, 0.0, 400.0, 500.0);
    let mut state = AircraftState::default();
    state.pos_x = b(0.0);
    state.pos_y = b(0.0);
    state.pos_z = b(-410.0);
    state.w = b(40.0);
    let dt = 1.0 / 120.0;
    for _ in 0..120 {
        step(&mut state, &config, controls(0.0, 0.0, 0.0, 0.0, 0.0), dt, Some(&auth));
    }
    let ground_ned = -height(&auth, f(state.pos_x), f(state.pos_y));
    let pos_z = f(state.pos_z);
    assert!((pos_z - ground_ned).abs() < 1.0, "pos_z {pos_z:.1} vs ground {ground_ned:.1}");
    assert!(pos_z < 0.0);
    let up_body = state.rotation_earth_to_body().transform_vector(v(0.0, 0.0, -1.0));
    assert!(f(state.body_velocity().dot(up_body)) >= 0.0);
}

#[test]
fn flat_terrain_keeps_historical_sea_level_floor() {
    let config = aircraft_default();
    let mut state = AircraftState::default();
    state.pos_z = b(10.0);
    state.w = b(10.0);
    let dt = 1.0 / 120.0;
    let auth = Terrain::flat();
    for _ in 0..20 {
        step(&mut state, &config, controls(0.0, 0.0, 0.0, 0.0, 0.0), dt, Some(&auth));
    }
    assert!(f(state.pos_z) <= 0.0, "pos_z {:.1}", f(state.pos_z));
}

#[test]
fn ground_effect_boosts_lift_near_the_surface() {
    let config = aircraft_default();
    let auth = hill(0.0, 0.0, 50.0, 1000.0);
    let (low, _, _) = trimmed(&config, 51.0, 60.0);
    let ge_low = f(ground_effect_factor(
        b(above_ground(&auth, 0.0, 0.0, altitude(&low))),
        config.wing_span,
    ));
    let mut high = low;
    high.pos_z = b(f(high.pos_z) - 3.0 * f(config.wing_span));
    let ge_high = f(ground_effect_factor(
        b(above_ground(&auth, 0.0, 0.0, altitude(&high))),
        config.wing_span,
    ));
    let c = controls(0.0, 0.0, 0.0, 0.5, 0.0);
    let still = Vec3::zeros();
    let f_low = f(flight::load(&Machine, &low, &config, c, still, Some(&auth)).force.z);
    let f_high = f(flight::load(&Machine, &high, &config, c, still, Some(&auth)).force.z);
    let f_ref = f(load(&high, &config, c).force.z);
    assert!(ge_low > 0.5 && ge_high < 0.01, "low {ge_low:.2}, high {ge_high:.3}");
    assert!(f_low < f_high, "{f_low:.1} {f_high:.1}");
    // Three spans up the share 1 / (1 + (4 h / b)^2) still leaves some newtons of
    // lift. They are a fraction of a percent of the weight, but not of the net
    // force, which is small near the trim.
    let weight = f(config.mass) * 9.80665;
    assert!((f_high - f_ref).abs() < 0.005 * weight);
    assert_eq!(f(ground_effect_factor(b(2.75), b(11.0))), 0.5);
}

#[test]
fn orographic_wind_produces_updrafts_and_downdrafts() {
    let auth = hill(1000.0, 0.0, 400.0, 500.0);
    let orographic = |wind: Vec3, altitude: f64| {
        flight::orographic_wind(&Machine, &auth, wind, b(0.0), b(0.0), b(altitude), b(300.0))
    };
    let orog = f(orographic(v(10.0, 0.0, 0.0), 100.0).z);
    assert!(orog < 0.0, "{orog:.3}");
    let orog_south = f(orographic(v(-10.0, 0.0, 0.0), 100.0).z);
    assert!(orog_south > 0.0, "{orog_south:.3}");
    let high = f(orographic(v(10.0, 0.0, 0.0), 1000.0).z);
    assert!(high.abs() < orog.abs() * 0.1, "high {high:.3} vs near {orog:.3}");
}

#[test]
fn sea_level_standard_atmosphere() {
    let atm = flight::air(&Machine, b(0.0));
    assert!((f(atm.temperature) - 288.15).abs() < 1e-4);
    assert!((f(atm.pressure) - 101325.0).abs() < 1e-1);
    assert!((f(atm.density) - 1.225).abs() < 1e-3);
    assert!((f(atm.speed_of_sound) - 340.294).abs() < 0.1);
}

#[test]
fn tropopause_standard_atmosphere() {
    let atm = flight::air(&Machine, b(11000.0));
    assert!((f(atm.temperature) - 216.77).abs() < 0.5);
    assert!((f(atm.pressure) - 22700.0).abs() < 100.0);
    assert!(f(atm.density) < 0.4);
}

#[test]
fn stratosphere_is_warmer_and_thinner() {
    let low: Atmosphere = flight::air(&Machine, b(15000.0));
    let high: Atmosphere = flight::air(&Machine, b(25000.0));
    assert!((f(low.temperature) - 216.65).abs() < 1e-9);
    assert!(f(high.temperature) > 216.65);
    assert!(f(high.pressure) < f(low.pressure));
}

#[test]
fn upper_layers_are_those_of_the_standard() {
    // Geopotential altitude, temperature and pressure.
    let rows = [
        (32_000.0, 228.65, 868.02),
        (40_000.0, 251.05, 277.52),
        (47_000.0, 270.65, 110.91),
        (49_000.0, 270.65, 86.162),
        (51_000.0, 270.65, 66.939),
        (60_000.0, 245.45, 20.314),
        (71_000.0, 214.65, 3.9564),
        (80_000.0, 196.65, 0.88627),
    ];
    for (h, temperature, pressure) in rows {
        for off in [-1e-3, 1e-3] {
            let potential: f64 = h + off;
            let geometric = 6_356_766.0 * potential / (6_356_766.0 - potential);
            let atm = flight::air(&Machine, b(geometric));
            assert!((f(atm.temperature) - temperature).abs() < 1e-3, "{h}");
            assert!((f(atm.pressure) / pressure - 1.0).abs() < 1e-3, "{h}: {}", f(atm.pressure));
        }
    }
}

#[test]
fn calibrated_airspeed_at_sea_level_is_the_true_one() {
    let atm = flight::air(&Machine, b(0.0));
    let cas = f(flight::calibrated_airspeed(&Machine, &atm, b(60.0)));
    assert!((cas - 60.0).abs() < 1e-3, "{cas}");
    let high = flight::air(&Machine, b(8000.0));
    assert!(f(flight::calibrated_airspeed(&Machine, &high, b(60.0))) < 45.0);
    assert_eq!(f(flight::calibrated_airspeed(&Machine, &atm, b(0.0))), 0.0);
}

#[test]
fn flat_terrain_is_always_zero_height_and_no_gradient() {
    let t = Terrain::flat();
    assert_eq!(height(&t, 100.0, -50.0), 0.0);
    assert_eq!(above_ground(&t, 100.0, -50.0, 60.0), 60.0);
    let bells = flight::bells(&Machine, &t, b(100.0), b(-50.0));
    assert_eq!(f(t.gradient(b(100.0), b(-50.0), &bells).norm()), 0.0);
}

#[test]
fn mountain_peak_is_amplitude_and_increases_altitude_over_ground() {
    let t = hill(0.0, 0.0, 400.0, 500.0);
    assert!((height(&t, 0.0, 0.0) - 400.0).abs() < 1e-9);
    assert!(height(&t, 5000.0, 5000.0) < 1.0);
    assert!((above_ground(&t, 0.0, 0.0, 500.0) - 100.0).abs() < 1e-9);
}

#[test]
fn gradient_points_downhill_away_from_peak() {
    let t = hill(0.0, 0.0, 400.0, 500.0);
    let bells = flight::bells(&Machine, &t, b(0.0), b(100.0));
    let g = t.gradient(b(0.0), b(100.0), &bells);
    assert!(f(g.east) < 0.0, "{}", f(g.east));
    assert!(f(g.north).abs() < 1e-6);
}

#[test]
fn steady_wind_direction_is_bowed_toward_given_bearing() {
    let mut cfg = WindConfig::default();
    cfg.wind_speed = b(10.0);
    cfg.wind_direction = b(std::f64::consts::FRAC_PI_2);
    cfg.wind_shear = false;
    let w = WindEnvironment::new(cfg);
    let wind = flight::steady_wind(&Machine, &w, b(500.0));
    assert!(f(wind.x).abs() < 1e-9, "{}", f(wind.x));
    assert!((f(wind.y) - 10.0).abs() < 1e-9, "{}", f(wind.y));
}

#[test]
fn shear_reduces_wind_near_ground() {
    let mut cfg = WindConfig::default();
    cfg.wind_speed = b(20.0);
    cfg.reference_altitude = b(1000.0);
    cfg.wind_shear = true;
    cfg.wind_direction = b(0.0);
    let w = WindEnvironment::new(cfg);
    let low = f(flight::steady_wind(&Machine, &w, b(50.0)).x);
    let high = f(flight::steady_wind(&Machine, &w, b(2000.0)).x);
    assert!(low < high, "low {low} vs high {high}");
    assert!((high - 20.0).abs() < 1e-9);
}

#[test]
fn turbulence_is_reproducible_and_bounded() {
    let mut cfg = WindConfig::default();
    cfg.turbulence = TurbulenceIntensity::Severe;
    let mut one = WindEnvironment::new(cfg);
    let mut two = WindEnvironment::new(cfg);
    let mut max_a = 0.0f64;
    let mut sum_sq = 0.0f64;
    let n = 20_000;
    for _ in 0..n {
        let wa = flight::turbulence(&Machine, &mut one, b(60.0), b(1.0 / 30.0));
        let wb = flight::turbulence(&Machine, &mut two, b(60.0), b(1.0 / 30.0));
        assert!(f(wa.minus(wb).norm()) < 1e-9);
        max_a = max_a.max(f(wa.norm()));
        sum_sq += f(wa.x) * f(wa.x);
    }
    let rms_u = (sum_sq / n as f64).sqrt();
    assert!((rms_u - 5.5).abs() < 2.0, "{rms_u:.2} m/s");
    assert!(max_a < 50.0, "max {max_a:.1} m/s");
}

#[test]
fn wind_changes_ground_speed_not_air_speed() {
    let state = AircraftState::default();
    let air0 = f(state.true_airspeed(Vec3::zeros()));
    assert!((air0 - airspeed(&state)).abs() < 1e-9);
    let v_air = state.air_velocity(v(20.0, 0.0, 0.0));
    assert!(f(v_air.x) < f(state.u));
}

#[test]
fn turbulence_names_are_recognised() {
    assert_eq!(TurbulenceIntensity::from_name("severe"), TurbulenceIntensity::Severe);
    assert_eq!(f(TurbulenceIntensity::Severe.sigma_u()), 5.5);
}

#[test]
fn simulator_starts_and_restarts_in_level_flight() {
    let mut sim = Simulator::new(aircraft_default(), &Machine);
    assert_eq!(altitude(&sim.state), 1000.0);
    assert!((airspeed(&sim.state) - 60.0).abs() < 1e-9);
    let start = sim.state;
    let (elevator, throttle) = sim.trim_level_flight(b(1000.0), b(60.0), &Machine);
    let c = controls(f(elevator), 0.1, 0.0, f(throttle), 0.0);
    let obs = sim.step_6dof(c, None, b(0.01), None, &Machine);
    assert_eq!(obs.len(), 12);
    assert!(sim.state != start);
    assert_eq!(sim.reset(&Machine), (elevator, throttle));
    assert_eq!(sim.state, start);
}

#[test]
fn headwind_slows_the_ground_track() {
    let config = aircraft_default();
    let mut still = Simulator::new(config.clone(), &Machine);
    let mut windy = Simulator::new(config, &Machine);
    let c = controls(0.0, 0.0, 0.0, 0.5, 0.0);
    for _ in 0..100 {
        still.step_6dof(c, None, b(0.01), None, &Machine);
        windy.step_6dof(c, Some(v(-20.0, 0.0, 0.0)), b(0.01), None, &Machine);
    }
    assert!(f(windy.state.pos_x) < f(still.state.pos_x));
}

#[test]
fn slopes_deflect_the_wind_of_a_step() {
    let config = aircraft_default();
    let slope = hill(1000.0, 0.0, 400.0, 500.0);
    let (state, elev, thr) = trimmed(&config, 300.0, 60.0);
    let sink_after = |wind: Vec3, terrain: Option<&Terrain>| {
        let mut s = state;
        for _ in 0..50 {
            let c = controls(elev, 0.0, 0.0, thr, 0.0);
            flight::fly(&Machine, &mut s, &config, c, wind, b(0.01), terrain);
        }
        f(s.pos_z)
    };
    // The wind blows up the slope, along it, and down it.
    let up = sink_after(v(10.0, 0.0, 0.0), Some(&slope));
    let none = sink_after(v(10.0, 0.0, 0.0), None);
    let down = sink_after(v(-10.0, 0.0, 0.0), Some(&slope));
    let down_none = sink_after(v(-10.0, 0.0, 0.0), None);
    assert!(up < none - 0.01, "{up} {none}");
    assert!(down > down_none + 0.01, "{down} {down_none}");
    let felt = flight::felt_wind(&Machine, Some(&slope), &state, v(10.0, 0.0, 0.0));
    let lift =
        flight::orographic_wind(&Machine, &slope, v(10.0, 0.0, 0.0), b(0.0), b(0.0), b(300.0), b(300.0));
    assert_eq!(f(felt.z), f(lift.z));
    assert_eq!(f(felt.x), 10.0);
    assert_eq!(flight::felt_wind(&Machine, None, &state, v(1.0, 2.0, 3.0)), v(1.0, 2.0, 3.0));
}

#[test]
fn gusts_have_a_length_scale_on_each_axis() {
    let run = |along: f64, across: f64, upright: f64| {
        let mut w = WindEnvironment::new(WindConfig {
            turbulence_scale: b(along),
            turbulence_scale_lat: b(across),
            turbulence_scale_vert: b(upright),
            ..WindConfig::default()
        });
        for _ in 0..20 {
            flight::total_wind(&Machine, &mut w, b(500.0), b(60.0), b(0.02));
        }
        (f(w.gust_u.velocity), f(w.gust_v.velocity), f(w.gust_w.velocity))
    };
    let base = run(533.0, 533.0, 266.5);
    let across = run(533.0, 80.0, 266.5);
    let upright = run(533.0, 533.0, 40.0);
    assert_eq!((across.0, across.2), (base.0, base.2));
    assert!(across.1 != base.1);
    assert_eq!((upright.0, upright.1), (base.0, base.1));
    assert!(upright.2 != base.2);
    assert_eq!(run(5.0, 5.0, 2.0), run(10.0, 10.0, 5.0));
}

#[test]
fn flaps_do_not_roll_or_yaw() {
    let config = aircraft_default();
    let (state, elev, thr) = trimmed(&config, 1000.0, 60.0);
    let clean = load(&state, &config, controls(elev, 0.1, -0.05, thr, 0.0)).moment;
    let flapped = load(&state, &config, controls(elev, 0.1, -0.05, thr, 0.3)).moment;
    assert!(f(flapped.y) < f(clean.y));
    assert_eq!((flapped.x, flapped.z), (clean.x, clean.z));
}

#[test]
fn flaps_at_trim_push_the_nose_down() {
    let config = aircraft_default();
    let (state, _, _) = trimmed(&config, 1000.0, 40.0);
    let at = |flap: f64| load(&state, &config, controls(0.0, 0.0, 0.0, 0.5, flap)).moment;
    let clean = at(0.0);
    let flapped = at(30.0_f64.to_radians());
    assert!(f(flapped.y) < f(clean.y));
    assert_eq!((flapped.x, flapped.z), (clean.x, clean.z));
    assert_eq!(at(0.9), at(0.7));
    assert_eq!(at(-0.3), clean);
}

#[test]
fn air_gets_thinner_with_altitude() {
    let mut below = flight::air(&Machine, b(0.0));
    for h in 1..=86_000 {
        let above = flight::air(&Machine, b(h as f64));
        assert!(f(above.pressure) > 0.0, "{h}");
        assert!(f(above.pressure) < f(below.pressure), "{h}");
        assert!(f(above.geopotential_altitude) - f(below.geopotential_altitude) > 0.5, "{h}");
        below = above;
    }
}

#[test]
fn layers_meet_without_a_rise() {
    // The pressure on either side of the base of each layer.
    for base in [11_000.0, 20_000.0, 32_000.0, 47_000.0, 51_000.0, 71_000.0] {
        let at = |h: f64| {
            let geometric = 6_356_766.0 * h / (6_356_766.0 - h);
            let air = flight::air(&Machine, b(geometric));
            assert!((f(air.geopotential_altitude) - h).abs() < 1e-6);
            f(air.pressure)
        };
        assert!(at(base + 1e-3) < at(base - 0.125), "{base}");
        assert!(at(base + 0.125) < at(base - 1e-3), "{base}");
    }
}
