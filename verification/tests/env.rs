//! The training environments.
use flight_core::avionics::bus::FaultFlag;
use flight_core::binary64::Binary64;
use flight_core::config::{AircraftConfig, Propulsion};
use flight_core::elementary::Elementary;
use flight_core::env::{
    AvionicsAction, AvionicsEnvironment, ControlAction, EnvConfig, Environment, AVIONICS_OBS_DIM,
};
use flight_core::flight;
use flight_core::wind::{TurbulenceIntensity, WindConfig};

fn b(x: f64) -> Binary64 {
    Binary64::from_bits(x.to_bits())
}

fn f(x: Binary64) -> f64 {
    f64::from_bits(x.to_bits())
}

/// The elementary functions of the machine.
#[derive(Clone, Copy)]
struct Machine;

impl Elementary for Machine {
    fn sin(&self, x: Binary64) -> Binary64 {
        b(f(x).sin())
    }

    fn cos(&self, x: Binary64) -> Binary64 {
        b(f(x).cos())
    }

    fn asin(&self, x: Binary64) -> Binary64 {
        b(f(x).asin())
    }

    fn atan2(&self, y: Binary64, x: Binary64) -> Binary64 {
        b(f(y).atan2(f(x)))
    }

    fn hypot(&self, x: Binary64, y: Binary64) -> Binary64 {
        b(f(x).hypot(f(y)))
    }

    fn tanh(&self, x: Binary64) -> Binary64 {
        b(f(x).tanh())
    }

    fn exp(&self, x: Binary64) -> Binary64 {
        b(f(x).exp())
    }

    fn ln(&self, x: Binary64) -> Binary64 {
        b(f(x).ln())
    }

    fn powf(&self, x: Binary64, y: Binary64) -> Binary64 {
        b(f(x).powf(f(y)))
    }
}

fn aircraft_default() -> AircraftConfig {
    AircraftConfig {
        mass: b(1100.0),
        wing_area: b(16.2),
        wing_span: b(11.0),
        chord: b(1.47),
        ixx: b(1300.0),
        iyy: b(1900.0),
        izz: b(2700.0),
        cl0: b(0.3),
        cla: b(5.5),
        cd0: b(0.025),
        k_drag: b(0.04),
        cm0: b(0.0),
        cma: b(-1.1),
        cmq: b(-20.0),
        cme: b(-0.6),
        thrust_max: b(1800.0),
        power_max: b(119_000.0),
        oswald_e: b(0.80),
        alpha_stall_pos: b(16.0_f64.to_radians()),
        alpha_stall_neg: b(-12.0_f64.to_radians()),
        cd_max: b(1.95),
        mach_crit: b(0.65),
        cm_adot: b(-3.0),
        thrust_arm: b(0.0),
        engine_count: 1,
        engine_lateral_arm: b(0.0),
        prop_torque_coeff: b(0.0),
        p_factor_coeff: b(0.0),
        gyro_coeff: b(0.0),
        throttle_split: b(0.0),
        propulsion: Propulsion::Propeller,
        cy_beta: b(-0.31),
        cy_dr: b(-0.15),
        cl_beta: b(-0.09),
        cl_p: b(-0.45),
        cl_r: b(0.10),
        cl_da: b(0.07),
        cl_dr: b(0.01),
        cn_beta: b(0.12),
        cn_p: b(-0.02),
        cn_r: b(-0.16),
        cn_da: b(-0.004),
        cn_dr: b(0.05),
        cl_flap: b(1.10),
        cd_flap: b(0.14),
        cm_flap: b(-0.20),
        flap_stall_shift: b(6.0_f64.to_radians()),
        spiral_nose_drop_cm: b(0.10),
        collision_panels: Vec::new(),
    }
}

fn test_env() -> Environment {
    let config = EnvConfig { dt: b(0.01), max_steps: 10_000, ..Default::default() };
    Environment::with_config(aircraft_default(), config, &Machine)
}

#[test]
fn reset_returns_level_flight_observation() {
    let mut env = test_env();
    let (obs, prev) = env.reset(&Machine);
    assert_eq!(obs.len(), 12);
    assert_eq!(prev, 0);
    assert!((f(env.state.altitude()) - 1000.0).abs() < 1e-9);
    assert!((f(env.state.airspeed()) - 60.0).abs() < 1e-9);
    let (roll, pitch, _) = flight::euler_angles(&Machine, &env.state);
    assert!(f(roll).abs() < 1e-6 && f(pitch).abs() < 0.02, "{} {}", f(roll), f(pitch));
}

#[test]
fn no_op_action_stays_near_target() {
    let mut env = test_env();
    env.reset(&Machine);
    let mut total = 0.0;
    let action = ControlAction::neutral();
    for _ in 0..500 {
        let r = env.step(action, &Machine);
        total += f(r.reward);
        assert!(!r.terminated, "aircraft crashed");
        assert!(!r.truncated);
    }
    assert!(total > 0.0, "expected positive cumulative reward, got {total}");
}

#[test]
fn crashing_gives_very_negative_reward() {
    let mut env = test_env();
    env.reset(&Machine);
    env.state.pos_z = b(-50.0);
    env.state.w = b(20.0);
    let action = ControlAction {
        elevator: b(0.5),
        aileron: b(0.0),
        rudder: b(0.0),
        throttle: b(0.0),
        flaps: b(0.0),
    };
    let mut crashed = false;
    let mut total = 0.0;
    for _ in 0..500 {
        let r = env.step(action, &Machine);
        total += f(r.reward);
        if r.terminated {
            total += f(env.crash_penalty());
            crashed = true;
            break;
        }
    }
    assert!(crashed, "expected the aircraft to have crashed");
    assert!(total < 0.0, "expected negative cumulative reward, got {total}");
}

#[test]
fn episodes_are_truncated_and_counted() {
    let config = EnvConfig { dt: b(0.01), max_steps: 3, ..Default::default() };
    let mut env = Environment::with_config(aircraft_default(), config, &Machine);
    let action = ControlAction::neutral();
    assert!(!env.step(action, &Machine).truncated);
    assert!(!env.step(action, &Machine).truncated);
    assert!(env.step(action, &Machine).truncated);
    assert_eq!(env.step_count(), 3);
    let (_, prev) = env.reset(&Machine);
    assert_eq!(prev, 3);
    assert_eq!(env.step_count(), 0);
}

#[test]
fn windy_episodes_are_reproducible() {
    let mut wind = WindConfig::default();
    wind.wind_speed = b(8.0);
    wind.turbulence = TurbulenceIntensity::Moderate;
    let config = EnvConfig { wind_config: Some(wind), ..Default::default() };
    let mut one = Environment::with_config(aircraft_default(), config, &Machine);
    let mut two = Environment::with_config(aircraft_default(), config, &Machine);
    let mut still =
        Environment::with_config(aircraft_default(), EnvConfig::default(), &Machine);
    let action = ControlAction::neutral();
    for _ in 0..50 {
        let a = one.step(action, &Machine);
        let c = two.step(action, &Machine);
        assert_eq!(a.observation, c.observation);
        still.step(action, &Machine);
    }
    assert!(one.state != still.state);
}

fn test_avionics_env() -> AvionicsEnvironment<Machine> {
    let config = EnvConfig { dt: b(0.05), max_steps: 100_000, ..Default::default() };
    AvionicsEnvironment::with_config(aircraft_default(), config, &Machine)
}

fn trim_throttle(env: &AvionicsEnvironment<Machine>) -> f64 {
    f(flight::level_flight(&Machine, &env.aircraft, b(1000.0), b(60.0)).throttle)
}

#[test]
fn avionics_reset_returns_sensor_observation() {
    let mut env = test_avionics_env();
    let (obs, prev) = env.reset(&Machine);
    assert_eq!(obs.len(), AVIONICS_OBS_DIM);
    assert_eq!(prev, 0);
    assert_eq!(f(obs[9]), 3.0, "GPS starts with a 3D fix");
    assert!((f(obs[12]) - 16.8).abs() < 0.1, "battery starts near full voltage");
    assert!((f(obs[13]) - 100.0).abs() < 0.1, "battery starts fully charged");
}

#[test]
fn avionics_cruise_command_holds_flight() {
    let mut env = test_avionics_env();
    let trim_thr = trim_throttle(&env);
    env.reset(&Machine);
    let action = AvionicsAction::level_cruise(b(trim_thr));
    let mut alt_min = f64::INFINITY;
    let mut alt_max = f64::NEG_INFINITY;
    let mut last = None;
    for _ in 0..600 {
        let r = env.step(action, &Machine);
        assert!(!r.terminated, "FC-stabilized cruise crashed");
        alt_min = alt_min.min(f(env.state.altitude()));
        alt_max = alt_max.max(f(env.state.altitude()));
        last = Some(r);
    }
    let r = last.expect("stepped the environment");
    assert!(alt_min > 850.0 && alt_max < 1150.0, "range [{alt_min:.0}, {alt_max:.0}]");
    assert!(f(r.observation[17]) > 0.2, "{}", f(r.observation[17]));
    assert!((f(r.observation[13]) - 100.0).abs() < 2.0, "{}", f(r.observation[13]));
}

#[test]
fn avionics_battery_drains_over_cruise() {
    let mut env = test_avionics_env();
    let trim_thr = trim_throttle(&env);
    env.reset(&Machine);
    let action = AvionicsAction::level_cruise(b(trim_thr));
    let mut last = None;
    for _ in 0..1200 {
        let r = env.step(action, &Machine);
        assert!(!r.terminated);
        last = Some(r);
    }
    let r = last.unwrap();
    assert!(f(r.observation[13]) < 99.99, "{}", f(r.observation[13]));
    assert!(f(r.observation[12]) < 16.799, "{}", f(r.observation[12]));
}

#[test]
fn avionics_gps_failure_degrades_observation() {
    let mut env = test_avionics_env();
    env.reset(&Machine);
    let action = AvionicsAction::level_cruise(b(0.6));
    env.step(action, &Machine);
    assert_eq!(f(env.observation()[9]), 3.0, "GPS fix healthy before failure");
    env.inject_fault(FaultFlag::Gps);
    assert!(env.faults().gps_failed);
    env.step(action, &Machine);
    env.step(action, &Machine);
    let obs = env.observation();
    assert_eq!(f(obs[9]), 0.0, "failed GPS must report no fix");
    assert_eq!(f(obs[6]), 0.0, "failed GPS must zero the north position");
    assert_eq!(f(obs[7]), 0.0, "failed GPS must zero the east position");
    env.clear_fault(FaultFlag::Gps);
    for _ in 0..4 {
        env.step(action, &Machine);
    }
    assert_eq!(f(env.observation()[9]), 3.0, "GPS fix must recover after clearing the fault");
}

#[test]
fn avionics_imu_failure_zeroes_gyro_observation() {
    let mut env = test_avionics_env();
    env.reset(&Machine);
    env.inject_fault(FaultFlag::Imu);
    let r = env.step(AvionicsAction::level_cruise(b(0.6)), &Machine);
    assert_eq!(f(r.observation[0]), 0.0);
    assert_eq!(f(r.observation[1]), 0.0);
    assert_eq!(f(r.observation[2]), 0.0);
}

#[test]
fn avionics_battery_depletion_cuts_thrust_and_glides() {
    let mut env = test_avionics_env();
    let trim_thr = trim_throttle(&env);
    env.reset(&Machine);
    env.inject_fault(FaultFlag::BatteryDepleted);
    let action = AvionicsAction::level_cruise(b(trim_thr.max(0.8)));
    for _ in 0..1200 {
        let r = env.step(action, &Machine);
        assert!(f(r.observation[17]) < 0.05, "{}", f(r.observation[17]));
    }
    assert!(f(env.state.altitude()) < 950.0, "alt {:.0} m", f(env.state.altitude()));
}

#[test]
fn limited_actions_give_the_same_step() {
    let wild = ControlAction {
        elevator: b(3.0),
        aileron: b(-9.0),
        rudder: b(0.02),
        throttle: b(4.0),
        flaps: b(-1.0),
    };
    let mut a = Environment::with_config(aircraft_default(), EnvConfig::default(), &Machine);
    let mut c = Environment::with_config(aircraft_default(), EnvConfig::default(), &Machine);
    let limited = ControlAction {
        elevator: a.config.max_elevator,
        aileron: a.config.max_aileron.neg(),
        rudder: b(0.02),
        throttle: b(1.0),
        flaps: b(0.0),
    };
    let x = a.step(wild, &Machine);
    let y = c.step(limited, &Machine);
    assert_eq!(x.observation, y.observation);
    assert_eq!(x.reward, y.reward);
}
