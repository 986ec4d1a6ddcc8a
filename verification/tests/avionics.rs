//! The avionics: sensors, controller, servos, power and the system.
use flight_core::avionics::actuator::{ActuatorSuite, ServoActuator, ServoConfig};
use flight_core::avionics::airspeed::{AirspeedConfig, AirspeedSensor};
use flight_core::avionics::baro::{BaroConfig, BaroSensor};
use flight_core::avionics::battery::{Battery, BatteryConfig};
use flight_core::avionics::bus::{fault_flag_from_str, AvionicsBus, FaultFlag, FaultFlags, FcMode};
use flight_core::avionics::esc::{Esc, EscConfig};
use flight_core::avionics::fitted::{Fitted, FittedController};
use flight_core::avionics::stack::standard_stack;
use flight_core::avionics::flight_controller::{
    FlightController, FlightControllerConfig, PidConfig, PidController,
};
use flight_core::avionics::gps::{GpsConfig, GpsSensor};
use flight_core::avionics::imu::{ImuConfig, ImuSensor};
use flight_core::avionics::magnetometer::{MagConfig, MagnetometerSensor};
use flight_core::avionics::sensor_model::{
    NoiseDistribution, NoiseType, SensorConfig, SensorModel,
};
use flight_core::avionics::system::AvionicsSystem;
use flight_core::avionics::traits::{Actuator, AvionicsComponent, Controller, Sensor};
use flight_core::binary64::Binary64;
use flight_core::elementary::Elementary;
use flight_core::vector::Vec3;
use std::cell::RefCell;
use std::rc::Rc;

fn b(x: f64) -> Binary64 {
    Binary64::from_bits(x.to_bits())
}

fn f(x: Binary64) -> f64 {
    f64::from_bits(x.to_bits())
}

fn v(x: f64, y: f64, z: f64) -> Vec3 {
    Vec3::new(b(x), b(y), b(z))
}

/// The elementary functions of the machine.
#[derive(Clone, Copy)]
struct Machine;

impl Elementary for Machine {
    fn sin(&self, x: Binary64) -> Binary64 {
        b(f(x).sin())
    }

    fn cos(&self, x: Binary64) -> Binary64 {
        b(f(x).cos())
    }

    fn asin(&self, x: Binary64) -> Binary64 {
        b(f(x).asin())
    }

    fn atan2(&self, y: Binary64, x: Binary64) -> Binary64 {
        b(f(y).atan2(f(x)))
    }

    fn hypot(&self, x: Binary64, y: Binary64) -> Binary64 {
        b(f(x).hypot(f(y)))
    }

    fn tanh(&self, x: Binary64) -> Binary64 {
        b(f(x).tanh())
    }

    fn exp(&self, x: Binary64) -> Binary64 {
        b(f(x).exp())
    }

    fn ln(&self, x: Binary64) -> Binary64 {
        b(f(x).ln())
    }

    fn powf(&self, x: Binary64, y: Binary64) -> Binary64 {
        b(f(x).powf(f(y)))
    }
}

fn read(s: &mut SensorModel, x: f64, dt: f64) -> f64 {
    f(s.sample(b(x), b(dt), &Machine))
}

fn close(x: Binary64, y: f64, tolerance: f64) -> bool {
    (f(x) - y).abs() < tolerance
}

#[test]
fn perfect_sensor_passes_through() {
    let mut s = SensorModel::new(SensorConfig::default());
    assert!((read(&mut s, 42.0, 0.001) - 42.0).abs() < 1e-9);
}

#[test]
fn bias_adds_offset() {
    let mut s = SensorModel::new(SensorConfig { bias: b(0.5), ..Default::default() });
    assert!((read(&mut s, 10.0, 0.001) - 10.5).abs() < 1e-9);
}

#[test]
fn gain_scales_signal() {
    let mut s = SensorModel::new(SensorConfig { gain: b(1.01), ..Default::default() });
    assert!((read(&mut s, 100.0, 0.001) - 101.0).abs() < 1e-9);
}

#[test]
fn noise_absolute_adds_random() {
    let config = SensorConfig {
        noise: b(1.0),
        noise_type: NoiseType::Absolute,
        noise_distribution: NoiseDistribution::Uniform,
        ..Default::default()
    };
    let mut s = SensorModel::with_seed(config, 42);
    let mut sum = 0.0;
    let n = 10_000;
    let mut differs = false;
    for _ in 0..n {
        let x = read(&mut s, 5.0, 0.001);
        differs = differs || x != 5.0;
        sum += x;
    }
    let mean = sum / n as f64;
    assert!((mean - 5.0).abs() < 0.1, "mean should be ~5.0, got {mean}");
    assert!(differs);
}

#[test]
fn noise_percent_scales_with_signal() {
    let config = SensorConfig {
        noise: b(0.1),
        noise_type: NoiseType::Percent,
        noise_distribution: NoiseDistribution::Uniform,
        ..Default::default()
    };
    let mut s = SensorModel::with_seed(config, 42);
    let mut sum = 0.0;
    let n = 10_000;
    for _ in 0..n {
        sum += read(&mut s, 100.0, 0.001);
    }
    let mean = sum / n as f64;
    assert!((mean - 100.0).abs() < 2.0, "percent noise mean should be ~100, got {mean}");
}

#[test]
fn drift_accumulates_over_time() {
    let mut s = SensorModel::new(SensorConfig { drift_rate: b(0.1), ..Default::default() });
    let mut val = 0.0;
    for _ in 0..10_000 {
        val = read(&mut s, 0.0, 0.001);
    }
    assert!((val - 1.0).abs() < 0.05, "drift after 10s should be ~1.0, got {val}");
}

#[test]
fn quantization_reduces_resolution() {
    let mut s = SensorModel::new(SensorConfig {
        quantization_bits: 8,
        quantize_min: b(-500.0),
        quantize_max: b(500.0),
        ..Default::default()
    });
    let out = read(&mut s, 100.0, 0.001);
    let step: f64 = 1000.0 / 256.0;
    let expected = (100.0 / step).floor() * step;
    assert!((out - expected).abs() < 1e-6, "quantized: got {out}, expected {expected}");
}

#[test]
fn clip_limits_output() {
    let mut s = SensorModel::new(SensorConfig {
        clip_min: Some(b(-1.0)),
        clip_max: Some(b(1.0)),
        ..Default::default()
    });
    assert!((read(&mut s, 5.0, 0.001) - 1.0).abs() < 1e-9);
    assert!((read(&mut s, -5.0, 0.001) - (-1.0)).abs() < 1e-9);
}

#[test]
fn lag_smooths_signal() {
    let mut s = SensorModel::new(SensorConfig { lag: b(0.1), ..Default::default() });
    let dt = 0.001;
    let mut last = 0.0;
    for _ in 0..1000 {
        last = read(&mut s, 10.0, dt);
    }
    assert!(last > 9.9, "lag should smooth to ~10 after 1s, got {last}");
    s.reset();
    let mut last = 0.0;
    for _ in 0..1000 {
        last = read(&mut s, 0.0, dt);
    }
    assert!(last.abs() < 0.1, "lag should decay back to ~0 after 1s, got {last}");
}

#[test]
fn reset_clears_drift() {
    let mut s = SensorModel::new(SensorConfig { drift_rate: b(1.0), ..Default::default() });
    for _ in 0..1000 {
        read(&mut s, 0.0, 0.001);
    }
    assert!(f(s.drift()).abs() > 0.5);
    s.reset();
    assert!(f(s.drift()).abs() < 1e-9);
}

#[test]
fn pipeline_order_matters() {
    let config = SensorConfig {
        noise: b(1.0),
        noise_type: NoiseType::Absolute,
        bias: b(5.0),
        ..Default::default()
    };
    let mut s = SensorModel::with_seed(config, 42);
    let mut sum = 0.0;
    for _ in 0..10_000 {
        sum += read(&mut s, 0.0, 0.001);
    }
    let mean = sum / 10_000.0;
    assert!((mean - 5.0).abs() < 0.1, "bias should be applied after noise, mean: {mean}");
}

#[test]
fn reproducible_with_same_seed() {
    let config =
        SensorConfig { noise: b(1.0), noise_type: NoiseType::Absolute, ..Default::default() };
    let mut one = SensorModel::with_seed(config, 12345);
    let mut two = SensorModel::with_seed(config, 12345);
    let mut other = SensorModel::with_seed(config, 54321);
    let mut differs = false;
    for _ in 0..100 {
        let va = read(&mut one, 10.0, 0.001);
        let vb = read(&mut two, 10.0, 0.001);
        assert!((va - vb).abs() < 1e-9, "same seed should produce same output");
        differs = differs || read(&mut other, 10.0, 0.001) != va;
    }
    assert!(differs);
}

#[test]
fn servo_rate_limiting() {
    let config = ServoConfig {
        min_deg: b(-30.0),
        max_deg: b(30.0),
        rate_limit_deg_s: b(60.0),
        resolution_bits: 0,
        ..Default::default()
    };
    let mut servo = ServoActuator::new(config, "test");
    servo.init();
    servo.command(b(30.0));
    servo.step(b(0.25));
    assert!(close(servo.actual_output(), 15.0, 0.1), "{}", f(servo.actual_output()));
    assert_eq!(servo.name(), "test");
}

#[test]
fn servo_position_clipping() {
    let config = ServoConfig {
        min_deg: b(-20.0),
        max_deg: b(20.0),
        rate_limit_deg_s: b(1000.0),
        resolution_bits: 0,
        ..Default::default()
    };
    let mut servo = ServoActuator::new(config, "test");
    servo.init();
    servo.command(b(50.0));
    servo.step(b(0.1));
    assert!(close(servo.actual_output(), 20.0, 0.1));
}

fn fast_suite() -> ActuatorSuite {
    let cfg = ServoConfig {
        rate_limit_deg_s: b(1000.0),
        resolution_bits: 0,
        ..Default::default()
    };
    let mut suite = ActuatorSuite::new(cfg, cfg, cfg);
    suite.init(b(0.0));
    suite
}

#[test]
fn actuator_suite_writes_to_bus() {
    let mut suite = fast_suite();
    let mut bus = AvionicsBus {
        fc_servo_elevator: b(10.0),
        fc_servo_aileron: b(-5.0),
        fc_servo_rudder: b(3.0),
        fc_esc_throttle: b(0.8),
        ..Default::default()
    };
    suite.step(&mut bus, b(0.1));
    assert!(close(bus.actual_elevator_deg, 10.0, 0.5));
    assert!(close(bus.actual_aileron_deg, -5.0, 0.5));
    assert!(close(bus.actual_rudder_deg, 3.0, 0.5));
    assert!(close(bus.actual_esc_output, 0.8, 1e-9));
}

#[test]
fn jammed_servos_stay_where_they_are() {
    let mut suite = fast_suite();
    let mut bus = AvionicsBus::default();
    bus.fc_servo_elevator = b(10.0);
    bus.fc_servo_rudder = b(4.0);
    bus.fc_fault_flags.servo_elevator_failed = true;
    bus.fc_fault_flags.esc_failed = true;
    bus.fc_esc_throttle = b(0.8);
    suite.step(&mut bus, b(0.1));
    assert_eq!(f(bus.actual_elevator_deg), 0.0);
    assert!(close(bus.actual_rudder_deg, 4.0, 0.5));
    assert_eq!(f(bus.actual_esc_output), 0.0);
    assert!(!suite.can_move(&bus, b(-1.0)));
}

#[test]
fn jammed_servos_do_not_hold_the_others() {
    let mut suite = fast_suite();
    suite.elevator.config.rate_limit_deg_s = b(-1.0);
    let mut bus = AvionicsBus::default();
    bus.fc_servo_rudder = b(4.0);
    bus.fc_esc_throttle = b(0.8);
    suite.step(&mut bus, b(0.1));
    assert_eq!(f(bus.actual_rudder_deg), 0.0);
    assert_eq!(f(bus.actual_esc_output), 0.0);
    bus.fc_fault_flags.servo_elevator_failed = true;
    assert!(suite.can_move(&bus, b(0.1)));
    suite.step(&mut bus, b(0.1));
    assert!(close(bus.actual_rudder_deg, 4.0, 0.5));
    assert_eq!(f(bus.actual_esc_output), 0.8);
}

#[test]
fn jammed_suites_report_in_any_step() {
    let mut suite = fast_suite();
    suite.aileron.position = b(3.0);
    let mut bus = AvionicsBus::default();
    bus.fc_servo_aileron = b(9.0);
    bus.fc_esc_throttle = b(0.4);
    bus.fc_fault_flags.servo_elevator_failed = true;
    bus.fc_fault_flags.servo_aileron_failed = true;
    bus.fc_fault_flags.servo_rudder_failed = true;
    suite.step(&mut bus, b(-0.1));
    assert_eq!(f(bus.actual_aileron_deg), 3.0);
    assert_eq!(f(bus.actual_esc_output), 0.4);
}

fn airspeed(config: AirspeedConfig) -> Fitted<AirspeedSensor, Machine> {
    Fitted { device: AirspeedSensor::with_seed(config, 42), math: Machine }
}

fn airspeed_bus(true_airspeed: f64) -> AvionicsBus {
    AvionicsBus { true_airspeed: b(true_airspeed), ..Default::default() }
}

#[test]
fn airspeed_perfect_passthrough() {
    let config = AirspeedConfig {
        noise: b(0.0),
        bias: b(0.0),
        position_error: b(0.0),
        ..Default::default()
    };
    let mut sensor = airspeed(config);
    let mut bus = airspeed_bus(25.0);
    sensor.init(b(0.002));
    bus.sim_time = b(0.03);
    sensor.step(&mut bus, b(0.002));
    assert!(close(bus.airspeed_indicated, 25.0, 1e-9));
}

#[test]
fn airspeed_position_error() {
    let config =
        AirspeedConfig { noise: b(0.0), position_error: b(0.05), ..Default::default() };
    let mut sensor = airspeed(config);
    let mut bus = airspeed_bus(20.0);
    sensor.init(b(0.002));
    bus.sim_time = b(0.03);
    sensor.step(&mut bus, b(0.002));
    assert!(close(bus.airspeed_indicated, 21.0, 1e-9));
}

#[test]
fn airspeed_bias() {
    let config = AirspeedConfig { noise: b(0.0), bias: b(1.5), ..Default::default() };
    let mut sensor = airspeed(config);
    let mut bus = airspeed_bus(10.0);
    sensor.init(b(0.002));
    bus.sim_time = b(0.03);
    sensor.step(&mut bus, b(0.002));
    assert!(close(bus.airspeed_indicated, 11.5, 1e-9));
}

#[test]
fn airspeed_update_rate() {
    let config = AirspeedConfig { noise: b(0.0), update_hz: b(50.0), ..Default::default() };
    let mut sensor = airspeed(config);
    let mut bus = airspeed_bus(15.0);
    sensor.init(b(0.001));
    bus.sim_time = b(0.0);
    sensor.step(&mut bus, b(0.001));
    assert!(close(bus.airspeed_indicated, 15.0, 1e-9));
    bus.true_airspeed = b(25.0);
    bus.sim_time = b(0.010);
    sensor.step(&mut bus, b(0.001));
    assert!(close(bus.airspeed_indicated, 15.0, 1e-9));
    bus.sim_time = b(0.021);
    sensor.step(&mut bus, b(0.001));
    assert!(close(bus.airspeed_indicated, 25.0, 1e-9));
    assert_eq!(sensor.name(), "Airspeed");
    assert_eq!(f(sensor.device.update_rate_hz()), 50.0);
}

fn baro(config: BaroConfig) -> Fitted<BaroSensor, Machine> {
    Fitted { device: BaroSensor::with_seed(config, 42), math: Machine }
}

fn altitude_bus(true_altitude: f64) -> AvionicsBus {
    AvionicsBus { true_altitude: b(true_altitude), ..Default::default() }
}

#[test]
fn baro_passes_through_with_no_noise() {
    let config = BaroConfig { noise: b(0.0), bias: b(0.0), ..Default::default() };
    let mut sensor = baro(config);
    let mut bus = altitude_bus(150.0);
    sensor.init(b(0.002));
    bus.sim_time = b(0.03);
    sensor.step(&mut bus, b(0.002));
    assert!(close(bus.baro_altitude, 150.0, 1e-9));
}

#[test]
fn baro_respects_update_rate() {
    let config = BaroConfig { noise: b(0.0), update_hz: b(20.0), ..Default::default() };
    let mut sensor = baro(config);
    let mut bus = altitude_bus(100.0);
    sensor.init(b(0.001));
    bus.sim_time = b(0.0);
    sensor.step(&mut bus, b(0.001));
    assert!(close(bus.baro_altitude, 100.0, 1e-9));
    bus.true_altitude = b(200.0);
    bus.sim_time = b(0.020);
    sensor.step(&mut bus, b(0.001));
    assert!(close(bus.baro_altitude, 100.0, 1e-9));
    bus.sim_time = b(0.051);
    sensor.step(&mut bus, b(0.001));
    assert!(close(bus.baro_altitude, 200.0, 1e-9));
}

#[test]
fn baro_bias_shifts_output() {
    let config = BaroConfig { noise: b(0.0), bias: b(5.0), ..Default::default() };
    let mut sensor = baro(config);
    let mut bus = altitude_bus(100.0);
    sensor.init(b(0.002));
    bus.sim_time = b(0.03);
    sensor.step(&mut bus, b(0.002));
    assert!(close(bus.baro_altitude, 105.0, 1e-9));
}

#[test]
fn battery_full_voltage_at_init() {
    let mut batt = Battery::new(BatteryConfig::default());
    let mut bus = AvionicsBus::default();
    batt.init(b(0.0));
    batt.step(&mut bus, b(0.01));
    assert!(close(bus.battery_voltage, 16.8, 0.2), "{}", f(bus.battery_voltage));
}

#[test]
fn battery_sags_under_load() {
    let config = BatteryConfig { internal_resistance: b(0.1), ..Default::default() };
    let mut batt = Battery::new(config);
    let mut bus = AvionicsBus::default();
    batt.init(b(0.0));
    bus.battery_current = b(10.0);
    batt.step(&mut bus, b(0.01));
    assert!(close(bus.battery_voltage, 15.8, 0.2), "{}", f(bus.battery_voltage));
}

#[test]
fn battery_depletes_over_time() {
    let config = BatteryConfig {
        capacity_ah: b(1.0),
        internal_resistance: b(0.0),
        bus_current: b(0.0),
        ..Default::default()
    };
    let mut batt = Battery::new(config);
    let mut bus = AvionicsBus::default();
    batt.init(b(0.0));
    bus.battery_current = b(10.0);
    for _ in 0..(5 * 60 * 100) {
        batt.step(&mut bus, b(0.01));
    }
    let left = bus.battery_capacity_remaining_pct;
    assert!(close(left, 16.7, 3.0), "after 5min at 10A, ~17% remaining, got {}", f(left));
}

#[test]
fn battery_empty_trigger_flags() {
    let config = BatteryConfig { capacity_ah: b(0.1), ..Default::default() };
    let mut batt = Battery::new(config);
    batt.set_soc(b(0.01));
    let mut bus = AvionicsBus::default();
    bus.battery_current = b(20.0);
    for _ in 0..1000 {
        batt.step(&mut bus, b(0.01));
    }
    assert!(bus.fc_fault_flags.battery_depleted, "battery should be flagged depleted");
    assert_eq!(f(batt.soc()), 0.0);
}

#[test]
fn esc_smooths_throttle() {
    let config = EscConfig { motor_tau: b(0.05), ..Default::default() };
    let mut esc = Esc::new(config);
    esc.init(b(0.0));
    let mut bus = AvionicsBus::default();
    bus.fc_esc_throttle = b(1.0);
    esc.step(&mut bus, b(0.1));
    let after_100ms = f(bus.actual_esc_output);
    assert!(after_100ms > 0.5 && after_100ms < 1.0, "{after_100ms}");
    for _ in 0..20 {
        esc.step(&mut bus, b(0.05));
    }
    assert!(close(bus.actual_esc_output, 1.0, 0.05), "{}", f(bus.actual_esc_output));
}

#[test]
fn esc_tracks_throttle_command() {
    let config = EscConfig { motor_tau: b(0.001), ..Default::default() };
    let mut esc = Esc::new(config);
    esc.init(b(0.0));
    let mut bus = AvionicsBus::default();
    bus.fc_esc_throttle = b(0.7);
    for _ in 0..10 {
        esc.step(&mut bus, b(0.01));
    }
    assert!(close(bus.actual_esc_output, 0.7, 0.001), "{}", f(bus.actual_esc_output));
}

#[test]
fn depleted_batteries_give_no_thrust() {
    let mut esc = Esc::new(EscConfig::default());
    esc.init(b(0.0));
    let mut bus = AvionicsBus::default();
    bus.fc_esc_throttle = b(1.0);
    bus.fc_fault_flags.battery_depleted = true;
    esc.step(&mut bus, b(0.1));
    assert_eq!(f(bus.actual_esc_output), 0.0);
}

fn make_fc(mode: FcMode) -> (FittedController<Machine>, AvionicsBus) {
    let fc = FlightController::new(FlightControllerConfig::default());
    let mut fitted = FittedController::new(fc, Machine);
    fitted.init(b(0.0));
    fitted.set_mode(mode);
    (fitted, AvionicsBus::default())
}

#[test]
fn pid_hits_target() {
    let mut pid = PidController::new(PidConfig {
        kp: b(1.0),
        ki: b(0.1),
        kd: b(0.0),
        out_limit: b(100.0),
        i_limit: b(10.0),
    });
    let mut meas = 0.0;
    for _ in 0..20_000 {
        meas += f(pid.compute(b(5.0), b(meas), b(0.001))) * 0.001;
    }
    assert!((meas - 5.0).abs() < 0.1, "PID should converge to 5.0, got {meas}");
}

#[test]
fn pid_respects_output_limit() {
    let mut pid = PidController::new(PidConfig {
        kp: b(10.0),
        out_limit: b(2.0),
        ..Default::default()
    });
    let out = f(pid.compute(b(5.0), b(0.0), b(0.001)));
    assert!((out - 2.0).abs() < 1e-9, "output should clamp at 2.0, got {out}");
}

#[test]
fn pid_anti_windup() {
    let mut pid = PidController::new(PidConfig {
        kp: b(0.1),
        ki: b(1.0),
        out_limit: b(1.0),
        i_limit: b(5.0),
        ..Default::default()
    });
    for _ in 0..10_000 {
        pid.compute(b(10.0), b(0.0), b(0.001));
    }
    assert!(f(pid.integral) <= 5.0 + 1e-9, "{}", f(pid.integral));
}

#[test]
fn loops_with_negative_integral_gain_do_not_wind_up() {
    let mut pid = PidController::new(PidConfig {
        kp: b(0.0),
        ki: b(-0.5),
        kd: b(0.0),
        out_limit: b(100.0),
        i_limit: b(3.0),
    });
    let mut last = 0.0;
    for _ in 0..10_000 {
        last = f(pid.compute(b(10.0), b(0.0), b(0.01)));
        assert!(last.abs() <= 1.5);
    }
    assert_eq!(last, -1.5);
}

#[test]
fn stabilized_flight_levels_the_wings() {
    let half: f64 = 0.1;
    for (sign, name) in [(1.0, "right"), (-1.0, "left")] {
        let (mut fc, mut bus) = make_fc(FcMode::Stabilize);
        bus.true_quat = [b(half.cos()), b(-sign * half.sin()), b(0.0), b(0.0)];
        fc.step(&mut bus, b(0.01));
        assert!(f(bus.fc_servo_aileron) * sign < -1.0, "{name} wing down");
    }
}

#[test]
fn modes_need_the_limits_of_their_own_loops_only() {
    let mut config = FlightControllerConfig::default();
    config.roll_attitude.out_limit = b(-1.0);
    config.max_attitude_rad = b(f64::NAN);
    let mut fc = FlightController::new(config);
    fc.set_mode(FcMode::Rate);
    let mut bus = AvionicsBus { cmd_roll: b(0.5), ..Default::default() };
    fc.step(&mut bus, b(0.01), b(0.0), b(0.0));
    assert!(close(bus.fc_servo_aileron, 15.0, 1e-9));
    config.roll_rate.out_limit = b(-1.0);
    let mut manual = FlightController::new(config);
    manual.set_mode(FcMode::Manual);
    manual.step(&mut bus, b(0.01), b(0.0), b(0.0));
    assert!(close(bus.fc_servo_aileron, 0.5, 1e-9));
}

#[test]
fn fc_manual_passthrough() {
    let (mut fc, mut bus) = make_fc(FcMode::Manual);
    bus.cmd_roll = b(10.0);
    bus.cmd_pitch = b(-5.0);
    bus.cmd_yaw_rate = b(3.0);
    bus.cmd_throttle = b(0.7);
    fc.step(&mut bus, b(0.01));
    assert!(close(bus.fc_servo_aileron, 10.0, 1e-9));
    assert!(close(bus.fc_servo_elevator, -5.0, 1e-9));
    assert!(close(bus.fc_servo_rudder, 3.0, 1e-9));
    assert!(close(bus.fc_esc_throttle, 0.7, 0.05));
    assert_eq!(bus.fc_mode, FcMode::Manual);
}

#[test]
fn fc_attitude_tracks_error() {
    let (mut fc, mut bus) = make_fc(FcMode::Attitude);
    bus.true_quat = [b(1.0), b(0.0), b(0.0), b(0.0)];
    bus.gyro = v(0.0, 0.0, 0.0);
    bus.cmd_roll = b(0.2);
    bus.cmd_pitch = b(0.0);
    bus.cmd_yaw_rate = b(0.0);
    bus.cmd_throttle = b(0.6);
    fc.step(&mut bus, b(0.01));
    assert!(f(bus.fc_servo_aileron) > 1.0, "{}", f(bus.fc_servo_aileron));
    assert!(f(bus.fc_servo_elevator).abs() < 1.0, "{}", f(bus.fc_servo_elevator));
}

#[test]
fn fc_rate_mode_direct() {
    let (mut fc, mut bus) = make_fc(FcMode::Rate);
    bus.gyro = v(0.0, 0.0, 0.0);
    bus.cmd_roll = b(1.0);
    bus.cmd_pitch = b(0.0);
    bus.cmd_yaw_rate = b(0.0);
    fc.step(&mut bus, b(0.01));
    assert!(f(bus.fc_servo_aileron) > 0.5, "{}", f(bus.fc_servo_aileron));
    bus.gyro = v(1.0, 0.0, 0.0);
    fc.step(&mut bus, b(0.01));
    assert!(f(bus.fc_servo_aileron).abs() < 0.5, "{}", f(bus.fc_servo_aileron));
}

#[test]
fn fc_attitude_clamps_commands() {
    let (mut fc, mut bus) = make_fc(FcMode::Attitude);
    bus.cmd_roll = b(100.0);
    bus.cmd_pitch = b(100.0);
    fc.step(&mut bus, b(0.01));
    assert!(f(bus.fc_servo_aileron).is_finite());
    assert!(f(bus.fc_servo_elevator).is_finite());
}

fn gps(config: GpsConfig) -> Fitted<GpsSensor, Machine> {
    Fitted { device: GpsSensor::with_seed(config, 42), math: Machine }
}

fn quiet_gps() -> GpsConfig {
    GpsConfig { position_noise: b(0.0), velocity_noise: b(0.0), ..Default::default() }
}

#[test]
fn gps_writes_position() {
    let mut sensor = gps(quiet_gps());
    let mut bus =
        AvionicsBus { true_position_ned: v(100.0, 200.0, -50.0), ..Default::default() };
    sensor.init(b(0.01));
    bus.sim_time = b(0.11);
    sensor.step(&mut bus, b(0.01));
    assert!(close(bus.gps_position_ned.x, 100.0, 1e-9));
    assert!(close(bus.gps_position_ned.y, 200.0, 1e-9));
    assert!(close(bus.gps_position_ned.z, -50.0, 1e-9));
}

#[test]
fn gps_respects_update_rate() {
    let mut sensor = gps(GpsConfig { update_hz: b(10.0), ..quiet_gps() });
    let mut bus = AvionicsBus { true_position_ned: v(100.0, 0.0, 0.0), ..Default::default() };
    sensor.init(b(0.001));
    bus.sim_time = b(0.0);
    sensor.step(&mut bus, b(0.001));
    assert!(close(bus.gps_position_ned.x, 100.0, 1e-9));
    bus.true_position_ned = v(200.0, 0.0, 0.0);
    bus.sim_time = b(0.050);
    sensor.step(&mut bus, b(0.001));
    assert!(close(bus.gps_position_ned.x, 100.0, 1e-9), "should not update at 50ms");
    bus.sim_time = b(0.101);
    sensor.step(&mut bus, b(0.001));
    assert!(close(bus.gps_position_ned.x, 200.0, 1e-9), "should update at 101ms");
}

#[test]
fn gps_velocity_body_to_ned() {
    let mut sensor = gps(quiet_gps());
    let mut bus = AvionicsBus {
        true_quat: [b(1.0), b(0.0), b(0.0), b(0.0)],
        true_velocity_body: v(10.0, 0.0, 0.0),
        ..Default::default()
    };
    sensor.init(b(0.001));
    bus.sim_time = b(0.11);
    sensor.step(&mut bus, b(0.001));
    assert!(close(bus.gps_velocity_ned.x, 10.0, 1e-9));
}

#[test]
fn failed_receivers_have_no_fix() {
    let mut sensor = gps(quiet_gps());
    let mut bus = AvionicsBus { true_position_ned: v(100.0, 0.0, 0.0), ..Default::default() };
    bus.fc_fault_flags.set(FaultFlag::Gps, true);
    sensor.init(b(0.001));
    sensor.step(&mut bus, b(0.001));
    assert_eq!(bus.gps_fix_quality, 0);
    assert_eq!(f(bus.gps_position_ned.x), 0.0);
}

fn imu(config: ImuConfig) -> Fitted<ImuSensor, Machine> {
    Fitted { device: ImuSensor::with_seed(config, 42), math: Machine }
}

#[test]
fn imu_writes_gyro_output() {
    let config = ImuConfig { gyro_noise: b(0.0), accel_noise: b(0.0), ..Default::default() };
    let mut sensor = imu(config);
    let mut bus = AvionicsBus::default();
    bus.true_angular_rates = v(0.1, 0.2, 0.3);
    bus.sim_time = b(0.01);
    sensor.init(b(0.0025));
    sensor.step(&mut bus, b(0.0025));
    assert!(close(bus.gyro.x, 0.1, 1e-9));
    assert!(close(bus.gyro.y, 0.2, 1e-9));
    assert!(close(bus.gyro.z, 0.3, 1e-9));
}

#[test]
fn imu_respects_update_rate() {
    let config = ImuConfig {
        gyro_noise: b(0.0),
        accel_noise: b(0.0),
        update_hz: b(100.0),
        ..Default::default()
    };
    let mut sensor = imu(config);
    let mut bus = AvionicsBus::default();
    bus.true_angular_rates = v(1.0, 0.0, 0.0);
    sensor.init(b(0.001));
    bus.sim_time = b(0.0);
    sensor.step(&mut bus, b(0.001));
    assert!(close(bus.gyro.x, 1.0, 1e-9), "first sample should fire");
    bus.true_angular_rates = v(2.0, 0.0, 0.0);
    bus.sim_time = b(0.005);
    sensor.step(&mut bus, b(0.001));
    assert!(close(bus.gyro.x, 1.0, 1e-9), "should skip at 5ms");
    bus.sim_time = b(0.011);
    sensor.step(&mut bus, b(0.001));
    assert!(close(bus.gyro.x, 2.0, 1e-9), "should sample at 11ms");
}

#[test]
fn imu_noise_is_bounded() {
    let config = ImuConfig { gyro_noise: b(0.1), accel_noise: b(0.1), ..Default::default() };
    let mut sensor = imu(config);
    let mut bus = AvionicsBus::default();
    bus.true_angular_rates = v(0.0, 0.0, 0.0);
    sensor.init(b(0.0025));
    let mut max_gyro = 0.0f64;
    for i in 1..=10_000 {
        bus.sim_time = b(i as f64 * 0.01);
        sensor.step(&mut bus, b(0.01));
        max_gyro = max_gyro.max(f(bus.gyro.norm()));
    }
    assert!(max_gyro < 1.0, "gyro noise should be bounded, max was {max_gyro}");
    assert!(max_gyro > 0.0);
}

fn magnetometer(config: MagConfig) -> Fitted<MagnetometerSensor, Machine> {
    Fitted { device: MagnetometerSensor::with_seed(config, 42), math: Machine }
}

fn level_bus() -> AvionicsBus {
    AvionicsBus { true_quat: [b(1.0), b(0.0), b(0.0), b(0.0)], ..Default::default() }
}

#[test]
fn mag_identity_quat_passes_through_earth_field() {
    let config = MagConfig {
        noise: b(0.0),
        hard_iron: v(0.0, 0.0, 0.0),
        earth_field_ned: v(22_000.0, 5_400.0, 42_000.0),
        ..Default::default()
    };
    let mut sensor = magnetometer(config);
    let mut bus = level_bus();
    sensor.init(b(0.001));
    bus.sim_time = b(0.06);
    sensor.step(&mut bus, b(0.001));
    assert!(close(bus.mag_field_body.x, 22_000.0, 1.0));
    assert!(close(bus.mag_field_body.y, 5_400.0, 1.0));
    assert!(close(bus.mag_field_body.z, 42_000.0, 1.0));
}

#[test]
fn mag_hard_iron_offset() {
    let config = MagConfig {
        noise: b(0.0),
        hard_iron: v(500.0, -300.0, 200.0),
        earth_field_ned: v(22_000.0, 0.0, 0.0),
        ..Default::default()
    };
    let mut sensor = magnetometer(config);
    let mut bus = level_bus();
    sensor.init(b(0.001));
    bus.sim_time = b(0.06);
    sensor.step(&mut bus, b(0.001));
    assert!(close(bus.mag_field_body.x, 22_500.0, 1.0));
    assert!(close(bus.mag_field_body.y, -300.0, 1.0));
    assert!(close(bus.mag_field_body.z, 200.0, 1.0));
}

#[test]
fn mag_update_rate() {
    let config = MagConfig { noise: b(0.0), update_hz: b(20.0), ..Default::default() };
    let mut sensor = magnetometer(config);
    let mut bus = level_bus();
    sensor.init(b(0.001));
    bus.sim_time = b(0.0);
    sensor.step(&mut bus, b(0.001));
    let first: Vec3 = bus.mag_field_body;
    bus.sim_time = b(0.020);
    sensor.step(&mut bus, b(0.001));
    assert!(f(bus.mag_field_body.minus(first).norm()) < 1e-9);
    bus.sim_time = b(0.051);
    sensor.step(&mut bus, b(0.001));
    assert!(f(bus.mag_field_body.minus(first).norm()) < 1e-9);
    assert_eq!(f(bus.mag_sample_time), 0.051);
}

/// A passthrough sensor for testing: copies true angular rate to gyro output.
struct TestGyro {
    last_sample: f64,
}

impl AvionicsComponent for TestGyro {
    fn name(&self) -> &str {
        "TestGyro"
    }

    fn init(&mut self, _dt: Binary64) {}

    fn step(&mut self, bus: &mut AvionicsBus, _dt: Binary64) {
        bus.gyro = bus.true_angular_rates;
        self.last_sample = f(bus.sim_time);
    }

    fn reset(&mut self) {
        self.last_sample = 0.0;
    }
}

/// A passthrough actuator for testing: copies its servo command to output.
struct TestServo {
    command: Binary64,
}

impl AvionicsComponent for TestServo {
    fn name(&self) -> &str {
        "TestServo"
    }

    fn init(&mut self, _dt: Binary64) {}

    fn step(&mut self, bus: &mut AvionicsBus, _dt: Binary64) {
        self.command = bus.fc_servo_elevator;
        bus.actual_elevator_deg = self.command;
    }

    fn reset(&mut self) {
        self.command = b(0.0);
    }
}

/// A component that writes down what it is asked for.
struct Diary {
    entries: Rc<RefCell<Vec<(&'static str, f64)>>>,
    steps: u32,
}

impl AvionicsComponent for Diary {
    fn name(&self) -> &str {
        "Diary"
    }

    fn init(&mut self, dt: Binary64) {
        self.entries.borrow_mut().push(("init", f(dt)));
    }

    fn step(&mut self, bus: &mut AvionicsBus, dt: Binary64) {
        self.steps += 1;
        bus.battery_voltage = b(self.steps as f64);
        self.entries.borrow_mut().push(("step", f(dt)));
    }

    fn reset(&mut self) {
        self.steps = 0;
        self.entries.borrow_mut().push(("reset", 0.0));
    }
}

#[test]
fn registered_components_are_set_up_run_and_reset() {
    let entries = Rc::new(RefCell::new(Vec::new()));
    let diary = || Box::new(Diary { entries: entries.clone(), steps: 0 });
    let mut sys: AvionicsSystem<Machine> = AvionicsSystem::new(b(0.25));
    sys.add_sensor(diary());
    sys.add_controller(diary());
    sys.add_actuator(diary());
    sys.add_component(diary());
    sys.init();
    assert_eq!(*entries.borrow(), [("init", 0.25); 4]);
    entries.borrow_mut().clear();
    sys.step();
    sys.step();
    assert_eq!(*entries.borrow(), [("step", 0.25); 8]);
    assert_eq!(f(sys.bus().battery_voltage), 2.0);
    entries.borrow_mut().clear();
    sys.reset();
    assert_eq!(*entries.borrow(), [("reset", 0.0); 4]);
    sys.step();
    assert_eq!(f(sys.bus().battery_voltage), 1.0);
}

#[test]
fn speed_controllers_add_up_their_current() {
    let mut sys: AvionicsSystem<Machine> = AvionicsSystem::new(b(0.01));
    sys.add_component(Box::new(Esc::new(EscConfig::default())));
    sys.add_component(Box::new(Esc::new(EscConfig::default())));
    sys.bus_mut().fc_esc_throttle = b(1.0);
    for _ in 0..3 {
        sys.step();
        assert_eq!(f(sys.bus().battery_current), 10.0);
    }
    let mut esc = Esc::new(EscConfig::default());
    let mut bus = AvionicsBus { fc_esc_throttle: b(1.0), ..Default::default() };
    bus.battery_current = b(2.5);
    esc.step(&mut bus, b(0.01));
    assert_eq!(f(bus.battery_current), 7.5);
}

#[test]
fn system_initializes_with_no_components() {
    let mut sys: AvionicsSystem<Machine> = AvionicsSystem::new(b(1.0 / 60.0));
    sys.init();
    assert_eq!(sys.sensor_count(), 0);
    assert_eq!(f(sys.bus().sim_time), 0.0);
}

#[test]
fn sensor_writes_to_bus() {
    let mut sys: AvionicsSystem<Machine> = AvionicsSystem::new(b(1.0 / 60.0));
    sys.add_sensor(Box::new(TestGyro { last_sample: 0.0 }));
    sys.init();
    sys.bus_mut().true_angular_rates = v(0.1, 0.2, 0.3);
    sys.step();
    let gyro = sys.bus().gyro;
    assert!(close(gyro.x, 0.1, 1e-9));
    assert!(close(gyro.y, 0.2, 1e-9));
    assert!(close(gyro.z, 0.3, 1e-9));
    assert_eq!(f(sys.bus().sim_time), 1.0 / 60.0);
}

#[test]
fn actuator_writes_to_bus() {
    let mut sys: AvionicsSystem<Machine> = AvionicsSystem::new(b(1.0 / 60.0));
    sys.add_actuator(Box::new(TestServo { command: b(0.0) }));
    sys.init();
    sys.bus_mut().fc_servo_elevator = b(5.0);
    sys.step();
    assert!(close(sys.bus().actual_elevator_deg, 5.0, 1e-9));
}

#[test]
fn read_actuator_outputs_converts_to_radians() {
    let mut sys: AvionicsSystem<Machine> = AvionicsSystem::new(b(1.0 / 60.0));
    sys.add_actuator(Box::new(TestServo { command: b(0.0) }));
    sys.init();
    sys.bus_mut().fc_servo_elevator = b(10.0);
    sys.step();
    let out = sys.bus().read_actuator_outputs();
    assert!(close(out.elevator, 10.0_f64.to_radians(), 1e-9));
}

#[test]
fn reset_clears_state() {
    let mut sys: AvionicsSystem<Machine> = AvionicsSystem::new(b(1.0 / 60.0));
    sys.add_sensor(Box::new(TestGyro { last_sample: 0.0 }));
    sys.init();
    sys.bus_mut().true_angular_rates = v(1.0, 2.0, 3.0);
    sys.step();
    assert!(f(sys.bus().gyro.norm()) > 0.0);
    sys.reset();
    assert_eq!(f(sys.bus().sim_time), 0.0);
}

#[test]
fn components_run_in_stages() {
    let mut sys: AvionicsSystem<Machine> = AvionicsSystem::new(b(0.01));
    sys.add_actuator(Box::new(TestServo { command: b(0.0) }));
    let fc = FlightController::new(FlightControllerConfig::default());
    sys.add_controller(Box::new(FittedController::new(fc, Machine)));
    sys.init();
    sys.bus_mut().true_quat = [b(1.0), b(0.0), b(0.0), b(0.0)];
    sys.bus_mut().cmd_pitch = b(0.3);
    sys.step();
    let bus = sys.bus();
    assert!(f(bus.fc_servo_elevator) != 0.0);
    assert_eq!(bus.actual_elevator_deg, bus.fc_servo_elevator);
}

#[test]
fn standard_stacks_have_five_sensors() {
    let mut sys = standard_stack(b(1.0 / 60.0), &Machine);
    assert_eq!(sys.sensor_count(), 5);
    sys.init();
    sys.bus_mut().true_altitude = b(300.0);
    sys.step();
    assert!((f(sys.bus().baro_altitude) - 300.0).abs() < 10.0);
    assert_eq!(sys.fc_mode(), FcMode::Attitude);
}

#[test]
fn faults_are_found_by_name() {
    assert_eq!(fault_flag_from_str("gps"), Some(FaultFlag::Gps));
    assert_eq!(fault_flag_from_str("no such fault"), None);
    let mut flags = FaultFlags::default();
    assert!(flags.all_clear());
    flags.set(FaultFlag::Mag, true);
    assert!(flags.has(FaultFlag::Mag) && !flags.has(FaultFlag::Baro) && !flags.all_clear());
}

#[test]
fn gps_velocity_is_turned_back_from_the_body() {
    let mut sensor = gps(quiet_gps());
    let mut bus = AvionicsBus {
        true_quat: [b(0.5), b(0.5), b(0.5), b(0.5)],
        true_velocity_body: v(10.0, 0.0, 0.0),
        ..Default::default()
    };
    sensor.init(b(0.01));
    sensor.step(&mut bus, b(0.01));
    assert_eq!(bus.gps_velocity_ned, v(0.0, 0.0, 10.0));
}

#[test]
fn vibration_swings_by_sine_cosine_and_sine() {
    let config = ImuConfig {
        gyro_noise: b(0.0),
        accel_noise: b(0.0),
        vibration_scale: b(0.5),
        ..Default::default()
    };
    let mut sensor = imu(config);
    let mut bus = AvionicsBus::default();
    sensor.init(b(0.01));
    sensor.step(&mut bus, b(0.01));
    assert_eq!(bus.gyro, v(0.0, 0.5, 0.0));
    bus.sim_time = b(0.02);
    sensor.step(&mut bus, b(0.01));
    let angle = 0.01 * 25.0 * std::f64::consts::TAU;
    assert!(close(bus.gyro.x, 0.5 * angle.sin(), 1e-12));
    assert!(close(bus.gyro.y, 0.5 * (angle * 1.3).cos(), 1e-12));
    assert!(close(bus.gyro.z, 0.5 * (angle * 0.7).sin(), 1e-12));
}

#[test]
fn cleared_sensor_outputs_are_those_of_a_new_bus() {
    let mut bus = AvionicsBus {
        gps_fix_quality: 0,
        gps_hdop: b(99.9),
        gps_sample_time: b(5.0),
        imu_sample_time: b(5.0),
        baro_altitude: b(150.0),
        baro_sample_time: b(4.0),
        mag_sample_time: b(4.0),
        airspeed_sample_time: b(4.0),
        cmd_roll: b(0.2),
        true_altitude: b(7.0),
        ..AvionicsBus::default()
    };
    bus.fc_fault_flags.set(FaultFlag::Gps, true);
    bus.clear_sensor_outputs();
    assert_eq!(f(bus.baro_altitude), 0.0);
    assert_eq!(bus.gps_fix_quality, 3);
    assert_eq!(f(bus.gps_hdop), 1.0);
    for t in [
        bus.gps_sample_time,
        bus.imu_sample_time,
        bus.baro_sample_time,
        bus.mag_sample_time,
        bus.airspeed_sample_time,
    ] {
        assert_eq!(f(t), 0.0);
    }
    assert_eq!((f(bus.cmd_roll), f(bus.true_altitude)), (0.2, 7.0));
    assert!(bus.fc_fault_flags.gps_failed);
}

#[test]
fn depletion_outlasts_many_steps() {
    let mut a = standard_stack(b(0.01), &Machine);
    a.init();
    a.bus_mut().cmd_throttle = b(0.8);
    a.step();
    assert!(f(a.bus().actual_esc_output) > 0.0);
    a.inject_fault(FaultFlag::BatteryDepleted, true);
    for _ in 0..200 {
        a.bus_mut().cmd_throttle = b(1.0);
        a.step();
        assert_eq!(f(a.bus().actual_esc_output), 0.0);
    }
}

#[test]
fn integral_loops_keep_their_bound_and_start_over() {
    let config = PidConfig { ki: b(2.0), i_limit: b(0.25), out_limit: b(10.0), ..Default::default() };
    let mut pid = PidController::new(config);
    for _ in 0..1000 {
        assert!(f(pid.compute(b(1.0), b(0.0), b(0.01))).abs() <= 0.5);
    }
    pid.reset();
    let mut fresh = PidController::new(config);
    assert_eq!(pid.compute(b(1.0), b(0.2), b(0.01)), fresh.compute(b(1.0), b(0.2), b(0.01)));
}
