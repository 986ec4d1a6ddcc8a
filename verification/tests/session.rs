//! The interactive simulation and the wind tunnel with an aircraft in it.
use flight_core::binary64::Binary64;
use flight_core::cockpit::wind_from_settings;
use flight_core::config::{AircraftConfig, Propulsion};
use flight_core::elementary::{Elementary, ElementarySingle};
use flight_core::session::FlightSim;
use flight_core::single::Single;
use flight_core::tunnel::station::Station;
use flight_core::vector::Vec3;
use flight_core::wind::WindConfig;

fn b(x: f64) -> Binary64 {
    Binary64::from_bits(x.to_bits())
}

fn f(x: Binary64) -> f64 {
    f64::from_bits(x.to_bits())
}

fn v(x: f64, y: f64, z: f64) -> Vec3 {
    Vec3::new(b(x), b(y), b(z))
}

/// The elementary functions of the machine.
#[derive(Clone, Copy)]
struct Machine;

impl Elementary for Machine {
    fn sin(&self, x: Binary64) -> Binary64 {
        b(f(x).sin())
    }

    fn cos(&self, x: Binary64) -> Binary64 {
        b(f(x).cos())
    }

    fn asin(&self, x: Binary64) -> Binary64 {
        b(f(x).asin())
    }

    fn atan2(&self, y: Binary64, x: Binary64) -> Binary64 {
        b(f(y).atan2(f(x)))
    }

    fn hypot(&self, x: Binary64, y: Binary64) -> Binary64 {
        b(f(x).hypot(f(y)))
    }

    fn tanh(&self, x: Binary64) -> Binary64 {
        b(f(x).tanh())
    }

    fn exp(&self, x: Binary64) -> Binary64 {
        b(f(x).exp())
    }

    fn ln(&self, x: Binary64) -> Binary64 {
        b(f(x).ln())
    }

    fn powf(&self, x: Binary64, y: Binary64) -> Binary64 {
        b(f(x).powf(f(y)))
    }
}

fn s(x: f32) -> Single {
    Single::from_wide(b(x as f64))
}

fn g(x: Single) -> f32 {
    f(x.to_wide()) as f32
}

/// The elementary functions of the machine in single precision.
struct Small;

impl ElementarySingle for Small {
    fn sin(&self, x: Single) -> Single {
        s(g(x).sin())
    }

    fn cos(&self, x: Single) -> Single {
        s(g(x).cos())
    }

    fn exp(&self, x: Single) -> Single {
        s(g(x).exp())
    }
}

fn aircraft_default() -> AircraftConfig {
    AircraftConfig {
        mass: b(1100.0),
        wing_area: b(16.2),
        wing_span: b(11.0),
        chord: b(1.47),
        ixx: b(1300.0),
        iyy: b(1900.0),
        izz: b(2700.0),
        cl0: b(0.3),
        cla: b(5.5),
        cd0: b(0.025),
        k_drag: b(0.04),
        cm0: b(0.0),
        cma: b(-1.1),
        cmq: b(-20.0),
        cme: b(-0.6),
        thrust_max: b(1800.0),
        power_max: b(119_000.0),
        oswald_e: b(0.80),
        alpha_stall_pos: b(16.0_f64.to_radians()),
        alpha_stall_neg: b(-12.0_f64.to_radians()),
        cd_max: b(1.95),
        mach_crit: b(0.65),
        cm_adot: b(-3.0),
        thrust_arm: b(0.0),
        engine_count: 1,
        engine_lateral_arm: b(0.0),
        prop_torque_coeff: b(0.0),
        p_factor_coeff: b(0.0),
        gyro_coeff: b(0.0),
        throttle_split: b(0.0),
        propulsion: Propulsion::Propeller,
        cy_beta: b(-0.31),
        cy_dr: b(-0.15),
        cl_beta: b(-0.09),
        cl_p: b(-0.45),
        cl_r: b(0.10),
        cl_da: b(0.07),
        cl_dr: b(0.01),
        cn_beta: b(0.12),
        cn_p: b(-0.02),
        cn_r: b(-0.16),
        cn_da: b(-0.004),
        cn_dr: b(0.05),
        cl_flap: b(1.10),
        cd_flap: b(0.14),
        cm_flap: b(-0.20),
        flap_stall_shift: b(6.0_f64.to_radians()),
        spiral_nose_drop_cm: b(0.10),
        collision_panels: Vec::new(),
    }
}

fn calm() -> WindConfig {
    wind_from_settings(b(0.0), b(0.0), false, "light")
}

fn started() -> FlightSim<Machine> {
    let mut sim: FlightSim<Machine> = FlightSim::new();
    sim.start(aircraft_default(), calm(), &Machine);
    sim
}

fn altitude(sim: &FlightSim<Machine>) -> f64 {
    match &sim.craft {
        Some(c) => f(c.sim.state.altitude()),
        None => panic!("no aircraft"),
    }
}

#[test]
fn nothing_flies_without_an_aircraft() {
    let mut sim: FlightSim<Machine> = FlightSim::new();
    assert!(!sim.is_ready() && !sim.is_avionics_active());
    sim.step(b(0.02), &Machine);
    assert!(!sim.is_ready());
    assert!(sim.telemetry(&Machine).is_empty());
    assert!(sim.avionics_observation().is_empty());
    assert_eq!(sim.trim(b(100.0), b(50.0), &Machine), (b(0.0), b(0.0)));
    assert_eq!(sim.reset(&Machine), (b(0.0), b(0.0)));
    assert!(!sim.set_fault("imu", true));
    assert!(sim.pose().is_none());
}

#[test]
fn departures_are_level_and_flown_through_the_avionics() {
    let mut sim = started();
    assert!(sim.is_ready() && sim.is_avionics_active());
    assert_eq!(altitude(&sim), 1000.0);
    let t = sim.telemetry(&Machine);
    assert_eq!(t.len(), 44);
    assert_eq!(f(t[0]), 1000.0);
    assert!((f(t[2]) - 60.0).abs() < 1e-9);
    for _ in 0..60 {
        sim.step(b(1.0 / 60.0), &Machine);
    }
    assert!((altitude(&sim) - 1000.0).abs() < 15.0, "{}", altitude(&sim));
    assert!(sim.avionics_observation().iter().any(|x| f(*x) != 0.0));
}

#[test]
fn hands_on_the_stick_bypass_the_avionics() {
    let mut sim = started();
    let (e, t) = sim.trim(b(200.0), b(60.0), &Machine);
    assert_eq!(altitude(&sim), 200.0);
    assert_eq!(sim.cockpit.elevator_trim, e);
    sim.cockpit.set_controls(b(0.0), b(0.0), b(0.0), t, b(0.0));
    assert!(!sim.is_avionics_active());
    sim.set_auto_level(true);
    assert_eq!(f(sim.cockpit.target_alt), 200.0);
    for _ in 0..120 {
        sim.step(b(1.0 / 60.0), &Machine);
    }
    assert!((altitude(&sim) - 200.0).abs() < 20.0, "{}", altitude(&sim));
    sim.set_avionics_command(b(0.0), b(0.0), b(0.0), t);
    assert!(sim.is_avionics_active());
    sim.reset(&Machine);
    assert_eq!(altitude(&sim), 1000.0);
    sim.switch_aircraft(aircraft_default(), calm(), &Machine);
    assert_eq!(altitude(&sim), 50.0);
}

#[test]
fn faults_are_known_by_name() {
    let mut sim = started();
    assert!(sim.set_fault("imu", true));
    assert!(!sim.set_fault("flux", true));
    let failed = match &sim.craft {
        Some(c) => c.avionics.faults().imu_failed,
        None => false,
    };
    assert!(failed);
    assert!(sim.set_fault("imu", false));
}

#[test]
fn the_wind_can_be_changed_in_flight() {
    let mut sim = started();
    sim.set_wind(wind_from_settings(b(10.0), b(90.0), false, "light"));
    sim.step(b(1.0 / 60.0), &Machine);
    assert!(f(sim.last_wind.y) > 5.0, "{}", f(sim.last_wind.y));
    assert_eq!(f(sim.terrain_height_at(b(0.0), b(0.0), &Machine)), 0.0);
}

#[test]
fn aircraft_are_measured_in_the_tunnel() {
    let mut station = Station::new(&Small);
    assert!(!station.reading.has_aero());
    station.switch_aircraft(aircraft_default(), &Small);
    station.tunnel.settings.set_wind_speed(s(50.0));
    station.step(b(0.02), &Machine, &Small);
    assert!(station.reading.has_aero());
    assert!(!station.is_imported_shape());
    let axes = station.pose(&Machine);
    assert_eq!(g(axes.fwd.x), 1.0);
    assert!(f(station.reading.cl).abs() <= 3.0);
}

#[test]
fn shapes_are_measured_in_place_of_the_aircraft() {
    let mut station = Station::new(&Small);
    station.switch_aircraft(aircraft_default(), &Small);
    station.tunnel.settings.set_wind_speed(s(20.0));
    let corners = [
        v(1.0, 0.0, 0.0),
        v(-1.0, 1.0, 0.0),
        v(-1.0, -1.0, 1.0),
        v(-1.0, -1.0, -1.0),
    ];
    let faces = [[0, 1, 2], [0, 2, 3], [0, 3, 1], [1, 3, 2]];
    let n = station.set_imported_shape(&corners, &faces, 8, &Machine);
    assert!(n > 0 && station.is_imported_shape());
    station.step(b(0.02), &Machine, &Small);
    let shown = station.get_imported_aero().map(f);
    assert!(shown[0] > 0.0 && shown[1] > 0.0, "{shown:?}");
    assert_eq!(shown[4], 2.0);
    assert_eq!(f(station.reading.cl), 0.0);
    assert_eq!(station.set_imported_shape(&[], &[], 8, &Machine), 0);
    assert!(!station.is_imported_shape());
}
