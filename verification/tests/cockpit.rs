//! What the pilot sets and sees.
use flight_core::avionics::bus::AvionicsBus;
use flight_core::binary64::Binary64;
use flight_core::cockpit::{
    config_candidates, full_telemetry, heading, step_time, telemetry, terrain_samples,
    wind_from_settings, Cockpit, TelemetryAngles,
};
use flight_core::elementary::Elementary;
use flight_core::flight;
use flight_core::state::AircraftState;
use flight_core::wind::TurbulenceIntensity;

fn b(x: f64) -> Binary64 {
    Binary64::from_bits(x.to_bits())
}

fn f(x: Binary64) -> f64 {
    f64::from_bits(x.to_bits())
}

/// The elementary functions of the machine.
#[derive(Clone, Copy)]
struct Machine;

impl Elementary for Machine {
    fn sin(&self, x: Binary64) -> Binary64 {
        b(f(x).sin())
    }

    fn cos(&self, x: Binary64) -> Binary64 {
        b(f(x).cos())
    }

    fn asin(&self, x: Binary64) -> Binary64 {
        b(f(x).asin())
    }

    fn atan2(&self, y: Binary64, x: Binary64) -> Binary64 {
        b(f(y).atan2(f(x)))
    }

    fn hypot(&self, x: Binary64, y: Binary64) -> Binary64 {
        b(f(x).hypot(f(y)))
    }

    fn tanh(&self, x: Binary64) -> Binary64 {
        b(f(x).tanh())
    }

    fn exp(&self, x: Binary64) -> Binary64 {
        b(f(x).exp())
    }

    fn ln(&self, x: Binary64) -> Binary64 {
        b(f(x).ln())
    }

    fn powf(&self, x: Binary64, y: Binary64) -> Binary64 {
        b(f(x).powf(f(y)))
    }
}

#[test]
fn configurations_are_searched_upwards() {
    let c = config_candidates("aircraft.toml");
    assert_eq!(c[0], "aircraft.toml");
    assert!(c.iter().any(|p| p == "../aircraft.toml"));
    assert!(c.iter().any(|p| p == "../../aircraft.toml"));
}

#[test]
fn controls_are_limited() {
    let mut c = Cockpit::trimmed(b(-0.05), b(0.4), b(0.0), b(1000.0));
    c.set_controls(b(1.0), b(-1.0), b(0.1), b(2.0), b(10.0));
    let m = c.manual_controls();
    assert!(f(m.throttle) <= 1.0);
    assert!((f(m.flap) - 10.0f64.to_radians()).abs() < 1e-12);
    assert!(f(m.elevator) <= 0.6 && f(m.aileron) >= -0.6);
    c.set_throttle_split(b(7.0));
    assert_eq!(f(c.throttle_split), 1.0);
}

#[test]
fn avionics_take_over_and_give_back() {
    let mut c = Cockpit::trimmed(b(0.0), b(0.4), b(0.0), b(1000.0));
    let mut bus = AvionicsBus::default();
    c.set_avionics_command(&mut bus, b(0.1), b(0.2), b(0.0), b(0.7));
    assert!(c.avionics_active);
    assert_eq!(f(bus.cmd_roll), 0.1);
    assert_eq!(f(bus.cmd_throttle), 0.7);
    c.set_controls(b(0.0), b(0.0), b(0.0), b(0.5), b(0.0));
    assert!(!c.avionics_active);
}

#[test]
fn autopilot_holds_the_wings_level() {
    let mut c = Cockpit::trimmed(b(0.0), b(0.4), b(0.0), b(1000.0));
    let s = AircraftState::default();
    c.set_auto_level(true, Some(s.altitude()));
    c.autopilot(&s, b(0.3), b(0.0));
    assert_eq!(f(c.aileron), 0.0);
    c.set_controls(b(0.0), b(0.0), b(0.0), b(0.5), b(0.0));
    c.set_auto_level(true, Some(s.altitude()));
    c.autopilot(&s, b(0.3), b(0.0));
    assert!((f(c.aileron) + 0.75 * 0.3).abs() < 1e-12, "{}", f(c.aileron));
    assert_eq!(f(c.elevator), 0.0);
}

#[test]
fn wind_is_made_of_settings() {
    let w = wind_from_settings(b(12.0), b(90.0), true, "severe");
    assert_eq!(f(w.wind_speed), 12.0);
    assert!((f(w.wind_direction) - std::f64::consts::FRAC_PI_2).abs() < 1e-12);
    assert_eq!(w.turbulence, TurbulenceIntensity::Severe);
    assert!(w.wind_shear);
}

#[test]
fn telemetry_is_in_shown_units() {
    let c = Cockpit::trimmed(b(0.0), b(0.4), b(0.0), b(1000.0));
    let s = AircraftState::default();
    let air = flight::air(&Machine, s.altitude());
    let a = TelemetryAngles {
        alpha: b(0.1),
        beta: b(0.0),
        roll: b(0.0),
        pitch: b(0.0),
        yaw: b(-0.5),
        climb: b(0.0),
        wind: b(0.0),
    };
    let wind = flight_core::vector::Vec3::zeros();
    let t = telemetry(&c, &s, wind, &air, b(60.0), a);
    assert!(t.iter().any(|x| (f(*x) - 0.1f64.to_degrees()).abs() < 1e-9));
    assert_eq!(full_telemetry(&t, None).len(), 25);
    assert_eq!(full_telemetry(&t, Some(&AvionicsBus::default())).len(), 44);
    assert!((f(heading(b(-0.5))) - (360.0 - 0.5f64.to_degrees())).abs() < 1e-9);
}

#[test]
fn steps_and_samples_are_checked() {
    assert!(f(step_time(b(10.0))) < 10.0);
    assert_eq!(terrain_samples(3, 4, 12), Some(12));
    assert_eq!(terrain_samples(3, 4, 11), None);
    assert_eq!(terrain_samples(0, -1, 4), Some(4));
}

#[test]
fn steps_of_zero_are_sixtieths_of_a_second() {
    assert_eq!(f(step_time(b(0.0))), 1.0 / 60.0);
    assert_eq!(f(step_time(b(-0.0))), 1.0 / 60.0);
    assert_eq!(f(step_time(b(-1.0))), 1e-4);
    assert_eq!(f(step_time(b(0.02))), 0.02);
    assert_eq!(f(step_time(b(5.0))), 0.1);
}
