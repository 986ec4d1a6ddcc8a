//! Single precision and the wind tunnel.
use flight_core::binary64::Binary64;
use flight_core::elementary::ElementarySingle;
use flight_core::shape::ImportedAero;
use flight_core::single::{Single, Vector};
use flight_core::tunnel::bench::{Aspect, WindTunnel};
use flight_core::tunnel::body::separation;
use flight_core::tunnel::grid::{Axes, FlowGrid};
use flight_core::tunnel::lattice::{fin, wing, VlmSurface};
use flight_core::tunnel::linear::solve_linear;
use flight_core::tunnel::reading::{
    attitude_axes, attitude_state, euler_to_quat, flow_wind, shape_reading, HalfAngles,
};
use flight_core::tunnel::settings::{wind_velocity, Settings};
use flight_core::tunnel::smoke::{nozzle_at, rake_slot, top_rake_slot, PARTICLE_COUNT};
use flight_core::tunnel::vortex::{
    biot_savart_seg, biot_savart_semi, Shedding, VortexSegment, MAX_SHED,
};
use flight_core::vector::Vec3;

fn b(x: f64) -> Binary64 {
    Binary64::from_bits(x.to_bits())
}

fn f(x: Binary64) -> f64 {
    f64::from_bits(x.to_bits())
}

fn s(x: f32) -> Single {
    Single::from_wide(b(x as f64))
}

fn g(x: Single) -> f32 {
    f(x.to_wide()) as f32
}

fn vector(x: f32, y: f32, z: f32) -> Vector {
    Vector { x: s(x), y: s(y), z: s(z) }
}

/// The elementary functions of the machine.
struct Machine;

impl ElementarySingle for Machine {
    fn sin(&self, x: Single) -> Single {
        s(g(x).sin())
    }

    fn cos(&self, x: Single) -> Single {
        s(g(x).cos())
    }

    fn exp(&self, x: Single) -> Single {
        s(g(x).exp())
    }
}

fn samples() -> Vec<f32> {
    let mut r = vec![
        0.0,
        -0.0,
        1.0,
        -1.5,
        0.1,
        3.3333333,
        1e-10,
        -7.25e6,
        16777217.0,
        f32::MIN_POSITIVE,
        1e-40,
        f32::MAX,
        -1e30,
    ];
    let mut x: u32 = 12345;
    for _ in 0..300 {
        x = x.wrapping_mul(1664525).wrapping_add(1013904223);
        r.push(f32::from_bits(x & 0xbfff_ffff));
    }
    r
}

fn same(x: Single, y: f32) -> bool {
    let v = f(x.to_wide());
    (v.is_nan() && y.is_nan()) || (v as f32).to_bits() == y.to_bits() && v == y as f64
}

#[test]
fn single_arithmetic_is_that_of_the_machine() {
    let all = samples();
    for x in &all {
        assert!(same(s(*x), *x), "{x}");
        assert!(same(s(*x).sqrt(), x.sqrt()), "sqrt {x}");
        assert!(same(s(*x).floor(), x.floor()), "floor {x}");
        assert!(same(s(*x).fract(), x.fract()), "fract {x}");
        assert!(same(s(*x).abs(), x.abs()), "abs {x}");
        for y in &all {
            assert!(same(s(*x).plus(s(*y)), x + y), "{x} + {y}");
            assert!(same(s(*x).minus(s(*y)), x - y), "{x} - {y}");
            assert!(same(s(*x).times(s(*y)), x * y), "{x} * {y}");
            assert!(same(s(*x).over(s(*y)), x / y), "{x} / {y}");
            assert!(s(*x).lt(s(*y)) == (x < y));
            assert!(s(*x).le(s(*y)) == (x <= y));
        }
    }
}

#[test]
fn single_remainders_are_not_negative() {
    assert_eq!(g(s(-30.0).rem_euclid(s(360.0))), (-30.0f32).rem_euclid(360.0));
    assert_eq!(g(s(725.5).rem_euclid(s(360.0))), 725.5f32.rem_euclid(360.0));
}

#[test]
fn linear_systems_are_solved() {
    let a = [4.0, -2.0, 1.0, -2.0, 4.0, -2.0, 1.0, -2.0, 4.0].map(s);
    let rhs = [11.0, -16.0, 17.0].map(s);
    let mut x = vec![s(0.0); 3];
    solve_linear(&a, &rhs, &mut x, 3);
    let found: Vec<f32> = x.iter().map(|v| g(*v)).collect();
    for (got, want) in found.iter().zip([1.0, -2.0, 3.0]) {
        assert!((got - want).abs() < 1e-5, "{found:?}");
    }
}

#[test]
fn vortices_induce_circles() {
    let seg = VortexSegment {
        a: vector(0.0, 0.0, -50.0),
        b: vector(0.0, 0.0, 50.0),
        gamma: s(1.0),
    };
    let v = biot_savart_seg(vector(2.0, 0.0, 0.0), seg);
    let expected = 1.0 / (2.0 * std::f32::consts::PI * 2.0);
    assert!((g(v.y).abs() - expected).abs() < 0.01 * expected, "{}", g(v.y));
    assert!(g(v.x).abs() < 1e-6 && g(v.z).abs() < 1e-6);
    let half =
        biot_savart_semi(vector(2.0, 0.0, 0.0), vector(0.0, 0.0, 0.0), vector(0.0, 0.0, 1.0), s(1.0));
    assert!((g(half.norm()) - expected / 2.0).abs() < 0.02 * expected);
}

#[test]
fn vortices_are_shed_on_alternating_sides_and_forgotten() {
    let mut shed = Shedding { vortices: Vec::new(), timer: s(0.0), phase: s(0.0) };
    shed.update(s(0.5), s(10.0));
    assert!(shed.vortices.is_empty());
    for _ in 0..200 {
        shed.update(s(60.0), s(0.05));
    }
    assert!(!shed.vortices.is_empty() && shed.vortices.len() <= MAX_SHED);
    assert!(shed.vortices.iter().any(|v| g(v.gamma) > 0.0));
    assert!(shed.vortices.iter().any(|v| g(v.gamma) < 0.0));
    assert!(shed.vortices.iter().all(|v| g(v.age) < g(v.lifespan)));
}

#[test]
fn fins_carry_more_circulation_at_larger_angles() {
    let cant = 38.0f32.to_radians();
    let mut surface: VlmSurface = fin(s(1.0), s(cant.sin()), s(cant.cos()));
    assert_eq!(surface.n_panels, 5);
    let at = |surface: &mut VlmSurface, alpha: f32| {
        surface.solve(s(alpha.cos()), s(alpha.sin()), s(30.0));
        g(surface.gamma[2]).abs()
    };
    let small = at(&mut surface, 0.05);
    let large = at(&mut surface, 0.1);
    assert!(large > 1.5 * small && small > 0.0, "{small} {large}");
    surface.solve(s(1.0), s(0.0), s(0.1));
    assert!(surface.gamma.iter().all(|x| g(*x) == 0.0));
}

#[test]
fn wings_meet_no_induced_flow_across_their_panels() {
    let mut surface: VlmSurface = wing();
    assert_eq!(surface.n_panels, 13);
    surface.solve(s(0.05f32.cos()), s(0.05f32.sin()), s(30.0));
    assert!(surface.gamma.iter().all(|x| g(*x) == 0.0));
    assert!(surface.rhs.iter().all(|x| g(*x) == -(30.0 * 0.05f32.sin())));
}

#[test]
fn flow_separates_above_the_stall() {
    assert_eq!(g(separation(s(5.0f32.to_radians()))), 0.0);
    assert_eq!(g(separation(s(25.0f32.to_radians()))), 1.0);
}

#[test]
fn nozzles_stand_in_two_rakes() {
    assert_eq!(nozzle_at(0), rake_slot(0, 0));
    assert_eq!(nozzle_at(65), rake_slot(10, 5));
    assert_eq!(nozzle_at(66), top_rake_slot(0, 0));
    assert_eq!(nozzle_at(95), top_rake_slot(5, 4));
    assert_eq!(g(rake_slot(0, 5).z), 5.0);
    assert_eq!(g(top_rake_slot(5, 0).x), -3.5);
}

#[test]
fn settings_are_limited_and_shown_in_degrees() {
    let mut t = Settings::new();
    t.set_wind_speed(s(500.0));
    assert_eq!(g(t.wind_speed), 120.0);
    t.set_wind_speed(s(-3.0));
    assert_eq!(g(t.wind_speed), 1.0);
    t.set_wind_direction(s(-90.0));
    t.set_attitude(s(10.0), s(0.0), s(0.0));
    t.set_controls(s(90.0), s(-90.0), s(5.0));
    t.set_throttle(b(3.0));
    t.set_throttle_split(b(-3.0));
    t.set_flaps_deg(s(20.0));
    assert_eq!(g(t.aileron), 0.35);
    assert_eq!(g(t.rudder), -0.35);
    assert_eq!(f(t.throttle), 1.0);
    assert_eq!(f(t.throttle_split), -1.0);
    let shown = t.get_settings().map(f);
    assert!((shown[1] - 270.0).abs() < 1e-3, "{}", shown[1]);
    assert!((shown[2] - 10.0).abs() < 1e-4);
    assert_eq!(shown[8], 20.0);
}

#[test]
fn level_aircraft_meet_the_stream_head_on() {
    let h = HalfAngles {
        sin_roll: b(0.0),
        cos_roll: b(1.0),
        sin_pitch: b(0.0),
        cos_pitch: b(1.0),
        sin_yaw: b(0.0),
        cos_yaw: b(1.0),
    };
    let state = attitude_state(euler_to_quat(h), flow_wind(b(0.0), b(1.0), b(40.0)));
    assert_eq!(f(state.u), -40.0);
    let axes = attitude_axes(&state);
    assert_eq!(g(axes.fwd.x), 1.0);
    assert_eq!(g(axes.up.y), 1.0);
    assert_eq!(g(axes.right.z), 1.0);
}

#[test]
fn readings_show_lift_drag_and_side_force() {
    let mut aero = ImportedAero::default();
    assert!(!shape_reading(&aero).has_aero());
    assert_eq!(shape_reading(&aero).get_aero().map(f), [0.0; 7]);
    aero.force = Vec3::new(b(-3.0), b(2.0), b(-5.0));
    let r = shape_reading(&aero);
    assert!(r.has_aero());
    assert_eq!(r.get_aero().map(f)[..3], [5.0, 3.0, 2.0]);
    assert_eq!(r.get_aero_magnitudes().map(f), [5.0, 3.0, 2.0, 0.0]);
}

#[test]
fn smoke_is_carried_through_the_tunnel() {
    let mut settings = Settings::new();
    settings.set_wind_speed(s(30.0));
    settings.set_attitude(s(5.0), s(0.0), s(0.0));
    let alpha = g(settings.pitch);
    let mut tunnel = WindTunnel::new(settings, &Machine);
    let aspect = Aspect {
        cos_alpha: s(alpha.cos()),
        sin_alpha: s(alpha.sin()),
        towards: wind_velocity(s(0.0), s(1.0)),
        axes: Axes {
            fwd: vector(1.0, 0.0, 0.0),
            up: vector(0.0, 1.0, 0.0),
            right: vector(0.0, 0.0, 1.0),
        },
    };
    tunnel.step(s(0.05), aspect, &Machine);
    assert_eq!(tunnel.particles.len(), PARTICLE_COUNT);
    assert_eq!(tunnel.get_particles().len(), 6 * PARTICLE_COUNT);
    assert!(!tunnel.filaments.is_empty());
    assert_eq!(tunnel.cp.len(), 13 + 5 + 5);
    assert_eq!(tunnel.get_surface_cp().len(), 7 * tunnel.cp.len());
    assert!(tunnel.cp.iter().all(|c| g(c.cp) >= -3.0 && g(c.cp) <= 2.0));
    assert_eq!(tunnel.get_vlm_gamma().len(), 28);
    let p = tunnel.particles[0];
    assert!((g(p.pos.x) - (9.0 - 30.0 * 0.05)).abs() < 1.0, "{}", g(p.pos.x));
    assert_eq!(g(p.age), 0.05);
    let far = vector(0.0, 100.0, 0.0);
    let fallback = vector(-30.0, 0.0, 0.0);
    assert_eq!(tunnel.grid.sample(far, fallback), fallback);
    tunnel.reset_trails(&Machine);
    assert_eq!(g(tunnel.particles[7999].age), 2.0);
    tunnel.step(s(0.05), aspect, &Machine);
    assert_eq!(g(tunnel.particles[7999].age), 0.0);
    assert!(tunnel.emit > 0);
    assert!(FlowGrid::new().data.is_empty());
}
