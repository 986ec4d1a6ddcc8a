//! Collision shapes and the shapes of imported meshes.
use flight_core::binary64::Binary64;
use flight_core::config::CollisionPanel;
use flight_core::elementary::Elementary;
use flight_core::flight;
use flight_core::shape::{compute_shape_wind, ImportedAero, ShapeMetrics};
use flight_core::state::AircraftState;
use flight_core::vector::Vec3;
use flight_core::voxel::{mesh_metrics, voxelize_panels, Triangle};

fn b(x: f64) -> Binary64 {
    Binary64::from_bits(x.to_bits())
}

fn f(x: Binary64) -> f64 {
    f64::from_bits(x.to_bits())
}

fn v(x: f64, y: f64, z: f64) -> Vec3 {
    Vec3::new(b(x), b(y), b(z))
}

/// The elementary functions of the machine.
#[derive(Clone, Copy)]
struct Machine;

impl Elementary for Machine {
    fn sin(&self, x: Binary64) -> Binary64 {
        b(f(x).sin())
    }

    fn cos(&self, x: Binary64) -> Binary64 {
        b(f(x).cos())
    }

    fn asin(&self, x: Binary64) -> Binary64 {
        b(f(x).asin())
    }

    fn atan2(&self, y: Binary64, x: Binary64) -> Binary64 {
        b(f(y).atan2(f(x)))
    }

    fn hypot(&self, x: Binary64, y: Binary64) -> Binary64 {
        b(f(x).hypot(f(y)))
    }

    fn tanh(&self, x: Binary64) -> Binary64 {
        b(f(x).tanh())
    }

    fn exp(&self, x: Binary64) -> Binary64 {
        b(f(x).exp())
    }

    fn ln(&self, x: Binary64) -> Binary64 {
        b(f(x).ln())
    }

    fn powf(&self, x: Binary64, y: Binary64) -> Binary64 {
        b(f(x).powf(f(y)))
    }
}

fn panel(area: f64, n: [f64; 3], cp: [f64; 3], cd: f64) -> CollisionPanel {
    CollisionPanel { area: b(area), normal: n.map(b), cp: cp.map(b), cd: b(cd) }
}

fn norm(x: Vec3) -> f64 {
    f(x.norm())
}

fn imported(
    panels: &[CollisionPanel],
    stream: Vec3,
    wetted: f64,
    frontal: f64,
    len: f64,
) -> ImportedAero {
    let metrics =
        ShapeMetrics { wetted_area: b(wetted), frontal_area: b(frontal), reference_len: b(len) };
    flight::imported_shape_wind(&Machine, panels, stream, metrics)
}

#[test]
fn still_air_produces_no_shape_force() {
    let state = AircraftState::default();
    let panels = vec![
        panel(4.0, [1.0, 0.0, 0.0], [2.0, 0.0, 0.0], 1.5),
        panel(2.0, [0.0, 0.0, 1.0], [-1.5, 0.0, 0.5], 1.5),
    ];
    let load = compute_shape_wind(&state, &panels, Vec3::zeros());
    assert!(norm(load.force) < 1e-9 && norm(load.moment) < 1e-9);
}

#[test]
fn crosswind_on_fin_yaws() {
    let state = AircraftState::default();
    let fin = panel(1.6, [0.0, 0.0, 1.0], [-1.9, 0.0, 0.6], 1.8);
    let load = compute_shape_wind(&state, &[fin], v(0.0, 0.0, 5.0));
    assert!(f(load.force.z) > 0.0, "expected +Z force");
    assert!(f(load.moment.y) > 0.0, "fin should pitch");
    let expected = 0.5 * 1.225 * 25.0 * 1.6 * 1.8;
    assert!((f(load.force.z) - expected).abs() < 1e-9);
    assert!((f(load.moment.y) - 1.9 * expected).abs() < 1e-9);
}

fn cube_shell() -> Vec<CollisionPanel> {
    let faces: [([f64; 3], [f64; 3]); 6] = [
        ([1.0, 0.0, 0.0], [0.5, 0.0, 0.0]),
        ([-1.0, 0.0, 0.0], [-0.5, 0.0, 0.0]),
        ([0.0, 1.0, 0.0], [0.0, 0.5, 0.0]),
        ([0.0, -1.0, 0.0], [0.0, -0.5, 0.0]),
        ([0.0, 0.0, 1.0], [0.0, 0.0, 0.5]),
        ([0.0, 0.0, -1.0], [0.0, 0.0, -0.5]),
    ];
    faces.iter().map(|(n, cp)| panel(1.0, *n, *cp, 1.2)).collect()
}

#[test]
fn imported_still_air_is_zero() {
    let aero = imported(&cube_shell(), Vec3::zeros(), 6.0, 1.0, 1.0);
    assert!(norm(aero.force) < 1e-9 && norm(aero.moment) < 1e-9);
    assert!(f(aero.cd_frontal) == 0.0);
}

#[test]
fn imported_cube_has_bluff_cd_and_drag_along_stream() {
    let aero = imported(&cube_shell(), v(20.0, 0.0, 0.0), 6.0, 1.0, 1.0);
    assert!(f(aero.force.x) > 50.0, "expected substantial drag");
    assert!(f(aero.force.y).abs() < f(aero.force.x) * 1e-6);
    assert!(f(aero.force.z).abs() < f(aero.force.x) * 1e-6);
    let cd = f(aero.cd_frontal);
    assert!(cd > 0.6 && cd < 1.6, "cube Cd {cd} out of bluff range");
    let re = f(aero.re);
    assert!((re - 1.225 * 20.0 * 1.0 / 1.81e-5).abs() / re < 0.05);
    assert!(norm(aero.moment) < 1e-6, "centred cube moment");
}

#[test]
fn imported_slender_body_has_lower_cd() {
    let stream = v(20.0, 0.0, 0.0);
    let blunt = imported(&cube_shell(), stream, 6.0, 1.0, 1.0);
    let mut slender = Vec::new();
    for x in [-2.0, -1.0, 0.0, 1.0, 2.0] {
        slender.push(panel(0.25, [0.0, 1.0, 0.0], [x, 0.25, 0.0], 1.2));
        slender.push(panel(0.25, [0.0, -1.0, 0.0], [x, -0.25, 0.0], 1.2));
        slender.push(panel(0.25, [0.0, 0.0, 1.0], [x, 0.0, 0.25], 1.2));
        slender.push(panel(0.25, [0.0, 0.0, -1.0], [x, 0.0, -0.25], 1.2));
    }
    slender.push(panel(1.0, [1.0, 0.0, 0.0], [2.5, 0.0, 0.0], 1.2));
    slender.push(panel(1.0, [-1.0, 0.0, 0.0], [-2.5, 0.0, 0.0], 1.2));
    let slim = imported(&slender, stream, 7.0, 1.0, 5.0);
    assert!(f(slim.cd_frontal) < f(blunt.cd_frontal));
}

fn unit_box() -> (Vec<Vec3>, Vec<Triangle>) {
    let mut vertices = Vec::new();
    let mut triangles: Vec<Triangle> = Vec::new();
    let (x0, x1) = (-0.5, 0.5);
    let (y0, y1) = (-0.5, 0.5);
    let (z0, z1) = (-0.5, 0.5);
    let corners = [
        [x0, y0, z0],
        [x1, y0, z0],
        [x1, y1, z0],
        [x0, y1, z0],
        [x0, y0, z1],
        [x1, y0, z1],
        [x1, y1, z1],
        [x0, y1, z1],
    ]
    .map(|c| v(c[0], c[1], c[2]));
    let faces: [[usize; 4]; 6] = [
        [0, 1, 2, 3],
        [4, 6, 5, 7],
        [0, 5, 1, 4],
        [3, 2, 6, 7],
        [0, 4, 7, 3],
        [1, 5, 6, 2],
    ];
    for face in faces {
        vertices.push(corners[face[0]]);
        vertices.push(corners[face[1]]);
        vertices.push(corners[face[2]]);
        let base = triangles.len() * 3;
        triangles.push([base, base + 1, base + 2]);
        vertices.push(corners[face[0]]);
        vertices.push(corners[face[2]]);
        vertices.push(corners[face[3]]);
        let base = triangles.len() * 3;
        triangles.push([base, base + 1, base + 2]);
    }
    (vertices, triangles)
}

#[test]
fn box_yields_shell_of_panels() {
    let (vertices, triangles) = unit_box();
    let panels = voxelize_panels(&vertices, &triangles, 8, &Machine);
    assert!(!panels.is_empty(), "should have produced panels");
    let total_area: f64 = panels.iter().map(|p| f(p.area)).sum();
    let shell = 6.0 * (8.0 * 8.0) * (0.125 * 0.125);
    assert!(
        total_area > shell * 0.5 && total_area < shell * 1.2,
        "area {total_area} vs ~{shell}"
    );
    for p in &panels {
        let cp = p.cp.map(f);
        let maxcoord = cp[0].abs().max(cp[1].abs()).max(cp[2].abs());
        assert!(maxcoord >= 0.4 && maxcoord <= 0.7, "cp {cp:?} not on the hull");
    }
}

#[test]
fn opposite_panels_cancel() {
    let (vertices, triangles) = unit_box();
    let panels = voxelize_panels(&vertices, &triangles, 8, &Machine);
    for axis in 0..3 {
        let sum: f64 = panels.iter().map(|p| f(p.area) * f(p.normal[axis])).sum();
        assert!(sum.abs() < 1e-9, "{sum}");
    }
}

#[test]
fn empty_mesh_yields_no_panels() {
    assert!(voxelize_panels(&[], &[], 8, &Machine).is_empty());
}

#[test]
fn meshes_are_measured() {
    let vertices = [v(0.0, 0.0, 0.0), v(0.0, 2.0, 0.0), v(0.0, 0.0, 3.0)];
    let m = mesh_metrics(&vertices, &[[0, 1, 2]]);
    assert!((f(m.wetted_area) - 3.0).abs() < 1e-12);
    assert_eq!(f(m.size_y), 2.0);
    assert_eq!(f(m.size_z), 3.0);
}

#[test]
fn imported_drag_does_not_depend_on_the_panels() {
    let stream = v(-20.0, 5.0, 1.0);
    let metrics = ShapeMetrics {
        wetted_area: b(6.0),
        frontal_area: b(1.0),
        reference_len: b(1.0),
    };
    let cube = cube_shell();
    let part: Vec<CollisionPanel> = cube_shell().into_iter().take(1).collect();
    let whole = flight::imported_shape_wind(&Machine, &cube, stream, metrics);
    let one = flight::imported_shape_wind(&Machine, &part, stream, metrics);
    assert_eq!(whole.force, one.force);
    assert_eq!(whole.cd_frontal, one.cd_frontal);
    let size = f(whole.force.norm());
    let speed = f(stream.norm());
    let expected = 0.5 * 1.225 * speed * speed * f(whole.cd_frontal) * f(whole.frontal_area);
    assert!((size / expected - 1.0).abs() < 1e-12);
    assert!(f(whole.force.dot(stream)) / (size * speed) > 1.0 - 1e-12);
    assert!(f(one.moment.dot(one.force)).abs() < 1e-9);
}
