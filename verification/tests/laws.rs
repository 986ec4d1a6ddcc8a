//! The laws of the library on chosen values.
use flight_core::aero::{engine_thrusts, stall_angle, ControlInputs};
use flight_core::atmosphere::{Atmosphere, Layer};
use flight_core::avionics::bus::{FaultFlag, FaultFlags, FcMode};
use flight_core::avionics::flight_controller::{FlightController, FlightControllerConfig};
use flight_core::avionics::traits::Controller;
use flight_core::binary64::Binary64;
use flight_core::config::{AircraftConfig, Propulsion};
use flight_core::elementary::Elementary;
use flight_core::env::{controls_of, ControlAction, EnvConfig};
use flight_core::prng::Prng;
use flight_core::rotation::Rotation;
use flight_core::single::{Single, Vector};
use flight_core::state::AircraftState;
use flight_core::terrain::{vertical_wind, Slope};
use flight_core::text::text_earlier;
use flight_core::tunnel::body::{body_push, separation};
use flight_core::tunnel::grid::FlowGrid;
use flight_core::vector::Vec3;
use flight_core::weather::config::WeatherConfig;
use flight_core::weather::curriculum::WeatherCurriculum;
use flight_core::weather::levels::{CurriculumPhase, WeatherPreset, WeatherSeverity};
use flight_core::weather::normalizer::ObservationNormalizer;
use flight_core::weather::system::{SceneDraws, WeatherSystem};

fn b(x: f64) -> Binary64 {
    Binary64::from_bits(x.to_bits())
}

fn f(x: Binary64) -> f64 {
    f64::from_bits(x.to_bits())
}

fn v(x: f64, y: f64, z: f64) -> Vec3 {
    Vec3::new(b(x), b(y), b(z))
}

/// The elementary functions of the machine.
#[derive(Clone, Copy)]
struct Machine;

impl Elementary for Machine {
    fn sin(&self, x: Binary64) -> Binary64 {
        b(f(x).sin())
    }

    fn cos(&self, x: Binary64) -> Binary64 {
        b(f(x).cos())
    }

    fn asin(&self, x: Binary64) -> Binary64 {
        b(f(x).asin())
    }

    fn atan2(&self, y: Binary64, x: Binary64) -> Binary64 {
        b(f(y).atan2(f(x)))
    }

    fn hypot(&self, x: Binary64, y: Binary64) -> Binary64 {
        b(f(x).hypot(f(y)))
    }

    fn tanh(&self, x: Binary64) -> Binary64 {
        b(f(x).tanh())
    }

    fn exp(&self, x: Binary64) -> Binary64 {
        b(f(x).exp())
    }

    fn ln(&self, x: Binary64) -> Binary64 {
        b(f(x).ln())
    }

    fn powf(&self, x: Binary64, y: Binary64) -> Binary64 {
        b(f(x).powf(f(y)))
    }
}

fn aircraft_default() -> AircraftConfig {
    AircraftConfig {
        mass: b(1100.0),
        wing_area: b(16.2),
        wing_span: b(11.0),
        chord: b(1.47),
        ixx: b(1300.0),
        iyy: b(1900.0),
        izz: b(2700.0),
        cl0: b(0.3),
        cla: b(5.5),
        cd0: b(0.025),
        k_drag: b(0.04),
        cm0: b(0.0),
        cma: b(-1.1),
        cmq: b(-20.0),
        cme: b(-0.6),
        thrust_max: b(1800.0),
        power_max: b(119_000.0),
        oswald_e: b(0.80),
        alpha_stall_pos: b(16.0_f64.to_radians()),
        alpha_stall_neg: b(-12.0_f64.to_radians()),
        cd_max: b(1.95),
        mach_crit: b(0.65),
        cm_adot: b(-3.0),
        thrust_arm: b(0.0),
        engine_count: 1,
        engine_lateral_arm: b(0.0),
        prop_torque_coeff: b(0.0),
        p_factor_coeff: b(0.0),
        gyro_coeff: b(0.0),
        throttle_split: b(0.0),
        propulsion: Propulsion::Propeller,
        cy_beta: b(-0.31),
        cy_dr: b(-0.15),
        cl_beta: b(-0.09),
        cl_p: b(-0.45),
        cl_r: b(0.10),
        cl_da: b(0.07),
        cl_dr: b(0.01),
        cn_beta: b(0.12),
        cn_p: b(-0.02),
        cn_r: b(-0.16),
        cn_da: b(-0.004),
        cn_dr: b(0.05),
        cl_flap: b(1.10),
        cd_flap: b(0.14),
        cm_flap: b(-0.20),
        flap_stall_shift: b(6.0_f64.to_radians()),
        spiral_nose_drop_cm: b(0.10),
        collision_panels: Vec::new(),
    }
}

fn s(x: f32) -> Single {
    Single::from_wide(b(x as f64))
}

fn g(x: Single) -> f32 {
    f(x.to_wide()) as f32
}

fn vector(x: f32, y: f32, z: f32) -> Vector {
    Vector { x: s(x), y: s(y), z: s(z) }
}

fn middle_draws() -> SceneDraws {
    SceneDraws {
        wind_speed: b(0.5),
        wind_dir: b(0.25),
        rain: b(0.75),
        visibility: b(0.5),
        updraft: b(0.9),
        roll: b(0.1),
    }
}

#[test]
fn engines_share_the_throttle() {
    let mut twin = aircraft_default();
    twin.engine_count = 2;
    let at = |split: f64| engine_thrusts(&twin, b(0.6), b(split), b(50.0), b(1.0));
    assert_eq!(at(0.0).left, at(0.0).right);
    assert_eq!(at(1.0), at(7.0));
    assert_eq!(f(at(1.0).right), 0.0);
    assert_eq!(f(at(-1.0).left), 0.0);
    let full = engine_thrusts(&twin, b(1.0), b(1.0), b(30.0), b(1.0));
    assert_eq!((f(full.left), f(full.right), f(full.single)), (900.0, 0.0, 0.0));
    let single = engine_thrusts(&aircraft_default(), b(0.6), b(1.0), b(50.0), b(1.0));
    assert_eq!((f(single.left), f(single.right)), (0.0, 0.0));
}

#[test]
fn flaps_do_not_raise_the_stall_angle() {
    let config = aircraft_default();
    let at = |flap: f64| {
        let c = ControlInputs {
            elevator: b(0.0),
            aileron: b(0.0),
            rudder: b(0.0),
            throttle: b(0.5),
            flap: b(flap),
        };
        f(stall_angle(&config, c))
    };
    assert!(at(0.5) < at(0.0));
}

#[test]
fn layers_follow_each_other() {
    let at = |h: f64| Atmosphere::layer(b(h));
    assert_eq!(at(5_000.0), Layer::Troposphere);
    assert_eq!(at(15_000.0), Layer::Tropopause);
    assert_eq!(at(25_000.0), Layer::Stratosphere);
    assert_eq!(at(40_000.0), Layer::UpperStratosphere);
    assert_eq!(at(50_000.0), Layer::Stratopause);
    assert_eq!(at(60_000.0), Layer::Mesosphere);
    assert_eq!(at(80_000.0), Layer::UpperMesosphere);
    assert_eq!(at(90_000.0), Layer::Beyond);
    let t = |h: f64| f(flight_core::flight::air(&Machine, b(h)).temperature);
    assert_eq!(t(12_000.0), t(18_000.0));
}

#[test]
fn faults_are_set_one_by_one_and_undone() {
    let mut flags = FaultFlags::default();
    flags.set(FaultFlag::Gps, true);
    assert!(flags.has(FaultFlag::Gps) && !flags.has(FaultFlag::Imu));
    flags.set(FaultFlag::Gps, false);
    assert_eq!(flags, FaultFlags::default());
}

#[test]
fn changes_of_mode_forget_the_past() {
    let mut a = FlightController::new(FlightControllerConfig::default());
    let b2 = FlightController::new(FlightControllerConfig::default());
    let mut bus = flight_core::avionics::bus::AvionicsBus::default();
    bus.cmd_roll = b(0.4);
    a.step(&mut bus, b(0.01), b(0.0), b(0.0));
    assert_ne!(a, b2);
    let mut c = b2;
    a.set_mode(FcMode::Rate);
    c.set_mode(FcMode::Rate);
    assert_eq!(a, c);
}

#[test]
fn actions_reach_the_aircraft_within_their_ranges() {
    let cfg = EnvConfig::default();
    let mut action = ControlAction::neutral();
    action.throttle = b(5.0);
    action.elevator = b(-9.0);
    let c = controls_of(&cfg, action);
    assert_eq!(f(c.throttle), 1.0);
    assert_eq!(f(c.elevator), -f(cfg.max_elevator));
}

#[test]
fn draws_are_fixed_by_the_seed() {
    let (mut p, mut q) = (Prng::new(7), Prng::new(7));
    for _ in 0..1000 {
        let x = f(p.next_f64());
        assert_eq!(x, f(q.next_f64()));
        assert!((0.0..1.0).contains(&x));
    }
    assert_ne!(Prng::new(0).state, 0);
}

#[test]
fn rotations_can_be_undone_and_leave_rest_at_rest() {
    let r = Rotation::new_normalize(b(0.9), b(0.1), b(-0.3), b(0.2));
    assert_eq!(r.inverse().inverse(), r);
    let x = r.transform_vector(Vec3::zeros());
    assert_eq!((f(x.x), f(x.y), f(x.z)), (0.0, 0.0, 0.0));
}

#[test]
fn still_air_gives_the_speed_over_the_ground() {
    let mut state = AircraftState::default();
    state.u = b(57.3);
    state.v = b(-2.1);
    state.w = b(4.4);
    state.q1 = b(0.2);
    assert_eq!(state.true_airspeed(Vec3::zeros()), state.airspeed());
    assert_ne!(state.true_airspeed(v(5.0, 0.0, 0.0)), state.airspeed());
}

#[test]
fn narrow_numbers_stay_as_they_are() {
    let x = s(0.1);
    assert_eq!(Single::from_wide(x.to_wide()), x);
    assert_ne!(f(x.to_wide()), 0.1);
}

#[test]
fn texts_are_in_order() {
    let texts = ["", "a", "ab", "b"];
    for i in 0..4 {
        for j in 0..4 {
            assert_eq!(text_earlier(texts[i], texts[j]), i < j);
        }
    }
}

#[test]
fn updrafts_have_no_horizontal_part() {
    let slope = Slope { north: b(0.2), east: b(0.0) };
    let w = vertical_wind(v(10.0, 3.0, 0.0), slope, b(50.0), b(0.8));
    assert_eq!((f(w.x), f(w.y)), (0.0, 0.0));
    assert!(f(w.z) < 0.0);
    let inside = vertical_wind(v(10.0, 3.0, 0.0), slope, b(-1.0), b(0.8));
    assert_eq!(f(inside.z), 0.0);
}

#[test]
fn free_air_is_left_alone() {
    let cant = 38.0f32.to_radians();
    let push = body_push(vector(0.0, 5.0, 5.0), s(cant.sin()), s(cant.cos()));
    assert_eq!(g(push.depth), 0.0);
    assert!(g(body_push(vector(0.0, 0.1, 0.0), s(cant.sin()), s(cant.cos())).depth) > 0.0);
    assert_eq!(g(separation(s(-0.1))), 0.0);
}

#[test]
fn grids_end_on_every_side() {
    let mut grid = FlowGrid::new();
    grid.data = vec![vector(1.0, 2.0, 3.0); 77 * 27 * 27];
    let wind = vector(-9.0, 0.0, 0.0);
    for p in [
        vector(-24.5, 0.0, 0.0),
        vector(14.0, 0.0, 0.0),
        vector(0.0, -7.0, 0.0),
        vector(0.0, 6.5, 0.0),
        vector(0.0, 0.0, -7.0),
        vector(0.0, 0.0, 6.5),
    ] {
        assert_eq!(grid.sample(p, wind), wind);
    }
    assert_eq!(grid.sample(vector(0.1, 0.2, 0.3), wind), vector(1.0, 2.0, 3.0));
}

#[test]
fn schedules_climb_and_stay_in_the_storm() {
    let mut c = WeatherCurriculum::new(3);
    let mut last = 0;
    for _ in 0..20 {
        c.step();
        assert!(c.phase().index() >= last);
        last = c.phase().index();
    }
    assert_eq!(c.phase(), CurriculumPhase::Phase4Storm);
    assert!(c.is_complete());
    let mut at_once = WeatherCurriculum::new(3);
    at_once.advance(7);
    assert_eq!(at_once.phase(), CurriculumPhase::Phase3Rain);
    let mut by_hand = WeatherCurriculum::new(3);
    by_hand.next_phase();
    by_hand.next_phase();
    assert_eq!(by_hand.next_phase(), CurriculumPhase::Phase4Storm);
    assert!(!by_hand.is_complete());
    assert_eq!(by_hand.next_phase(), CurriculumPhase::Phase4Storm);
    assert!(by_hand.is_complete());
    assert!((0.0..=1.0).contains(&f(c.progress())));
}

#[test]
fn restarts_forget_the_past() {
    let config = WeatherConfig::from_preset(WeatherPreset::Storm, 5);
    let text = |w: &WeatherSystem| format!("{w:?}");
    let mut w = WeatherSystem::new(config, &middle_draws());
    let fresh = text(&w);
    for _ in 0..100 {
        w.advance(b(500.0), b(60.0), b(0.1), &middle_draws(), b(0.3), &Machine);
    }
    assert_ne!(text(&w), fresh);
    w.reset(&middle_draws());
    assert_eq!(text(&w), fresh);
    w.reset(&middle_draws());
    assert_eq!(text(&w), fresh);
}

#[test]
fn worse_presets_are_worse() {
    let order = [
        WeatherPreset::Clear,
        WeatherPreset::LightTurb,
        WeatherPreset::Rain,
        WeatherPreset::Storm,
        WeatherPreset::ExtremeStorm,
    ];
    for pair in order.windows(2) {
        let x = WeatherConfig::from_preset(pair[0], 1);
        let y = WeatherConfig::from_preset(pair[1], 1);
        assert!(f(x.mean_wind_speed) <= f(y.mean_wind_speed));
        assert!(f(x.visibility) >= f(y.visibility));
        assert!(f(x.gust_magnitude) <= f(y.gust_magnitude));
    }
    for i in 0..4 {
        let severity = WeatherSeverity::from_index(i);
        assert_eq!(severity.index(), i);
        assert_eq!(WeatherSeverity::from_name(severity.name()), severity);
        assert_eq!(severity.nominal_preset().severity(), severity);
    }
}

#[test]
fn observations_lie_within_widened_limits() {
    let mut n = ObservationNormalizer::from_default_bounds();
    let mut obs = [b(0.5); 12];
    obs[0] = b(80.0);
    n.update(&obs);
    assert!(f(n.max()[0]) >= 80.0);
    assert!(n.normalize(&obs).iter().all(|x| (0.0..=1.0).contains(&f(*x))));
}

#[test]
fn steps_at_once_are_single_steps() {
    let mut c = WeatherCurriculum::new(100);
    assert_eq!(c.advance(400), Some(CurriculumPhase::Phase4Storm));
    assert_eq!(c.phase(), CurriculumPhase::Phase4Storm);
    assert!(c.is_complete());
    assert_eq!(c.step_count, 400);
    for before in 0..6 {
        for n in 0..30 {
            let mut one = WeatherCurriculum::new(4);
            for k in 0..before {
                one.step();
                if k == 3 {
                    one.next_phase();
                }
            }
            let mut all = one;
            all.advance(n);
            for _ in 0..n {
                one.step();
            }
            assert_eq!(one, all);
        }
    }
    let mut far = WeatherCurriculum::new(1);
    far.advance(usize::MAX);
    far.advance(7);
    assert_eq!(far.step_count, usize::MAX);
    assert_eq!(far.phase(), CurriculumPhase::Phase4Storm);
}

#[test]
fn storms_are_completed_by_their_own_steps() {
    let mut c = WeatherCurriculum::new(100);
    for _ in 0..300 {
        c.step();
    }
    assert_eq!(c.phase(), CurriculumPhase::Phase4Storm);
    assert!(!c.is_complete());
    for _ in 0..99 {
        c.step();
    }
    assert!(!c.is_complete());
    assert_eq!(c.step(), None);
    assert!(c.is_complete());
}
