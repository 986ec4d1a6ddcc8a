//! The weather.
use flight_core::binary64::Binary64;
use flight_core::elementary::Elementary;
use flight_core::vector::Vec3;
use flight_core::weather::agent::ChangeNotifier;
use flight_core::weather::bridge;
use flight_core::weather::config::WeatherConfig;
use flight_core::weather::curriculum::WeatherCurriculum;
use flight_core::weather::levels::{
    CurriculumPhase, PrecipitationType, TerminationReason, TurbulenceLevel, WeatherPreset,
    WeatherSeverity,
};
use flight_core::weather::normalizer::{ObservationNormalizer, WEATHER_OBS_DIM};
use flight_core::weather::system::{SceneDraws, SceneParams, WeatherSystem};
use rand::rngs::StdRng;
use rand::{Rng, SeedableRng};
use rand_distr::{Distribution, StandardNormal};

fn b(x: f64) -> Binary64 {
    Binary64::from_bits(x.to_bits())
}

fn f(x: Binary64) -> f64 {
    f64::from_bits(x.to_bits())
}

fn v(x: f64, y: f64, z: f64) -> Vec3 {
    Vec3::new(b(x), b(y), b(z))
}

/// The elementary functions of the machine.
#[derive(Clone, Copy)]
struct Machine;

impl Elementary for Machine {
    fn sin(&self, x: Binary64) -> Binary64 {
        b(f(x).sin())
    }

    fn cos(&self, x: Binary64) -> Binary64 {
        b(f(x).cos())
    }

    fn asin(&self, x: Binary64) -> Binary64 {
        b(f(x).asin())
    }

    fn atan2(&self, y: Binary64, x: Binary64) -> Binary64 {
        b(f(y).atan2(f(x)))
    }

    fn hypot(&self, x: Binary64, y: Binary64) -> Binary64 {
        b(f(x).hypot(f(y)))
    }

    fn tanh(&self, x: Binary64) -> Binary64 {
        b(f(x).tanh())
    }

    fn exp(&self, x: Binary64) -> Binary64 {
        b(f(x).exp())
    }

    fn ln(&self, x: Binary64) -> Binary64 {
        b(f(x).ln())
    }

    fn powf(&self, x: Binary64, y: Binary64) -> Binary64 {
        b(f(x).powf(f(y)))
    }
}

fn draws(rng: &mut StdRng, with_roll: bool) -> SceneDraws {
    let mut next = || b(rng.gen::<f64>());
    SceneDraws {
        wind_speed: next(),
        wind_dir: next(),
        rain: next(),
        visibility: next(),
        updraft: next(),
        roll: if with_roll { next() } else { b(0.0) },
    }
}

/// The draws with which an episode starts.
fn first_draws(config: &WeatherConfig) -> SceneDraws {
    let base = SceneParams::from_severity(config.severity);
    let mut rng = StdRng::seed_from_u64(config.seed);
    draws(&mut rng, base.precipitation != PrecipitationType::Dry)
}

/// Weather with the generator that drives it.
struct Weather {
    core: WeatherSystem,
    rng: StdRng,
}

impl Weather {
    fn new(config: WeatherConfig) -> Weather {
        let first = first_draws(&config);
        let rng = StdRng::seed_from_u64(config.seed);
        Weather { core: WeatherSystem::new(config, &first), rng }
    }

    fn reset(&mut self) {
        self.rng = StdRng::seed_from_u64(self.core.config.seed);
        let first = first_draws(&self.core.config);
        self.core.reset(&first);
    }

    fn step(&mut self, altitude: f64, vt_air: f64, dt: f64) -> Vec3 {
        let scene = if self.core.needs_draws(b(dt)) {
            draws(&mut self.rng, self.core.needs_roll())
        } else {
            SceneDraws {
                wind_speed: b(0.0),
                wind_dir: b(0.0),
                rain: b(0.0),
                visibility: b(0.0),
                updraft: b(0.0),
                roll: b(0.0),
            }
        };
        let noise: f64 = if self.core.config.deterministic {
            0.0
        } else {
            StandardNormal.sample(&mut self.rng)
        };
        self.core.advance(b(altitude), b(vt_air), b(dt), &scene, b(noise), &Machine)
    }
}

fn sys(seed: u64) -> Weather {
    Weather::new(WeatherConfig::from_preset(WeatherPreset::Storm, seed))
}

fn run(seed: u64, deterministic: bool, steps: usize, dt: f64) -> Vec<Vec3> {
    let cfg = WeatherConfig::from_preset(WeatherPreset::Rain, seed)
        .with_deterministic(deterministic)
        .with_auto_change(b(5.0));
    let mut s = Weather::new(cfg);
    s.reset();
    let mut winds = Vec::with_capacity(steps);
    for i in 0..steps {
        let h = 1000.0 + (i as f64 % 50.0);
        winds.push(s.step(h, 60.0, dt));
    }
    winds
}

fn apart(x: &Vec3, y: &Vec3) -> f64 {
    f(x.minus(*y).norm())
}

#[test]
fn same_seed_same_wind_sequence() {
    let first = run(1234, false, 600, 1.0 / 30.0);
    let second = run(1234, false, 600, 1.0 / 30.0);
    for (wa, wb) in first.iter().zip(second.iter()) {
        assert!(apart(wa, wb) < 1e-9, "seed reproducibility broken");
    }
    let other = run(999, false, 600, 1.0 / 30.0);
    assert!(
        apart(first.last().unwrap(), other.last().unwrap()) > 1e-6,
        "different seeds should diverge"
    );
}

#[test]
fn fixed_patterns_need_no_draws() {
    let config =
        WeatherConfig::from_preset(WeatherPreset::Storm, 5).with_deterministic(true);
    let still = SceneDraws {
        wind_speed: b(0.0),
        wind_dir: b(0.0),
        rain: b(0.0),
        visibility: b(0.0),
        updraft: b(0.0),
        roll: b(0.0),
    };
    let other = SceneDraws { wind_speed: b(0.9), roll: b(0.7), ..still };
    let mut first = WeatherSystem::new(config, &still);
    let mut second = WeatherSystem::new(config, &still);
    for i in 0..300 {
        let h = b(500.0 + i as f64);
        let p = first.advance(h, b(60.0), b(0.05), &still, b(0.0), &Machine);
        let q = second.advance(h, b(60.0), b(0.05), &other, b(1.3), &Machine);
        assert_eq!(p, q);
    }
    assert!(f(first.last_wind.norm()) > 0.0);
}

#[test]
fn deterministic_mode_fixed_pattern_per_episode() {
    let mut s = sys(7);
    s.core.config.deterministic = true;
    let mut traces = Vec::new();
    for _ in 0..2 {
        s.reset();
        let mut t = Vec::new();
        for _i in 0..300 {
            t.push(s.step(900.0, 60.0, 1.0 / 30.0));
            assert_eq!(s.core.scene_index, 0, "deterministic must not re-scene");
        }
        traces.push(t);
    }
    for (wa, wb) in traces[0].iter().zip(traces[1].iter()) {
        assert!(apart(wa, wb) < 1e-9);
    }
}

#[test]
fn stochastic_recipe_changes_scene_over_time() {
    let cfg = WeatherConfig::from_preset(WeatherPreset::Rain, 42).with_auto_change(b(3.0));
    let mut s = Weather::new(cfg);
    for _ in 0..300 {
        s.step(1000.0, 60.0, 0.1);
    }
    assert!(s.core.scene_index >= 8, "got {}", s.core.scene_index);
}

#[test]
fn observation_layout_and_bounds() {
    let mut s = sys(5);
    s.reset();
    for _i in 0..60 {
        s.step(1000.0, 60.0, 1.0 / 30.0);
    }
    let o = s.core.observe(&Machine);
    let arr = o.to_array();
    assert_eq!(arr.len(), WEATHER_OBS_DIM);
    assert!((f(arr[0]) - f(s.core.last_wind.x)).abs() < 1e-9);
    assert!((f(arr[1]) - f(s.core.last_wind.y)).abs() < 1e-9);
    assert!((f(arr[2]) - f(s.core.last_wind.z)).abs() < 1e-9);
    for i in [3usize, 4, 5, 6, 8, 9, 10, 11] {
        let x = f(arr[i]);
        assert!(x >= 0.0 && x <= 1.0, "channel {i} out of [0,1]");
    }
    assert!(f(arr[4]) > 0.4, "storm scene should rain");
    assert!(f(arr[11]) > 0.99, "storm severity should be max");
    assert_eq!(o.timestamp, s.core.sim_time);
    assert!(f(o.visibility) > 0.0);
    let shear = s.core.wind_gradient(s.core.last_altitude, &Machine).norm();
    assert_eq!(s.core.observation_array(shear), arr);
}

#[test]
fn penalties_are_negative_and_monotonic_in_severity() {
    let mut prev = 0.0f64;
    for severity in [
        WeatherSeverity::Clear,
        WeatherSeverity::Light,
        WeatherSeverity::Moderate,
        WeatherSeverity::Severe,
    ] {
        let mut s = Weather::new(
            WeatherConfig::from_preset(WeatherPreset::Clear, 1).with_severity(severity),
        );
        s.core.set_severity(severity);
        for _ in 0..30 {
            s.step(1000.0, 60.0, 1.0 / 30.0);
        }
        let p = f(s.core.reward_penalty_total());
        assert!(p <= 0.0, "penalty must be <= 0, got {p}");
        assert!(p <= prev + 1e-12, "{p} vs {prev}");
        prev = p;
    }
}

#[test]
fn evasive_maneuver_cuts_gust_rms() {
    let mut s = sys(3);
    s.core.config.evasive_duration = b(5.0);
    s.reset();
    for _ in 0..30 {
        s.step(1000.0, 60.0, 1.0 / 30.0);
    }
    let rms_before = f(s.core.sigma_effective);
    assert!(!s.core.is_evasive());
    s.core.trigger_evasive_maneuver();
    assert!(s.core.is_evasive());
    for _ in 0..10 {
        s.step(1000.0, 60.0, 1.0 / 30.0);
    }
    assert!(f(s.core.sigma_effective) < rms_before);
}

#[test]
fn gust_limit_termination_fires() {
    let mut s = Weather::new(WeatherConfig::from_preset(WeatherPreset::ExtremeStorm, 9));
    s.core.config.extreme_weather_termination = true;
    s.core.config.gust_termination_limit = b(20.0);
    s.core.config.gust_magnitude = b(45.0);
    s.core.config.deterministic = true;
    s.core.config.length_scales = v(80.0, 80.0, 40.0);
    s.reset();
    let mut fired = false;
    for _ in 0..3000 {
        s.step(1000.0, 60.0, 1.0 / 30.0);
        if s.core.termination() != TerminationReason::Benign {
            fired = true;
            break;
        }
    }
    assert!(fired, "gust-limit termination never fired under a 20 m/s cap");
    assert_eq!(s.core.termination(), TerminationReason::GustLimit);
    assert!(s.core.is_terminated());
}

#[test]
fn curriculum_progresses_to_storm() {
    let mut c = WeatherCurriculum::new(100);
    let mut phases = Vec::new();
    for _ in 0..400 {
        if let Some(p) = c.step() {
            phases.push(p);
        }
    }
    assert_eq!(c.current, CurriculumPhase::Phase4Storm);
    assert!(c.is_complete());
    assert!(!phases.is_empty());
    assert_eq!(c.config(1).severity, WeatherSeverity::Severe);
    assert_eq!(f(c.progress()), 1.0);
}

#[test]
fn normalizer_scales_to_unit() {
    let mut n = ObservationNormalizer::from_default_bounds();
    let obs = [15.0, -15.0, 5.0, 0.5, 0.5, 0.5, 0.5, 0.0, 1.0, 0.0, 0.0, 0.5].map(b);
    n.update(&obs);
    let out = n.normalize(&obs).map(f);
    assert!(out.iter().all(|&x| (-1e-9..=1.0 + 1e-9).contains(&x)));
    assert!((out[0] - 0.75).abs() < 1e-9);
}

#[test]
fn agent_actions_mutate_wind_and_reseed() {
    let mut s = sys(11);
    s.reset();
    s.core.modify_wind_vector(v(3.0, 0.0, 0.0));
    let w1 = s.step(1000.0, 60.0, 1.0 / 30.0);
    let mut plain = sys(11);
    plain.reset();
    let w2 = plain.step(1000.0, 60.0, 1.0 / 30.0);
    assert!((f(w1.x) - f(w2.x)).abs() > 2.9, "wind offset must shift the NED wind");
    let mut config = s.core.config;
    config.seed = 11;
    let first = first_draws(&config);
    s.core.set_seed(11, &first);
    assert_eq!(f(s.core.sim_time()), 0.0, "set_seed must reset the episode clock");
}

#[test]
fn wind_offset_clamped() {
    let mut s = sys(1);
    s.core.modify_wind_vector(v(1e5, -1e5, 1e5));
    let o = s.core.wind_offset();
    assert!(f(o.x) <= 30.0 && f(o.y) >= -30.0 && f(o.z) <= 30.0);
    s.core.clear_wind_offset();
    assert_eq!(s.core.wind_offset(), Vec3::zeros());
}

#[test]
fn shear_vector_zero_when_disabled() {
    let mut s = sys(2);
    s.core.config.wind_shear = false;
    s.reset();
    assert_eq!(s.core.wind_gradient(b(500.0), &Machine), Vec3::zeros());
}

#[test]
fn shear_vector_follows_the_power_law() {
    let mut s = sys(2);
    s.core.config.wind_shear = true;
    s.core.config.reference_altitude = b(1000.0);
    s.reset();
    s.step(500.0, 60.0, 0.1);
    let g = f(s.core.wind_gradient(b(500.0), &Machine).norm());
    let speed = f(s.core.scene.wind_speed);
    let expected = speed * ((505.0f64 / 1000.0).powf(0.2) - (495.0f64 / 1000.0).powf(0.2)) / 10.0;
    assert!((g - expected).abs() < 1e-9, "{g} vs {expected}");
}

#[test]
fn curricula_drive_the_scene() {
    let config = WeatherConfig::from_preset(WeatherPreset::Storm, 4);
    let w = Weather::new(config);
    let rng = w.rng.clone();
    let core = w.core.with_curriculum(WeatherCurriculum::new(2), 4);
    let mut w = Weather { core, rng };
    assert_eq!(w.core.severity(), WeatherSeverity::Clear);
    assert_eq!(w.core.curriculum_phase(), 0);
    for _ in 0..2 {
        w.step(1000.0, 60.0, 0.1);
    }
    assert_eq!(w.core.severity(), WeatherSeverity::Light);
    assert_eq!(w.core.next_curriculum_phase(), 2);
    assert_eq!(w.core.severity(), WeatherSeverity::Moderate);
    assert!(!w.core.is_curriculum_complete());
}

#[test]
fn names_and_numbers_of_levels() {
    assert_eq!(WeatherPreset::from_name("extreme"), WeatherPreset::ExtremeStorm);
    assert_eq!(WeatherPreset::from_name("light"), WeatherPreset::LightTurb);
    assert_eq!(WeatherPreset::from_name("?"), WeatherPreset::Clear);
    assert_eq!(WeatherSeverity::from_name("moderate"), WeatherSeverity::Moderate);
    assert_eq!(WeatherSeverity::from_index(9), WeatherSeverity::Severe);
    assert_eq!(WeatherSeverity::Severe.name(), "severe");
    assert_eq!(TurbulenceLevel::from_index(2).name(), "severe");
    assert_eq!(PrecipitationType::Hail.one_hot().map(f), [0.0, 0.0, 1.0]);
    assert_eq!(TerminationReason::SevereExposure.index(), 3);
    assert_eq!(CurriculumPhase::from_index(3), CurriculumPhase::Phase4Storm);
}

#[test]
fn settings_make_weather() {
    let c = bridge::configured("storm", -5, true, b(-1.0));
    assert_eq!(c.seed, 0);
    assert!(c.deterministic);
    assert_eq!(f(c.auto_change_interval), 0.0);
    assert_eq!(c.severity, WeatherSeverity::Severe);
    let wishes = bridge::WeatherWishes {
        seed: None,
        deterministic: false,
        preset: Some(String::from("rain")),
        severity: None,
        auto_change: None,
    };
    let c = wishes.config();
    assert_eq!(c.seed, 1);
    assert_eq!(c.severity, WeatherSeverity::Clear);
    assert_eq!(f(c.auto_change_interval), 30.0);
    assert_eq!(f(bridge::step_length(b(5.0))), 0.1);
    assert_eq!(f(bridge::step_length(b(0.0))), 1e-4);
    assert_eq!(f(bridge::visibility_01(b(5000.0))), 0.25);
    assert_eq!(bridge::wind_from_scene(b(1.0), b(2.0), b(3.0)), v(1.0, -3.0, 2.0));
    assert_eq!(bridge::phase_steps(-4), 1);
}

#[test]
fn changes_are_announced_once() {
    let mut n = ChangeNotifier::new();
    assert_eq!(n.notify(WeatherSeverity::Light, 0), Some(1));
    assert_eq!(n.notify(WeatherSeverity::Light, 0), None);
    assert_eq!(n.notify(WeatherSeverity::Light, 1), Some(1));
    n.forget();
    assert_eq!(n.notify(WeatherSeverity::Light, 1), Some(1));
}

#[test]
fn poor_sight_and_severe_exposure_end_episodes() {
    let mut s = Weather::new(WeatherConfig::from_preset(WeatherPreset::Storm, 8));
    s.core.config.extreme_weather_termination = true;
    s.core.config.gust_termination_limit = b(1e9);
    s.core.config.min_visibility = b(1e9);
    s.core.config.visibility_timeout = b(0.25);
    s.step(1000.0, 60.0, 0.1);
    assert_eq!(s.core.termination(), TerminationReason::Benign);
    for _ in 0..3 {
        s.step(1000.0, 60.0, 0.1);
    }
    assert_eq!(s.core.termination(), TerminationReason::VisibilityLimit);
    s.core.config.min_visibility = b(0.0);
    s.core.config.severe_exposure_limit = b(0.1);
    s.step(1000.0, 60.0, 0.1);
    assert_eq!(s.core.termination(), TerminationReason::SevereExposure);
}

#[test]
fn restarts_lead_back_to_the_first_phase() {
    let w = Weather::new(WeatherConfig::from_preset(WeatherPreset::Clear, 0));
    let rng = w.rng.clone();
    let core = w.core.with_curriculum(WeatherCurriculum::new(1), 0);
    let mut w = Weather { core, rng };
    let opening = (w.core.severity(), w.core.precipitation(), w.core.visibility());
    for _ in 0..3 {
        w.step(1000.0, 60.0, 0.1);
    }
    assert_eq!(w.core.curriculum_phase(), 3);
    assert_eq!(w.core.severity(), WeatherSeverity::Severe);
    w.reset();
    assert_eq!(w.core.curriculum_phase(), 0);
    assert_eq!(w.core.severity(), WeatherSeverity::Clear);
    assert_eq!((w.core.severity(), w.core.precipitation(), w.core.visibility()), opening);
}

#[test]
fn added_wind_shifts_the_wind_alone() {
    let config = WeatherConfig::from_preset(WeatherPreset::Rain, 8);
    let mut a = Weather::new(config);
    let mut c = Weather::new(config);
    for _ in 0..5 {
        a.step(800.0, 60.0, 0.05);
        c.step(800.0, 60.0, 0.05);
    }
    a.core.modify_wind_vector(Vec3::new(b(4.0), b(-2.0), b(1.0)));
    let wa = a.step(800.0, 60.0, 0.05);
    let wc = c.step(800.0, 60.0, 0.05);
    let d = wa.minus(wc);
    assert!((f(d.x) - 4.0).abs() < 1e-9 && (f(d.y) + 2.0).abs() < 1e-9 && (f(d.z) - 1.0).abs() < 1e-9);
    assert_eq!(a.core.sim_time(), c.core.sim_time());
    c.core.modify_wind_vector(Vec3::zeros());
    a.core.clear_wind_offset();
    assert_eq!(a.step(800.0, 60.0, 0.05), c.step(800.0, 60.0, 0.05));
}

#[test]
fn evasion_halves_the_sum_of_the_penalties() {
    let mut w = sys(3);
    w.step(1000.0, 60.0, 0.1);
    let before = f(w.core.reward_penalty_total());
    w.core.trigger_evasive_maneuver();
    assert_eq!(f(w.core.reward_penalty_total()), before * 0.5);
}

#[test]
fn levels_compare_as_their_numbers() {
    for i in 0..4 {
        for j in 0..4 {
            let (a, c) = (TurbulenceLevel::from_index(i), TurbulenceLevel::from_index(j));
            assert_eq!(a < c, a.index() < c.index());
            let (p, q) = (CurriculumPhase::from_index(i), CurriculumPhase::from_index(j));
            assert_eq!(p < q, i < j);
            assert_eq!(p.cmp(&q), i.cmp(&j));
        }
    }
    assert!(WeatherSeverity::Clear < WeatherSeverity::Severe);
}
