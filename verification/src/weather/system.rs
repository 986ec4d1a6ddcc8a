//! The weather state machine: scenes, gust strength, exposure, rewards.
//!
//! A step of the weather comes in two parts. [`WeatherSystem::step_scene`]
//! moves the clocks and changes the scene where a change is due;
//! [`WeatherSystem::step`] lets the air of the scene blow. Between them the
//! caller takes the sine, cosine, power and exponential of numbers that the
//! system gives, and draws from its own seeded generator.
use super::config::WeatherConfig;
use super::curriculum::WeatherCurriculum;
use super::levels::{
    CurriculumPhase, PrecipitationType, TerminationReason, TurbulenceLevel, WeatherPreset,
    WeatherSeverity,
};
use crate::binary64::Binary64;
use crate::literal::{
    num, D0, D0_000123456789, D0_0001, D0_001, D0_017453292519943295, D0_05, D0_1, D0_12, D0_15,
    D0_25, D0_3, D0_35, D0_5, D1, D1500, D1_35, D1_5, D2, D200, D20000, D3, D360, D40,
    D6_283185307179586, D9,
};
use crate::vector::Vec3;
use crate::wind::{TurbulenceIntensity, WindConfig, WindEnvironment};
use vstd::prelude::*;

verus! {

/// What the weather of a scene tends to.
#[derive(Clone, Copy, Debug, PartialEq, Eq, Structural)]
pub struct SceneParams {
    pub wind_speed: Binary64,
    pub wind_dir_deg: Binary64,
    pub rain: Binary64,
    pub visibility: Binary64,
    pub updraft: Binary64,
    pub turbulence: TurbulenceLevel,
    pub gust_magnitude: Binary64,
    pub precipitation: PrecipitationType,
    pub severity: WeatherSeverity,
}

/// Uniform draws from which a scene is varied. The roll is used only where
/// something falls.
#[derive(Clone, Copy, Debug, PartialEq, Eq, Structural)]
pub struct SceneDraws {
    pub wind_speed: Binary64,
    pub wind_dir: Binary64,
    pub rain: Binary64,
    pub visibility: Binary64,
    pub updraft: Binary64,
    pub roll: Binary64,
}

/// A uniform draw as a deviation of at most `spread` to either side.
pub open spec fn deviation(spread: Binary64, draw: Binary64) -> Binary64 {
    spread.product(num(D2).product(draw).difference(num(D1)))
}

fn jitter(spread: Binary64, draw: Binary64) -> (r: Binary64)
    ensures
        r == deviation(spread, draw),
{
    spread.times(num(D2).times(draw).minus(num(D1)))
}

/// What falls after a roll: dry scenes stay dry, and else it is snow, hail or
/// rain.
pub open spec fn rolled(base: PrecipitationType, roll: Binary64) -> PrecipitationType {
    if base == PrecipitationType::Dry {
        PrecipitationType::Dry
    } else if roll.below(num(D0_15)) {
        PrecipitationType::Snow
    } else if roll.below(num(D0_25)) {
        PrecipitationType::Hail
    } else {
        PrecipitationType::Rain
    }
}

impl SceneParams {
    /// The scene of a preset.
    pub open spec fn of_preset(preset: WeatherPreset) -> SceneParams {
        let cfg = WeatherConfig::preset(preset, 0);
        SceneParams {
            wind_speed: cfg.mean_wind_speed,
            wind_dir_deg: cfg.wind_direction_deg,
            rain: cfg.rain_intensity,
            visibility: cfg.visibility,
            updraft: cfg.updraft_strength,
            turbulence: cfg.turbulence,
            gust_magnitude: cfg.gust_magnitude,
            precipitation: cfg.precipitation,
            severity: cfg.severity,
        }
    }

    /// The scene with every target moved by its draw. The severity band, the
    /// turbulence band and the gust limit stay.
    pub open spec fn varied(self, draws: SceneDraws) -> SceneParams {
        SceneParams {
            wind_speed: self.wind_speed.sum(deviation(num(D2), draws.wind_speed)).larger(num(D0)),
            wind_dir_deg: self.wind_dir_deg.sum(
                deviation(num(D40), draws.wind_dir),
            ).euclidean_remainder(num(D360)),
            rain: self.rain.sum(deviation(num(D0_15), draws.rain)).clamped(num(D0), num(D1)),
            visibility: self.visibility.sum(deviation(num(D1500), draws.visibility)).larger(
                num(D200),
            ),
            updraft: self.updraft.sum(deviation(num(D1_5), draws.updraft)),
            precipitation: rolled(self.precipitation, draws.roll),
            ..self
        }
    }

    /// The scene with something falling where its severity asks for it.
    pub open spec fn wetted(self, severity: WeatherSeverity, kind: PrecipitationType) -> SceneParams {
        if self.precipitation == PrecipitationType::Dry && severity.wet() {
            SceneParams { precipitation: kind, ..self }
        } else {
            self
        }
    }

    pub fn from_preset(preset: WeatherPreset) -> (r: Self)
        ensures
            r == SceneParams::of_preset(preset),
    {
        let cfg: WeatherConfig = WeatherConfig::from_preset(preset, 0);
        SceneParams {
            wind_speed: cfg.mean_wind_speed,
            wind_dir_deg: cfg.wind_direction_deg,
            rain: cfg.rain_intensity,
            visibility: cfg.visibility,
            updraft: cfg.updraft_strength,
            turbulence: cfg.turbulence,
            gust_magnitude: cfg.gust_magnitude,
            precipitation: cfg.precipitation,
            severity: cfg.severity,
        }
    }

    /// The nominal scene of a severity band.
    pub fn from_severity(severity: WeatherSeverity) -> (r: Self)
        ensures
            r == SceneParams::of_preset(severity.nominal()),
    {
        SceneParams::from_preset(severity.nominal_preset())
    }
}

/// Varies a scene with draws.
pub fn randomise_scene(base: &SceneParams, draws: &SceneDraws) -> (r: SceneParams)
    ensures
        r == base.varied(*draws),
{
    let precipitation: PrecipitationType = if base.precipitation == PrecipitationType::Dry {
        PrecipitationType::Dry
    } else if draws.roll.lt(num(D0_15)) {
        PrecipitationType::Snow
    } else if draws.roll.lt(num(D0_25)) {
        PrecipitationType::Hail
    } else {
        PrecipitationType::Rain
    };
    SceneParams {
        wind_speed: base.wind_speed.plus(jitter(num(D2), draws.wind_speed)).max(num(D0)),
        wind_dir_deg: base.wind_dir_deg.plus(jitter(num(D40), draws.wind_dir)).rem_euclid(
            num(D360),
        ),
        rain: base.rain.plus(jitter(num(D0_15), draws.rain)).clamp(num(D0), num(D1)),
        visibility: base.visibility.plus(jitter(num(D1500), draws.visibility)).max(num(D200)),
        updraft: base.updraft.plus(jitter(num(D1_5), draws.updraft)),
        turbulence: base.turbulence,
        gust_magnitude: base.gust_magnitude,
        precipitation,
        severity: base.severity,
    }
}

/// What a step did to the scene.
#[derive(Clone, Copy, Debug, PartialEq, Eq, Structural)]
pub enum SceneChange {
    /// The scene stays.
    Kept,
    /// The curriculum moved to a phase.
    Phase(CurriculumPhase),
    /// The scene was varied with draws.
    Rerolled,
}

/// Values that the caller computes for a step: the exponential of the ramp
/// exponent; the sine of the envelope angle or a normal draw; cosine and sine
/// of the wind direction; the shear factor; normal draws for the gusts.
#[derive(Clone, Copy, Debug, PartialEq, Eq, Structural)]
pub struct AirInputs {
    pub decay: Binary64,
    pub swing: Binary64,
    pub cosine: Binary64,
    pub sine: Binary64,
    pub shear_factor: Binary64,
    pub normals: Vec3,
}

/// What an agent observes of the weather.
#[derive(Clone, Copy, Debug, PartialEq, Eq, Structural)]
pub struct WeatherObservation {
    /// Wind (m/s) north, east and down.
    pub wind: Vec3,
    /// Number of the turbulence band.
    pub turbulence_level: i32,
    /// RMS gust speed (m/s).
    pub gust_rms: Binary64,
    /// Rain intensity, between zero and one.
    pub rain_intensity: Binary64,
    /// Visibility (m).
    pub visibility: Binary64,
    /// Change of the wind with altitude, in m/s per m.
    pub shear_gradient: Binary64,
    /// Updraft (m/s), up is positive.
    pub updraft_strength: Binary64,
    pub precipitation: PrecipitationType,
    pub severity: WeatherSeverity,
    /// Steady wind speed (m/s) of the scene.
    pub wind_speed: Binary64,
    /// Seconds since the start of the episode.
    pub timestamp: Binary64,
}

impl WeatherObservation {
    /// A channel of the flat observation.
    pub open spec fn channel(self, i: int) -> Binary64 {
        if i == 0 {
            self.wind.x
        } else if i == 1 {
            self.wind.y
        } else if i == 2 {
            self.wind.z
        } else if i == 3 {
            self.gust_rms.quotient(num(D9)).clamped(num(D0), num(D1))
        } else if i == 4 {
            self.rain_intensity.clamped(num(D0), num(D1))
        } else if i == 5 {
            self.visibility.quotient(num(D20000)).clamped(num(D0), num(D1))
        } else if i == 6 {
            self.shear_gradient.absolute().quotient(num(D0_05)).clamped(num(D0), num(D1))
        } else if i == 7 {
            self.updraft_strength
        } else if i < 11 {
            self.precipitation.indicator(i - 8)
        } else {
            self.severity.fraction()
        }
    }

    /// The flat observation: wind north, east and down; turbulence, rain,
    /// visibility and shear as fractions; updraft; rain, snow and hail flags;
    /// severity as a fraction.
    pub fn to_array(&self) -> (r: [Binary64; 12])
        ensures
            forall|i: int| 0 <= i < 12 ==> #[trigger] r@[i] == self.channel(i),
    {
        let h: [Binary64; 3] = self.precipitation.one_hot();
        assert(h@[0] == self.precipitation.indicator(0));
        assert(h@[1] == self.precipitation.indicator(1));
        assert(h@[2] == self.precipitation.indicator(2));
        [
            self.wind.x,
            self.wind.y,
            self.wind.z,
            self.gust_rms.over(num(D9)).clamp(num(D0), num(D1)),
            self.rain_intensity.clamp(num(D0), num(D1)),
            self.visibility.over(num(D20000)).clamp(num(D0), num(D1)),
            self.shear_gradient.abs().over(num(D0_05)).clamp(num(D0), num(D1)),
            self.updraft_strength,
            h[0],
            h[1],
            h[2],
            self.severity.normalized(),
        ]
    }
}

/// The scene with which an episode starts: the nominal one, or a variation of
/// it.
pub open spec fn initial_scene(config: WeatherConfig, draws: SceneDraws) -> SceneParams {
    let base = SceneParams::of_preset(config.severity.nominal());
    if config.deterministic {
        base
    } else {
        base.varied(draws).wetted(config.severity, base.precipitation)
    }
}

/// The parameters of the wind field of a scene.
pub open spec fn scene_wind(config: WeatherConfig, scene: SceneParams) -> WindConfig {
    WindConfig {
        wind_speed: scene.wind_speed,
        wind_direction: scene.wind_dir_deg.product(num(D0_017453292519943295)),
        reference_altitude: config.reference_altitude,
        wind_shear: config.wind_shear,
        turbulence: TurbulenceIntensity::Custom(num(D0_1)),
        turbulence_scale: config.length_scales.x,
        turbulence_scale_lat: config.length_scales.y,
        turbulence_scale_vert: config.length_scales.z,
        seed: config.seed,
    }
}

/// The RMS gust speed of a scene under a gust envelope: that of its band, at
/// least 0.3 m/s, and where gust limits are set at most a third of the larger
/// one.
pub open spec fn scene_rms(
    config: WeatherConfig,
    scene: SceneParams,
    envelope: Binary64,
) -> Binary64 {
    let sigma = scene.turbulence.band_sigma().product(envelope).larger(num(D0_3));
    if num(D0).below(config.gust_magnitude) && num(D0).below(scene.gust_magnitude) {
        let ceiling = config.gust_magnitude.larger(scene.gust_magnitude).quotient(num(D3));
        sigma.smaller(ceiling).larger(num(D0_3))
    } else {
        sigma
    }
}

fn scene_sigma(config: &WeatherConfig, scene: &SceneParams, envelope: Binary64) -> (r: (
    Binary64,
    TurbulenceLevel,
))
    ensures
        r.0 == scene_rms(*config, *scene, envelope),
        r.1 == TurbulenceLevel::band_of(r.0),
{
    let sigma: Binary64 = scene.turbulence.sigma_u().times(envelope).max(num(D0_3));
    if config.gust_magnitude.gt(num(D0)) && scene.gust_magnitude.gt(num(D0)) {
        let ceiling: Binary64 = config.gust_magnitude.max(scene.gust_magnitude).over(num(D3));
        let capped: Binary64 = sigma.min(ceiling).max(num(D0_3));
        (capped, TurbulenceLevel::from_sigma(capped))
    } else {
        (sigma, TurbulenceLevel::from_sigma(sigma))
    }
}

/// The weather.
#[derive(Clone, Copy, Debug)]
pub struct WeatherSystem {
    pub config: WeatherConfig,
    /// The wind field of the scene.
    pub wind: WindEnvironment,
    pub scene: SceneParams,
    /// Number of scene changes in this episode.
    pub scene_index: u64,
    pub time_in_scene: Binary64,
    pub sim_time: Binary64,
    pub rain_current: Binary64,
    pub visibility_current: Binary64,
    pub updraft_current: Binary64,
    /// Factor on the gust strength.
    pub envelope: Binary64,
    pub sigma_effective: Binary64,
    pub turb_level: TurbulenceLevel,
    pub severity: WeatherSeverity,
    pub precipitation: PrecipitationType,
    pub last_wind: Vec3,
    pub last_gust: Vec3,
    pub last_altitude: Binary64,
    /// Wind that the agent adds.
    pub wind_offset: Vec3,
    pub severe_elapsed: Binary64,
    pub visibility_violation_elapsed: Binary64,
    pub terminated: TerminationReason,
    pub evasive_timer: Binary64,
    pub curriculum: Option<WeatherCurriculum>,
    pub curriculum_seed: u64,
}

impl WeatherSystem {
    /// The weather at the start of an episode.
    pub open spec fn fresh(
        config: WeatherConfig,
        scene: SceneParams,
        curriculum: Option<WeatherCurriculum>,
        curriculum_seed: u64,
    ) -> WeatherSystem {
        let sigma = scene_rms(config, scene, num(D1));
        WeatherSystem {
            config,
            wind: WindEnvironment::fresh(scene_wind(config, scene)),
            scene,
            scene_index: 0,
            time_in_scene: num(D0),
            sim_time: num(D0),
            rain_current: scene.rain,
            visibility_current: scene.visibility,
            updraft_current: scene.updraft,
            envelope: num(D1),
            sigma_effective: sigma,
            turb_level: TurbulenceLevel::band_of(sigma),
            severity: scene.severity,
            precipitation: scene.precipitation,
            last_wind: Vec3::zero(),
            last_gust: Vec3::zero(),
            last_altitude: config.reference_altitude,
            wind_offset: Vec3::zero(),
            severe_elapsed: num(D0),
            visibility_violation_elapsed: num(D0),
            terminated: TerminationReason::Benign,
            evasive_timer: num(D0),
            curriculum,
            curriculum_seed,
        }
    }

    /// Whether steps can be counted.
    pub open spec fn countable(self) -> bool {
        &&& self.scene_index < u64::MAX
        &&& self.curriculum matches Some(c) ==> c.wf() && c.step_count < usize::MAX
    }

    pub open spec fn evading(self) -> bool {
        num(D0).below(self.evasive_timer)
    }

    /// Weather from parameters. The draws vary the first scene unless the
    /// pattern is fixed.
    pub fn new(config: WeatherConfig, draws: &SceneDraws) -> (r: Self)
        ensures
            r == WeatherSystem::fresh(config, initial_scene(config, *draws), None, config.seed),
            r.wind.wf(),
    {
        let scene: SceneParams = WeatherSystem::first_scene(&config, draws);
        WeatherSystem::at_start(config, scene, None, config.seed)
    }

    fn first_scene(config: &WeatherConfig, draws: &SceneDraws) -> (r: SceneParams)
        ensures
            r == initial_scene(*config, *draws),
    {
        let base: SceneParams = SceneParams::from_severity(config.severity);
        if config.deterministic {
            return base;
        }
        let mut s: SceneParams = randomise_scene(&base, draws);
        if s.precipitation == PrecipitationType::Dry && (config.severity
            == WeatherSeverity::Moderate || config.severity == WeatherSeverity::Severe) {
            s.precipitation = base.precipitation;
        }
        s
    }

    fn at_start(
        config: WeatherConfig,
        scene: SceneParams,
        curriculum: Option<WeatherCurriculum>,
        curriculum_seed: u64,
    ) -> (r: Self)
        ensures
            r == WeatherSystem::fresh(config, scene, curriculum, curriculum_seed),
            r.wind.wf(),
    {
        let (sigma, level) = scene_sigma(&config, &scene, num(D1));
        let wind: WindEnvironment = WindEnvironment::new(
            WindConfig {
                wind_speed: scene.wind_speed,
                wind_direction: scene.wind_dir_deg.times(num(D0_017453292519943295)),
                reference_altitude: config.reference_altitude,
                wind_shear: config.wind_shear,
                turbulence: TurbulenceIntensity::Custom(num(D0_1)),
                turbulence_scale: config.length_scales.x,
                turbulence_scale_lat: config.length_scales.y,
                turbulence_scale_vert: config.length_scales.z,
                seed: config.seed,
            },
        );
        WeatherSystem {
            config,
            wind,
            scene,
            scene_index: 0,
            time_in_scene: num(D0),
            sim_time: num(D0),
            rain_current: scene.rain,
            visibility_current: scene.visibility,
            updraft_current: scene.updraft,
            envelope: num(D1),
            sigma_effective: sigma,
            turb_level: level,
            severity: scene.severity,
            precipitation: scene.precipitation,
            last_wind: Vec3::zeros(),
            last_gust: Vec3::zeros(),
            last_altitude: config.reference_altitude,
            wind_offset: Vec3::zeros(),
            severe_elapsed: num(D0),
            visibility_violation_elapsed: num(D0),
            terminated: TerminationReason::Benign,
            evasive_timer: num(D0),
            curriculum,
            curriculum_seed,
        }
    }

    /// The scene with which an episode starts: that of the first phase where a
    /// curriculum sets the scenes.
    pub open spec fn opening_scene(self, draws: SceneDraws) -> SceneParams {
        match self.curriculum {
            Some(_) => SceneParams::of_preset(CurriculumPhase::Phase1Clear.weather()),
            None => initial_scene(self.config, draws),
        }
    }

    /// The weather after a restart of the episode.
    pub open spec fn restarted(self, draws: SceneDraws) -> WeatherSystem {
        let scene = self.opening_scene(draws);
        let start = WeatherSystem::fresh(
            self.config,
            scene,
            match self.curriculum {
                Some(c) => Some(
                    WeatherCurriculum {
                        steps_per_phase: c.steps_per_phase,
                        step_count: 0,
                        current: CurriculumPhase::Phase1Clear,
                        done: false,
                    },
                ),
                None => None,
            },
            self.curriculum_seed,
        );
        WeatherSystem {
            config: WeatherConfig { severity: scene.severity, ..self.config },
            ..start
        }
    }

    /// Restarts the episode: the same parameters and draws give the same
    /// weather. A curriculum starts over in its first phase.
    pub fn reset(&mut self, draws: &SceneDraws)
        ensures
            *final(self) == old(self).restarted(*draws),
            final(self).wind.wf(),
    {
        let mut scene: SceneParams = WeatherSystem::first_scene(&self.config, draws);
        let mut curriculum: Option<WeatherCurriculum> = None;
        if let Some(c) = self.curriculum {
            let mut fresh: WeatherCurriculum = c;
            fresh.restart();
            scene = SceneParams::from_preset(fresh.phase().preset());
            curriculum = Some(fresh);
        }
        let mut start: WeatherSystem = WeatherSystem::at_start(
            self.config,
            scene,
            curriculum,
            self.curriculum_seed,
        );
        start.config.severity = scene.severity;
        *self = start;
    }

    /// The weather with its scene set to that of a preset.
    pub open spec fn with_preset(self, preset: WeatherPreset) -> WeatherSystem {
        let scene = SceneParams::of_preset(preset);
        WeatherSystem {
            scene,
            severity: scene.severity,
            config: WeatherConfig { severity: scene.severity, ..self.config },
            precipitation: scene.precipitation,
            rain_current: scene.rain,
            visibility_current: scene.visibility,
            updraft_current: scene.updraft,
            time_in_scene: num(D0),
            ..self
        }
    }

    pub(crate) fn apply_preset(&mut self, preset: WeatherPreset)
        ensures
            *final(self) == old(self).with_preset(preset),
    {
        self.scene = SceneParams::from_preset(preset);
        self.severity = self.scene.severity;
        self.config.severity = self.scene.severity;
        self.precipitation = self.scene.precipitation;
        self.rain_current = self.scene.rain;
        self.visibility_current = self.scene.visibility;
        self.updraft_current = self.scene.updraft;
        self.time_in_scene = num(D0);
    }

    /// Installs a curriculum, whose phases set the scenes from now on.
    pub fn with_curriculum(self, curriculum: WeatherCurriculum, seed: u64) -> (r: Self)
        ensures
            r == (WeatherSystem {
                curriculum: Some(curriculum),
                curriculum_seed: seed,
                ..self
            }).with_preset(curriculum.current.weather()),
    {
        let mut w: WeatherSystem = self;
        w.curriculum_seed = seed;
        w.curriculum = Some(curriculum);
        w.apply_preset(curriculum.phase().preset());
        w
    }

    /// The time step that is taken for `dt`.
    pub open spec fn time_step(dt: Binary64) -> Binary64 {
        dt.larger(num(D0_0001))
    }

    /// The weather with its clocks moved.
    pub open spec fn clocked(self, altitude: Binary64, dt: Binary64) -> WeatherSystem {
        let t = WeatherSystem::time_step(dt);
        WeatherSystem {
            sim_time: self.sim_time.sum(t),
            time_in_scene: self.time_in_scene.sum(t),
            last_altitude: altitude,
            ..self
        }
    }

    /// Whether the next step of `dt` varies the scene with draws.
    pub open spec fn reroll_is_due(self, dt: Binary64) -> bool {
        &&& self.curriculum is None
        &&& !self.config.deterministic
        &&& num(D0).below(self.config.auto_change_interval)
        &&& self.config.auto_change_interval.not_above(
            self.time_in_scene.sum(WeatherSystem::time_step(dt)),
        )
    }

    /// The weather with its scene varied.
    pub open spec fn rerolled(self, draws: SceneDraws) -> WeatherSystem {
        let scene = self.scene.varied(draws).wetted(self.scene.severity, PrecipitationType::Rain);
        WeatherSystem {
            scene,
            scene_index: (self.scene_index + 1) as u64,
            time_in_scene: num(D0),
            severity: scene.severity,
            ..self
        }
    }

    /// The wind field with the scene's wind.
    pub open spec fn wind_of_scene(self) -> WindEnvironment {
        WindEnvironment {
            config: WindConfig {
                turbulence: self.wind.config.turbulence,
                seed: self.wind.config.seed,
                ..scene_wind(self.config, self.scene)
            },
            ..self.wind
        }
    }

    /// The change that a step of `dt` makes to the scene.
    pub open spec fn change(self, dt: Binary64) -> SceneChange {
        match self.curriculum {
            Some(c) => if c.counted((c.step_count + 1) as usize).moves_on() {
                SceneChange::Phase(c.stepped().current)
            } else {
                SceneChange::Kept
            },
            None => if self.reroll_is_due(dt) {
                SceneChange::Rerolled
            } else {
                SceneChange::Kept
            },
        }
    }

    /// The weather after the first part of a step: a curriculum sets the scene
    /// where it moves to a phase; else the scene is varied where that is due.
    pub open spec fn scene_stepped(
        self,
        altitude: Binary64,
        dt: Binary64,
        draws: SceneDraws,
    ) -> WeatherSystem {
        let w = self.clocked(altitude, dt);
        let counted = WeatherSystem {
            curriculum: match self.curriculum {
                Some(c) => Some(c.stepped()),
                None => None,
            },
            ..w
        };
        let changed = match self.change(dt) {
            SceneChange::Kept => counted,
            SceneChange::Phase(p) => WeatherSystem {
                scene_index: (self.scene_index + 1) as u64,
                ..counted.with_preset(p.weather())
            },
            SceneChange::Rerolled => counted.rerolled(draws),
        };
        WeatherSystem { wind: changed.wind_of_scene(), ..changed }
    }

    /// Whether the next step of `dt` uses draws.
    pub fn needs_draws(&self, dt: Binary64) -> (r: bool)
        ensures
            r == self.reroll_is_due(dt),
    {
        let t: Binary64 = dt.max(num(D0_0001));
        self.curriculum.is_none() && !self.config.deterministic
            && self.config.auto_change_interval.gt(num(D0)) && self.time_in_scene.plus(t).ge(
            self.config.auto_change_interval,
        )
    }

    /// Whether draws for the scene include the roll.
    pub fn needs_roll(&self) -> (r: bool)
        ensures
            r == (self.scene.precipitation != PrecipitationType::Dry),
    {
        self.scene.precipitation != PrecipitationType::Dry
    }

    /// First part of a step: moves the clocks by `dt` seconds and changes the
    /// scene where a change is due. The draws are used only where
    /// [`WeatherSystem::needs_draws`] says so.
    pub fn step_scene(&mut self, altitude: Binary64, dt: Binary64, draws: &SceneDraws) -> (r:
        SceneChange)
        requires
            old(self).countable(),
        ensures
            *final(self) == old(self).scene_stepped(altitude, dt, *draws),
            r == old(self).change(dt),
    {
        let t: Binary64 = dt.max(num(D0_0001));
        self.sim_time = self.sim_time.plus(t);
        self.time_in_scene = self.time_in_scene.plus(t);
        self.last_altitude = altitude;
        let mut change: SceneChange = SceneChange::Kept;
        match self.curriculum {
            Some(c) => {
                let mut next: WeatherCurriculum = c;
                let moved: Option<CurriculumPhase> = next.step();
                self.curriculum = Some(next);
                if let Some(phase) = moved {
                    self.apply_preset(phase.preset());
                    self.scene_index = self.scene_index + 1;
                    change = SceneChange::Phase(phase);
                }
            },
            None => {
                if !self.config.deterministic && self.config.auto_change_interval.gt(num(D0))
                    && self.time_in_scene.ge(self.config.auto_change_interval) {
                    self.scene_index = self.scene_index + 1;
                    self.time_in_scene = num(D0);
                    let severity: WeatherSeverity = self.scene.severity;
                    let mut scene: SceneParams = randomise_scene(&self.scene, draws);
                    if scene.precipitation == PrecipitationType::Dry && (severity
                        == WeatherSeverity::Moderate || severity == WeatherSeverity::Severe) {
                        scene.precipitation = PrecipitationType::Rain;
                    }
                    self.scene = scene;
                    self.severity = scene.severity;
                    change = SceneChange::Rerolled;
                }
            },
        }
        self.wind.config.wind_speed = self.scene.wind_speed;
        self.wind.config.wind_direction = self.scene.wind_dir_deg.times(
            num(D0_017453292519943295),
        );
        self.wind.config.wind_shear = self.config.wind_shear;
        self.wind.config.reference_altitude = self.config.reference_altitude;
        self.wind.config.turbulence_scale = self.config.length_scales.x;
        self.wind.config.turbulence_scale_lat = self.config.length_scales.y;
        self.wind.config.turbulence_scale_vert = self.config.length_scales.z;
        change
    }

    /// The exponent whose exponential is the share of the old weather that is
    /// left after `dt` seconds.
    pub open spec fn exponent(self, dt: Binary64) -> Binary64 {
        WeatherSystem::time_step(dt).negated().quotient(
            self.config.transition_time.larger(num(D0_5)),
        )
    }

    pub fn ramp_exponent(&self, dt: Binary64) -> (r: Binary64)
        ensures
            r == self.exponent(dt),
    {
        dt.max(num(D0_0001)).neg().over(self.config.transition_time.max(num(D0_5)))
    }

    /// The angle whose sine moves the gust envelope of a fixed pattern.
    pub open spec fn angle(self) -> Binary64 {
        num(D6_283185307179586).product(self.config.gust_frequency.larger(num(D0_001))).product(
            self.sim_time,
        ).sum(Binary64::integer(self.config.seed as nat).product(num(D0_000123456789)))
    }

    pub fn envelope_angle(&self) -> (r: Binary64)
        ensures
            r == self.angle(),
    {
        let freq: Binary64 = self.config.gust_frequency.max(num(D0_001));
        let phase: Binary64 = Binary64::from_u64(self.config.seed).times(num(D0_000123456789));
        num(D6_283185307179586).times(freq).times(self.sim_time).plus(phase)
    }

    /// The gust envelope after a time step: a sine in a fixed pattern, else a
    /// random walk that is drawn back to one.
    pub open spec fn envelope_after(self, t: Binary64, swing: Binary64) -> Binary64 {
        if self.config.deterministic {
            num(D1).sum(num(D0_35).product(swing)).clamped(num(D0_5), num(D1_35))
        } else {
            let rate = self.config.gust_frequency.larger(num(D0_001));
            self.envelope.sum(rate.product(num(D1).difference(self.envelope)).product(t)).sum(
                num(D0_12).product(t.root()).product(swing),
            ).clamped(num(D0_5), num(D1_5))
        }
    }

    fn update_envelope(&self, t: Binary64, swing: Binary64) -> (r: Binary64)
        ensures
            r == self.envelope_after(t, swing),
    {
        if self.config.deterministic {
            num(D1).plus(num(D0_35).times(swing)).clamp(num(D0_5), num(D1_35))
        } else {
            let rate: Binary64 = self.config.gust_frequency.max(num(D0_001));
            let pull: Binary64 = rate.times(num(D1).minus(self.envelope)).times(t);
            let noise: Binary64 = num(D0_12).times(t.sqrt()).times(swing);
            self.envelope.plus(pull).plus(noise).clamp(num(D0_5), num(D1_5))
        }
    }

    /// A value after it moved towards its target by the share `a`.
    pub open spec fn approached(current: Binary64, target: Binary64, a: Binary64) -> Binary64 {
        current.sum(a.product(target.difference(current)))
    }

    fn approach(current: Binary64, target: Binary64, a: Binary64) -> (r: Binary64)
        ensures
            r == WeatherSystem::approached(current, target, a),
    {
        current.plus(a.times(target.minus(current)))
    }

    /// The weather with rain, visibility, updraft and gust strength moved
    /// towards the scene.
    pub open spec fn settled(self, t: Binary64, air: AirInputs) -> WeatherSystem {
        let a = num(D1).difference(air.decay);
        let envelope = self.envelope_after(t, air.swing);
        let rms = scene_rms(self.config, self.scene, envelope);
        let sigma = if self.evading() {
            rms.product(self.config.evasive_sigma_factor)
        } else {
            rms
        };
        WeatherSystem {
            rain_current: WeatherSystem::approached(self.rain_current, self.scene.rain, a),
            visibility_current: WeatherSystem::approached(
                self.visibility_current,
                self.scene.visibility,
                a,
            ),
            updraft_current: WeatherSystem::approached(self.updraft_current, self.scene.updraft, a),
            precipitation: self.scene.precipitation,
            envelope,
            sigma_effective: sigma,
            turb_level: if self.evading() {
                self.turb_level
            } else {
                TurbulenceLevel::band_of(rms)
            },
            wind: WindEnvironment {
                config: WindConfig {
                    turbulence: TurbulenceIntensity::Custom(sigma),
                    ..self.wind.config
                },
                ..self.wind
            },
            ..self
        }
    }

    /// The weather with its air blown for a time step.
    pub open spec fn blown(self, vt_air: Binary64, t: Binary64, air: AirInputs) -> WeatherSystem {
        let steady = self.wind.steady(self.last_altitude, air.cosine, air.sine, air.shear_factor);
        let gust = self.wind.gusts_after(vt_air, t, air.normals);
        let total = steady.sum(gust).sum(self.wind_offset);
        WeatherSystem {
            wind: self.wind.with_gusts(gust),
            last_gust: gust,
            last_wind: Vec3 { z: total.z.difference(self.updraft_current), ..total },
            ..self
        }
    }

    /// The weather with the time of exposure counted.
    pub open spec fn exposed(self, t: Binary64) -> WeatherSystem {
        WeatherSystem {
            severe_elapsed: if self.severity == WeatherSeverity::Severe {
                self.severe_elapsed.sum(t)
            } else {
                num(D0)
            },
            visibility_violation_elapsed: if self.visibility_current.below(
                self.config.min_visibility,
            ) {
                self.visibility_violation_elapsed.sum(t)
            } else {
                num(D0)
            },
            evasive_timer: if self.evading() {
                self.evasive_timer.difference(t)
            } else {
                self.evasive_timer
            },
            ..self
        }
    }

    /// Why the weather ends the episode: a gust above the limit first, then
    /// too long without sight, then too long in severe weather; nothing where
    /// that is switched off.
    pub open spec fn verdict(self) -> TerminationReason {
        if !self.config.extreme_weather_termination {
            TerminationReason::Benign
        } else if self.config.gust_termination_limit.below(self.last_gust.length()) {
            TerminationReason::GustLimit
        } else if self.visibility_current.below(self.config.min_visibility)
            && self.config.visibility_timeout.below(self.visibility_violation_elapsed) {
            TerminationReason::VisibilityLimit
        } else if self.config.severe_exposure_limit.below(self.severe_elapsed) {
            TerminationReason::SevereExposure
        } else {
            TerminationReason::Benign
        }
    }

    /// The weather after the second part of a step.
    pub open spec fn air_stepped(self, vt_air: Binary64, dt: Binary64, air: AirInputs) -> WeatherSystem {
        let t = WeatherSystem::time_step(dt);
        let w = self.settled(t, air).blown(vt_air, t, air).exposed(t);
        WeatherSystem { terminated: w.verdict(), ..w }
    }

    /// Second part of a step: the weather follows its scene for `dt` seconds,
    /// the air blows, and exposure is judged. Returns the wind.
    pub fn step(&mut self, vt_air: Binary64, dt: Binary64, air: &AirInputs) -> (r: Vec3)
        ensures
            *final(self) == old(self).air_stepped(vt_air, dt, *air),
            r == final(self).last_wind,
    {
        let t: Binary64 = dt.max(num(D0_0001));
        let a: Binary64 = num(D1).minus(air.decay);
        self.rain_current = WeatherSystem::approach(self.rain_current, self.scene.rain, a);
        self.visibility_current = WeatherSystem::approach(
            self.visibility_current,
            self.scene.visibility,
            a,
        );
        self.updraft_current = WeatherSystem::approach(
            self.updraft_current,
            self.scene.updraft,
            a,
        );
        self.precipitation = self.scene.precipitation;
        self.envelope = self.update_envelope(t, air.swing);
        let (rms, level) = scene_sigma(&self.config, &self.scene, self.envelope);
        let evasive: bool = self.evasive_timer.gt(num(D0));
        let sigma: Binary64 = if evasive {
            rms.times(self.config.evasive_sigma_factor)
        } else {
            rms
        };
        self.sigma_effective = sigma;
        if !evasive {
            self.turb_level = level;
        }
        self.wind.set_sigma(sigma);
        let steady: Vec3 = self.wind.steady_wind(
            self.last_altitude,
            air.cosine,
            air.sine,
            air.shear_factor,
        );
        let gust: Vec3 = self.wind.turbulence(vt_air, t, air.normals);
        self.last_gust = gust;
        let mut total: Vec3 = steady.plus(gust).plus(self.wind_offset);
        total.z = total.z.minus(self.updraft_current);
        self.last_wind = total;
        if self.severity == WeatherSeverity::Severe {
            self.severe_elapsed = self.severe_elapsed.plus(t);
        } else {
            self.severe_elapsed = num(D0);
        }
        if self.visibility_current.lt(self.config.min_visibility) {
            self.visibility_violation_elapsed = self.visibility_violation_elapsed.plus(t);
        } else {
            self.visibility_violation_elapsed = num(D0);
        }
        if evasive {
            self.evasive_timer = self.evasive_timer.minus(t);
        }
        self.terminated = self.evaluate_termination();
        total
    }

    fn evaluate_termination(&self) -> (r: TerminationReason)
        ensures
            r == self.verdict(),
    {
        if !self.config.extreme_weather_termination {
            return TerminationReason::Benign;
        }
        if self.last_gust.norm().gt(self.config.gust_termination_limit) {
            return TerminationReason::GustLimit;
        }
        if self.visibility_current.lt(self.config.min_visibility)
            && self.visibility_violation_elapsed.gt(self.config.visibility_timeout) {
            return TerminationReason::VisibilityLimit;
        }
        if self.severe_elapsed.gt(self.config.severe_exposure_limit) {
            return TerminationReason::SevereExposure;
        }
        TerminationReason::Benign
    }
}

} // verus!
