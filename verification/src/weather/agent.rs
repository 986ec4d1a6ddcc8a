//! What a learning agent sees of the weather, is charged for it, and can do
//! about it.
use super::config::WeatherConfig;
use super::curriculum::WeatherCurriculum;
use super::levels::{
    CurriculumPhase, PrecipitationType, TerminationReason, TurbulenceLevel, WeatherSeverity,
};
use super::system::{SceneDraws, WeatherObservation, WeatherSystem};
use crate::binary64::Binary64;
use crate::literal::{num, D0, D0_5, D1, D10, D20, D20000, D30, D5, D9, M30, M4};
use crate::vector::Vec3;
use vstd::prelude::*;

verus! {

impl WeatherSystem {
    /// The change of the wind with altitude, from the steady winds 5 m below
    /// and above; zero without shear.
    pub open spec fn gradient(
        self,
        altitude: Binary64,
        cosine: Binary64,
        sine: Binary64,
        factor_below: Binary64,
        factor_above: Binary64,
    ) -> Vec3 {
        if !self.config.wind_shear {
            Vec3::zero()
        } else {
            let lo = self.wind.steady(altitude.difference(num(D5)), cosine, sine, factor_below);
            let hi = self.wind.steady(altitude.sum(num(D5)), cosine, sine, factor_above);
            hi.difference(lo).divided(num(D10))
        }
    }

    /// The altitudes between which the gradient is taken.
    pub fn gradient_altitudes(altitude: Binary64) -> (r: (Binary64, Binary64))
        ensures
            r.0 == altitude.difference(num(D5)),
            r.1 == altitude.sum(num(D5)),
    {
        (altitude.minus(num(D5)), altitude.plus(num(D5)))
    }

    /// The change of each component of the wind with altitude. `cosine` and
    /// `sine` are those of the wind direction, the factors the shear factors at
    /// the two altitudes.
    pub fn shear_gradient_vector(
        &self,
        altitude: Binary64,
        cosine: Binary64,
        sine: Binary64,
        factor_below: Binary64,
        factor_above: Binary64,
    ) -> (r: Vec3)
        ensures
            r == self.gradient(altitude, cosine, sine, factor_below, factor_above),
    {
        if !self.config.wind_shear {
            return Vec3::zeros();
        }
        let (below, above) = WeatherSystem::gradient_altitudes(altitude);
        let lo: Vec3 = self.wind.steady_wind(below, cosine, sine, factor_below);
        let hi: Vec3 = self.wind.steady_wind(above, cosine, sine, factor_above);
        hi.minus(lo).over(num(D10))
    }

    /// The size of the change of the wind with altitude.
    pub fn shear_gradient(
        &self,
        altitude: Binary64,
        cosine: Binary64,
        sine: Binary64,
        factor_below: Binary64,
        factor_above: Binary64,
    ) -> (r: Binary64)
        ensures
            r == self.gradient(altitude, cosine, sine, factor_below, factor_above).length(),
    {
        self.shear_gradient_vector(altitude, cosine, sine, factor_below, factor_above).norm()
    }

    /// The observation, given the size of the wind gradient.
    pub open spec fn seen(self, shear: Binary64) -> WeatherObservation {
        WeatherObservation {
            wind: self.last_wind,
            turbulence_level: self.turb_level.number() as i32,
            gust_rms: self.sigma_effective,
            rain_intensity: self.rain_current,
            visibility: self.visibility_current,
            shear_gradient: shear,
            updraft_strength: self.updraft_current,
            precipitation: self.precipitation,
            severity: self.severity,
            wind_speed: self.scene.wind_speed,
            timestamp: self.sim_time,
        }
    }

    /// What the agent observes, given the size of the wind gradient.
    pub fn observation(&self, shear: Binary64) -> (r: WeatherObservation)
        ensures
            r == self.seen(shear),
    {
        WeatherObservation {
            wind: self.last_wind,
            turbulence_level: self.turb_level.index(),
            gust_rms: self.sigma_effective,
            rain_intensity: self.rain_current,
            visibility: self.visibility_current,
            shear_gradient: shear,
            updraft_strength: self.updraft_current,
            precipitation: self.precipitation,
            severity: self.severity,
            wind_speed: self.scene.wind_speed,
            timestamp: self.sim_time,
        }
    }

    /// The observation as a flat array.
    pub fn observation_array(&self, shear: Binary64) -> (r: [Binary64; 12])
        ensures
            forall|i: int| 0 <= i < 12 ==> #[trigger] r@[i] == self.seen(shear).channel(i),
    {
        self.observation(shear).to_array()
    }

    /// A weight as a penalty on the square of a part of one.
    pub open spec fn charged(weight: Binary64, part: Binary64) -> Binary64 {
        weight.negated().product(part).product(part)
    }

    pub open spec fn severity_charge(self) -> Binary64 {
        self.config.w_weather.negated().product(self.severity.fraction())
    }

    pub open spec fn turbulence_charge(self) -> Binary64 {
        WeatherSystem::charged(
            self.config.w_turbulence,
            self.sigma_effective.quotient(num(D9)).clamped(num(D0), num(D1)),
        )
    }

    pub open spec fn visibility_charge(self) -> Binary64 {
        WeatherSystem::charged(
            self.config.w_visibility,
            num(D1).difference(
                self.visibility_current.quotient(num(D20000)).clamped(num(D0), num(D1)),
            ),
        )
    }

    pub open spec fn wind_charge(self) -> Binary64 {
        WeatherSystem::charged(
            self.config.w_wind,
            self.scene.wind_speed.quotient(num(D20)).clamped(num(D0), num(D1)),
        )
    }

    /// All penalties together with half a weather weight for the rain; half of
    /// it all during an evasive maneuver.
    pub open spec fn total_charge(self) -> Binary64 {
        let p = self.severity_charge().difference(
            self.config.w_weather.product(num(D0_5)).product(self.rain_current),
        ).sum(self.turbulence_charge().sum(self.visibility_charge()).sum(self.wind_charge()));
        if self.evading() {
            p.product(num(D0_5))
        } else {
            p
        }
    }

    /// Penalty for the severity band.
    pub fn weather_penalty(&self) -> (r: Binary64)
        ensures
            r == self.severity_charge(),
    {
        self.config.w_weather.neg().times(self.severity.normalized())
    }

    /// Penalty for the gusts.
    pub fn turbulence_penalty(&self) -> (r: Binary64)
        ensures
            r == self.turbulence_charge(),
    {
        let part: Binary64 = self.sigma_effective.over(num(D9)).clamp(num(D0), num(D1));
        self.config.w_turbulence.neg().times(part).times(part)
    }

    /// Penalty for lost visibility.
    pub fn visibility_penalty(&self) -> (r: Binary64)
        ensures
            r == self.visibility_charge(),
    {
        let v: Binary64 = self.visibility_current.over(num(D20000)).clamp(num(D0), num(D1));
        let part: Binary64 = num(D1).minus(v);
        self.config.w_visibility.neg().times(part).times(part)
    }

    /// Penalty for strong steady wind.
    pub fn wind_penalty(&self) -> (r: Binary64)
        ensures
            r == self.wind_charge(),
    {
        let part: Binary64 = self.scene.wind_speed.over(num(D20)).clamp(num(D0), num(D1));
        self.config.w_wind.neg().times(part).times(part)
    }

    /// All weather penalties of a step.
    pub fn reward_penalty_total(&self) -> (r: Binary64)
        ensures
            r == self.total_charge(),
    {
        let mut p: Binary64 = self.weather_penalty();
        p = p.minus(self.config.w_weather.times(num(D0_5)).times(self.rain_current));
        p = p.plus(
            self.turbulence_penalty().plus(self.visibility_penalty()).plus(self.wind_penalty()),
        );
        if self.evasive_timer.gt(num(D0)) {
            p = p.times(num(D0_5));
        }
        p
    }

    /// Penalty for an episode that the weather ended.
    pub fn weather_crash_penalty(&self) -> (r: Binary64)
        ensures
            r == num(M4).product(self.config.w_weather),
    {
        num(M4).times(self.config.w_weather)
    }

    /// Sets the scene to the nominal one of a severity band.
    pub fn set_severity(&mut self, severity: WeatherSeverity)
        ensures
            *final(self) == old(self).with_preset(severity.nominal()),
    {
        self.apply_preset(severity.nominal_preset());
    }

    /// The wind that the agent adds, after it asked for `delta` more.
    pub open spec fn offset_after(self, delta: Vec3) -> Vec3 {
        Vec3 {
            x: self.wind_offset.x.sum(delta.x).clamped(num(M30), num(D30)),
            y: self.wind_offset.y.sum(delta.y).clamped(num(M30), num(D30)),
            z: self.wind_offset.z.sum(delta.z).clamped(num(M30), num(D30)),
        }
    }

    /// Adds to the wind, up to 30 m/s on each axis in all.
    pub fn modify_wind_vector(&mut self, delta: Vec3)
        ensures
            *final(self) == (WeatherSystem {
                wind_offset: old(self).offset_after(delta),
                ..*old(self)
            }),
    {
        self.wind_offset = Vec3 {
            x: self.wind_offset.x.plus(delta.x).clamp(num(M30), num(D30)),
            y: self.wind_offset.y.plus(delta.y).clamp(num(M30), num(D30)),
            z: self.wind_offset.z.plus(delta.z).clamp(num(M30), num(D30)),
        };
    }

    /// Takes the added wind away.
    pub fn clear_wind_offset(&mut self)
        ensures
            *final(self) == (WeatherSystem { wind_offset: Vec3::zero(), ..*old(self) }),
    {
        self.wind_offset = Vec3::zeros();
    }

    /// Starts an evasive maneuver.
    pub fn trigger_evasive_maneuver(&mut self)
        ensures
            *final(self) == (WeatherSystem {
                evasive_timer: old(self).config.evasive_duration,
                ..*old(self)
            }),
    {
        self.evasive_timer = self.config.evasive_duration;
    }

    pub fn is_evasive(&self) -> (r: bool)
        ensures
            r == self.evading(),
    {
        self.evasive_timer.gt(num(D0))
    }

    /// Why the weather ended the episode.
    pub fn termination(&self) -> (r: TerminationReason)
        ensures
            r == self.terminated,
    {
        self.terminated
    }

    pub fn is_terminated(&self) -> (r: bool)
        ensures
            r == (self.terminated != TerminationReason::Benign),
    {
        self.terminated != TerminationReason::Benign
    }

    pub fn config(&self) -> (r: &WeatherConfig)
        ensures
            *r == self.config,
    {
        &self.config
    }

    pub fn severity(&self) -> (r: WeatherSeverity)
        ensures
            r == self.severity,
    {
        self.severity
    }

    pub fn turbulence_level(&self) -> (r: TurbulenceLevel)
        ensures
            r == self.turb_level,
    {
        self.turb_level
    }

    pub fn rain_intensity(&self) -> (r: Binary64)
        ensures
            r == self.rain_current,
    {
        self.rain_current
    }

    pub fn visibility(&self) -> (r: Binary64)
        ensures
            r == self.visibility_current,
    {
        self.visibility_current
    }

    pub fn updraft_strength(&self) -> (r: Binary64)
        ensures
            r == self.updraft_current,
    {
        self.updraft_current
    }

    pub fn precipitation(&self) -> (r: PrecipitationType)
        ensures
            r == self.precipitation,
    {
        self.precipitation
    }

    pub fn gust_rms(&self) -> (r: Binary64)
        ensures
            r == self.sigma_effective,
    {
        self.sigma_effective
    }

    pub fn total_wind(&self) -> (r: Vec3)
        ensures
            r == self.last_wind,
    {
        self.last_wind
    }

    pub fn gust_vector(&self) -> (r: Vec3)
        ensures
            r == self.last_gust,
    {
        self.last_gust
    }

    pub fn wind_offset(&self) -> (r: Vec3)
        ensures
            r == self.wind_offset,
    {
        self.wind_offset
    }

    pub fn sim_time(&self) -> (r: Binary64)
        ensures
            r == self.sim_time,
    {
        self.sim_time
    }

    pub fn scene_index(&self) -> (r: u64)
        ensures
            r == self.scene_index,
    {
        self.scene_index
    }

    /// Changes the seed and restarts the episode.
    pub fn set_seed(&mut self, seed: u64, draws: &SceneDraws)
        ensures
            *final(self) == (WeatherSystem {
                config: WeatherConfig { seed, ..old(self).config },
                ..*old(self)
            }).restarted(*draws),
    {
        self.config.seed = seed;
        self.reset(draws);
    }

    /// Switches between a fixed pattern and changing scenes, and restarts the
    /// episode.
    pub fn set_deterministic(&mut self, deterministic: bool, draws: &SceneDraws)
        ensures
            *final(self) == (WeatherSystem {
                config: WeatherConfig { deterministic, ..old(self).config },
                ..*old(self)
            }).restarted(*draws),
    {
        self.config.deterministic = deterministic;
        self.reset(draws);
    }

    /// Sets the time between scene changes, which is never negative.
    pub fn set_auto_change_interval(&mut self, seconds: Binary64)
        ensures
            *final(self) == (WeatherSystem {
                config: WeatherConfig {
                    auto_change_interval: seconds.larger(num(D0)),
                    ..old(self).config
                },
                ..*old(self)
            }),
    {
        self.config.auto_change_interval = seconds.max(num(D0));
    }

    /// Moves the curriculum to its next phase and returns the number of the
    /// phase; without a curriculum, returns the number of the severity.
    pub fn next_curriculum_phase(&mut self) -> (r: i32)
        requires
            old(self).scene_index < u64::MAX,
        ensures
            match old(self).curriculum {
                Some(c) => {
                    &&& r == c.following().number()
                    &&& *final(self) == (WeatherSystem {
                        curriculum: Some(c.moved_on()),
                        scene_index: (old(self).scene_index + 1) as u64,
                        ..*old(self)
                    }).with_preset(c.following().weather())
                },
                None => r == old(self).severity.number() && *final(self) == *old(self),
            },
    {
        match self.curriculum {
            Some(c) => {
                let mut moved: WeatherCurriculum = c;
                let next: CurriculumPhase = moved.next_phase();
                self.curriculum = Some(moved);
                self.apply_preset(next.preset());
                self.scene_index = self.scene_index + 1;
                next.index()
            },
            None => self.severity.index(),
        }
    }

    /// Number of the active phase; zero without a curriculum.
    pub fn curriculum_phase(&self) -> (r: i32)
        ensures
            r == match self.curriculum {
                Some(c) => c.current.number(),
                None => 0,
            },
    {
        match &self.curriculum {
            Some(c) => c.phase().index(),
            None => 0,
        }
    }

    /// Whether the curriculum has completed the storm; true without one.
    pub fn is_curriculum_complete(&self) -> (r: bool)
        ensures
            r == match self.curriculum {
                Some(c) => c.done && c.current == CurriculumPhase::Phase4Storm,
                None => true,
            },
    {
        match &self.curriculum {
            Some(c) => c.is_complete(),
            None => true,
        }
    }

    /// The part of the curriculum that has been flown; one without one.
    pub fn curriculum_progress(&self) -> (r: Binary64)
        ensures
            r == match self.curriculum {
                Some(c) => c.fraction_flown(),
                None => num(D1),
            },
    {
        match &self.curriculum {
            Some(c) => c.progress(),
            None => num(D1),
        }
    }
}

/// Remembers which weather was last announced, so that each change is
/// announced once.
#[derive(Clone, Copy, Debug, PartialEq, Eq, Structural)]
pub struct ChangeNotifier {
    pub emitted_severity: i32,
    pub emitted_scene: u64,
}

impl ChangeNotifier {
    /// A notifier of weather that was just set up.
    pub fn new() -> (r: Self)
        ensures
            r.emitted_severity == -1,
            r.emitted_scene == 0,
    {
        ChangeNotifier { emitted_severity: -1, emitted_scene: 0 }
    }

    /// Forgets what was announced, so that the next weather is announced.
    pub fn forget(&mut self)
        ensures
            final(self).emitted_severity == -1,
            final(self).emitted_scene == u64::MAX,
    {
        self.emitted_severity = -1;
        self.emitted_scene = u64::MAX;
    }

    /// Whether the weather differs from what was announced.
    pub open spec fn news(self, severity: WeatherSeverity, scene: u64) -> bool {
        severity.number() != self.emitted_severity || scene != self.emitted_scene
    }

    /// The severity number to announce, if the severity or the scene changed.
    pub fn notify(&mut self, severity: WeatherSeverity, scene: u64) -> (r: Option<i32>)
        ensures
            r == if old(self).news(severity, scene) {
                Some(severity.number() as i32)
            } else {
                None
            },
            !final(self).news(severity, scene),
            !old(self).news(severity, scene) ==> *final(self) == *old(self),
    {
        let index: i32 = severity.index();
        if index != self.emitted_severity || scene != self.emitted_scene {
            self.emitted_severity = index;
            self.emitted_scene = scene;
            Some(index)
        } else {
            None
        }
    }
}

} // verus!
