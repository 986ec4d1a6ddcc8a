//! Parameters of the weather.
use super::levels::{PrecipitationType, TurbulenceLevel, WeatherPreset, WeatherSeverity};
use crate::binary64::Binary64;
use crate::literal::{
    num, D0, D0_05, D0_2, D0_4, D0_5, D0_8, D1, D10, D12000, D120, D1200, D13_5, D18, D1_5, D2,
    D20000, D21, D25, D2500, D266_5, D2_5, D30, D35, D4_5, D5, D500, D5000, D533, D6, D7_5, D8,
    D800,
};
use crate::vector::Vec3;
use vstd::prelude::*;

verus! {

/// Parameters of the weather layer, in SI units.
#[derive(Clone, Copy, Debug, PartialEq, Eq, Structural)]
pub struct WeatherConfig {
    /// Seed of the scenes and gusts.
    pub seed: u64,
    /// Whether the weather keeps one pattern for a whole episode.
    pub deterministic: bool,
    /// Seconds between scene changes where it does not.
    pub auto_change_interval: Binary64,
    /// Severity band from which the scenes are made.
    pub severity: WeatherSeverity,
    /// Steady wind speed (m/s) at the reference altitude.
    pub mean_wind_speed: Binary64,
    /// Bearing (degrees clockwise from north) towards which the wind blows.
    pub wind_direction_deg: Binary64,
    /// Whether the wind grows with altitude near the ground.
    pub wind_shear: bool,
    /// Altitude (m) at which the mean wind speed holds.
    pub reference_altitude: Binary64,
    /// Turbulence band.
    pub turbulence: TurbulenceLevel,
    /// Length scales (m) of the gusts along, across and up.
    pub length_scales: Vec3,
    /// How fast the gust strength wanders (Hz).
    pub gust_frequency: Binary64,
    /// Peak gust speed (m/s), about three times the RMS.
    pub gust_magnitude: Binary64,
    /// Rain intensity of the scene, between zero and one.
    pub rain_intensity: Binary64,
    /// Visibility (m) of the scene.
    pub visibility: Binary64,
    /// Updraft (m/s, up is positive) of the scene.
    pub updraft_strength: Binary64,
    /// What falls in the scene.
    pub precipitation: PrecipitationType,
    /// Seconds in which rain, visibility and updraft follow the scene.
    pub transition_time: Binary64,
    /// Weight of the severity penalty.
    pub w_weather: Binary64,
    /// Weight of the turbulence penalty.
    pub w_turbulence: Binary64,
    /// Weight of the visibility penalty.
    pub w_visibility: Binary64,
    /// Weight of the steady wind penalty.
    pub w_wind: Binary64,
    /// Whether the weather may end an episode.
    pub extreme_weather_termination: bool,
    /// Gust speed (m/s) above which the episode ends.
    pub gust_termination_limit: Binary64,
    /// Visibility (m) below which exposure counts.
    pub min_visibility: Binary64,
    /// Seconds below the minimum visibility after which the episode ends.
    pub visibility_timeout: Binary64,
    /// Seconds of severe weather after which the episode ends.
    pub severe_exposure_limit: Binary64,
    /// Seconds that an evasive maneuver lasts.
    pub evasive_duration: Binary64,
    /// Factor on the RMS gust speed during an evasive maneuver.
    pub evasive_sigma_factor: Binary64,
}

impl WeatherConfig {
    /// The parameters of a preset.
    pub open spec fn preset(preset: WeatherPreset, seed: u64) -> WeatherConfig {
        let common = WeatherConfig {
            seed,
            deterministic: false,
            auto_change_interval: num(D30),
            severity: preset.band(),
            mean_wind_speed: num(D2),
            wind_direction_deg: num(D0),
            wind_shear: false,
            reference_altitude: num(D800),
            turbulence: TurbulenceLevel::Light,
            length_scales: Vec3 { x: num(D533), y: num(D533), z: num(D266_5) },
            gust_frequency: num(D0_2),
            gust_magnitude: num(D4_5),
            rain_intensity: num(D0),
            visibility: num(D20000),
            updraft_strength: num(D0),
            precipitation: PrecipitationType::Dry,
            transition_time: num(D10),
            w_weather: num(D1),
            w_turbulence: num(D2),
            w_visibility: num(D1_5),
            w_wind: num(D0_5),
            extreme_weather_termination: false,
            gust_termination_limit: num(D35),
            min_visibility: num(D500),
            visibility_timeout: num(D30),
            severe_exposure_limit: num(D120),
            evasive_duration: num(D6),
            evasive_sigma_factor: num(D0_4),
        };
        match preset {
            WeatherPreset::Clear => common,
            WeatherPreset::LightTurb => WeatherConfig {
                mean_wind_speed: num(D5),
                rain_intensity: num(D0_05),
                visibility: num(D12000),
                gust_magnitude: num(D7_5),
                updraft_strength: num(D1),
                ..common
            },
            WeatherPreset::Rain => WeatherConfig {
                mean_wind_speed: num(D10),
                rain_intensity: num(D0_5),
                visibility: num(D5000),
                turbulence: TurbulenceLevel::Moderate,
                gust_magnitude: num(D13_5),
                updraft_strength: num(D2_5),
                precipitation: PrecipitationType::Rain,
                wind_shear: true,
                ..common
            },
            WeatherPreset::Storm => WeatherConfig {
                mean_wind_speed: num(D18),
                rain_intensity: num(D0_8),
                visibility: num(D2500),
                turbulence: TurbulenceLevel::Severe,
                gust_magnitude: num(D21),
                updraft_strength: num(D5),
                precipitation: PrecipitationType::Hail,
                wind_shear: true,
                ..common
            },
            WeatherPreset::ExtremeStorm => WeatherConfig {
                mean_wind_speed: num(D25),
                rain_intensity: num(D1),
                visibility: num(D1200),
                turbulence: TurbulenceLevel::Extreme,
                gust_magnitude: num(D30),
                updraft_strength: num(D8),
                precipitation: PrecipitationType::Hail,
                wind_shear: true,
                ..common
            },
        }
    }

    /// The parameters of a preset with a seed.
    pub fn from_preset(preset: WeatherPreset, seed: u64) -> (r: Self)
        ensures
            r == WeatherConfig::preset(preset, seed),
    {
        let (wind, rain, visibility, turbulence, gust, updraft, precipitation, shear) =
            match preset {
            WeatherPreset::Clear => (
                num(D2),
                num(D0),
                num(D20000),
                TurbulenceLevel::Light,
                num(D4_5),
                num(D0),
                PrecipitationType::Dry,
                false,
            ),
            WeatherPreset::LightTurb => (
                num(D5),
                num(D0_05),
                num(D12000),
                TurbulenceLevel::Light,
                num(D7_5),
                num(D1),
                PrecipitationType::Dry,
                false,
            ),
            WeatherPreset::Rain => (
                num(D10),
                num(D0_5),
                num(D5000),
                TurbulenceLevel::Moderate,
                num(D13_5),
                num(D2_5),
                PrecipitationType::Rain,
                true,
            ),
            WeatherPreset::Storm => (
                num(D18),
                num(D0_8),
                num(D2500),
                TurbulenceLevel::Severe,
                num(D21),
                num(D5),
                PrecipitationType::Hail,
                true,
            ),
            WeatherPreset::ExtremeStorm => (
                num(D25),
                num(D1),
                num(D1200),
                TurbulenceLevel::Extreme,
                num(D30),
                num(D8),
                PrecipitationType::Hail,
                true,
            ),
        };
        WeatherConfig {
            seed,
            deterministic: false,
            auto_change_interval: num(D30),
            severity: preset.severity(),
            mean_wind_speed: wind,
            wind_direction_deg: num(D0),
            wind_shear: shear,
            reference_altitude: num(D800),
            turbulence,
            length_scales: Vec3 { x: num(D533), y: num(D533), z: num(D266_5) },
            gust_frequency: num(D0_2),
            gust_magnitude: gust,
            rain_intensity: rain,
            visibility,
            updraft_strength: updraft,
            precipitation,
            transition_time: num(D10),
            w_weather: num(D1),
            w_turbulence: num(D2),
            w_visibility: num(D1_5),
            w_wind: num(D0_5),
            extreme_weather_termination: false,
            gust_termination_limit: num(D35),
            min_visibility: num(D500),
            visibility_timeout: num(D30),
            severe_exposure_limit: num(D120),
            evasive_duration: num(D6),
            evasive_sigma_factor: num(D0_4),
        }
    }

    /// The same parameters with another seed.
    pub fn with_seed(self, seed: u64) -> (r: Self)
        ensures
            r == (WeatherConfig { seed, ..self }),
    {
        WeatherConfig { seed, ..self }
    }

    /// The same parameters with one pattern for a whole episode, or without.
    pub fn with_deterministic(self, deterministic: bool) -> (r: Self)
        ensures
            r == (WeatherConfig { deterministic, ..self }),
    {
        WeatherConfig { deterministic, ..self }
    }

    /// The same parameters with another time between scene changes, which is
    /// never negative.
    pub fn with_auto_change(self, seconds: Binary64) -> (r: Self)
        ensures
            r == (WeatherConfig { auto_change_interval: seconds.larger(num(D0)), ..self }),
    {
        WeatherConfig { auto_change_interval: seconds.max(num(D0)), ..self }
    }

    /// The same parameters with another severity band.
    pub fn with_severity(self, severity: WeatherSeverity) -> (r: Self)
        ensures
            r == (WeatherConfig { severity, ..self }),
    {
        WeatherConfig { severity, ..self }
    }
}

impl Default for WeatherConfig {
    fn default() -> (r: Self)
        ensures
            r == WeatherConfig::preset(WeatherPreset::Clear, 0),
    {
        WeatherConfig::from_preset(WeatherPreset::Clear, 0)
    }
}

/// Worse presets have more wind, more rain, stronger gusts and updrafts, less
/// sight and no calmer turbulence.
pub proof fn presets_get_worse(seed: u64)
    ensures
        worse(
            WeatherConfig::preset(WeatherPreset::Clear, seed),
            WeatherConfig::preset(WeatherPreset::LightTurb, seed),
        ),
        worse(
            WeatherConfig::preset(WeatherPreset::LightTurb, seed),
            WeatherConfig::preset(WeatherPreset::Rain, seed),
        ),
        worse(
            WeatherConfig::preset(WeatherPreset::Rain, seed),
            WeatherConfig::preset(WeatherPreset::Storm, seed),
        ),
        worse(
            WeatherConfig::preset(WeatherPreset::Storm, seed),
            WeatherConfig::preset(WeatherPreset::ExtremeStorm, seed),
        ),
{
}

/// Whether the second weather is worse than the first in every respect.
pub open spec fn worse(a: WeatherConfig, b: WeatherConfig) -> bool {
    &&& a.severity.number() <= b.severity.number()
    &&& a.turbulence.number() <= b.turbulence.number()
    &&& a.mean_wind_speed.below(b.mean_wind_speed)
    &&& a.rain_intensity.below(b.rain_intensity)
    &&& b.visibility.below(a.visibility)
    &&& a.gust_magnitude.below(b.gust_magnitude)
    &&& a.updraft_strength.below(b.updraft_strength)
}

} // verus!
