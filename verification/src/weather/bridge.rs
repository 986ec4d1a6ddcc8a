//! The weather as a scene sets it up and shows it.
use super::config::WeatherConfig;
use super::levels::{WeatherPreset, WeatherSeverity};
use crate::binary64::Binary64;
use crate::literal::{num, D0, D0_1, D0_5, D1, D1EM4, D20000, D30};
use crate::vector::Vec3;
use vstd::prelude::*;

verus! {

/// The length of a step, neither too short nor too long.
pub open spec fn length_of(delta: Binary64) -> Binary64 {
    delta.clamped(num(D0), num(D0_1)).larger(num(D1EM4))
}

/// The length of a step (s), neither too short nor too long.
pub fn step_length(delta: Binary64) -> (r: Binary64)
    ensures
        r == length_of(delta),
{
    delta.clamp(num(D0), num(D0_1)).max(num(D1EM4))
}

/// The altitude at which the wind is felt.
pub open spec fn altitude_of(meters: Binary64) -> Binary64 {
    meters.larger(num(D0))
}

/// The altitude (m) at which the wind is felt: not below the ground.
pub fn reference_altitude(meters: Binary64) -> (r: Binary64)
    ensures
        r == altitude_of(meters),
{
    meters.max(num(D0))
}

/// The airspeed at which gusts are met.
pub open spec fn airspeed_of(mps: Binary64) -> Binary64 {
    mps.larger(num(D0_5))
}

/// The airspeed (m/s) at which gusts are met: never quite zero.
pub fn gust_airspeed(mps: Binary64) -> (r: Binary64)
    ensures
        r == airspeed_of(mps),
{
    mps.max(num(D0_5))
}

/// A visibility as a fraction of that of clear air.
pub open spec fn visibility_share(visibility: Binary64) -> Binary64 {
    visibility.quotient(num(D20000)).clamped(num(D0), num(D1))
}

/// A visibility as a fraction of that of clear air.
pub fn visibility_01(visibility: Binary64) -> (r: Binary64)
    ensures
        r == visibility_share(visibility),
{
    visibility.over(num(D20000)).clamp(num(D0), num(D1))
}

/// A wind that is given in the axes of the scene.
pub open spec fn wind_of_scene(north: Binary64, east: Binary64, down_world: Binary64) -> Vec3 {
    Vec3 { x: north, y: down_world.negated(), z: east }
}

/// A wind that is given in the axes of the scene.
pub fn wind_from_scene(north: Binary64, east: Binary64, down_world: Binary64) -> (r: Vec3)
    ensures
        r == wind_of_scene(north, east, down_world),
{
    Vec3 { x: north, y: down_world.neg(), z: east }
}

/// A seed that is given as a signed number: negative ones mean zero.
pub open spec fn seed_of(seed: i64) -> u64 {
    if seed < 0 {
        0
    } else {
        seed as u64
    }
}

/// A seed that is given as a signed number: negative ones mean zero.
pub fn seed_from(seed: i64) -> (r: u64)
    ensures
        r == seed_of(seed),
{
    if seed < 0 {
        0
    } else {
        seed as u64
    }
}

/// The steps of a phase: at least one.
pub fn phase_steps(steps: i64) -> (r: u64)
    ensures
        r == if steps < 1 {
            1int
        } else {
            steps as int
        },
{
    if steps < 1 {
        1
    } else {
        steps as u64
    }
}

/// The weather of a preset by name.
pub open spec fn configured_as(
    preset: Seq<char>,
    seed: i64,
    deterministic: bool,
    auto_change: Binary64,
) -> WeatherConfig {
    WeatherConfig {
        auto_change_interval: auto_change.larger(num(D0)),
        deterministic,
        ..WeatherConfig::preset(WeatherPreset::named(preset), seed_of(seed))
    }
}

/// The weather of a preset by name, with a seed, fixed or changing by chance
/// after some seconds.
pub fn configured(
    preset: &str,
    seed: i64,
    deterministic: bool,
    auto_change: Binary64,
) -> (r: WeatherConfig)
    ensures
        r == configured_as(preset@, seed, deterministic, auto_change),
{
    WeatherConfig::from_preset(WeatherPreset::from_name(preset), seed_from(seed)).with_auto_change(
        auto_change,
    ).with_deterministic(deterministic)
}

/// What the surroundings say of the weather; what they leave out is open.
pub struct WeatherWishes {
    pub seed: Option<u64>,
    pub deterministic: bool,
    pub preset: Option<String>,
    pub severity: Option<String>,
    pub auto_change: Option<Binary64>,
}

impl WeatherWishes {
    /// The weather that is wished for: clear and steady with the first seed
    /// where nothing is said.
    pub open spec fn granted(self) -> WeatherConfig {
        let preset = match self.preset {
            Some(name) => WeatherPreset::named(name@),
            None => WeatherPreset::Clear,
        };
        let seed = match self.seed {
            Some(seed) => seed,
            None => 1u64,
        };
        let change = match self.auto_change {
            Some(seconds) => seconds,
            None => num(D30),
        };
        WeatherConfig {
            auto_change_interval: change.larger(num(D0)),
            deterministic: self.deterministic,
            severity: match self.severity {
                Some(name) => WeatherSeverity::named(name@),
                None => WeatherSeverity::Clear,
            },
            ..WeatherConfig::preset(preset, seed)
        }
    }

    /// The weather that is wished for.
    pub fn config(&self) -> (r: WeatherConfig)
        ensures
            r == self.granted(),
    {
        let preset: WeatherPreset = match &self.preset {
            Some(name) => WeatherPreset::from_name(name.as_str()),
            None => WeatherPreset::Clear,
        };
        let severity: WeatherSeverity = match &self.severity {
            Some(name) => WeatherSeverity::from_name(name.as_str()),
            None => WeatherSeverity::Clear,
        };
        let seed: u64 = match self.seed {
            Some(seed) => seed,
            None => 1,
        };
        let change: Binary64 = match self.auto_change {
            Some(seconds) => seconds,
            None => num(D30),
        };
        WeatherConfig::from_preset(preset, seed).with_auto_change(change).with_deterministic(
            self.deterministic,
        ).with_severity(severity)
    }
}

/// Clearer air has a larger share of the view, and the scene shows the wind with
/// up where the world has down.
pub proof fn clearer_air_shows_more(
    a: Binary64,
    b: Binary64,
    north: Binary64,
    east: Binary64,
    down: Binary64,
)
    requires
        a.finite() && b.finite() && a.not_above(b),
        !down.nan(),
    ensures
        visibility_share(a).not_above(visibility_share(b)),
        wind_of_scene(north, east, down).x == north,
        wind_of_scene(north, east, down).z == east,
        wind_of_scene(north, east, down).y.negative() != down.negative(),
        num(D0).not_above(down) ==> wind_of_scene(north, east, down).y.not_above(num(D0)),
{
    crate::rounding::divisors_keep_order(a, b, num(D20000));
}

} // verus!
