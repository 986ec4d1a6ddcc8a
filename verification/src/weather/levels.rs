//! Bands, kinds and phases of the weather, with their numbers and names.
use crate::binary64::Binary64;
use crate::literal::{num, D0, D1, D1_5, D1_65, D3, D3_3, D5_5, D6_05, D9};
use crate::text::same_text;
use core::cmp::Ordering;
use vstd::prelude::*;

verus! {

/// Turbulence band, from light to extreme.
#[derive(Clone, Copy, Debug, PartialEq, Eq, Ord, Structural)]
pub enum TurbulenceLevel {
    Light,
    Moderate,
    Severe,
    Extreme,
}

impl PartialOrd for TurbulenceLevel {
    fn partial_cmp(&self, other: &Self) -> (r: Option<Ordering>) {
        let a: i32 = self.index();
        let b: i32 = other.index();
        if a < b {
            Some(Ordering::Less)
        } else if a > b {
            Some(Ordering::Greater)
        } else {
            Some(Ordering::Equal)
        }
    }
}

impl vstd::std_specs::cmp::PartialOrdSpecImpl for TurbulenceLevel {
    open spec fn obeys_partial_cmp_spec() -> bool {
        true
    }

    open spec fn partial_cmp_spec(&self, other: &Self) -> Option<Ordering> {
        if self.number() < other.number() {
            Some(Ordering::Less)
        } else if self.number() > other.number() {
            Some(Ordering::Greater)
        } else {
            Some(Ordering::Equal)
        }
    }
}

/// The RMS gust speed (m/s) of a turbulence band.
pub fn turbulence_sigma_u(level: TurbulenceLevel) -> (r: Binary64)
    ensures
        r == level.band_sigma(),
{
    match level {
        TurbulenceLevel::Light => num(D1_5),
        TurbulenceLevel::Moderate => num(D3),
        TurbulenceLevel::Severe => num(D5_5),
        TurbulenceLevel::Extreme => num(D9),
    }
}

impl TurbulenceLevel {
    pub open spec fn number(self) -> int {
        match self {
            TurbulenceLevel::Light => 0,
            TurbulenceLevel::Moderate => 1,
            TurbulenceLevel::Severe => 2,
            TurbulenceLevel::Extreme => 3,
        }
    }

    /// The band with a number; numbers that name no other band mean extreme.
    pub open spec fn numbered(i: int) -> TurbulenceLevel {
        if i == 0 {
            TurbulenceLevel::Light
        } else if i == 1 {
            TurbulenceLevel::Moderate
        } else if i == 2 {
            TurbulenceLevel::Severe
        } else {
            TurbulenceLevel::Extreme
        }
    }

    pub open spec fn label(self) -> Seq<char> {
        match self {
            TurbulenceLevel::Light => "light"@,
            TurbulenceLevel::Moderate => "moderate"@,
            TurbulenceLevel::Severe => "severe"@,
            TurbulenceLevel::Extreme => "extreme"@,
        }
    }

    pub open spec fn band_sigma(self) -> Binary64 {
        match self {
            TurbulenceLevel::Light => num(D1_5),
            TurbulenceLevel::Moderate => num(D3),
            TurbulenceLevel::Severe => num(D5_5),
            TurbulenceLevel::Extreme => num(D9),
        }
    }

    /// The band of a measured RMS gust speed: its limits are 1.65, 3.3 and
    /// 6.05 m/s. What is not below a limit, NaN among it, is extreme.
    pub open spec fn band_of(sigma: Binary64) -> TurbulenceLevel {
        let s = sigma.absolute();
        if s.not_above(num(D1_65)) {
            TurbulenceLevel::Light
        } else if s.not_above(num(D3_3)) {
            TurbulenceLevel::Moderate
        } else if s.not_above(num(D6_05)) {
            TurbulenceLevel::Severe
        } else {
            TurbulenceLevel::Extreme
        }
    }

    /// The number of the band, counted from light.
    pub fn index(self) -> (r: i32)
        ensures
            r == self.number(),
            0 <= r <= 3,
    {
        match self {
            TurbulenceLevel::Light => 0,
            TurbulenceLevel::Moderate => 1,
            TurbulenceLevel::Severe => 2,
            TurbulenceLevel::Extreme => 3,
        }
    }

    pub fn from_index(i: i32) -> (r: Self)
        ensures
            r == TurbulenceLevel::numbered(i as int),
    {
        match i {
            0 => TurbulenceLevel::Light,
            1 => TurbulenceLevel::Moderate,
            2 => TurbulenceLevel::Severe,
            _ => TurbulenceLevel::Extreme,
        }
    }

    pub fn name(self) -> (r: &'static str)
        ensures
            r@ == self.label(),
    {
        match self {
            TurbulenceLevel::Light => "light",
            TurbulenceLevel::Moderate => "moderate",
            TurbulenceLevel::Severe => "severe",
            TurbulenceLevel::Extreme => "extreme",
        }
    }

    /// The RMS gust speed (m/s) of the band.
    pub fn sigma_u(self) -> (r: Binary64)
        ensures
            r == self.band_sigma(),
    {
        turbulence_sigma_u(self)
    }

    /// The band of a measured RMS gust speed (m/s).
    pub fn from_sigma(sigma: Binary64) -> (r: Self)
        ensures
            r == TurbulenceLevel::band_of(sigma),
    {
        let s: Binary64 = sigma.abs();
        if s.le(num(D1_65)) {
            TurbulenceLevel::Light
        } else if s.le(num(D3_3)) {
            TurbulenceLevel::Moderate
        } else if s.le(num(D6_05)) {
            TurbulenceLevel::Severe
        } else {
            TurbulenceLevel::Extreme
        }
    }
}

/// A band's number gives the band back.
pub proof fn turbulence_numbers_round_trip(level: TurbulenceLevel)
    ensures
        TurbulenceLevel::numbered(level.number()) == level,
{
}

/// The RMS gust speed of a band lies in the band, whatever its sign.
pub proof fn turbulence_bands_hold_their_sigma(level: TurbulenceLevel)
    ensures
        TurbulenceLevel::band_of(level.band_sigma()) == level,
        TurbulenceLevel::band_of(level.band_sigma().negated()) == level,
{
}

/// A rougher measurement is never put in a calmer band.
pub proof fn turbulence_bands_are_ordered(a: Binary64, b: Binary64)
    requires
        a.absolute().not_above(b.absolute()),
    ensures
        TurbulenceLevel::band_of(a).number() <= TurbulenceLevel::band_of(b).number(),
{
}

/// Overall weather severity, from clear to severe.
#[derive(Clone, Copy, Debug, PartialEq, Eq, Ord, Structural)]
pub enum WeatherSeverity {
    Clear,
    Light,
    Moderate,
    Severe,
}

impl PartialOrd for WeatherSeverity {
    fn partial_cmp(&self, other: &Self) -> (r: Option<Ordering>) {
        let a: i32 = self.index();
        let b: i32 = other.index();
        if a < b {
            Some(Ordering::Less)
        } else if a > b {
            Some(Ordering::Greater)
        } else {
            Some(Ordering::Equal)
        }
    }
}

impl vstd::std_specs::cmp::PartialOrdSpecImpl for WeatherSeverity {
    open spec fn obeys_partial_cmp_spec() -> bool {
        true
    }

    open spec fn partial_cmp_spec(&self, other: &Self) -> Option<Ordering> {
        if self.number() < other.number() {
            Some(Ordering::Less)
        } else if self.number() > other.number() {
            Some(Ordering::Greater)
        } else {
            Some(Ordering::Equal)
        }
    }
}

impl WeatherSeverity {
    pub open spec fn number(self) -> int {
        match self {
            WeatherSeverity::Clear => 0,
            WeatherSeverity::Light => 1,
            WeatherSeverity::Moderate => 2,
            WeatherSeverity::Severe => 3,
        }
    }

    /// The severity with a number; numbers that name no other severity mean
    /// severe.
    pub open spec fn numbered(i: int) -> WeatherSeverity {
        if i == 0 {
            WeatherSeverity::Clear
        } else if i == 1 {
            WeatherSeverity::Light
        } else if i == 2 {
            WeatherSeverity::Moderate
        } else {
            WeatherSeverity::Severe
        }
    }

    pub open spec fn label(self) -> Seq<char> {
        match self {
            WeatherSeverity::Clear => "clear"@,
            WeatherSeverity::Light => "light"@,
            WeatherSeverity::Moderate => "moderate"@,
            WeatherSeverity::Severe => "severe"@,
        }
    }

    /// The severity with a name; every other text means clear.
    pub open spec fn named(name: Seq<char>) -> WeatherSeverity {
        if name == "light"@ {
            WeatherSeverity::Light
        } else if name == "moderate"@ {
            WeatherSeverity::Moderate
        } else if name == "severe"@ {
            WeatherSeverity::Severe
        } else {
            WeatherSeverity::Clear
        }
    }

    /// The preset that flies a severity nominally.
    pub open spec fn nominal(self) -> WeatherPreset {
        match self {
            WeatherSeverity::Clear => WeatherPreset::Clear,
            WeatherSeverity::Light => WeatherPreset::LightTurb,
            WeatherSeverity::Moderate => WeatherPreset::Rain,
            WeatherSeverity::Severe => WeatherPreset::Storm,
        }
    }

    /// Whether the severity is one that always brings precipitation.
    pub open spec fn wet(self) -> bool {
        self == WeatherSeverity::Moderate || self == WeatherSeverity::Severe
    }

    /// The severity as a fraction of the worst.
    pub open spec fn fraction(self) -> Binary64 {
        Binary64::integer(self.number() as nat).quotient(num(D3))
    }

    pub fn index(self) -> (r: i32)
        ensures
            r == self.number(),
            0 <= r <= 3,
    {
        match self {
            WeatherSeverity::Clear => 0,
            WeatherSeverity::Light => 1,
            WeatherSeverity::Moderate => 2,
            WeatherSeverity::Severe => 3,
        }
    }

    pub fn from_index(i: i32) -> (r: Self)
        ensures
            r == WeatherSeverity::numbered(i as int),
    {
        match i {
            0 => WeatherSeverity::Clear,
            1 => WeatherSeverity::Light,
            2 => WeatherSeverity::Moderate,
            _ => WeatherSeverity::Severe,
        }
    }

    pub fn name(self) -> (r: &'static str)
        ensures
            r@ == self.label(),
    {
        match self {
            WeatherSeverity::Clear => "clear",
            WeatherSeverity::Light => "light",
            WeatherSeverity::Moderate => "moderate",
            WeatherSeverity::Severe => "severe",
        }
    }

    /// The severity with a name, as the environment variable gives it.
    pub fn from_name(name: &str) -> (r: Self)
        ensures
            r == WeatherSeverity::named(name@),
    {
        if same_text(name, "light") {
            WeatherSeverity::Light
        } else if same_text(name, "moderate") {
            WeatherSeverity::Moderate
        } else if same_text(name, "severe") {
            WeatherSeverity::Severe
        } else {
            WeatherSeverity::Clear
        }
    }

    /// The severity as a fraction of the worst, for rewards and observations.
    pub fn normalized(self) -> (r: Binary64)
        ensures
            r == self.fraction(),
    {
        let i: u64 = match self {
            WeatherSeverity::Clear => 0,
            WeatherSeverity::Light => 1,
            WeatherSeverity::Moderate => 2,
            WeatherSeverity::Severe => 3,
        };
        Binary64::from_u64(i).over(num(D3))
    }

    /// The preset that flies this severity nominally.
    pub fn nominal_preset(self) -> (r: WeatherPreset)
        ensures
            r == self.nominal(),
    {
        match self {
            WeatherSeverity::Clear => WeatherPreset::Clear,
            WeatherSeverity::Light => WeatherPreset::LightTurb,
            WeatherSeverity::Moderate => WeatherPreset::Rain,
            WeatherSeverity::Severe => WeatherPreset::Storm,
        }
    }
}

/// A severity's number gives the severity back, and so does its name.
pub proof fn severity_numbers_round_trip(s: WeatherSeverity)
    ensures
        WeatherSeverity::numbered(s.number()) == s,
        WeatherSeverity::named(s.label()) == s,
{
    reveal_strlit("clear");
    reveal_strlit("light");
    reveal_strlit("moderate");
    reveal_strlit("severe");
    assert("moderate"@.len() == 8);
    assert("clear"@[0] != "light"@[0]);
    assert("severe"@.len() == 6);
}

/// The nominal preset of a severity has that severity.
pub proof fn nominal_presets_keep_the_severity(s: WeatherSeverity)
    ensures
        s.nominal().band() == s,
{
}

/// What falls from the sky.
#[derive(Clone, Copy, Debug, PartialEq, Eq, Structural)]
pub enum PrecipitationType {
    /// Nothing falls.
    Dry,
    Rain,
    Snow,
    Hail,
}

impl PrecipitationType {
    pub open spec fn number(self) -> int {
        match self {
            PrecipitationType::Dry => 0,
            PrecipitationType::Rain => 1,
            PrecipitationType::Snow => 2,
            PrecipitationType::Hail => 3,
        }
    }

    /// The kind with a number; numbers that name no other kind mean none.
    pub open spec fn numbered(i: int) -> PrecipitationType {
        if i == 1 {
            PrecipitationType::Rain
        } else if i == 2 {
            PrecipitationType::Snow
        } else if i == 3 {
            PrecipitationType::Hail
        } else {
            PrecipitationType::Dry
        }
    }

    pub open spec fn label(self) -> Seq<char> {
        match self {
            PrecipitationType::Dry => "none"@,
            PrecipitationType::Rain => "rain"@,
            PrecipitationType::Snow => "snow"@,
            PrecipitationType::Hail => "hail"@,
        }
    }

    /// One where the number of the kind is `channel + 1`, zero elsewhere.
    pub open spec fn indicator(self, channel: int) -> Binary64 {
        if self.number() == channel + 1 {
            num(D1)
        } else {
            num(D0)
        }
    }

    pub fn index(self) -> (r: i32)
        ensures
            r == self.number(),
            0 <= r <= 3,
    {
        match self {
            PrecipitationType::Dry => 0,
            PrecipitationType::Rain => 1,
            PrecipitationType::Snow => 2,
            PrecipitationType::Hail => 3,
        }
    }

    pub fn from_index(i: i32) -> (r: Self)
        ensures
            r == PrecipitationType::numbered(i as int),
    {
        match i {
            1 => PrecipitationType::Rain,
            2 => PrecipitationType::Snow,
            3 => PrecipitationType::Hail,
            _ => PrecipitationType::Dry,
        }
    }

    /// The kind as the three channels rain, snow and hail.
    pub fn one_hot(self) -> (r: [Binary64; 3])
        ensures
            forall|c: int| 0 <= c < 3 ==> #[trigger] r@[c] == self.indicator(c),
    {
        match self {
            PrecipitationType::Rain => [num(D1), num(D0), num(D0)],
            PrecipitationType::Snow => [num(D0), num(D1), num(D0)],
            PrecipitationType::Hail => [num(D0), num(D0), num(D1)],
            PrecipitationType::Dry => [num(D0), num(D0), num(D0)],
        }
    }

    pub fn name(self) -> (r: &'static str)
        ensures
            r@ == self.label(),
    {
        match self {
            PrecipitationType::Dry => "none",
            PrecipitationType::Rain => "rain",
            PrecipitationType::Snow => "snow",
            PrecipitationType::Hail => "hail",
        }
    }
}

/// A kind's number gives the kind back.
pub proof fn precipitation_numbers_round_trip(p: PrecipitationType)
    ensures
        PrecipitationType::numbered(p.number()) == p,
{
}

/// Ready-made weather.
#[derive(Clone, Copy, Debug, PartialEq, Eq, Structural)]
pub enum WeatherPreset {
    /// Light breeze under a clear sky.
    Clear,
    /// Good sight but noticeably rough air.
    LightTurb,
    /// Moderate rain, reduced visibility, bumps.
    Rain,
    /// Heavy rain or hail, strong gusts, updrafts, sheared flow.
    Storm,
    /// The stress test: extreme gusts, hardly any sight, hail.
    ExtremeStorm,
}

impl WeatherPreset {
    pub open spec fn label(self) -> Seq<char> {
        match self {
            WeatherPreset::Clear => "clear"@,
            WeatherPreset::LightTurb => "light_turb"@,
            WeatherPreset::Rain => "rain"@,
            WeatherPreset::Storm => "storm"@,
            WeatherPreset::ExtremeStorm => "extreme_storm"@,
        }
    }

    /// The preset with a name or a short name; every other text means clear.
    pub open spec fn named(name: Seq<char>) -> WeatherPreset {
        if name == "light_turb"@ || name == "light"@ {
            WeatherPreset::LightTurb
        } else if name == "rain"@ {
            WeatherPreset::Rain
        } else if name == "storm"@ {
            WeatherPreset::Storm
        } else if name == "extreme_storm"@ || name == "extreme"@ {
            WeatherPreset::ExtremeStorm
        } else {
            WeatherPreset::Clear
        }
    }

    pub open spec fn band(self) -> WeatherSeverity {
        match self {
            WeatherPreset::Clear => WeatherSeverity::Clear,
            WeatherPreset::LightTurb => WeatherSeverity::Light,
            WeatherPreset::Rain => WeatherSeverity::Moderate,
            WeatherPreset::Storm => WeatherSeverity::Severe,
            WeatherPreset::ExtremeStorm => WeatherSeverity::Severe,
        }
    }

    pub fn name(self) -> (r: &'static str)
        ensures
            r@ == self.label(),
    {
        match self {
            WeatherPreset::Clear => "clear",
            WeatherPreset::LightTurb => "light_turb",
            WeatherPreset::Rain => "rain",
            WeatherPreset::Storm => "storm",
            WeatherPreset::ExtremeStorm => "extreme_storm",
        }
    }

    /// The preset with a name or a short name.
    pub fn from_name(name: &str) -> (r: Self)
        ensures
            r == WeatherPreset::named(name@),
    {
        if same_text(name, "light_turb") || same_text(name, "light") {
            WeatherPreset::LightTurb
        } else if same_text(name, "rain") {
            WeatherPreset::Rain
        } else if same_text(name, "storm") {
            WeatherPreset::Storm
        } else if same_text(name, "extreme_storm") || same_text(name, "extreme") {
            WeatherPreset::ExtremeStorm
        } else {
            WeatherPreset::Clear
        }
    }

    pub fn severity(self) -> (r: WeatherSeverity)
        ensures
            r == self.band(),
    {
        match self {
            WeatherPreset::Clear => WeatherSeverity::Clear,
            WeatherPreset::LightTurb => WeatherSeverity::Light,
            WeatherPreset::Rain => WeatherSeverity::Moderate,
            WeatherPreset::Storm => WeatherSeverity::Severe,
            WeatherPreset::ExtremeStorm => WeatherSeverity::Severe,
        }
    }
}

/// A preset's name gives the preset back.
pub proof fn preset_names_round_trip(p: WeatherPreset)
    ensures
        WeatherPreset::named(p.label()) == p,
{
    reveal_strlit("clear");
    reveal_strlit("light_turb");
    reveal_strlit("light");
    reveal_strlit("rain");
    reveal_strlit("storm");
    reveal_strlit("extreme_storm");
    reveal_strlit("extreme");
    assert("clear"@[0] == 'c');
    assert("light"@[0] == 'l');
    assert("storm"@[0] == 's');
    assert("light_turb"@.len() == 10 && "light"@.len() == 5 && "rain"@.len() == 4);
    assert("extreme_storm"@.len() == 13 && "extreme"@.len() == 7);
    assert("clear"@.len() == 5 && "storm"@.len() == 5);
}

/// Phase of the training curriculum, from clear sky to storm.
#[derive(Clone, Copy, Debug, PartialEq, Eq, Ord, Structural)]
pub enum CurriculumPhase {
    Phase1Clear,
    Phase2LightTurb,
    Phase3Rain,
    Phase4Storm,
}

impl PartialOrd for CurriculumPhase {
    fn partial_cmp(&self, other: &Self) -> (r: Option<Ordering>) {
        let a: i32 = self.index();
        let b: i32 = other.index();
        if a < b {
            Some(Ordering::Less)
        } else if a > b {
            Some(Ordering::Greater)
        } else {
            Some(Ordering::Equal)
        }
    }
}

impl vstd::std_specs::cmp::PartialOrdSpecImpl for CurriculumPhase {
    open spec fn obeys_partial_cmp_spec() -> bool {
        true
    }

    open spec fn partial_cmp_spec(&self, other: &Self) -> Option<Ordering> {
        if self.number() < other.number() {
            Some(Ordering::Less)
        } else if self.number() > other.number() {
            Some(Ordering::Greater)
        } else {
            Some(Ordering::Equal)
        }
    }
}

impl CurriculumPhase {
    pub open spec fn number(self) -> int {
        match self {
            CurriculumPhase::Phase1Clear => 0,
            CurriculumPhase::Phase2LightTurb => 1,
            CurriculumPhase::Phase3Rain => 2,
            CurriculumPhase::Phase4Storm => 3,
        }
    }

    /// The phase with a number; numbers that name no other phase mean the
    /// first.
    pub open spec fn numbered(i: int) -> CurriculumPhase {
        if i == 1 {
            CurriculumPhase::Phase2LightTurb
        } else if i == 2 {
            CurriculumPhase::Phase3Rain
        } else if i == 3 {
            CurriculumPhase::Phase4Storm
        } else {
            CurriculumPhase::Phase1Clear
        }
    }

    pub open spec fn label(self) -> Seq<char> {
        match self {
            CurriculumPhase::Phase1Clear => "phase_1_clear"@,
            CurriculumPhase::Phase2LightTurb => "phase_2_light_turb"@,
            CurriculumPhase::Phase3Rain => "phase_3_rain"@,
            CurriculumPhase::Phase4Storm => "phase_4_storm"@,
        }
    }

    pub open spec fn weather(self) -> WeatherPreset {
        match self {
            CurriculumPhase::Phase1Clear => WeatherPreset::Clear,
            CurriculumPhase::Phase2LightTurb => WeatherPreset::LightTurb,
            CurriculumPhase::Phase3Rain => WeatherPreset::Rain,
            CurriculumPhase::Phase4Storm => WeatherPreset::Storm,
        }
    }

    pub fn index(self) -> (r: i32)
        ensures
            r == self.number(),
            0 <= r <= 3,
    {
        match self {
            CurriculumPhase::Phase1Clear => 0,
            CurriculumPhase::Phase2LightTurb => 1,
            CurriculumPhase::Phase3Rain => 2,
            CurriculumPhase::Phase4Storm => 3,
        }
    }

    pub fn from_index(i: i32) -> (r: Self)
        ensures
            r == CurriculumPhase::numbered(i as int),
    {
        match i {
            1 => CurriculumPhase::Phase2LightTurb,
            2 => CurriculumPhase::Phase3Rain,
            3 => CurriculumPhase::Phase4Storm,
            _ => CurriculumPhase::Phase1Clear,
        }
    }

    pub fn name(self) -> (r: &'static str)
        ensures
            r@ == self.label(),
    {
        match self {
            CurriculumPhase::Phase1Clear => "phase_1_clear",
            CurriculumPhase::Phase2LightTurb => "phase_2_light_turb",
            CurriculumPhase::Phase3Rain => "phase_3_rain",
            CurriculumPhase::Phase4Storm => "phase_4_storm",
        }
    }

    /// The weather that the phase flies.
    pub fn preset(self) -> (r: WeatherPreset)
        ensures
            r == self.weather(),
    {
        match self {
            CurriculumPhase::Phase1Clear => WeatherPreset::Clear,
            CurriculumPhase::Phase2LightTurb => WeatherPreset::LightTurb,
            CurriculumPhase::Phase3Rain => WeatherPreset::Rain,
            CurriculumPhase::Phase4Storm => WeatherPreset::Storm,
        }
    }
}

/// A phase's number gives the phase back, and phases climb in severity by one
/// step each.
pub proof fn phase_numbers_round_trip(p: CurriculumPhase)
    ensures
        CurriculumPhase::numbered(p.number()) == p,
        p.weather().band().number() == p.number(),
{
}

/// Why an episode ended on account of the weather.
#[derive(Clone, Copy, Debug, PartialEq, Eq, Structural)]
pub enum TerminationReason {
    /// The weather has not ended the episode.
    Benign,
    /// A gust was stronger than the limit.
    GustLimit,
    /// Visibility stayed below the minimum for too long.
    VisibilityLimit,
    /// Severe weather lasted for too long.
    SevereExposure,
}

impl TerminationReason {
    pub open spec fn number(self) -> int {
        match self {
            TerminationReason::Benign => 0,
            TerminationReason::GustLimit => 1,
            TerminationReason::VisibilityLimit => 2,
            TerminationReason::SevereExposure => 3,
        }
    }

    pub open spec fn label(self) -> Seq<char> {
        match self {
            TerminationReason::Benign => "none"@,
            TerminationReason::GustLimit => "gust_limit"@,
            TerminationReason::VisibilityLimit => "visibility_limit"@,
            TerminationReason::SevereExposure => "severe_exposure"@,
        }
    }

    pub fn index(self) -> (r: i32)
        ensures
            r == self.number(),
            0 <= r <= 3,
    {
        match self {
            TerminationReason::Benign => 0,
            TerminationReason::GustLimit => 1,
            TerminationReason::VisibilityLimit => 2,
            TerminationReason::SevereExposure => 3,
        }
    }

    pub fn name(self) -> (r: &'static str)
        ensures
            r@ == self.label(),
    {
        match self {
            TerminationReason::Benign => "none",
            TerminationReason::GustLimit => "gust_limit",
            TerminationReason::VisibilityLimit => "visibility_limit",
            TerminationReason::SevereExposure => "severe_exposure",
        }
    }
}

/// Bands are numbered from light to extreme, different bands differently, and
/// compare as their numbers.
pub proof fn bands_compare_as_their_numbers(a: TurbulenceLevel, b: TurbulenceLevel)
    ensures
        0 <= a.number() <= 3,
        TurbulenceLevel::Light.number() == 0,
        TurbulenceLevel::Extreme.number() == 3,
        a.number() == b.number() ==> a == b,
        vstd::std_specs::cmp::PartialOrdSpec::partial_cmp_spec(&a, &b) == Some(Ordering::Less) <==> a.number()
            < b.number(),
{
}

/// Severities compare as their numbers, and so do phases.
pub proof fn severities_and_phases_compare_as_their_numbers(
    a: WeatherSeverity,
    b: WeatherSeverity,
    p: CurriculumPhase,
    q: CurriculumPhase,
)
    ensures
        vstd::std_specs::cmp::PartialOrdSpec::partial_cmp_spec(&a, &b) == Some(Ordering::Less) <==> a.number()
            < b.number(),
        vstd::std_specs::cmp::PartialOrdSpec::partial_cmp_spec(&p, &q) == Some(Ordering::Less) <==> p.number()
            < q.number(),
        a.number() == b.number() ==> a == b,
        p.number() == q.number() ==> p == q,
{
}

} // verus!
