//! The standard atmosphere of 1976.
use crate::binary64::Binary64;
use crate::literal::{
    num, D0, D0_001, D0_002, D0_0028, D0_0065, D0_2, D0_5, D1, D101325, D11000, D110_4, D110_9063,
    D1197, D1EM9, D1_225, D1_4, D1_458EM6, D2, D20000, D214_65, D216_65, D22632_06, D228_65,
    D270_65, D273_15, D287_05287, D288_15, D32000, D3_5, D3_95642, D47000, D51000, D6356766,
    D66_93887, D7000, D71000, D86000, D868_0187, D9000, D9_80665, M1000,
};
use vstd::prelude::*;

verus! {

/// Earth radius (m) of the conversion to geopotential altitude.
pub open spec fn radius() -> Binary64 {
    num(D6356766)
}

/// Earth radius (m) of the conversion to geopotential altitude.
pub fn earth_radius() -> (r: Binary64)
    ensures
        r == radius(),
{
    num(D6356766)
}

/// Sea-level temperature (K).
pub open spec fn sea_temperature() -> Binary64 {
    num(D288_15)
}

/// Sea-level temperature (K).
pub fn t0_sl() -> (r: Binary64)
    ensures
        r == sea_temperature(),
{
    num(D288_15)
}

/// Sea-level pressure (Pa).
pub open spec fn sea_pressure() -> Binary64 {
    num(D101325)
}

/// Sea-level pressure (Pa).
pub fn p0_sl() -> (r: Binary64)
    ensures
        r == sea_pressure(),
{
    num(D101325)
}

/// Sea-level density (kg/m3).
pub open spec fn sea_density() -> Binary64 {
    num(D1_225)
}

/// Sea-level density (kg/m3).
pub fn rho0_sl() -> (r: Binary64)
    ensures
        r == sea_density(),
{
    num(D1_225)
}

/// Gas constant of dry air (J/kg/K).
pub open spec fn gas_constant() -> Binary64 {
    num(D287_05287)
}

/// Gas constant of dry air (J/kg/K).
pub fn r_specific() -> (r: Binary64)
    ensures
        r == gas_constant(),
{
    num(D287_05287)
}

/// Ratio of the specific heats of air.
pub open spec fn heat_ratio() -> Binary64 {
    num(D1_4)
}

/// Ratio of the specific heats of air.
pub fn gamma_air() -> (r: Binary64)
    ensures
        r == heat_ratio(),
{
    num(D1_4)
}

/// Gravity at sea level (m/s2).
pub open spec fn gravity() -> Binary64 {
    num(D9_80665)
}

/// Gravity at sea level (m/s2).
pub fn g0() -> (r: Binary64)
    ensures
        r == gravity(),
{
    num(D9_80665)
}

/// The layers of the model.
#[derive(Clone, Copy, Debug, PartialEq, Eq, Structural)]
pub enum Layer {
    /// Up to 11 km: temperature falls.
    Troposphere,
    /// Up to 20 km: temperature is constant.
    Tropopause,
    /// Up to 32 km: temperature rises.
    Stratosphere,
    /// Up to 47 km: temperature rises faster.
    UpperStratosphere,
    /// Up to 51 km: temperature is constant.
    Stratopause,
    /// Up to 71 km: temperature falls.
    Mesosphere,
    /// Up to 86 km: temperature falls more slowly.
    UpperMesosphere,
    /// Above, where the standard ends: temperature is constant.
    Beyond,
}

/// The arguments of the powers and exponentials that the pressure of a layer
/// is made of. A layer without a power has the power of one, one without an
/// exponential the exponential of zero.
#[derive(Clone, Copy, Debug, PartialEq, Eq, Structural)]
pub struct AirTerms {
    pub layer: Layer,
    /// Geopotential altitude (m).
    pub altitude: Binary64,
    /// Temperature (K).
    pub temperature: Binary64,
    /// Base and exponent of the power.
    pub base: Binary64,
    pub exponent: Binary64,
    /// Argument of the exponential.
    pub decay: Binary64,
}

/// The values of the powers and the exponential.
#[derive(Clone, Copy, Debug, PartialEq, Eq, Structural)]
pub struct AirFactors {
    /// The base of the terms to the power of their exponent.
    pub power: Binary64,
    /// The exponential of the decay of the terms.
    pub exponential: Binary64,
    /// The temperature to the power of one and a half.
    pub temperature_power: Binary64,
}

impl Layer {
    /// The number of the layer from below.
    pub open spec fn level(self) -> int {
        match self {
            Layer::Troposphere => 0,
            Layer::Tropopause => 1,
            Layer::Stratosphere => 2,
            Layer::UpperStratosphere => 3,
            Layer::Stratopause => 4,
            Layer::Mesosphere => 5,
            Layer::UpperMesosphere => 6,
            Layer::Beyond => 7,
        }
    }
}

/// The air at an altitude.
#[derive(Clone, Copy, Debug, PartialEq, Eq, Structural)]
pub struct Atmosphere {
    /// Altitude above sea level (m).
    pub geometric_altitude: Binary64,
    /// Geopotential altitude (m).
    pub geopotential_altitude: Binary64,
    /// Temperature (K).
    pub temperature: Binary64,
    /// Temperature (degrees Celsius).
    pub temperature_c: Binary64,
    /// Pressure (Pa).
    pub pressure: Binary64,
    /// Density (kg/m3).
    pub density: Binary64,
    /// Density relative to sea level.
    pub density_ratio: Binary64,
    /// Speed of sound (m/s).
    pub speed_of_sound: Binary64,
    /// Dynamic viscosity (Pa s).
    pub dynamic_viscosity: Binary64,
    /// Kinematic viscosity (m2/s).
    pub kinematic_viscosity: Binary64,
}

impl Atmosphere {
    /// Geopotential altitude.
    pub open spec fn potential(geometric_alt: Binary64) -> Binary64 {
        radius().product(geometric_alt).quotient(radius().sum(geometric_alt))
    }

    /// Geopotential altitude.
    pub fn geopotential(geometric_alt: Binary64) -> (r: Binary64)
        ensures
            r == Atmosphere::potential(geometric_alt),
    {
        earth_radius().times(geometric_alt).over(earth_radius().plus(geometric_alt))
    }

    /// The layer at a geopotential altitude.
    pub open spec fn layer_at(h: Binary64) -> Layer {
        if h.not_above(num(D11000)) {
            Layer::Troposphere
        } else if h.not_above(num(D20000)) {
            Layer::Tropopause
        } else if h.not_above(num(D32000)) {
            Layer::Stratosphere
        } else if h.not_above(num(D47000)) {
            Layer::UpperStratosphere
        } else if h.not_above(num(D51000)) {
            Layer::Stratopause
        } else if h.not_above(num(D71000)) {
            Layer::Mesosphere
        } else if h.not_above(num(D86000)) {
            Layer::UpperMesosphere
        } else {
            Layer::Beyond
        }
    }

    /// The layer at a geopotential altitude.
    pub fn layer(h: Binary64) -> (r: Layer)
        ensures
            r == Atmosphere::layer_at(h),
    {
        if h.le(num(D11000)) {
            Layer::Troposphere
        } else if h.le(num(D20000)) {
            Layer::Tropopause
        } else if h.le(num(D32000)) {
            Layer::Stratosphere
        } else if h.le(num(D47000)) {
            Layer::UpperStratosphere
        } else if h.le(num(D51000)) {
            Layer::Stratopause
        } else if h.le(num(D71000)) {
            Layer::Mesosphere
        } else if h.le(num(D86000)) {
            Layer::UpperMesosphere
        } else {
            Layer::Beyond
        }
    }

    /// The temperature where the troposphere ends.
    pub open spec fn tropopause() -> Binary64 {
        sea_temperature().difference(num(D0_0065).product(num(D11000)))
    }

    /// The temperature where the troposphere ends.
    pub fn tropopause_temperature() -> (r: Binary64)
        ensures
            r == Atmosphere::tropopause(),
    {
        t0_sl().minus(num(D0_0065).times(num(D11000)))
    }

    /// Temperature and terms at an altitude above sea level.
    pub open spec fn terms_at(geometric_alt: Binary64) -> AirTerms {
        let h = Atmosphere::potential(geometric_alt);
        Atmosphere::terms_in(Atmosphere::layer_at(h), h)
    }

    /// The terms of a layer at a geopotential altitude.
    pub open spec fn terms_in(layer: Layer, h: Binary64) -> AirTerms {
        match layer {
            Layer::Troposphere => {
                let t = sea_temperature().difference(num(D0_0065).product(h.larger(num(M1000))));
                AirTerms {
                    layer,
                    altitude: h,
                    temperature: t,
                    base: t.quotient(sea_temperature()),
                    exponent: gravity().quotient(num(D0_0065).product(gas_constant())),
                    decay: num(D0),
                }
            },
            Layer::Tropopause => {
                let t = Atmosphere::tropopause();
                AirTerms {
                    layer,
                    altitude: h,
                    temperature: t,
                    base: t.quotient(sea_temperature()),
                    exponent: gravity().quotient(num(D0_0065).product(gas_constant())),
                    decay: gravity().negated().product(h.difference(num(D11000))).quotient(
                        gas_constant().product(t),
                    ),
                }
            },
            Layer::Stratosphere => {
                let t = num(D216_65).sum(num(D0_001).product(h.difference(num(D20000))));
                AirTerms {
                    layer,
                    altitude: h,
                    temperature: t,
                    base: t.quotient(num(D216_65)),
                    exponent: gravity().negated().quotient(num(D0_001).product(gas_constant())),
                    decay: gravity().negated().product(num(D9000)).quotient(
                        gas_constant().product(num(D216_65)),
                    ),
                }
            },
            Layer::UpperStratosphere => {
                let t = num(D228_65).sum(num(D0_0028).product(h.difference(num(D32000))));
                AirTerms {
                    layer,
                    altitude: h,
                    temperature: t,
                    base: t.quotient(num(D228_65)),
                    exponent: gravity().negated().quotient(num(D0_0028).product(gas_constant())),
                    decay: num(D0),
                }
            },
            Layer::Stratopause => AirTerms {
                layer,
                altitude: h,
                temperature: num(D270_65),
                base: num(D1),
                exponent: num(D0),
                decay: gravity().negated().product(h.difference(num(D47000))).quotient(
                    gas_constant().product(num(D270_65)),
                ),
            },
            Layer::Mesosphere => {
                let t = num(D270_65).difference(num(D0_0028).product(h.difference(num(D51000))));
                AirTerms {
                    layer,
                    altitude: h,
                    temperature: t,
                    base: t.quotient(num(D270_65)),
                    exponent: gravity().quotient(num(D0_0028).product(gas_constant())),
                    decay: num(D0),
                }
            },
            Layer::UpperMesosphere => {
                let t = num(D214_65).difference(num(D0_002).product(h.difference(num(D71000))));
                AirTerms {
                    layer,
                    altitude: h,
                    temperature: t,
                    base: t.quotient(num(D214_65)),
                    exponent: gravity().quotient(num(D0_002).product(gas_constant())),
                    decay: num(D0),
                }
            },
            Layer::Beyond => AirTerms {
                layer,
                altitude: h,
                temperature: num(D228_65),
                base: num(D1),
                exponent: num(D0),
                decay: h.difference(num(D32000)).negated().quotient(num(D7000)),
            },
        }
    }

    /// Temperature and terms at an altitude above sea level.
    pub fn terms(geometric_alt: Binary64) -> (r: AirTerms)
        ensures
            r == Atmosphere::terms_at(geometric_alt),
    {
        let h: Binary64 = Atmosphere::geopotential(geometric_alt);
        let layer: Layer = Atmosphere::layer(h);
        match layer {
            Layer::Troposphere => {
                let t: Binary64 = t0_sl().minus(num(D0_0065).times(h.max(num(M1000))));
                AirTerms {
                    layer,
                    altitude: h,
                    temperature: t,
                    base: t.over(t0_sl()),
                    exponent: g0().over(num(D0_0065).times(r_specific())),
                    decay: num(D0),
                }
            },
            Layer::Tropopause => {
                let t: Binary64 = Atmosphere::tropopause_temperature();
                AirTerms {
                    layer,
                    altitude: h,
                    temperature: t,
                    base: t.over(t0_sl()),
                    exponent: g0().over(num(D0_0065).times(r_specific())),
                    decay: g0().neg().times(h.minus(num(D11000))).over(r_specific().times(t)),
                }
            },
            Layer::Stratosphere => {
                let t: Binary64 = num(D216_65).plus(num(D0_001).times(h.minus(num(D20000))));
                AirTerms {
                    layer,
                    altitude: h,
                    temperature: t,
                    base: t.over(num(D216_65)),
                    exponent: g0().neg().over(num(D0_001).times(r_specific())),
                    decay: g0().neg().times(num(D9000)).over(r_specific().times(num(D216_65))),
                }
            },
            Layer::UpperStratosphere => {
                let t: Binary64 = num(D228_65).plus(num(D0_0028).times(h.minus(num(D32000))));
                AirTerms {
                    layer,
                    altitude: h,
                    temperature: t,
                    base: t.over(num(D228_65)),
                    exponent: g0().neg().over(num(D0_0028).times(r_specific())),
                    decay: num(D0),
                }
            },
            Layer::Stratopause => AirTerms {
                layer,
                altitude: h,
                temperature: num(D270_65),
                base: num(D1),
                exponent: num(D0),
                decay: g0().neg().times(h.minus(num(D47000))).over(
                    r_specific().times(num(D270_65)),
                ),
            },
            Layer::Mesosphere => {
                let t: Binary64 = num(D270_65).minus(num(D0_0028).times(h.minus(num(D51000))));
                AirTerms {
                    layer,
                    altitude: h,
                    temperature: t,
                    base: t.over(num(D270_65)),
                    exponent: g0().over(num(D0_0028).times(r_specific())),
                    decay: num(D0),
                }
            },
            Layer::UpperMesosphere => {
                let t: Binary64 = num(D214_65).minus(num(D0_002).times(h.minus(num(D71000))));
                AirTerms {
                    layer,
                    altitude: h,
                    temperature: t,
                    base: t.over(num(D214_65)),
                    exponent: g0().over(num(D0_002).times(r_specific())),
                    decay: num(D0),
                }
            },
            Layer::Beyond => AirTerms {
                layer,
                altitude: h,
                temperature: num(D228_65),
                base: num(D1),
                exponent: num(D0),
                decay: h.minus(num(D32000)).neg().over(num(D7000)),
            },
        }
    }

    /// The pressure at the end of the chain of layers.
    pub open spec fn pressure_at(terms: AirTerms, factors: AirFactors) -> Binary64 {
        match terms.layer {
            Layer::Troposphere => sea_pressure().product(factors.power),
            Layer::Tropopause => sea_pressure().product(factors.power).product(factors.exponential),
            Layer::Stratosphere => num(D22632_06).product(factors.exponential).product(factors.power),
            Layer::UpperStratosphere => num(D868_0187).product(factors.power),
            Layer::Stratopause => num(D110_9063).product(factors.exponential),
            Layer::Mesosphere => num(D66_93887).product(factors.power),
            Layer::UpperMesosphere => num(D3_95642).product(factors.power),
            Layer::Beyond => num(D1197).product(factors.exponential),
        }
    }

    /// The pressure, given the factors of the terms.
    pub fn pressure_of(terms: AirTerms, factors: AirFactors) -> (r: Binary64)
        ensures
            r == Atmosphere::pressure_at(terms, factors),
    {
        match terms.layer {
            Layer::Troposphere => p0_sl().times(factors.power),
            Layer::Tropopause => p0_sl().times(factors.power).times(factors.exponential),
            Layer::Stratosphere => num(D22632_06).times(factors.exponential).times(factors.power),
            Layer::UpperStratosphere => num(D868_0187).times(factors.power),
            Layer::Stratopause => num(D110_9063).times(factors.exponential),
            Layer::Mesosphere => num(D66_93887).times(factors.power),
            Layer::UpperMesosphere => num(D3_95642).times(factors.power),
            Layer::Beyond => num(D1197).times(factors.exponential),
        }
    }

    /// The air at an altitude above sea level, given the factors of the terms there.
    pub open spec fn air_at(geometric_alt: Binary64, factors: AirFactors) -> Atmosphere {
        let terms = Atmosphere::terms_at(geometric_alt);
        let t = terms.temperature;
        let p = Atmosphere::pressure_at(terms, factors);
        let density = p.quotient(gas_constant().product(t));
        let dynamic_viscosity = num(D1_458EM6).product(factors.temperature_power).quotient(t.sum(num(D110_4)));
        Atmosphere {
            geometric_altitude: geometric_alt,
            geopotential_altitude: terms.altitude,
            temperature: t,
            temperature_c: t.difference(num(D273_15)),
            pressure: p,
            density,
            density_ratio: density.quotient(sea_density()),
            speed_of_sound: heat_ratio().product(gas_constant()).product(t).root(),
            dynamic_viscosity,
            kinematic_viscosity: dynamic_viscosity.quotient(density.larger(num(D1EM9))),
        }
    }

    /// The air at an altitude above sea level, given the factors of the terms
    /// there.
    pub fn at_altitude(geometric_alt: Binary64, factors: AirFactors) -> (r: Atmosphere)
        ensures
            r == Atmosphere::air_at(geometric_alt, factors),
    {
        let terms: AirTerms = Atmosphere::terms(geometric_alt);
        let t: Binary64 = terms.temperature;
        let p: Binary64 = Atmosphere::pressure_of(terms, factors);
        let density: Binary64 = p.over(r_specific().times(t));
        let dynamic_viscosity: Binary64 = num(D1_458EM6).times(factors.temperature_power).over(t.plus(num(D110_4)));
        Atmosphere {
            geometric_altitude: geometric_alt,
            geopotential_altitude: terms.altitude,
            temperature: t,
            temperature_c: t.minus(num(D273_15)),
            pressure: p,
            density,
            density_ratio: density.over(rho0_sl()),
            speed_of_sound: gamma_air().times(r_specific()).times(t).sqrt(),
            dynamic_viscosity,
            kinematic_viscosity: dynamic_viscosity.over(density.max(num(D1EM9))),
        }
    }

    /// The dynamic pressure (Pa) at a true airspeed.
    pub open spec fn ram(self, true_airspeed: Binary64) -> Binary64 {
        num(D0_5).product(self.density).product(true_airspeed).product(true_airspeed)
    }

    /// The dynamic pressure (Pa) at a true airspeed.
    pub fn dynamic_pressure(&self, true_airspeed: Binary64) -> (r: Binary64)
        ensures
            r == self.ram(true_airspeed),
    {
        num(D0_5).times(self.density).times(true_airspeed).times(true_airspeed)
    }

    /// The Mach number of a true airspeed.
    pub open spec fn mach(self, true_airspeed: Binary64) -> Binary64 {
        true_airspeed.quotient(self.speed_of_sound.larger(num(D1)))
    }

    /// The Mach number of a true airspeed.
    pub fn mach_number(&self, true_airspeed: Binary64) -> (r: Binary64)
        ensures
            r == self.mach(true_airspeed),
    {
        true_airspeed.over(self.speed_of_sound.max(num(D1)))
    }

    /// The equivalent airspeed.
    pub open spec fn equivalent(self, true_airspeed: Binary64) -> Binary64 {
        true_airspeed.product(self.density_ratio.root())
    }

    /// The equivalent airspeed.
    pub fn equivalent_airspeed(&self, true_airspeed: Binary64) -> (r: Binary64)
        ensures
            r == self.equivalent(true_airspeed),
    {
        true_airspeed.times(self.density_ratio.sqrt())
    }

    /// The number whose power to three and a half gives the impact pressure.
    pub open spec fn impact_term(self, true_airspeed: Binary64) -> Binary64 {
        let m = self.mach(true_airspeed);
        num(D1).sum(num(D0_2).product(m).product(m))
    }

    /// The number whose power to three and a half gives the impact pressure.
    pub fn impact_base(&self, true_airspeed: Binary64) -> (r: Binary64)
        ensures
            r == self.impact_term(true_airspeed),
    {
        let m: Binary64 = self.mach_number(true_airspeed);
        num(D1).plus(num(D0_2).times(m).times(m))
    }

    /// The impact pressure, given the power of its base.
    pub open spec fn impact(self, true_airspeed: Binary64, power: Binary64) -> Binary64 {
        if self.mach(true_airspeed).below(num(D0_001)) {
            self.ram(true_airspeed)
        } else {
            self.pressure.product(power.difference(num(D1)))
        }
    }

    /// The impact pressure, given the power of its base. Below a thousandth of
    /// the speed of sound it is the dynamic pressure.
    pub fn impact_pressure(&self, true_airspeed: Binary64, power: Binary64) -> (r: Binary64)
        ensures
            r == self.impact(true_airspeed, power),
    {
        if self.mach_number(true_airspeed).lt(num(D0_001)) {
            self.dynamic_pressure(true_airspeed)
        } else {
            self.pressure.times(power.minus(num(D1)))
        }
    }

    /// The base and the exponent of the power that gives the calibrated airspeed.
    pub open spec fn calibration_terms(qc: Binary64) -> (Binary64, Binary64) {
        (qc.quotient(sea_pressure()).sum(num(D1)), num(D1).quotient(num(D3_5)))
    }

    /// The base and the exponent of the power that gives the calibrated
    /// airspeed.
    pub fn calibration_base(qc: Binary64) -> (r: (Binary64, Binary64))
        ensures
            r == Atmosphere::calibration_terms(qc),
    {
        (qc.over(p0_sl()).plus(num(D1)), num(D1).over(num(D3_5)))
    }

    /// The calibrated airspeed at an impact pressure, given the power of its terms.
    pub open spec fn calibrated(qc: Binary64, power: Binary64) -> Binary64 {
        let term = power.difference(num(D1));
        if qc.not_above(num(D0)) || term.not_above(num(D0)) {
            num(D0)
        } else {
            num(D2).product(heat_ratio()).quotient(heat_ratio().difference(num(D1))).product(
                gas_constant(),
            ).product(sea_temperature()).product(term).root()
        }
    }

    /// The calibrated airspeed at an impact pressure, given the power of its
    /// terms; zero where there is no pressure.
    pub fn calibrated_airspeed(qc: Binary64, power: Binary64) -> (r: Binary64)
        ensures
            r == Atmosphere::calibrated(qc, power),
    {
        let term: Binary64 = power.minus(num(D1));
        if qc.le(num(D0)) || term.le(num(D0)) {
            num(D0)
        } else {
            num(D2).times(gamma_air()).over(gamma_air().minus(num(D1))).times(r_specific()).times(
                t0_sl(),
            ).times(term).sqrt()
        }
    }
}

/// Higher up is never in a lower layer.
pub proof fn layers_are_stacked(low: Binary64, high: Binary64)
    requires
        low.not_above(high),
    ensures
        Atmosphere::layer_at(low).level() <= Atmosphere::layer_at(high).level(),
{
}

/// Within the tropopause and the stratopause, and where the standard ends, the
/// temperature does not depend on the altitude.
pub proof fn isothermal_layers(a: Binary64, b: Binary64)
    requires
        Atmosphere::layer_at(Atmosphere::potential(a)) == Atmosphere::layer_at(
            Atmosphere::potential(b),
        ),
        ({
            let layer = Atmosphere::layer_at(Atmosphere::potential(a));
            layer == Layer::Tropopause || layer == Layer::Stratopause || layer == Layer::Beyond
        }),
    ensures
        Atmosphere::terms_at(a).temperature == Atmosphere::terms_at(b).temperature,
{
}

/// Air cools with height in the troposphere and the mesosphere, and warms in the
/// stratosphere.
pub proof fn layers_cool_and_warm(low: Binary64, high: Binary64)
    requires
        low.finite() && high.finite() && low.not_above(high),
        num(D0_0065).product(low.larger(num(M1000))).finite(),
        num(D0_0065).product(high.larger(num(M1000))).finite(),
        low.difference(num(D20000)).finite() && high.difference(num(D20000)).finite(),
        low.difference(num(D32000)).finite() && high.difference(num(D32000)).finite(),
        low.difference(num(D51000)).finite() && high.difference(num(D51000)).finite(),
        low.difference(num(D71000)).finite() && high.difference(num(D71000)).finite(),
        num(D0_001).product(low.difference(num(D20000))).finite(),
        num(D0_001).product(high.difference(num(D20000))).finite(),
        num(D0_0028).product(low.difference(num(D32000))).finite(),
        num(D0_0028).product(high.difference(num(D32000))).finite(),
        num(D0_0028).product(low.difference(num(D51000))).finite(),
        num(D0_0028).product(high.difference(num(D51000))).finite(),
        num(D0_002).product(low.difference(num(D71000))).finite(),
        num(D0_002).product(high.difference(num(D71000))).finite(),
    ensures
        Atmosphere::terms_in(Layer::Troposphere, high).temperature.not_above(
            Atmosphere::terms_in(Layer::Troposphere, low).temperature,
        ),
        Atmosphere::terms_in(Layer::Stratosphere, low).temperature.not_above(
            Atmosphere::terms_in(Layer::Stratosphere, high).temperature,
        ),
        Atmosphere::terms_in(Layer::UpperStratosphere, low).temperature.not_above(
            Atmosphere::terms_in(Layer::UpperStratosphere, high).temperature,
        ),
        Atmosphere::terms_in(Layer::Mesosphere, high).temperature.not_above(
            Atmosphere::terms_in(Layer::Mesosphere, low).temperature,
        ),
        Atmosphere::terms_in(Layer::UpperMesosphere, high).temperature.not_above(
            Atmosphere::terms_in(Layer::UpperMesosphere, low).temperature,
        ),
{
    lemma_lapse(sea_temperature(), num(D0_0065), low.larger(num(M1000)), high.larger(num(M1000)));
    lemma_climb(low, high, num(D20000));
    lemma_climb(low, high, num(D32000));
    lemma_climb(low, high, num(D51000));
    lemma_climb(low, high, num(D71000));
    lemma_lapse(
        num(D216_65),
        num(D0_001),
        low.difference(num(D20000)),
        high.difference(num(D20000)),
    );
    lemma_lapse(
        num(D228_65),
        num(D0_0028),
        low.difference(num(D32000)),
        high.difference(num(D32000)),
    );
    lemma_lapse(
        num(D270_65),
        num(D0_0028),
        low.difference(num(D51000)),
        high.difference(num(D51000)),
    );
    lemma_lapse(
        num(D214_65),
        num(D0_002),
        low.difference(num(D71000)),
        high.difference(num(D71000)),
    );
}

proof fn lemma_climb(low: Binary64, high: Binary64, base: Binary64)
    requires
        low.finite() && high.finite() && base.finite() && low.not_above(high),
    ensures
        low.difference(base).not_above(high.difference(base)),
{
    crate::rounding::sums_are_numbers(low, base.negated());
    crate::rounding::sums_are_numbers(high, base.negated());
    crate::rounding::sums_keep_order(low, high, base.negated());
}

proof fn lemma_lapse(t: Binary64, k: Binary64, a: Binary64, b: Binary64)
    requires
        t.finite() && k.finite() && num(D0).not_above(k),
        a.finite() && b.finite() && a.not_above(b),
        k.product(a).finite() && k.product(b).finite(),
    ensures
        t.difference(k.product(b)).not_above(t.difference(k.product(a))),
        t.sum(k.product(a)).not_above(t.sum(k.product(b))),
{
    let (p, q) = (k.product(a), k.product(b));
    crate::rounding::factors_keep_order(k, a, b);
    crate::rounding::sums_are_numbers(t, p);
    crate::rounding::sums_are_numbers(t, q);
    crate::rounding::sums_are_numbers(t, p.negated());
    crate::rounding::sums_are_numbers(t, q.negated());
    crate::rounding::sums_of_ordered_terms(t, t, p, q);
    crate::rounding::sums_of_ordered_terms(t, t, q.negated(), p.negated());
}

/// The dynamic pressure is not negative, grows with the airspeed, whichever way
/// the air comes, and with the density.
pub proof fn faster_air_presses_more(
    thin: Atmosphere,
    dense: Atmosphere,
    slow: Binary64,
    fast: Binary64,
)
    requires
        slow.finite() && fast.finite() && slow.absolute().not_above(fast.absolute()),
        thin.density.finite() && dense.density.finite(),
        num(D0).not_above(thin.density) && thin.density.not_above(dense.density),
        num(D0_5).product(thin.density).product(slow).finite(),
        num(D0_5).product(thin.density).product(fast).finite(),
        num(D0_5).product(dense.density).product(fast).finite(),
    ensures
        num(D0).not_above(thin.ram(slow)),
        thin.ram(slow).not_above(thin.ram(fast)),
        num(D0).not_above(fast) ==> thin.ram(fast).not_above(dense.ram(fast)),
        slow.zero() ==> thin.ram(slow).zero(),
{
    let (h, i) = (num(D0_5).product(thin.density), num(D0_5).product(dense.density));
    crate::rounding::factors_keep_order(num(D0_5), thin.density, dense.density);
    crate::rounding::fractions_shrink(thin.density, num(D0_5));
    crate::rounding::fractions_shrink(dense.density, num(D0_5));
    crate::rounding::products_commute(num(D0_5), thin.density);
    crate::rounding::products_commute(num(D0_5), dense.density);
    crate::rounding::weighed_squares_grow(h, slow, fast);
    if num(D0).not_above(fast) {
        crate::rounding::factors_keep_order(fast, h, i);
        crate::rounding::factors_keep_order(fast, h.product(fast), i.product(fast));
    }
}

/// The Mach number grows with the airspeed and has its sign.
pub proof fn mach_numbers_grow(air: Atmosphere, slow: Binary64, fast: Binary64)
    requires
        slow.finite() && fast.finite() && slow.not_above(fast),
        air.speed_of_sound.finite(),
    ensures
        air.mach(slow).not_above(air.mach(fast)),
        num(D0).not_above(slow) ==> num(D0).not_above(air.mach(slow)),
        slow.zero() ==> air.mach(slow).zero(),
{
    let c = air.speed_of_sound.larger(num(D1));
    crate::rounding::divisors_keep_order(slow, fast, c);
    if num(D0).not_above(slow) {
        crate::rounding::divisors_keep_order(num(D0), slow, c);
    }
}

/// Air at a higher pressure, or at a lower temperature, is denser; colder air is
/// shown colder.
pub proof fn compressed_air_is_denser(altitude: Binary64, f: AirFactors, g: AirFactors)
    requires
        ({
            let t = Atmosphere::terms_at(altitude);
            let k = gas_constant().product(t.temperature);
            &&& k.finite() && num(D0).below(k)
            &&& Atmosphere::pressure_at(t, f).not_above(Atmosphere::pressure_at(t, g))
        }),
    ensures
        Atmosphere::air_at(altitude, f).density.not_above(
            Atmosphere::air_at(altitude, g).density,
        ),
        Atmosphere::air_at(altitude, f).density_ratio.not_above(
            Atmosphere::air_at(altitude, g).density_ratio,
        ),
        Atmosphere::air_at(altitude, f).pressure.not_above(
            Atmosphere::air_at(altitude, g).pressure,
        ),
        Atmosphere::air_at(altitude, f).geometric_altitude == altitude,
{
    let t = Atmosphere::terms_at(altitude);
    let k = gas_constant().product(t.temperature);
    let (p, q) = (Atmosphere::pressure_at(t, f), Atmosphere::pressure_at(t, g));
    crate::rounding::divisors_keep_order(p, q, k);
    crate::rounding::divisors_keep_order(p.quotient(k), q.quotient(k), sea_density());
}

/// The impact pressure grows with the power that it is made of, and no impact is
/// no calibrated airspeed.
pub proof fn impacts_grow(air: Atmosphere, tas: Binary64, low: Binary64, high: Binary64)
    requires
        !air.mach(tas).below(num(D0_001)),
        air.pressure.finite() && num(D0).not_above(air.pressure),
        low.finite() && high.finite() && low.not_above(high),
        low.difference(num(D1)).finite() && high.difference(num(D1)).finite(),
    ensures
        air.impact(tas, low).not_above(air.impact(tas, high)),
        num(D1).not_above(low) ==> num(D0).not_above(air.impact(tas, low)),
        low.not_above(num(D1)) ==> Atmosphere::calibrated(air.impact(tas, low), high).zero(),
{
    lemma_climb(low, high, num(D1));
    crate::rounding::factors_keep_order(
        air.pressure,
        low.difference(num(D1)),
        high.difference(num(D1)),
    );
    crate::rounding::differences_tell_the_order(low, num(D1));
    crate::rounding::products_are_numbers(air.pressure, low.difference(num(D1)));
    crate::rounding::products_keep_signs(air.pressure, low.difference(num(D1)));
}

} // verus!
