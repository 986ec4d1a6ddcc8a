//! The wind field: a steady wind with altitude shear, and gusts.
//!
//! Winds are in the earth frame (north, east, down) in m/s. Logarithms, powers
//! and trigonometric functions are not computed here: the functions that need
//! one take its value as an argument, and say of which number it is.
use crate::binary64::Binary64;
use crate::literal::{
    num, D0, D0_05, D0_2, D0_7, D1, D10, D1000, D15, D1EM9, D1_5, D2, D266_5, D3, D5, D533, D5_5,
    D6_283185307179586, M2,
};
use crate::prng::Prng;
use crate::text::same_text;
use crate::vector::Vec3;
use vstd::prelude::*;

verus! {

/// The seed of a wind field that was given none.
pub const DEFAULT_WIND_SEED: u64 = 0x9E37_79B9_7F4A_7C15;

/// The multipliers that part one seed into a seed for each axis.
pub const NORTH_SEED: u64 = 0x9E37_79B9_7F4A_7C15;

pub const EAST_SEED: u64 = 0xD1B5_4A32_D192_ED03;

pub const DOWN_SEED: u64 = 0x243F_6A88_85A3_08D3;

/// How rough the air is.
#[derive(Clone, Copy, Debug, PartialEq, Eq, Structural)]
pub enum TurbulenceIntensity {
    /// Hardly any bumps.
    Light,
    /// Occasional gusts.
    Moderate,
    /// Sustained rough air.
    Severe,
    /// A given RMS gust speed (m/s).
    Custom(Binary64),
}

impl TurbulenceIntensity {
    pub open spec fn rms(self) -> Binary64 {
        match self {
            TurbulenceIntensity::Light => num(D1_5),
            TurbulenceIntensity::Moderate => num(D3),
            TurbulenceIntensity::Severe => num(D5_5),
            TurbulenceIntensity::Custom(s) => s.absolute(),
        }
    }

    /// The intensity with a name; every other text means light.
    pub open spec fn named(name: Seq<char>) -> TurbulenceIntensity {
        if name == "moderate"@ {
            TurbulenceIntensity::Moderate
        } else if name == "severe"@ {
            TurbulenceIntensity::Severe
        } else {
            TurbulenceIntensity::Light
        }
    }

    /// The RMS speed (m/s) of the gusts along the wind.
    pub fn sigma_u(self) -> (r: Binary64)
        ensures
            r == self.rms(),
    {
        match self {
            TurbulenceIntensity::Light => num(D1_5),
            TurbulenceIntensity::Moderate => num(D3),
            TurbulenceIntensity::Severe => num(D5_5),
            TurbulenceIntensity::Custom(s) => s.abs(),
        }
    }

    /// The intensity with a name.
    pub fn from_name(name: &str) -> (r: Self)
        ensures
            r == TurbulenceIntensity::named(name@),
    {
        if same_text(name, "moderate") {
            TurbulenceIntensity::Moderate
        } else if same_text(name, "severe") {
            TurbulenceIntensity::Severe
        } else {
            TurbulenceIntensity::Light
        }
    }
}

/// Parameters of the wind field.
#[derive(Clone, Copy, Debug, PartialEq, Eq, Structural)]
pub struct WindConfig {
    /// Speed (m/s) of the steady wind at the reference altitude.
    pub wind_speed: Binary64,
    /// Heading (radians, clockwise from north) towards which the wind blows.
    pub wind_direction: Binary64,
    /// Altitude (m) at which the speed holds.
    pub reference_altitude: Binary64,
    /// Whether the wind grows with altitude below the reference altitude.
    pub wind_shear: bool,
    /// How rough the air is.
    pub turbulence: TurbulenceIntensity,
    /// Length (m) over which the gusts along the wind lose their correlation.
    pub turbulence_scale: Binary64,
    /// The same of the gusts across the wind.
    pub turbulence_scale_lat: Binary64,
    /// The same of the gusts up and down.
    pub turbulence_scale_vert: Binary64,
    /// Seed of the gusts.
    pub seed: u64,
}

impl WindConfig {
    /// Still air with light turbulence.
    pub open spec fn still() -> WindConfig {
        WindConfig {
            wind_speed: num(D0),
            wind_direction: num(D0),
            reference_altitude: num(D1000),
            wind_shear: false,
            turbulence: TurbulenceIntensity::Light,
            turbulence_scale: num(D533),
            turbulence_scale_lat: num(D533),
            turbulence_scale_vert: num(D266_5),
            seed: DEFAULT_WIND_SEED,
        }
    }

    /// The part of the way up to the reference altitude that an altitude is.
    pub open spec fn shear_share(self, altitude: Binary64) -> Binary64 {
        altitude.larger(num(D1)).quotient(self.reference_altitude.larger(num(D1)))
    }

    /// Whether shear slows the wind at an altitude.
    pub open spec fn shears_at(self, altitude: Binary64) -> bool {
        self.wind_shear && num(D0).below(self.wind_speed) && altitude.larger(num(D1)).below(
            self.reference_altitude.larger(num(D1)),
        )
    }
}

impl Default for WindConfig {
    fn default() -> (r: Self)
        ensures
            r == WindConfig::still(),
    {
        WindConfig {
            wind_speed: num(D0),
            wind_direction: num(D0),
            reference_altitude: num(D1000),
            wind_shear: false,
            turbulence: TurbulenceIntensity::Light,
            turbulence_scale: num(D533),
            turbulence_scale_lat: num(D533),
            turbulence_scale_vert: num(D266_5),
            seed: DEFAULT_WIND_SEED,
        }
    }
}

/// The angle whose cosine a normal draw takes, from the second uniform number.
pub fn normal_angle(u2: Binary64) -> (r: Binary64)
    ensures
        r == num(D6_283185307179586).product(u2),
{
    num(D6_283185307179586).times(u2)
}

/// A normal draw, from the logarithm of the first uniform number and the
/// cosine of the angle of the second.
pub open spec fn normal_of(ln_u1: Binary64, cosine: Binary64) -> Binary64 {
    num(M2).product(ln_u1).root().product(cosine)
}

/// A normal draw.
pub fn normal_draw(ln_u1: Binary64, cosine: Binary64) -> (r: Binary64)
    ensures
        r == normal_of(ln_u1, cosine),
{
    num(M2).times(ln_u1).sqrt().times(cosine)
}

/// The share of the way that a first-order lag with time constant `tau` goes
/// in the time `dt`.
pub open spec fn lag_share(tau: Binary64, dt: Binary64) -> Binary64 {
    dt.quotient(tau.sum(dt))
}

/// The gust after a time step. The time constant is the length scale over the
/// airspeed; the white noise is scaled so that the gusts keep the RMS `sigma`.
pub open spec fn gust_after(
    velocity: Binary64,
    vt_air: Binary64,
    sigma: Binary64,
    l: Binary64,
    dt: Binary64,
    normal: Binary64,
) -> Binary64 {
    let v = vt_air.absolute().larger(num(D15));
    let tau = l.quotient(v).larger(num(D0_05));
    let alpha = lag_share(tau, dt);
    let white_std = sigma.product(
        num(D2).difference(alpha).quotient(alpha.larger(num(D1EM9))).root(),
    );
    let white = normal.product(white_std);
    velocity.sum(alpha.product(white.difference(velocity)))
}

/// The gust along one axis, with the generator of its noise.
#[derive(Clone, Copy, Debug, PartialEq, Eq, Structural)]
pub struct GustState {
    pub velocity: Binary64,
    pub prng: Prng,
}

impl GustState {
    /// Advances the gust by `dt` seconds with a normal draw.
    pub fn step(
        &mut self,
        vt_air: Binary64,
        sigma: Binary64,
        l: Binary64,
        dt: Binary64,
        normal: Binary64,
    ) -> (r: Binary64)
        ensures
            r == gust_after(old(self).velocity, vt_air, sigma, l, dt, normal),
            final(self).velocity == r,
            final(self).prng == old(self).prng,
    {
        let v: Binary64 = vt_air.abs().max(num(D15));
        let tau: Binary64 = l.over(v).max(num(D0_05));
        let alpha: Binary64 = dt.over(tau.plus(dt));
        let white_std: Binary64 = sigma.times(
            num(D2).minus(alpha).over(alpha.max(num(D1EM9))).sqrt(),
        );
        let white: Binary64 = normal.times(white_std);
        self.velocity = self.velocity.plus(alpha.times(white.minus(self.velocity)));
        self.velocity
    }
}

/// The seed of an axis: the shared seed times the multiplier of the axis, made
/// odd.
pub open spec fn axis_seed(seed: u64, multiplier: u64) -> u64 {
    seed.wrapping_mul(multiplier) | 1
}

fn axis_gust(seed: u64, multiplier: u64) -> (r: GustState)
    ensures
        r.velocity == num(D0),
        r.prng.state == axis_seed(seed, multiplier),
        r.prng.wf(),
{
    let s: u64 = seed.wrapping_mul(multiplier) | 1;
    proof {
        let w = seed.wrapping_mul(multiplier);
        assert(w | 1 != 0) by (bit_vector);
    }
    GustState { velocity: num(D0), prng: Prng::new(s) }
}

/// The wind field.
#[derive(Clone, Copy, Debug, PartialEq, Eq, Structural)]
pub struct WindEnvironment {
    pub config: WindConfig,
    pub gust_u: GustState,
    pub gust_v: GustState,
    pub gust_w: GustState,
}

impl WindEnvironment {
    pub open spec fn wf(self) -> bool {
        self.gust_u.prng.wf() && self.gust_v.prng.wf() && self.gust_w.prng.wf()
    }

    /// A field without gusts yet.
    pub open spec fn fresh(config: WindConfig) -> WindEnvironment {
        WindEnvironment {
            config,
            gust_u: GustState {
                velocity: num(D0),
                prng: Prng { state: axis_seed(config.seed, NORTH_SEED) },
            },
            gust_v: GustState {
                velocity: num(D0),
                prng: Prng { state: axis_seed(config.seed, EAST_SEED) },
            },
            gust_w: GustState {
                velocity: num(D0),
                prng: Prng { state: axis_seed(config.seed, DOWN_SEED) },
            },
        }
    }

    /// The gusts north, east and down.
    pub open spec fn gusts(self) -> Vec3 {
        Vec3 { x: self.gust_u.velocity, y: self.gust_v.velocity, z: self.gust_w.velocity }
    }

    /// The steady wind at an altitude, given the cosine and sine of its heading
    /// and the shear factor.
    pub open spec fn steady(
        self,
        altitude: Binary64,
        cosine: Binary64,
        sine: Binary64,
        factor: Binary64,
    ) -> Vec3 {
        let mag = if self.config.shears_at(altitude) {
            self.config.wind_speed.product(factor)
        } else {
            self.config.wind_speed
        };
        Vec3 { x: mag.product(cosine), y: mag.product(sine), z: num(D0) }
    }

    /// The gusts after a time step with normal draws for the three axes. Those
    /// across the wind are as strong as those along it; those up and down have
    /// seven tenths of the strength. Each axis has its own length scale, of at
    /// least 10 m along and across the wind and 5 m up and down.
    pub open spec fn gusts_after(self, vt_air: Binary64, dt: Binary64, normals: Vec3) -> Vec3 {
        let sigma = self.config.turbulence.rms();
        let along = self.config.turbulence_scale.larger(num(D10));
        let across = self.config.turbulence_scale_lat.larger(num(D10));
        Vec3 {
            x: gust_after(self.gust_u.velocity, vt_air, sigma, along, dt, normals.x),
            y: gust_after(self.gust_v.velocity, vt_air, sigma, across, dt, normals.y),
            z: gust_after(
                self.gust_w.velocity,
                vt_air,
                sigma.product(num(D0_7)).sum(num(D0)),
                self.config.turbulence_scale_vert.larger(num(D5)),
                dt,
                normals.z,
            ),
        }
    }

    /// The field after a time step with those gusts.
    pub open spec fn with_gusts(self, g: Vec3) -> WindEnvironment {
        WindEnvironment {
            config: self.config,
            gust_u: GustState { velocity: g.x, prng: self.gust_u.prng },
            gust_v: GustState { velocity: g.y, prng: self.gust_v.prng },
            gust_w: GustState { velocity: g.z, prng: self.gust_w.prng },
        }
    }

    /// A wind field with the given parameters.
    pub fn new(config: WindConfig) -> (r: Self)
        ensures
            r == WindEnvironment::fresh(config),
            r.wf(),
    {
        WindEnvironment {
            config,
            gust_u: axis_gust(config.seed, NORTH_SEED),
            gust_v: axis_gust(config.seed, EAST_SEED),
            gust_w: axis_gust(config.seed, DOWN_SEED),
        }
    }

    /// Sets the RMS gust speed (m/s).
    pub fn set_sigma(&mut self, sigma: Binary64)
        ensures
            final(self).config == (WindConfig {
                turbulence: TurbulenceIntensity::Custom(sigma),
                ..old(self).config
            }),
            final(self).gust_u == old(self).gust_u,
            final(self).gust_v == old(self).gust_v,
            final(self).gust_w == old(self).gust_w,
    {
        self.config.turbulence = TurbulenceIntensity::Custom(sigma);
    }

    /// The number whose fifth root is the shear factor at an altitude, or none
    /// where there is no shear.
    pub fn shear_base(&self, altitude: Binary64) -> (r: Option<Binary64>)
        ensures
            r == if self.config.shears_at(altitude) {
                Some(self.config.shear_share(altitude))
            } else {
                None
            },
    {
        if self.config.wind_shear && self.config.wind_speed.gt(num(D0)) {
            let alt: Binary64 = altitude.max(num(D1));
            let z_ref: Binary64 = self.config.reference_altitude.max(num(D1));
            if alt.lt(z_ref) {
                return Some(alt.over(z_ref));
            }
        }
        None
    }

    /// The exponent of the shear profile.
    pub fn shear_exponent() -> (r: Binary64)
        ensures
            r == num(D0_2),
    {
        num(D0_2)
    }

    /// The steady wind at an altitude. `cosine` and `sine` are those of the
    /// wind direction; `factor` is the shear base to the power of the shear
    /// exponent.
    pub fn steady_wind(
        &self,
        altitude: Binary64,
        cosine: Binary64,
        sine: Binary64,
        factor: Binary64,
    ) -> (r: Vec3)
        ensures
            r == self.steady(altitude, cosine, sine, factor),
    {
        let mut mag: Binary64 = self.config.wind_speed;
        if self.shear_base(altitude).is_some() {
            mag = mag.times(factor);
        }
        Vec3 { x: mag.times(cosine), y: mag.times(sine), z: num(D0) }
    }

    /// Draws the uniform numbers for one normal draw on each axis.
    pub fn draw(&mut self) -> (r: [(Binary64, Binary64); 3])
        ensures
            final(self).config == old(self).config,
            final(self).gusts() == old(self).gusts(),
            final(self).gust_u.prng.state == crate::prng::state_after(
                old(self).gust_u.prng.state,
                2,
            ),
            final(self).gust_v.prng.state == crate::prng::state_after(
                old(self).gust_v.prng.state,
                2,
            ),
            final(self).gust_w.prng.state == crate::prng::state_after(
                old(self).gust_w.prng.state,
                2,
            ),
            r@[0] == drawn_pair(old(self).gust_u.prng.state),
            r@[1] == drawn_pair(old(self).gust_v.prng.state),
            r@[2] == drawn_pair(old(self).gust_w.prng.state),
            old(self).wf() ==> final(self).wf(),
    {
        let u: (Binary64, Binary64) = self.gust_u.prng.next_pair();
        let v: (Binary64, Binary64) = self.gust_v.prng.next_pair();
        let w: (Binary64, Binary64) = self.gust_w.prng.next_pair();
        [u, v, w]
    }

    /// Advances the gusts by `dt` seconds with normal draws for the three axes.
    pub fn turbulence(&mut self, vt_air: Binary64, dt: Binary64, normals: Vec3) -> (r: Vec3)
        ensures
            r == old(self).gusts_after(vt_air, dt, normals),
            *final(self) == old(self).with_gusts(r),
    {
        let sigma_u: Binary64 = self.config.turbulence.sigma_u();
        let along: Binary64 = self.config.turbulence_scale.max(num(D10));
        let across: Binary64 = self.config.turbulence_scale_lat.max(num(D10));
        let upright: Binary64 = self.config.turbulence_scale_vert.max(num(D5));
        let sigma_w: Binary64 = sigma_u.times(num(D0_7)).plus(num(D0));
        let u: Binary64 = self.gust_u.step(vt_air, sigma_u, along, dt, normals.x);
        let v: Binary64 = self.gust_v.step(vt_air, sigma_u, across, dt, normals.y);
        let w: Binary64 = self.gust_w.step(vt_air, sigma_w, upright, dt, normals.z);
        Vec3 { x: u, y: v, z: w }
    }
}

/// What the wind of a step takes from elsewhere: cosine and sine of the wind
/// direction, the shear factor, and normal draws for the three axes.
#[derive(Clone, Copy, Debug, PartialEq, Eq, Structural)]
pub struct WindInputs {
    pub cosine: Binary64,
    pub sine: Binary64,
    pub factor: Binary64,
    pub normals: Vec3,
}

impl WindEnvironment {
    /// The wind over a step, and the field after it.
    pub open spec fn blown(
        self,
        altitude: Binary64,
        vt_air: Binary64,
        dt: Binary64,
        inputs: WindInputs,
    ) -> (Vec3, WindEnvironment) {
        let g = self.gusts_after(vt_air, dt, inputs.normals);
        (
            self.steady(altitude, inputs.cosine, inputs.sine, inputs.factor).sum(g),
            self.with_gusts(g),
        )
    }

    /// The wind over a step: the steady wind at an altitude and the gusts.
    pub fn total_wind(
        &mut self,
        altitude: Binary64,
        vt_air: Binary64,
        dt: Binary64,
        inputs: WindInputs,
    ) -> (r: Vec3)
        ensures
            (r, *final(self)) == old(self).blown(altitude, vt_air, dt, inputs),
    {
        let steady: Vec3 = self.steady_wind(altitude, inputs.cosine, inputs.sine, inputs.factor);
        let turb: Vec3 = self.turbulence(vt_air, dt, inputs.normals);
        steady.plus(turb)
    }
}

/// The uniform numbers that a generator in a given state draws for one normal
/// draw.
pub open spec fn drawn_pair(state: u64) -> (Binary64, Binary64) {
    (
        crate::prng::uniform_of(crate::prng::next_state(state)).sum(
            num(crate::literal::D1EM12),
        ).smaller(num(crate::literal::D0_999999999)),
        crate::prng::uniform_of(crate::prng::state_after(state, 2)).larger(
            num(crate::literal::D1EM12),
        ),
    )
}

/// A fresh field is calm, and its generators are seeded.
pub proof fn fresh_fields_are_calm(config: WindConfig)
    ensures
        WindEnvironment::fresh(config).gusts() == Vec3::zero(),
        WindEnvironment::fresh(config).wf(),
{
    let s = config.seed;
    let a = s.wrapping_mul(NORTH_SEED);
    let b = s.wrapping_mul(EAST_SEED);
    let c = s.wrapping_mul(DOWN_SEED);
    assert(a | 1 != 0) by (bit_vector);
    assert(b | 1 != 0) by (bit_vector);
    assert(c | 1 != 0) by (bit_vector);
}

/// The field after one step in which `normal` turns uniform numbers into a
/// normal draw.
pub open spec fn field_after(
    w: WindEnvironment,
    vt_air: Binary64,
    dt: Binary64,
    normal: spec_fn((Binary64, Binary64)) -> Binary64,
) -> WindEnvironment {
    let normals = Vec3 {
        x: normal(drawn_pair(w.gust_u.prng.state)),
        y: normal(drawn_pair(w.gust_v.prng.state)),
        z: normal(drawn_pair(w.gust_w.prng.state)),
    };
    let g = w.gusts_after(vt_air, dt, normals);
    WindEnvironment {
        config: w.config,
        gust_u: GustState {
            velocity: g.x,
            prng: Prng { state: crate::prng::state_after(w.gust_u.prng.state, 2) },
        },
        gust_v: GustState {
            velocity: g.y,
            prng: Prng { state: crate::prng::state_after(w.gust_v.prng.state, 2) },
        },
        gust_w: GustState {
            velocity: g.z,
            prng: Prng { state: crate::prng::state_after(w.gust_w.prng.state, 2) },
        },
    }
}

/// The gusts of a run: one for each pair of airspeed and time step.
pub open spec fn gust_trace(
    w: WindEnvironment,
    steps: Seq<(Binary64, Binary64)>,
    normal: spec_fn((Binary64, Binary64)) -> Binary64,
) -> Seq<Vec3>
    decreases steps.len(),
{
    if steps.len() == 0 {
        Seq::empty()
    } else {
        let next = field_after(w, steps[0].0, steps[0].1, normal);
        seq![next.gusts()] + gust_trace(next, steps.drop_first(), normal)
    }
}

/// The parameters fix the turbulence: two fields made from the same parameters
/// have the same gusts throughout any run of the same steps.
pub proof fn equal_parameters_give_equal_gusts(
    a: WindEnvironment,
    b: WindEnvironment,
    steps: Seq<(Binary64, Binary64)>,
    normal: spec_fn((Binary64, Binary64)) -> Binary64,
)
    requires
        a == WindEnvironment::fresh(a.config),
        b == WindEnvironment::fresh(b.config),
        a.config == b.config,
    ensures
        gust_trace(a, steps, normal) == gust_trace(b, steps, normal),
{
}

/// The wind blows where it heads: north with the cosine of its heading, east
/// with the sine, neither up nor down, and shear does not turn it round.
pub proof fn winds_blow_where_they_head(
    w: WindEnvironment,
    altitude: Binary64,
    cosine: Binary64,
    sine: Binary64,
    factor: Binary64,
)
    requires
        w.config.wind_speed.finite() && num(D0).not_above(w.config.wind_speed),
        cosine.finite() && sine.finite(),
        crate::rounding::is_fraction(factor),
    ensures
        ({
            let s = w.steady(altitude, cosine, sine, factor);
            &&& num(D0).not_above(cosine) ==> num(D0).not_above(s.x)
            &&& cosine.not_above(num(D0)) ==> s.x.not_above(num(D0))
            &&& num(D0).not_above(sine) ==> num(D0).not_above(s.y)
            &&& sine.not_above(num(D0)) ==> s.y.not_above(num(D0))
            &&& s.z.zero()
            &&& !w.config.shears_at(altitude) && cosine == num(D1) ==> s.x == w.config.wind_speed
            &&& !w.config.shears_at(altitude) && sine == num(D1) ==> s.y == w.config.wind_speed
        }),
{
    let mag = if w.config.shears_at(altitude) {
        w.config.wind_speed.product(factor)
    } else {
        w.config.wind_speed
    };
    crate::rounding::fractions_shrink(w.config.wind_speed, factor);
    crate::rounding::products_are_numbers(mag, cosine);
    crate::rounding::products_are_numbers(mag, sine);
    crate::rounding::products_keep_signs(mag, cosine);
    crate::rounding::products_keep_signs(mag, sine);
    crate::rounding::one_is_neutral(mag);
}

/// Shear slows the wind, the more the lower, and more wind is more wind.
pub proof fn shear_slows_the_wind(
    w: WindEnvironment,
    altitude: Binary64,
    cosine: Binary64,
    sine: Binary64,
    low: Binary64,
    high: Binary64,
)
    requires
        w.config.wind_speed.finite() && num(D0).not_above(w.config.wind_speed),
        cosine.finite() && sine.finite(),
        num(D0).not_above(cosine) && num(D0).not_above(sine),
        crate::rounding::is_fraction(low) && crate::rounding::is_fraction(high),
        low.not_above(high),
    ensures
        w.steady(altitude, cosine, sine, low).x.not_above(
            w.steady(altitude, cosine, sine, high).x,
        ),
        w.steady(altitude, cosine, sine, low).y.not_above(
            w.steady(altitude, cosine, sine, high).y,
        ),
        w.steady(altitude, cosine, sine, high).x.not_above(
            w.config.wind_speed.product(cosine),
        ),
        w.steady(altitude, cosine, sine, high).y.not_above(w.config.wind_speed.product(sine)),
{
    let v = w.config.wind_speed;
    crate::rounding::factors_keep_order(v, low, high);
    crate::rounding::fractions_shrink(v, low);
    crate::rounding::fractions_shrink(v, high);
    crate::rounding::factors_keep_order(cosine, v.product(low), v.product(high));
    crate::rounding::factors_keep_order(sine, v.product(low), v.product(high));
    crate::rounding::factors_keep_order(cosine, v.product(high), v);
    crate::rounding::factors_keep_order(sine, v.product(high), v);
    crate::rounding::factors_keep_order(cosine, v, v);
    crate::rounding::factors_keep_order(sine, v, v);
}

/// Below the reference altitude an altitude is a fraction of it, and a higher
/// altitude is no smaller a one.
pub proof fn shear_shares_grow_with_altitude(
    c: WindConfig,
    altitude: Binary64,
    higher: Binary64,
)
    requires
        altitude.finite() && higher.finite() && c.reference_altitude.finite(),
        altitude.not_above(higher),
        c.shears_at(higher),
    ensures
        c.shears_at(altitude),
        crate::rounding::is_fraction(c.shear_share(altitude)),
        c.shear_share(altitude).not_above(c.shear_share(higher)),
{
    let d = c.reference_altitude.larger(num(D1));
    crate::rounding::shares_are_fractions(altitude.larger(num(D1)), d);
    crate::rounding::divisors_keep_order(altitude.larger(num(D1)), higher.larger(num(D1)), d);
}

/// The strength of the white noise of the gusts.
pub open spec fn noise_strength(
    vt_air: Binary64,
    sigma: Binary64,
    l: Binary64,
    dt: Binary64,
) -> Binary64 {
    let tau = l.quotient(vt_air.absolute().larger(num(D15))).larger(num(D0_05));
    let alpha = lag_share(tau, dt);
    sigma.product(num(D2).difference(alpha).quotient(alpha.larger(num(D1EM9))).root())
}

/// Gusts go the way they are drawn: a higher draw gives no weaker a gust, a
/// draw of nothing lets the gust die down, and a draw that leads beyond the
/// gust makes it no weaker.
pub proof fn gusts_follow_their_draws(
    velocity: Binary64,
    vt_air: Binary64,
    sigma: Binary64,
    l: Binary64,
    dt: Binary64,
    normal: Binary64,
    more: Binary64,
)
    requires
        velocity.finite() && normal.finite() && more.finite() && normal.not_above(more),
        l.quotient(vt_air.absolute().larger(num(D15))).finite(),
        dt.finite() && num(D0).not_above(dt),
        ({
            let strength = noise_strength(vt_air, sigma, l, dt);
            &&& strength.finite() && num(D0).not_above(strength)
            &&& normal.product(strength).finite() && more.product(strength).finite()
            &&& normal.product(strength).difference(velocity).finite()
            &&& more.product(strength).difference(velocity).finite()
        }),
    ensures
        ({
            let g = gust_after(velocity, vt_air, sigma, l, dt, normal);
            &&& g.not_above(gust_after(velocity, vt_air, sigma, l, dt, more))
            &&& num(D0).not_above(velocity) && normal.not_above(num(D0)) ==> g.not_above(velocity)
            &&& velocity.not_above(num(D0)) && num(D0).not_above(normal) ==> velocity.not_above(g)
            &&& velocity.zero() && num(D0).not_above(normal) ==> num(D0).not_above(g)
            &&& velocity.zero() && normal.not_above(num(D0)) ==> g.not_above(num(D0))
            &&& dt.zero() ==> g.same(velocity)
        }),
{
    let tau = l.quotient(vt_air.absolute().larger(num(D15))).larger(num(D0_05));
    let alpha = lag_share(tau, dt);
    crate::rounding::steps_are_shares(tau, dt);
    let strength = noise_strength(vt_air, sigma, l, dt);
    crate::rounding::factors_keep_order(strength, normal, more);
    crate::rounding::products_keep_signs(normal, strength);
    if dt.zero() {
        crate::rounding::zeros_keep_signs(tau, dt);
    }
    crate::rounding::shares_lead_towards(
        velocity,
        normal.product(strength),
        more.product(strength),
        alpha,
    );
}

/// Each axis has its own draw and its own gust, and the gusts add to the steady
/// wind the way they blow.
pub proof fn gusts_add_to_the_steady_wind(
    w: WindEnvironment,
    altitude: Binary64,
    vt_air: Binary64,
    dt: Binary64,
    inputs: WindInputs,
    other: Vec3,
)
    requires
        crate::vector::is_finite(
            w.steady(altitude, inputs.cosine, inputs.sine, inputs.factor),
        ),
        crate::vector::is_finite(w.gusts_after(vt_air, dt, inputs.normals)),
    ensures
        ({
            let (wind, after) = w.blown(altitude, vt_air, dt, inputs);
            let s = w.steady(altitude, inputs.cosine, inputs.sine, inputs.factor);
            let g = after.gusts();
            let e = w.gusts_after(vt_air, dt, Vec3 { y: inputs.normals.y, ..other });
            &&& num(D0).not_above(g.x) ==> s.x.not_above(wind.x)
            &&& g.x.not_above(num(D0)) ==> wind.x.not_above(s.x)
            &&& num(D0).not_above(g.y) ==> s.y.not_above(wind.y)
            &&& g.y.not_above(num(D0)) ==> wind.y.not_above(s.y)
            &&& g.z.same(wind.z)
            &&& e.y == g.y
            &&& w.gusts_after(vt_air, dt, Vec3 { x: inputs.normals.x, ..other }).x == g.x
            &&& w.gusts_after(vt_air, dt, Vec3 { z: inputs.normals.z, ..other }).z == g.z
        }),
{
    let s = w.steady(altitude, inputs.cosine, inputs.sine, inputs.factor);
    let g = w.gusts_after(vt_air, dt, inputs.normals);
    lemma_blown(s.x, g.x);
    lemma_blown(s.y, g.y);
    crate::rounding::zeros_keep_signs(g.z, s.z);
}

proof fn lemma_blown(s: Binary64, g: Binary64)
    requires
        s.finite() && g.finite(),
    ensures
        num(D0).not_above(g) ==> s.not_above(s.sum(g)),
        g.not_above(num(D0)) ==> s.sum(g).not_above(s),
{
    crate::rounding::sums_are_numbers(s, g);
    crate::rounding::sums_are_numbers(s, num(D0));
    crate::rounding::zeros_keep_signs(s, num(D0));
    if num(D0).not_above(g) {
        crate::rounding::sums_of_ordered_terms(s, s, num(D0), g);
    }
    if g.not_above(num(D0)) {
        crate::rounding::sums_of_ordered_terms(s, s, g, num(D0));
    }
}

/// Rougher air has stronger gusts.
pub proof fn rougher_air_has_stronger_gusts(speed: Binary64)
    requires
        !speed.nan(),
    ensures
        TurbulenceIntensity::Light.rms().below(TurbulenceIntensity::Moderate.rms()),
        TurbulenceIntensity::Moderate.rms().below(TurbulenceIntensity::Severe.rms()),
        num(D0).not_above(TurbulenceIntensity::Custom(speed).rms()),
        num(D0).not_above(speed) ==> TurbulenceIntensity::Custom(speed).rms().same(speed),
        TurbulenceIntensity::Custom(speed.negated()).rms() == TurbulenceIntensity::Custom(
            speed,
        ).rms(),
{
}

} // verus!
