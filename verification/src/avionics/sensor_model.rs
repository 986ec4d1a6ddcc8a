//! The degradation of a sensor signal: lag, noise, drift, bias, gain,
//! quantization, clipping, in this order.
use crate::binary64::Binary64;
use crate::literal::{num, D0, D1, D1EM9, D2, D500, M500};
use crate::prng::{Prng, DEFAULT_STATE};
use vstd::prelude::*;

verus! {

/// How noise is distributed.
#[derive(Clone, Copy, Debug, PartialEq, Eq, Structural)]
pub enum NoiseDistribution {
    /// Normally.
    Gaussian,
    /// Uniformly between minus one and one.
    Uniform,
}

impl Default for NoiseDistribution {
    fn default() -> (r: Self)
        ensures
            r == NoiseDistribution::Gaussian,
    {
        NoiseDistribution::Gaussian
    }
}

/// How noise enters the signal.
#[derive(Clone, Copy, Debug, PartialEq, Eq, Structural)]
pub enum NoiseType {
    /// It is added.
    Absolute,
    /// It scales the signal.
    Percent,
}

impl Default for NoiseType {
    fn default() -> (r: Self)
        ensures
            r == NoiseType::Absolute,
    {
        NoiseType::Absolute
    }
}

/// Parameters of the degradation of one axis. A stage whose parameter is zero
/// is skipped.
#[derive(Clone, Copy, Debug)]
pub struct SensorConfig {
    /// Time constant (s) of the low-pass filter.
    pub lag: Binary64,
    /// Strength of the noise.
    pub noise: Binary64,
    pub noise_distribution: NoiseDistribution,
    pub noise_type: NoiseType,
    /// Drift per second.
    pub drift_rate: Binary64,
    /// Fixed offset.
    pub bias: Binary64,
    /// Scale factor.
    pub gain: Binary64,
    /// Bits of the converter.
    pub quantization_bits: u32,
    /// Range of the converter.
    pub quantize_min: Binary64,
    pub quantize_max: Binary64,
    /// Limits of the output.
    pub clip_min: Option<Binary64>,
    pub clip_max: Option<Binary64>,
}

impl SensorConfig {
    /// Parameters that leave the signal as it is.
    pub open spec fn perfect() -> SensorConfig {
        SensorConfig {
            lag: num(D0),
            noise: num(D0),
            noise_distribution: NoiseDistribution::Gaussian,
            noise_type: NoiseType::Absolute,
            drift_rate: num(D0),
            bias: num(D0),
            gain: num(D0),
            quantization_bits: 0,
            quantize_min: num(M500),
            quantize_max: num(D500),
            clip_min: None,
            clip_max: None,
        }
    }

    /// The step of the converter; zero where there is none.
    pub open spec fn converter_step(self) -> Binary64 {
        if self.quantization_bits > 0 {
            self.quantize_max.difference(self.quantize_min).quotient(
                Binary64::integer((1u64 << self.quantization_bits) as nat),
            )
        } else {
            num(D0)
        }
    }
}

impl Default for SensorConfig {
    fn default() -> (r: Self)
        ensures
            r == SensorConfig::perfect(),
    {
        SensorConfig {
            lag: num(D0),
            noise: num(D0),
            noise_distribution: NoiseDistribution::Gaussian,
            noise_type: NoiseType::Absolute,
            drift_rate: num(D0),
            bias: num(D0),
            gain: num(D0),
            quantization_bits: 0,
            quantize_min: num(M500),
            quantize_max: num(D500),
            clip_min: None,
            clip_max: None,
        }
    }
}

/// What was drawn for the noise of a sample.
#[derive(Clone, Copy, Debug, PartialEq, Eq, Structural)]
pub enum NoiseDraw {
    /// The sensor has no noise.
    Silent,
    /// A number between minus one and one.
    Uniform(Binary64),
    /// The two uniform numbers of a normal draw.
    Normal(Binary64, Binary64),
}

/// The degradation of one axis.
#[derive(Clone, Copy, Debug)]
pub struct SensorModel {
    pub config: SensorConfig,
    /// Last output of the low-pass filter.
    pub prev_output: Binary64,
    /// Drift so far.
    pub drift: Binary64,
    /// Step of the converter.
    pub quant_step: Binary64,
    /// Generator of the noise.
    pub prng: Prng,
}

impl SensorModel {
    /// A model at its start.
    pub open spec fn fresh(config: SensorConfig, state: u64) -> SensorModel {
        SensorModel {
            config,
            prev_output: num(D0),
            drift: num(D0),
            quant_step: config.converter_step(),
            prng: Prng { state },
        }
    }

    /// Whether the low-pass filter acts on a step of `dt` seconds.
    pub open spec fn lags(self, dt: Binary64) -> bool {
        num(D0).below(self.config.lag) && num(D0).below(dt)
    }

    pub open spec fn noisy(self) -> bool {
        num(D0).below(self.config.noise)
    }

    /// The signal after the low-pass filter; `decay` is the exponential of the
    /// lag exponent.
    pub open spec fn lagged(self, x: Binary64, dt: Binary64, decay: Binary64) -> Binary64 {
        if self.lags(dt) {
            let alpha = num(D1).difference(decay);
            self.prev_output.sum(alpha.product(x.difference(self.prev_output)))
        } else {
            x
        }
    }

    /// The signal after noise.
    pub open spec fn noised(self, x: Binary64, random: Binary64) -> Binary64 {
        if self.noisy() {
            match self.config.noise_type {
                NoiseType::Absolute => x.sum(self.config.noise.product(random)),
                NoiseType::Percent => x.product(
                    num(D1).sum(self.config.noise.product(random)),
                ),
            }
        } else {
            x
        }
    }

    pub open spec fn drifts(self) -> bool {
        !self.config.drift_rate.same(num(D0))
    }

    /// The drift after a step.
    pub open spec fn drift_after(self, dt: Binary64) -> Binary64 {
        if self.drifts() {
            self.drift.sum(self.config.drift_rate.product(dt))
        } else {
            self.drift
        }
    }

    /// The signal after drift.
    pub open spec fn drifted(self, x: Binary64, dt: Binary64) -> Binary64 {
        if self.drifts() {
            x.sum(self.drift_after(dt))
        } else {
            x
        }
    }

    /// The signal after bias.
    pub open spec fn biased(self, x: Binary64) -> Binary64 {
        if self.config.bias.same(num(D0)) {
            x
        } else {
            x.sum(self.config.bias)
        }
    }

    /// The signal after gain.
    pub open spec fn gained(self, x: Binary64) -> Binary64 {
        if self.config.gain.same(num(D0)) {
            x
        } else {
            x.product(self.config.gain)
        }
    }

    /// The signal after the converter: the lower end of its step.
    pub open spec fn quantized(self, x: Binary64) -> Binary64 {
        if self.config.quantization_bits > 0 {
            let part = x.larger(self.config.quantize_min).smaller(
                self.config.quantize_max,
            ).difference(self.config.quantize_min);
            part.quotient(self.quant_step).floored().product(self.quant_step).sum(
                self.config.quantize_min,
            )
        } else {
            x
        }
    }

    /// The signal within the limits of the output.
    pub open spec fn clipped(self, x: Binary64) -> Binary64 {
        let lo = match self.config.clip_min {
            Some(min) => x.larger(min),
            None => x,
        };
        match self.config.clip_max {
            Some(max) => lo.smaller(max),
            None => lo,
        }
    }

    /// The signal after all stages.
    pub open spec fn degraded(
        self,
        x: Binary64,
        dt: Binary64,
        decay: Binary64,
        random: Binary64,
    ) -> Binary64 {
        self.clipped(
            self.quantized(
                self.gained(
                    self.biased(
                        self.drifted(self.noised(self.lagged(x, dt, decay), random), dt),
                    ),
                ),
            ),
        )
    }

    /// The model after a sample.
    pub open spec fn after_sample(self, x: Binary64, dt: Binary64, decay: Binary64) -> SensorModel {
        SensorModel {
            prev_output: if self.lags(dt) {
                self.lagged(x, dt, decay)
            } else {
                self.prev_output
            },
            drift: self.drift_after(dt),
            ..self
        }
    }

    pub fn new(config: SensorConfig) -> (r: Self)
        requires
            config.quantization_bits < 64,
        ensures
            r == SensorModel::fresh(config, DEFAULT_STATE),
            r.prng.wf(),
    {
        let quant_step: Binary64 = if config.quantization_bits > 0 {
            config.quantize_max.minus(config.quantize_min).over(
                Binary64::from_u64(1u64 << config.quantization_bits),
            )
        } else {
            num(D0)
        };
        SensorModel {
            config,
            prev_output: num(D0),
            drift: num(D0),
            quant_step,
            prng: Prng { state: DEFAULT_STATE },
        }
    }

    /// A model whose noise is seeded.
    pub fn with_seed(config: SensorConfig, seed: u64) -> (r: Self)
        requires
            config.quantization_bits < 64,
        ensures
            r == SensorModel::fresh(config, crate::prng::kept_seed(seed)),
            r.prng.wf(),
    {
        let mut m: SensorModel = SensorModel::new(config);
        m.prng = Prng::new(seed);
        m
    }

    /// The exponent whose exponential the low-pass filter takes, where it acts.
    pub fn lag_exponent(&self, dt: Binary64) -> (r: Option<Binary64>)
        ensures
            r == if self.lags(dt) {
                Some(dt.negated().quotient(self.config.lag))
            } else {
                None
            },
    {
        if self.config.lag.gt(num(D0)) && dt.gt(num(D0)) {
            Some(dt.neg().over(self.config.lag))
        } else {
            None
        }
    }

    /// What a draw gives.
    pub open spec fn next_draw(self) -> NoiseDraw {
        if !self.noisy() {
            NoiseDraw::Silent
        } else if self.config.noise_distribution == NoiseDistribution::Uniform {
            NoiseDraw::Uniform(
                crate::prng::uniform_of(crate::prng::next_state(self.prng.state)).product(
                    num(D2),
                ).difference(num(D1)),
            )
        } else {
            let pair = crate::wind::drawn_pair(self.prng.state);
            NoiseDraw::Normal(pair.0, pair.1)
        }
    }

    /// The model after a draw: only its generator has moved.
    pub open spec fn drawn(self) -> SensorModel {
        SensorModel {
            prng: Prng {
                state: if !self.noisy() {
                    self.prng.state
                } else if self.config.noise_distribution == NoiseDistribution::Uniform {
                    crate::prng::next_state(self.prng.state)
                } else {
                    crate::prng::state_after(self.prng.state, 2)
                },
            },
            ..self
        }
    }

    /// The model after a reset.
    pub open spec fn forgotten(self) -> SensorModel {
        SensorModel { prev_output: num(D0), drift: num(D0), ..self }
    }

    /// Draws the noise of a sample.
    pub fn draw(&mut self) -> (r: NoiseDraw)
        ensures
            *final(self) == old(self).drawn(),
            r == old(self).next_draw(),
            old(self).prng.wf() ==> final(self).prng.wf(),
    {
        if !self.config.noise.gt(num(D0)) {
            return NoiseDraw::Silent;
        }
        match self.config.noise_distribution {
            NoiseDistribution::Gaussian => {
                let (u1, u2) = self.prng.next_pair();
                NoiseDraw::Normal(u1, u2)
            },
            NoiseDistribution::Uniform => {
                NoiseDraw::Uniform(self.prng.next_f64().times(num(D2)).minus(num(D1)))
            },
        }
    }

    /// Degrades one sample. `decay` is the exponential of the lag exponent and
    /// `random` the noise that was drawn; each is used only where its stage
    /// acts.
    pub fn process(
        &mut self,
        true_value: Binary64,
        dt: Binary64,
        decay: Binary64,
        random: Binary64,
    ) -> (r: Binary64)
        ensures
            r == old(self).degraded(true_value, dt, decay, random),
            *final(self) == old(self).after_sample(true_value, dt, decay),
    {
        let mut output: Binary64 = true_value;
        if self.config.lag.gt(num(D0)) && dt.gt(num(D0)) {
            let alpha: Binary64 = num(D1).minus(decay);
            output = self.prev_output.plus(alpha.times(output.minus(self.prev_output)));
            self.prev_output = output;
        }
        if self.config.noise.gt(num(D0)) {
            match self.config.noise_type {
                NoiseType::Absolute => {
                    output = output.plus(self.config.noise.times(random));
                },
                NoiseType::Percent => {
                    output = output.times(num(D1).plus(self.config.noise.times(random)));
                },
            }
        }
        if !self.config.drift_rate.is(num(D0)) {
            self.drift = self.drift.plus(self.config.drift_rate.times(dt));
            output = output.plus(self.drift);
        }
        if !self.config.bias.is(num(D0)) {
            output = output.plus(self.config.bias);
        }
        if !self.config.gain.is(num(D0)) {
            output = output.times(self.config.gain);
        }
        if self.config.quantization_bits > 0 {
            output = self.quantize(output);
        }
        if let Some(min) = self.config.clip_min {
            output = output.max(min);
        }
        if let Some(max) = self.config.clip_max {
            output = output.min(max);
        }
        output
    }

    fn quantize(&self, value: Binary64) -> (r: Binary64)
        requires
            self.config.quantization_bits > 0,
        ensures
            r == self.quantized(value),
    {
        let part: Binary64 = value.max(self.config.quantize_min).min(
            self.config.quantize_max,
        ).minus(self.config.quantize_min);
        part.over(self.quant_step).floor().times(self.quant_step).plus(self.config.quantize_min)
    }

    /// Forgets the filter and the drift. The noise goes on.
    pub fn reset(&mut self)
        ensures
            *final(self) == old(self).forgotten(),
    {
        self.prev_output = num(D0);
        self.drift = num(D0);
    }

    /// The drift so far.
    pub fn drift(&self) -> (r: Binary64)
        ensures
            r == self.drift,
    {
        self.drift
    }

    /// Seeds the noise.
    pub fn set_seed(&mut self, seed: u64)
        ensures
            *final(self) == (SensorModel {
                prng: Prng { state: crate::prng::kept_seed(seed) },
                ..*old(self)
            }),
            final(self).prng.wf(),
    {
        self.prng = Prng::new(seed);
    }
}

/// A perfect sensor passes every value through and keeps its state.
pub proof fn perfect_sensors_pass_through(
    state: u64,
    x: Binary64,
    dt: Binary64,
    decay: Binary64,
    random: Binary64,
)
    ensures
        SensorModel::fresh(SensorConfig::perfect(), state).degraded(x, dt, decay, random) == x,
        SensorModel::fresh(SensorConfig::perfect(), state).after_sample(x, dt, decay)
            == SensorModel::fresh(SensorConfig::perfect(), state),
{
}

/// The output keeps within its limits, whatever the other stages do.
pub proof fn outputs_keep_within_their_limits(
    m: SensorModel,
    lo: Binary64,
    hi: Binary64,
    x: Binary64,
    dt: Binary64,
    decay: Binary64,
    random: Binary64,
)
    requires
        m.config.clip_min == Some(lo),
        m.config.clip_max == Some(hi),
        lo.not_above(hi),
    ensures
        lo.not_above(m.degraded(x, dt, decay, random)),
        m.degraded(x, dt, decay, random).not_above(hi),
{
}

/// Bias comes after noise: it shifts the noisy signal by a constant.
pub proof fn bias_comes_after_noise(
    m: SensorModel,
    x: Binary64,
    dt: Binary64,
    decay: Binary64,
    random: Binary64,
)
    requires
        m.config == (SensorConfig {
            noise: m.config.noise,
            noise_type: m.config.noise_type,
            noise_distribution: m.config.noise_distribution,
            bias: m.config.bias,
            ..SensorConfig::perfect()
        }),
        !m.config.bias.same(num(D0)),
    ensures
        m.degraded(x, dt, decay, random) == m.noised(x, random).sum(m.config.bias),
{
}

/// A model without converter shows more for more: it keeps the order of what it
/// measures, where its gain is not negative.
pub proof fn sensors_keep_order(
    s: SensorModel,
    x: Binary64,
    y: Binary64,
    dt: Binary64,
    random: Binary64,
)
    requires
        x.finite() && y.finite() && x.not_above(y),
        !s.lags(dt),
        s.config.noise_type == NoiseType::Absolute,
        s.config.noise.product(random).finite() || !s.noisy(),
        s.noised(x, random).finite() && s.noised(y, random).finite(),
        s.drift_after(dt).finite(),
        s.drifted(s.noised(x, random), dt).finite(),
        s.drifted(s.noised(y, random), dt).finite(),
        s.config.bias.finite(),
        s.biased(s.drifted(s.noised(x, random), dt)).finite(),
        s.biased(s.drifted(s.noised(y, random), dt)).finite(),
        s.config.gain.finite() && num(D0).not_above(s.config.gain),
        s.config.quantization_bits == 0,
        s.config.clip_min matches Some(lo) ==> !lo.nan(),
        s.config.clip_max matches Some(hi) ==> !hi.nan(),
    ensures
        s.degraded(x, dt, num(D0), random).not_above(s.degraded(y, dt, num(D0), random)),
{
    let (a, b) = (s.noised(x, random), s.noised(y, random));
    if s.noisy() {
        crate::rounding::sums_keep_order(x, y, s.config.noise.product(random));
    }
    let (c, d) = (s.drifted(a, dt), s.drifted(b, dt));
    if s.drifts() {
        crate::rounding::sums_keep_order(a, b, s.drift_after(dt));
    }
    let (e, f) = (s.biased(c), s.biased(d));
    if !s.config.bias.same(num(D0)) {
        crate::rounding::sums_keep_order(c, d, s.config.bias);
    }
    crate::rounding::factors_keep_order(s.config.gain, e, f);
}

/// A bias shifts the signal its own way: a positive one does not lower it, a
/// negative one does not raise it.
pub proof fn biases_shift_their_way(s: SensorModel, x: Binary64)
    requires
        x.finite(),
        s.config.bias.finite(),
    ensures
        num(D0).not_above(s.config.bias) ==> x.not_above(s.biased(x)),
        s.config.bias.not_above(num(D0)) ==> s.biased(x).not_above(x),
        s.config.bias.zero() ==> s.biased(x) == x,
{
    lemma_shift(x, s.config.bias);
}

/// What is added shifts its own way.
proof fn lemma_shift(x: Binary64, b: Binary64)
    requires
        x.finite(),
        b.finite(),
    ensures
        num(D0).not_above(b) ==> x.not_above(x.sum(b)),
        b.not_above(num(D0)) ==> x.sum(b).not_above(x),
{
    crate::rounding::sums_are_numbers(x, b);
    crate::rounding::sums_are_numbers(x, num(D0));
    crate::rounding::zeros_keep_signs(x, num(D0));
    if num(D0).not_above(b) {
        crate::rounding::sums_of_ordered_terms(x, x, num(D0), b);
    }
    if b.not_above(num(D0)) {
        crate::rounding::sums_of_ordered_terms(x, x, b, num(D0));
    }
}

/// A drift goes on its own way, and what it has come to shifts the signal.
pub proof fn drifts_go_on(s: SensorModel, x: Binary64, dt: Binary64)
    requires
        x.finite(),
        s.drift.finite(),
        s.config.drift_rate.finite(),
        dt.finite() && num(D0).not_above(dt),
        s.config.drift_rate.product(dt).finite(),
        s.drift_after(dt).finite(),
    ensures
        num(D0).not_above(s.config.drift_rate) ==> s.drift.not_above(s.drift_after(dt)),
        s.config.drift_rate.not_above(num(D0)) ==> s.drift_after(dt).not_above(s.drift),
        s.config.drift_rate.zero() ==> s.drift_after(dt) == s.drift && s.drifted(x, dt) == x,
        !s.config.drift_rate.zero() && num(D0).not_above(s.drift_after(dt)) ==> x.not_above(
            s.drifted(x, dt),
        ),
        !s.config.drift_rate.zero() && s.drift_after(dt).not_above(num(D0)) ==> s.drifted(
            x,
            dt,
        ).not_above(x),
{
    crate::rounding::products_keep_signs(s.config.drift_rate, dt);
    lemma_shift(s.drift, s.config.drift_rate.product(dt));
    lemma_shift(x, s.drift_after(dt));
}

/// A lag leaves the signal between where it was and where it should be, or
/// rather does not lead it away from there.
pub proof fn lagging_sensors_follow(
    s: SensorModel,
    x: Binary64,
    y: Binary64,
    dt: Binary64,
    decay: Binary64,
)
    requires
        s.lags(dt),
        s.prev_output.finite() && x.finite() && y.finite() && x.not_above(y),
        x.difference(s.prev_output).finite() && y.difference(s.prev_output).finite(),
        crate::rounding::is_fraction(decay),
    ensures
        s.lagged(x, dt, decay).not_above(s.lagged(y, dt, decay)),
        s.prev_output.not_above(x) ==> s.prev_output.not_above(s.lagged(x, dt, decay)),
        x.not_above(s.prev_output) ==> s.lagged(x, dt, decay).not_above(s.prev_output),
        s.after_sample(x, dt, decay).prev_output == s.lagged(x, dt, decay),
{
    crate::rounding::complements_of_fractions(decay);
    crate::rounding::shares_lead_towards(s.prev_output, x, y, num(D1).difference(decay));
}

/// Noise shifts the signal the way it was drawn: in its own unit, or as a share
/// of a signal that is not negative.
pub proof fn noise_shifts_its_way(s: SensorModel, x: Binary64, random: Binary64)
    requires
        s.noisy(),
        s.config.noise.finite(),
        random.finite(),
        x.finite() && num(D0).not_above(x),
        s.config.noise.product(random).finite(),
        num(D1).sum(s.config.noise.product(random)).finite(),
    ensures
        num(D0).not_above(random) ==> x.not_above(s.noised(x, random)),
        random.not_above(num(D0)) ==> s.noised(x, random).not_above(x),
{
    let n = s.config.noise.product(random);
    crate::rounding::products_keep_signs(s.config.noise, random);
    lemma_shift(x, n);
    lemma_shift(num(D1), n);
    let f = num(D1).sum(n);
    crate::rounding::one_is_neutral(x);
    if num(D1).not_above(f) {
        crate::rounding::factors_keep_order(x, num(D1), f);
    }
    if f.not_above(num(D1)) {
        crate::rounding::factors_keep_order(x, f, num(D1));
    }
}

/// Time that has passed since a sample does not shrink as time goes on, and none
/// has passed at its own time.
pub proof fn samples_keep_their_time(t: Binary64, u: Binary64, last: Binary64, period: Binary64)
    requires
        t.finite() && u.finite() && last.finite(),
        t.not_above(u),
    ensures
        ({
            let due = period.difference(num(D1EM9));
            &&& !due.nan() && !t.difference(last).below(due) ==> !u.difference(last).below(due)
            &&& t == last && period.finite() && num(D1EM9).below(period) ==> t.difference(
                last,
            ).below(due)
        }),
{
    crate::rounding::sums_are_numbers(t, last.negated());
    crate::rounding::sums_are_numbers(u, last.negated());
    crate::rounding::sums_keep_order(t, u, last.negated());
    crate::rounding::differences_cancel(last);
    if period.finite() {
        crate::rounding::differences_tell_the_order(period, num(D1EM9));
    }
}

} // verus!
