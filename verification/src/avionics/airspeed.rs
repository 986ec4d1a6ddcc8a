//! Indicated airspeed.
use super::bus::AvionicsBus;
use super::sensor_model::{NoiseDraw, SensorConfig, SensorModel};
use super::traits::Sensor;
use crate::binary64::Binary64;
use crate::literal::{num, D0, D0_3, D1, D1EM9, D50, M1};
use vstd::prelude::*;

verus! {

/// Parameters of the airspeed sensor.
#[derive(Clone, Copy, Debug, PartialEq, Eq, Structural)]
pub struct AirspeedConfig {
    /// Noise (m/s).
    pub noise: Binary64,
    /// Samples per second.
    pub update_hz: Binary64,
    /// Fixed error (m/s).
    pub bias: Binary64,
    /// Error of the tube position, as a part of the airspeed.
    pub position_error: Binary64,
}

impl AirspeedConfig {
    pub open spec fn typical() -> AirspeedConfig {
        AirspeedConfig {
            noise: num(D0_3),
            update_hz: num(D50),
            bias: num(D0),
            position_error: num(D0),
        }
    }

    /// The degradation of the signal.
    pub open spec fn channel(self) -> SensorConfig {
        SensorConfig { noise: self.noise, bias: self.bias, ..SensorConfig::perfect() }
    }
}

impl Default for AirspeedConfig {
    fn default() -> (r: Self)
        ensures
            r == AirspeedConfig::typical(),
    {
        AirspeedConfig {
            noise: num(D0_3),
            update_hz: num(D50),
            bias: num(D0),
            position_error: num(D0),
        }
    }
}

/// The sensor.
#[derive(Clone, Copy, Debug)]
pub struct AirspeedSensor {
    pub config: AirspeedConfig,
    pub pipeline: SensorModel,
    pub last_sample_time: Binary64,
}

impl AirspeedSensor {
    /// A sensor whose noise starts in a given generator state.
    pub open spec fn fresh(config: AirspeedConfig, state: u64) -> AirspeedSensor {
        AirspeedSensor {
            config,
            pipeline: SensorModel::fresh(config.channel(), state),
            last_sample_time: num(D0),
        }
    }

    pub fn new(config: AirspeedConfig) -> (r: Self)
        ensures
            r == AirspeedSensor::fresh(config, crate::prng::DEFAULT_STATE),
    {
        let mut channel: SensorConfig = SensorConfig::default();
        channel.noise = config.noise;
        channel.bias = config.bias;
        AirspeedSensor {
            config,
            pipeline: SensorModel::new(channel),
            last_sample_time: num(D0),
        }
    }

    pub fn with_seed(config: AirspeedConfig, seed: u64) -> (r: Self)
        ensures
            r == AirspeedSensor::fresh(config, crate::prng::kept_seed(seed)),
    {
        let mut sensor: AirspeedSensor = AirspeedSensor::new(config);
        sensor.pipeline.set_seed(seed);
        sensor
    }

    /// Prepares for the first sample at time zero.
    pub fn init(&mut self)
        ensures
            *final(self) == (AirspeedSensor {
                last_sample_time: num(M1).quotient(old(self).config.update_hz),
                ..*old(self)
            }),
    {
        self.last_sample_time = num(M1).over(self.config.update_hz);
    }

    /// Whether a step samples.
    pub open spec fn samples(self, bus: AvionicsBus) -> bool {
        !bus.sim_time.difference(self.last_sample_time).below(
            num(D1).quotient(self.config.update_hz).difference(num(D1EM9)),
        )
    }

    pub fn is_due(&self, bus: &AvionicsBus) -> (r: bool)
        ensures
            r == self.samples(*bus),
    {
        let period: Binary64 = num(D1).over(self.config.update_hz);
        !bus.sim_time.minus(self.last_sample_time).lt(period.minus(num(D1EM9)))
    }

    /// Draws the noise of a sample.
    pub fn draw(&mut self) -> (r: NoiseDraw)
        ensures
            *final(self) == (AirspeedSensor { pipeline: old(self).pipeline.drawn(), ..*old(self) }),
            r == old(self).pipeline.next_draw(),
    {
        self.pipeline.draw()
    }

    /// The airspeed at the tube: the true one with the position error.
    pub open spec fn truth(self, bus: AvionicsBus) -> Binary64 {
        bus.true_airspeed.product(num(D1).sum(self.config.position_error))
    }

    /// Samples where a sample is due, with the noise that was drawn.
    pub fn step(&mut self, bus: &mut AvionicsBus, dt: Binary64, noise: Binary64)
        ensures
            !old(self).samples(*old(bus)) ==> *final(bus) == *old(bus) && *final(self) == *old(
                self,
            ),
            old(self).samples(*old(bus)) ==> {
                let x = old(self).truth(*old(bus));
                &&& *final(bus) == (AvionicsBus {
                    airspeed_indicated: old(self).pipeline.degraded(x, dt, num(D0), noise),
                    airspeed_sample_time: old(bus).sim_time,
                    ..*old(bus)
                })
                &&& *final(self) == (AirspeedSensor {
                    pipeline: old(self).pipeline.after_sample(x, dt, num(D0)),
                    last_sample_time: old(bus).sim_time,
                    ..*old(self)
                })
            },
    {
        let period: Binary64 = num(D1).over(self.config.update_hz);
        if bus.sim_time.minus(self.last_sample_time).lt(period.minus(num(D1EM9))) {
            return;
        }
        let x: Binary64 = bus.true_airspeed.times(num(D1).plus(self.config.position_error));
        bus.airspeed_indicated = self.pipeline.process(x, dt, num(D0), noise);
        self.last_sample_time = bus.sim_time;
        bus.airspeed_sample_time = bus.sim_time;
    }

    /// Sets the signal and the sample time back.
    pub fn reset(&mut self)
        ensures
            *final(self) == (AirspeedSensor {
                config: old(self).config,
                pipeline: old(self).pipeline.forgotten(),
                last_sample_time: num(D0),
            }),
    {
        self.pipeline.reset();
        self.last_sample_time = num(D0);
    }
}

impl Sensor for AirspeedSensor {
    open spec fn rate(&self) -> Binary64 {
        self.config.update_hz
    }

    fn update_rate_hz(&self) -> Binary64 {
        self.config.update_hz
    }
}

/// A sample that is due stays due, and none is due at the time of the last one.
pub proof fn airspeed_sensors_sample_in_time(sensor: AirspeedSensor, bus: AvionicsBus, later: AvionicsBus)
    requires
        bus.sim_time.finite() && later.sim_time.finite() && sensor.last_sample_time.finite(),
        bus.sim_time.not_above(later.sim_time),
    ensures
        sensor.samples(bus) ==> sensor.samples(later) || num(D1).quotient(
            sensor.config.update_hz,
        ).difference(num(D1EM9)).nan(),
        bus.sim_time == sensor.last_sample_time && num(D1EM9).below(
            num(D1).quotient(sensor.config.update_hz),
        ) && num(D1).quotient(sensor.config.update_hz).finite() ==> !sensor.samples(bus),
{
    super::sensor_model::samples_keep_their_time(
        bus.sim_time,
        later.sim_time,
        sensor.last_sample_time,
        num(D1).quotient(sensor.config.update_hz),
    );
}

/// The tube feels more of an airspeed that is higher, the airspeed itself where
/// its position has no error, and no less for an error that is larger.
pub proof fn tubes_feel_the_airspeed(
    sensor: AirspeedSensor,
    worse: AirspeedSensor,
    bus: AvionicsBus,
    faster: AvionicsBus,
)
    requires
        bus.true_airspeed.finite() && faster.true_airspeed.finite(),
        num(D0).not_above(bus.true_airspeed),
        bus.true_airspeed.not_above(faster.true_airspeed),
        sensor.config.position_error.finite() && worse.config.position_error.finite(),
        sensor.config.position_error.not_above(worse.config.position_error),
        num(D1).sum(sensor.config.position_error).finite(),
        num(D1).sum(worse.config.position_error).finite(),
        num(D0).not_above(num(D1).sum(sensor.config.position_error)),
    ensures
        sensor.truth(bus).not_above(sensor.truth(faster)),
        sensor.truth(bus).not_above(worse.truth(bus)),
        sensor.config.position_error.zero() ==> sensor.truth(bus) == bus.true_airspeed,
{
    let (k, m) = (
        num(D1).sum(sensor.config.position_error),
        num(D1).sum(worse.config.position_error),
    );
    crate::rounding::factors_keep_order(k, bus.true_airspeed, faster.true_airspeed);
    crate::rounding::sums_of_ordered_terms(
        num(D1),
        num(D1),
        sensor.config.position_error,
        worse.config.position_error,
    );
    crate::rounding::factors_keep_order(bus.true_airspeed, k, m);
    crate::rounding::zeros_keep_signs(num(D1), num(D0));
    if sensor.config.position_error.zero() {
        crate::rounding::zeros_keep_signs(num(D1), sensor.config.position_error);
        crate::rounding::one_is_neutral(bus.true_airspeed);
    }
}

} // verus!
