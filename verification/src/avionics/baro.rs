//! Pressure altitude.
use super::bus::AvionicsBus;
use super::sensor_model::{NoiseDraw, SensorConfig, SensorModel};
use super::traits::Sensor;
use crate::binary64::Binary64;
use crate::literal::{num, D0, D0_02, D1, D1EM9, D50, M1};
use vstd::prelude::*;

verus! {

/// Parameters of the barometer.
#[derive(Clone, Copy, Debug, PartialEq, Eq, Structural)]
pub struct BaroConfig {
    /// Noise (m).
    pub noise: Binary64,
    /// Samples per second.
    pub update_hz: Binary64,
    /// Drift (m) per degree of temperature.
    pub temp_coefficient: Binary64,
    /// Fixed error (m).
    pub bias: Binary64,
}

impl BaroConfig {
    pub open spec fn typical() -> BaroConfig {
        BaroConfig {
            noise: num(D0_02),
            update_hz: num(D50),
            temp_coefficient: num(D0),
            bias: num(D0),
        }
    }

    /// The degradation of the signal.
    pub open spec fn channel(self) -> SensorConfig {
        SensorConfig { noise: self.noise, bias: self.bias, ..SensorConfig::perfect() }
    }
}

impl Default for BaroConfig {
    fn default() -> (r: Self)
        ensures
            r == BaroConfig::typical(),
    {
        BaroConfig {
            noise: num(D0_02),
            update_hz: num(D50),
            temp_coefficient: num(D0),
            bias: num(D0),
        }
    }
}

/// The sensor.
#[derive(Clone, Copy, Debug)]
pub struct BaroSensor {
    pub config: BaroConfig,
    pub pipeline: SensorModel,
    pub last_sample_time: Binary64,
}

impl BaroSensor {
    /// A sensor whose noise starts in a given generator state.
    pub open spec fn fresh(config: BaroConfig, state: u64) -> BaroSensor {
        BaroSensor {
            config,
            pipeline: SensorModel::fresh(config.channel(), state),
            last_sample_time: num(D0),
        }
    }

    pub fn new(config: BaroConfig) -> (r: Self)
        ensures
            r == BaroSensor::fresh(config, crate::prng::DEFAULT_STATE),
    {
        let mut channel: SensorConfig = SensorConfig::default();
        channel.noise = config.noise;
        channel.bias = config.bias;
        BaroSensor {
            config,
            pipeline: SensorModel::new(channel),
            last_sample_time: num(D0),
        }
    }

    pub fn with_seed(config: BaroConfig, seed: u64) -> (r: Self)
        ensures
            r == BaroSensor::fresh(config, crate::prng::kept_seed(seed)),
    {
        let mut sensor: BaroSensor = BaroSensor::new(config);
        sensor.pipeline.set_seed(seed);
        sensor
    }

    /// Prepares for the first sample at time zero.
    pub fn init(&mut self)
        ensures
            *final(self) == (BaroSensor {
                last_sample_time: num(M1).quotient(old(self).config.update_hz),
                ..*old(self)
            }),
    {
        self.last_sample_time = num(M1).over(self.config.update_hz);
    }

    /// Whether a step samples.
    pub open spec fn samples(self, bus: AvionicsBus) -> bool {
        !bus.sim_time.difference(self.last_sample_time).below(
            num(D1).quotient(self.config.update_hz).difference(num(D1EM9)),
        )
    }

    pub fn is_due(&self, bus: &AvionicsBus) -> (r: bool)
        ensures
            r == self.samples(*bus),
    {
        let period: Binary64 = num(D1).over(self.config.update_hz);
        !bus.sim_time.minus(self.last_sample_time).lt(period.minus(num(D1EM9)))
    }

    /// Draws the noise of a sample.
    pub fn draw(&mut self) -> (r: NoiseDraw)
        ensures
            *final(self) == (BaroSensor { pipeline: old(self).pipeline.drawn(), ..*old(self) }),
            r == old(self).pipeline.next_draw(),
    {
        self.pipeline.draw()
    }

    /// The altitude that the barometer feels.
    pub open spec fn truth(self, bus: AvionicsBus) -> Binary64 {
        bus.true_altitude
    }

    /// Samples where a sample is due, with the noise that was drawn.
    pub fn step(&mut self, bus: &mut AvionicsBus, dt: Binary64, noise: Binary64)
        ensures
            !old(self).samples(*old(bus)) ==> *final(bus) == *old(bus) && *final(self) == *old(
                self,
            ),
            old(self).samples(*old(bus)) ==> {
                let x = old(self).truth(*old(bus));
                &&& *final(bus) == (AvionicsBus {
                    baro_altitude: old(self).pipeline.degraded(x, dt, num(D0), noise),
                    baro_sample_time: old(bus).sim_time,
                    ..*old(bus)
                })
                &&& *final(self) == (BaroSensor {
                    pipeline: old(self).pipeline.after_sample(x, dt, num(D0)),
                    last_sample_time: old(bus).sim_time,
                    ..*old(self)
                })
            },
    {
        let period: Binary64 = num(D1).over(self.config.update_hz);
        if bus.sim_time.minus(self.last_sample_time).lt(period.minus(num(D1EM9))) {
            return;
        }
        let x: Binary64 = bus.true_altitude;
        bus.baro_altitude = self.pipeline.process(x, dt, num(D0), noise);
        self.last_sample_time = bus.sim_time;
        bus.baro_sample_time = bus.sim_time;
    }

    /// Sets the signal and the sample time back.
    pub fn reset(&mut self)
        ensures
            *final(self) == (BaroSensor {
                config: old(self).config,
                pipeline: old(self).pipeline.forgotten(),
                last_sample_time: num(D0),
            }),
    {
        self.pipeline.reset();
        self.last_sample_time = num(D0);
    }
}

/// A barometer without noise is off by its bias alone.
pub proof fn quiet_barometers_show_their_bias(
    config: BaroConfig,
    state: u64,
    x: Binary64,
    dt: Binary64,
    noise: Binary64,
)
    requires
        !num(D0).below(config.noise),
    ensures
        BaroSensor::fresh(config, state).pipeline.degraded(x, dt, num(D0), noise)
            == if config.bias.same(num(D0)) {
            x
        } else {
            x.sum(config.bias)
        },
{
}

impl Sensor for BaroSensor {
    open spec fn rate(&self) -> Binary64 {
        self.config.update_hz
    }

    fn update_rate_hz(&self) -> Binary64 {
        self.config.update_hz
    }
}

/// A sample that is due stays due, and none is due at the time of the last one.
pub proof fn barometers_sample_in_time(sensor: BaroSensor, bus: AvionicsBus, later: AvionicsBus)
    requires
        bus.sim_time.finite() && later.sim_time.finite() && sensor.last_sample_time.finite(),
        bus.sim_time.not_above(later.sim_time),
    ensures
        sensor.samples(bus) ==> sensor.samples(later) || num(D1).quotient(
            sensor.config.update_hz,
        ).difference(num(D1EM9)).nan(),
        bus.sim_time == sensor.last_sample_time && num(D1EM9).below(
            num(D1).quotient(sensor.config.update_hz),
        ) && num(D1).quotient(sensor.config.update_hz).finite() ==> !sensor.samples(bus),
{
    super::sensor_model::samples_keep_their_time(
        bus.sim_time,
        later.sim_time,
        sensor.last_sample_time,
        num(D1).quotient(sensor.config.update_hz),
    );
}

} // verus!
