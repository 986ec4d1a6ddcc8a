//! Magnetic field.
use super::bus::AvionicsBus;
use super::gps::turn;
use super::sensor_model::{NoiseDraw, SensorConfig, SensorModel};
use super::traits::Sensor;
use crate::binary64::Binary64;
use crate::literal::{num, D0, D1, D1EM9, D20, D22000, D42000, D5400, D80, M1};
use crate::vector::Vec3;
use vstd::prelude::*;

verus! {

/// Parameters of the magnetometer.
#[derive(Clone, Copy, Debug, PartialEq, Eq, Structural)]
pub struct MagConfig {
    /// Noise (nT) on each axis.
    pub noise: Binary64,
    /// Samples per second.
    pub update_hz: Binary64,
    /// Offset (nT) of magnets on board.
    pub hard_iron: Vec3,
    /// Field (nT) of the earth north, east and down.
    pub earth_field_ned: Vec3,
}

impl MagConfig {
    pub open spec fn typical() -> MagConfig {
        MagConfig {
            noise: num(D80),
            update_hz: num(D20),
            hard_iron: Vec3::zero(),
            earth_field_ned: Vec3 { x: num(D22000), y: num(D5400), z: num(D42000) },
        }
    }
}

impl Default for MagConfig {
    fn default() -> (r: Self)
        ensures
            r == MagConfig::typical(),
    {
        MagConfig {
            noise: num(D80),
            update_hz: num(D20),
            hard_iron: Vec3::zeros(),
            earth_field_ned: Vec3 { x: num(D22000), y: num(D5400), z: num(D42000) },
        }
    }
}

/// The magnetometer.
#[derive(Clone, Copy, Debug)]
pub struct MagnetometerSensor {
    pub config: MagConfig,
    pub mag_x: SensorModel,
    pub mag_y: SensorModel,
    pub mag_z: SensorModel,
    pub last_sample_time: Binary64,
}

impl MagnetometerSensor {
    /// A magnetometer whose channels start in given generator states.
    pub open spec fn fresh(config: MagConfig, s: Seq<u64>) -> MagnetometerSensor {
        MagnetometerSensor {
            config,
            mag_x: super::gps::noisy_channel(config.noise, s[0]),
            mag_y: super::gps::noisy_channel(config.noise, s[1]),
            mag_z: super::gps::noisy_channel(config.noise, s[2]),
            last_sample_time: num(D0),
        }
    }

    pub fn new(config: MagConfig) -> (r: Self)
        ensures
            r == MagnetometerSensor::fresh(
                config,
                Seq::new(3, |i: int| crate::prng::DEFAULT_STATE),
            ),
    {
        let mut channel: SensorConfig = SensorConfig::default();
        channel.noise = config.noise;
        MagnetometerSensor {
            config,
            mag_x: SensorModel::new(channel),
            mag_y: SensorModel::new(channel),
            mag_z: SensorModel::new(channel),
            last_sample_time: num(D0),
        }
    }

    /// A magnetometer whose channels are seeded one after the other.
    pub fn with_seed(config: MagConfig, seed: u64) -> (r: Self)
        requires
            seed + 2 <= u64::MAX,
        ensures
            r == MagnetometerSensor::fresh(
                config,
                Seq::new(3, |i: int| crate::prng::kept_seed((seed + i) as u64)),
            ),
    {
        let mut mag: MagnetometerSensor = MagnetometerSensor::new(config);
        mag.mag_x.set_seed(seed);
        mag.mag_y.set_seed(seed + 1);
        mag.mag_z.set_seed(seed + 2);
        mag
    }

    /// Prepares for the first sample at time zero.
    pub fn init(&mut self)
        ensures
            *final(self) == (MagnetometerSensor {
                last_sample_time: num(M1).quotient(old(self).config.update_hz),
                ..*old(self)
            }),
    {
        self.last_sample_time = num(M1).over(self.config.update_hz);
    }

    /// Whether a step samples.
    pub open spec fn samples(self, bus: AvionicsBus) -> bool {
        !bus.sim_time.difference(self.last_sample_time).below(
            num(D1).quotient(self.config.update_hz).difference(num(D1EM9)),
        )
    }

    pub fn is_due(&self, bus: &AvionicsBus) -> (r: bool)
        ensures
            r == self.samples(*bus),
    {
        let period: Binary64 = num(D1).over(self.config.update_hz);
        !bus.sim_time.minus(self.last_sample_time).lt(period.minus(num(D1EM9)))
    }

    /// Draws the noise of a sample.
    pub fn draw(&mut self) -> (r: [NoiseDraw; 3])
        ensures
            *final(self) == (MagnetometerSensor {
                mag_x: old(self).mag_x.drawn(),
                mag_y: old(self).mag_y.drawn(),
                mag_z: old(self).mag_z.drawn(),
                ..*old(self)
            }),
            r@ =~= seq![
                old(self).mag_x.next_draw(),
                old(self).mag_y.next_draw(),
                old(self).mag_z.next_draw(),
            ],
    {
        let a: NoiseDraw = self.mag_x.draw();
        let b: NoiseDraw = self.mag_y.draw();
        let c: NoiseDraw = self.mag_z.draw();
        [a, b, c]
    }

    /// The field on board: that of the earth, turned by the attitude, and that
    /// of the magnets on board.
    pub open spec fn field(self, bus: AvionicsBus) -> Vec3 {
        super::gps::turned(bus.true_quat@, self.config.earth_field_ned).sum(self.config.hard_iron)
    }

    /// Samples where a sample is due, with the noise that was drawn.
    pub fn step(&mut self, bus: &mut AvionicsBus, dt: Binary64, noise: &Vec3)
        ensures
            !old(self).samples(*old(bus)) ==> *final(bus) == *old(bus) && *final(self) == *old(
                self,
            ),
            old(self).samples(*old(bus)) ==> {
                let b = old(self).field(*old(bus));
                &&& *final(bus) == (AvionicsBus {
                    mag_field_body: Vec3 {
                        x: old(self).mag_x.degraded(b.x, dt, num(D0), noise.x),
                        y: old(self).mag_y.degraded(b.y, dt, num(D0), noise.y),
                        z: old(self).mag_z.degraded(b.z, dt, num(D0), noise.z),
                    },
                    mag_sample_time: old(bus).sim_time,
                    ..*old(bus)
                })
                &&& *final(self) == (MagnetometerSensor {
                    mag_x: old(self).mag_x.after_sample(b.x, dt, num(D0)),
                    mag_y: old(self).mag_y.after_sample(b.y, dt, num(D0)),
                    mag_z: old(self).mag_z.after_sample(b.z, dt, num(D0)),
                    last_sample_time: old(bus).sim_time,
                    ..*old(self)
                })
            },
    {
        let period: Binary64 = num(D1).over(self.config.update_hz);
        if bus.sim_time.minus(self.last_sample_time).lt(period.minus(num(D1EM9))) {
            return;
        }
        let b: Vec3 = turn(&bus.true_quat, self.config.earth_field_ned).plus(
            self.config.hard_iron,
        );
        bus.mag_field_body = Vec3 {
            x: self.mag_x.process(b.x, dt, num(D0), noise.x),
            y: self.mag_y.process(b.y, dt, num(D0), noise.y),
            z: self.mag_z.process(b.z, dt, num(D0), noise.z),
        };
        self.last_sample_time = bus.sim_time;
        bus.mag_sample_time = bus.sim_time;
    }

    /// Sets the channels and the sample time back.
    pub fn reset(&mut self)
        ensures
            *final(self) == (MagnetometerSensor {
                config: old(self).config,
                mag_x: old(self).mag_x.forgotten(),
                mag_y: old(self).mag_y.forgotten(),
                mag_z: old(self).mag_z.forgotten(),
                last_sample_time: num(D0),
            }),
    {
        self.mag_x.reset();
        self.mag_y.reset();
        self.mag_z.reset();
        self.last_sample_time = num(D0);
    }
}

impl Sensor for MagnetometerSensor {
    open spec fn rate(&self) -> Binary64 {
        self.config.update_hz
    }

    fn update_rate_hz(&self) -> Binary64 {
        self.config.update_hz
    }
}

/// A sample that is due stays due, and none is due at the time of the last one.
pub proof fn magnetometers_sample_in_time(mag: MagnetometerSensor, bus: AvionicsBus, later: AvionicsBus)
    requires
        bus.sim_time.finite() && later.sim_time.finite() && mag.last_sample_time.finite(),
        bus.sim_time.not_above(later.sim_time),
    ensures
        mag.samples(bus) ==> mag.samples(later) || num(D1).quotient(
            mag.config.update_hz,
        ).difference(num(D1EM9)).nan(),
        bus.sim_time == mag.last_sample_time && num(D1EM9).below(
            num(D1).quotient(mag.config.update_hz),
        ) && num(D1).quotient(mag.config.update_hz).finite() ==> !mag.samples(bus),
{
    super::sensor_model::samples_keep_their_time(
        bus.sim_time,
        later.sim_time,
        mag.last_sample_time,
        num(D1).quotient(mag.config.update_hz),
    );
}

/// Magnets on board add to the field their own way: more of them never shows
/// less.
pub proof fn magnets_on_board_add(
    mag: MagnetometerSensor,
    stronger: MagnetometerSensor,
    bus: AvionicsBus,
)
    requires
        mag.config.earth_field_ned == stronger.config.earth_field_ned,
        crate::vector::is_finite(
            super::gps::turned(bus.true_quat@, mag.config.earth_field_ned),
        ),
        crate::vector::is_finite(mag.config.hard_iron),
        crate::vector::is_finite(stronger.config.hard_iron),
        mag.config.hard_iron.x.not_above(stronger.config.hard_iron.x),
        mag.config.hard_iron.y.not_above(stronger.config.hard_iron.y),
        mag.config.hard_iron.z.not_above(stronger.config.hard_iron.z),
    ensures
        mag.field(bus).x.not_above(stronger.field(bus).x),
        mag.field(bus).y.not_above(stronger.field(bus).y),
        mag.field(bus).z.not_above(stronger.field(bus).z),
{
    let e = super::gps::turned(bus.true_quat@, mag.config.earth_field_ned);
    let (h, i) = (mag.config.hard_iron, stronger.config.hard_iron);
    crate::rounding::sums_are_numbers(e.x, h.x);
    crate::rounding::sums_are_numbers(e.x, i.x);
    crate::rounding::sums_are_numbers(e.y, h.y);
    crate::rounding::sums_are_numbers(e.y, i.y);
    crate::rounding::sums_are_numbers(e.z, h.z);
    crate::rounding::sums_are_numbers(e.z, i.z);
    crate::rounding::sums_of_ordered_terms(e.x, e.x, h.x, i.x);
    crate::rounding::sums_of_ordered_terms(e.y, e.y, h.y, i.y);
    crate::rounding::sums_of_ordered_terms(e.z, e.z, h.z, i.z);
}

/// Upright and pointing north, and without magnets on board, the field is that
/// of the earth.
pub proof fn upright_fields_are_those_of_the_earth(mag: MagnetometerSensor, bus: AvionicsBus)
    requires
        bus.true_quat@[0].finite(),
        bus.true_quat@[1].zero() && bus.true_quat@[2].zero() && bus.true_quat@[3].zero(),
        crate::vector::is_finite(mag.config.earth_field_ned),
        mag.config.hard_iron.x.zero() && mag.config.hard_iron.y.zero()
            && mag.config.hard_iron.z.zero(),
    ensures
        mag.field(bus).x.same(mag.config.earth_field_ned.x),
        mag.field(bus).y.same(mag.config.earth_field_ned.y),
        mag.field(bus).z.same(mag.config.earth_field_ned.z),
{
    let f = mag.config.earth_field_ned;
    super::gps::upright_attitudes_turn_nothing(bus.true_quat@, f);
    let e = super::gps::turned(bus.true_quat@, f);
    crate::rounding::zeros_keep_signs(e.x, mag.config.hard_iron.x);
    crate::rounding::zeros_keep_signs(e.y, mag.config.hard_iron.y);
    crate::rounding::zeros_keep_signs(e.z, mag.config.hard_iron.z);
}

} // verus!
