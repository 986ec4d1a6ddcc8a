//! Inertial measurement: gyroscope and accelerometer.
use super::bus::AvionicsBus;
use super::sensor_model::{NoiseDraw, SensorConfig, SensorModel};
use super::traits::Sensor;
use crate::binary64::Binary64;
use crate::literal::{
    num, D0, D0_01, D0_05, D0_7, D1, D1EM9, D1_3, D25, D400, D6_283185307179586, D9_80665, M1,
};
use crate::vector::Vec3;
use vstd::prelude::*;

verus! {

/// Parameters of the unit.
#[derive(Clone, Copy, Debug, PartialEq, Eq, Structural)]
pub struct ImuConfig {
    /// Noise (rad/s) of the gyroscope.
    pub gyro_noise: Binary64,
    /// Bias (rad/s) of the gyroscope.
    pub gyro_bias: Binary64,
    /// Drift of the gyroscope per second.
    pub gyro_drift_rate: Binary64,
    /// Noise (m/s2) of the accelerometer.
    pub accel_noise: Binary64,
    /// Bias (m/s2) of the accelerometer.
    pub accel_bias: Binary64,
    /// Drift of the accelerometer per second.
    pub accel_drift_rate: Binary64,
    /// Samples per second.
    pub update_hz: Binary64,
    /// Strength of the engine vibration.
    pub vibration_scale: Binary64,
}

impl ImuConfig {
    pub open spec fn typical() -> ImuConfig {
        ImuConfig {
            gyro_noise: num(D0_01),
            gyro_bias: num(D0),
            gyro_drift_rate: num(D0),
            accel_noise: num(D0_05),
            accel_bias: num(D0),
            accel_drift_rate: num(D0),
            update_hz: num(D400),
            vibration_scale: num(D0),
        }
    }

    /// The degradation of a gyroscope axis.
    pub open spec fn gyro_channel(self) -> SensorConfig {
        SensorConfig {
            noise: self.gyro_noise,
            bias: self.gyro_bias,
            drift_rate: self.gyro_drift_rate,
            ..SensorConfig::perfect()
        }
    }

    /// The degradation of an accelerometer axis.
    pub open spec fn accel_channel(self) -> SensorConfig {
        SensorConfig {
            noise: self.accel_noise,
            bias: self.accel_bias,
            drift_rate: self.accel_drift_rate,
            ..SensorConfig::perfect()
        }
    }
}

impl Default for ImuConfig {
    fn default() -> (r: Self)
        ensures
            r == ImuConfig::typical(),
    {
        ImuConfig {
            gyro_noise: num(D0_01),
            gyro_bias: num(D0),
            gyro_drift_rate: num(D0),
            accel_noise: num(D0_05),
            accel_bias: num(D0),
            accel_drift_rate: num(D0),
            update_hz: num(D400),
            vibration_scale: num(D0),
        }
    }
}

/// What a sample needs from outside: the sine, cosine and sine of the three
/// vibration angles, and the noise of the six axes.
#[derive(Clone, Copy, Debug, PartialEq, Eq, Structural)]
pub struct ImuInputs {
    pub swing: Vec3,
    pub gyro_noise: Vec3,
    pub accel_noise: Vec3,
}

/// The unit.
#[derive(Clone, Copy, Debug)]
pub struct ImuSensor {
    pub config: ImuConfig,
    pub gyro_x: SensorModel,
    pub gyro_y: SensorModel,
    pub gyro_z: SensorModel,
    pub accel_x: SensorModel,
    pub accel_y: SensorModel,
    pub accel_z: SensorModel,
    pub last_sample_time: Binary64,
    /// Time (s) for the phase of the vibration.
    pub vibration_phase: Binary64,
    /// Frequency (Hz) of the vibration.
    pub vibration_freq: Binary64,
}

impl ImuSensor {
    /// A unit whose channels start in given generator states.
    pub open spec fn fresh(config: ImuConfig, s: Seq<u64>) -> ImuSensor {
        ImuSensor {
            config,
            gyro_x: SensorModel::fresh(config.gyro_channel(), s[0]),
            gyro_y: SensorModel::fresh(config.gyro_channel(), s[1]),
            gyro_z: SensorModel::fresh(config.gyro_channel(), s[2]),
            accel_x: SensorModel::fresh(config.accel_channel(), s[3]),
            accel_y: SensorModel::fresh(config.accel_channel(), s[4]),
            accel_z: SensorModel::fresh(config.accel_channel(), s[5]),
            last_sample_time: num(D0),
            vibration_phase: num(D0),
            vibration_freq: num(D25),
        }
    }

    pub fn new(config: ImuConfig) -> (r: Self)
        ensures
            r == ImuSensor::fresh(
                config,
                Seq::new(6, |i: int| crate::prng::DEFAULT_STATE),
            ),
    {
        let mut gyro: SensorConfig = SensorConfig::default();
        gyro.noise = config.gyro_noise;
        gyro.bias = config.gyro_bias;
        gyro.drift_rate = config.gyro_drift_rate;
        let mut accel: SensorConfig = SensorConfig::default();
        accel.noise = config.accel_noise;
        accel.bias = config.accel_bias;
        accel.drift_rate = config.accel_drift_rate;
        ImuSensor {
            config,
            gyro_x: SensorModel::new(gyro),
            gyro_y: SensorModel::new(gyro),
            gyro_z: SensorModel::new(gyro),
            accel_x: SensorModel::new(accel),
            accel_y: SensorModel::new(accel),
            accel_z: SensorModel::new(accel),
            last_sample_time: num(D0),
            vibration_phase: num(D0),
            vibration_freq: num(D25),
        }
    }

    /// A unit whose channels are seeded with the multiples of a seed.
    pub fn with_seed(config: ImuConfig, seed: u64) -> (r: Self)
        ensures
            r == ImuSensor::fresh(
                config,
                seq![
                    crate::prng::kept_seed(seed),
                    crate::prng::kept_seed(seed.wrapping_mul(2)),
                    crate::prng::kept_seed(seed.wrapping_mul(3)),
                    crate::prng::kept_seed(seed.wrapping_mul(4)),
                    crate::prng::kept_seed(seed.wrapping_mul(5)),
                    crate::prng::kept_seed(seed.wrapping_mul(6)),
                ],
            ),
    {
        let mut imu: ImuSensor = ImuSensor::new(config);
        imu.gyro_x.set_seed(seed);
        imu.gyro_y.set_seed(seed.wrapping_mul(2));
        imu.gyro_z.set_seed(seed.wrapping_mul(3));
        imu.accel_x.set_seed(seed.wrapping_mul(4));
        imu.accel_y.set_seed(seed.wrapping_mul(5));
        imu.accel_z.set_seed(seed.wrapping_mul(6));
        imu
    }

    /// Prepares for the first sample at time zero.
    pub fn init(&mut self)
        ensures
            *final(self) == (ImuSensor {
                last_sample_time: num(M1).quotient(old(self).config.update_hz),
                vibration_phase: num(D0),
                ..*old(self)
            }),
    {
        self.last_sample_time = num(M1).over(self.config.update_hz);
        self.vibration_phase = num(D0);
    }

    /// Whether a step samples.
    pub open spec fn samples(self, bus: AvionicsBus) -> bool {
        !bus.sim_time.difference(self.last_sample_time).below(
            num(D1).quotient(self.config.update_hz).difference(num(D1EM9)),
        )
    }

    pub fn is_due(&self, bus: &AvionicsBus) -> (r: bool)
        ensures
            r == self.samples(*bus),
    {
        let period: Binary64 = num(D1).over(self.config.update_hz);
        !bus.sim_time.minus(self.last_sample_time).lt(period.minus(num(D1EM9)))
    }

    /// The angle of the vibration.
    pub open spec fn angle(self) -> Binary64 {
        self.vibration_phase.product(self.vibration_freq).product(num(D6_283185307179586))
    }

    /// The three angles of the vibration.
    pub fn vibration_angles(&self) -> (r: Vec3)
        ensures
            r == (Vec3 {
                x: self.angle(),
                y: self.angle().product(num(D1_3)),
                z: self.angle().product(num(D0_7)),
            }),
    {
        let phase: Binary64 = self.vibration_phase.times(self.vibration_freq).times(
            num(D6_283185307179586),
        );
        Vec3 { x: phase, y: phase.times(num(D1_3)), z: phase.times(num(D0_7)) }
    }

    /// Draws the noise of a sample: gyroscope, then accelerometer.
    pub fn draw(&mut self) -> (r: [NoiseDraw; 6])
        ensures
            *final(self) == (ImuSensor {
                gyro_x: old(self).gyro_x.drawn(),
                gyro_y: old(self).gyro_y.drawn(),
                gyro_z: old(self).gyro_z.drawn(),
                accel_x: old(self).accel_x.drawn(),
                accel_y: old(self).accel_y.drawn(),
                accel_z: old(self).accel_z.drawn(),
                ..*old(self)
            }),
            r@ =~= seq![
                old(self).gyro_x.next_draw(),
                old(self).gyro_y.next_draw(),
                old(self).gyro_z.next_draw(),
                old(self).accel_x.next_draw(),
                old(self).accel_y.next_draw(),
                old(self).accel_z.next_draw(),
            ],
    {
        let a: NoiseDraw = self.gyro_x.draw();
        let b: NoiseDraw = self.gyro_y.draw();
        let c: NoiseDraw = self.gyro_z.draw();
        let d: NoiseDraw = self.accel_x.draw();
        let e: NoiseDraw = self.accel_y.draw();
        let f: NoiseDraw = self.accel_z.draw();
        [a, b, c, d, e, f]
    }

    /// The rates that the gyroscope feels: the true ones and the vibration.
    pub open spec fn felt_rates(self, bus: AvionicsBus, swing: Vec3) -> Vec3 {
        let vibration = if num(D0).below(self.config.vibration_scale) {
            Vec3 {
                x: self.config.vibration_scale.product(swing.x),
                y: self.config.vibration_scale.product(swing.y),
                z: self.config.vibration_scale.product(swing.z),
            }
        } else {
            Vec3::zero()
        };
        bus.true_angular_rates.sum(vibration)
    }

    /// The acceleration that the accelerometer feels: gravity.
    pub open spec fn felt_acceleration(bus: AvionicsBus) -> Vec3 {
        bus.true_velocity_body.scaled(num(D0)).sum(
            Vec3 { x: num(D0), y: num(D0), z: num(D9_80665) },
        )
    }

    /// The bus after a sample. A failed unit reads no rotation.
    pub open spec fn reading(self, bus: AvionicsBus, dt: Binary64, inputs: ImuInputs) -> AvionicsBus {
        let w = self.felt_rates(bus, inputs.swing);
        let a = ImuSensor::felt_acceleration(bus);
        AvionicsBus {
            gyro: if bus.fc_fault_flags.imu_failed {
                Vec3::zero()
            } else {
                Vec3 {
                    x: self.gyro_x.degraded(w.x, dt, num(D0), inputs.gyro_noise.x),
                    y: self.gyro_y.degraded(w.y, dt, num(D0), inputs.gyro_noise.y),
                    z: self.gyro_z.degraded(w.z, dt, num(D0), inputs.gyro_noise.z),
                }
            },
            accel: Vec3 {
                x: self.accel_x.degraded(a.x, dt, num(D0), inputs.accel_noise.x),
                y: self.accel_y.degraded(a.y, dt, num(D0), inputs.accel_noise.y),
                z: self.accel_z.degraded(a.z, dt, num(D0), inputs.accel_noise.z),
            },
            imu_sample_time: bus.sim_time,
            ..bus
        }
    }

    /// The unit after a sample.
    pub open spec fn after_reading(self, bus: AvionicsBus, dt: Binary64, inputs: ImuInputs) -> ImuSensor {
        let w = self.felt_rates(bus, inputs.swing);
        let a = ImuSensor::felt_acceleration(bus);
        ImuSensor {
            gyro_x: self.gyro_x.after_sample(w.x, dt, num(D0)),
            gyro_y: self.gyro_y.after_sample(w.y, dt, num(D0)),
            gyro_z: self.gyro_z.after_sample(w.z, dt, num(D0)),
            accel_x: self.accel_x.after_sample(a.x, dt, num(D0)),
            accel_y: self.accel_y.after_sample(a.y, dt, num(D0)),
            accel_z: self.accel_z.after_sample(a.z, dt, num(D0)),
            vibration_phase: self.vibration_phase.sum(dt),
            last_sample_time: bus.sim_time,
            ..self
        }
    }

    /// Samples where a sample is due.
    pub fn step(&mut self, bus: &mut AvionicsBus, dt: Binary64, inputs: &ImuInputs)
        ensures
            !old(self).samples(*old(bus)) ==> *final(bus) == *old(bus) && *final(self) == *old(
                self,
            ),
            old(self).samples(*old(bus)) ==> *final(bus) == old(self).reading(
                *old(bus),
                dt,
                *inputs,
            ) && *final(self) == old(self).after_reading(*old(bus), dt, *inputs),
    {
        let period: Binary64 = num(D1).over(self.config.update_hz);
        if bus.sim_time.minus(self.last_sample_time).lt(period.minus(num(D1EM9))) {
            return;
        }
        let vibration: Vec3 = if self.config.vibration_scale.gt(num(D0)) {
            Vec3 {
                x: self.config.vibration_scale.times(inputs.swing.x),
                y: self.config.vibration_scale.times(inputs.swing.y),
                z: self.config.vibration_scale.times(inputs.swing.z),
            }
        } else {
            Vec3::zeros()
        };
        let w: Vec3 = bus.true_angular_rates.plus(vibration);
        let gyro: Vec3 = Vec3 {
            x: self.gyro_x.process(w.x, dt, num(D0), inputs.gyro_noise.x),
            y: self.gyro_y.process(w.y, dt, num(D0), inputs.gyro_noise.y),
            z: self.gyro_z.process(w.z, dt, num(D0), inputs.gyro_noise.z),
        };
        bus.gyro = if bus.fc_fault_flags.imu_failed { Vec3::zeros() } else { gyro };
        let a: Vec3 = bus.true_velocity_body.times(num(D0)).plus(
            Vec3 { x: num(D0), y: num(D0), z: num(D9_80665) },
        );
        bus.accel = Vec3 {
            x: self.accel_x.process(a.x, dt, num(D0), inputs.accel_noise.x),
            y: self.accel_y.process(a.y, dt, num(D0), inputs.accel_noise.y),
            z: self.accel_z.process(a.z, dt, num(D0), inputs.accel_noise.z),
        };
        self.vibration_phase = self.vibration_phase.plus(dt);
        self.last_sample_time = bus.sim_time;
        bus.imu_sample_time = bus.sim_time;
    }

    /// Sets the channels, the sample time and the vibration back.
    pub fn reset(&mut self)
        ensures
            *final(self) == (ImuSensor {
                config: old(self).config,
                gyro_x: old(self).gyro_x.forgotten(),
                gyro_y: old(self).gyro_y.forgotten(),
                gyro_z: old(self).gyro_z.forgotten(),
                accel_x: old(self).accel_x.forgotten(),
                accel_y: old(self).accel_y.forgotten(),
                accel_z: old(self).accel_z.forgotten(),
                last_sample_time: num(D0),
                vibration_phase: num(D0),
                vibration_freq: old(self).vibration_freq,
            }),
    {
        self.gyro_x.reset();
        self.gyro_y.reset();
        self.gyro_z.reset();
        self.accel_x.reset();
        self.accel_y.reset();
        self.accel_z.reset();
        self.last_sample_time = num(D0);
        self.vibration_phase = num(D0);
    }
}

/// A failed unit reads no rotation in every sample.
pub proof fn failed_units_read_no_rotation(
    imu: ImuSensor,
    bus: AvionicsBus,
    dt: Binary64,
    inputs: ImuInputs,
)
    requires
        bus.fc_fault_flags.imu_failed,
    ensures
        imu.reading(bus, dt, inputs).gyro == Vec3::zero(),
{
}

impl Sensor for ImuSensor {
    open spec fn rate(&self) -> Binary64 {
        self.config.update_hz
    }

    fn update_rate_hz(&self) -> Binary64 {
        self.config.update_hz
    }
}

/// A sample that is due stays due, and none is due at the time of the last one.
pub proof fn inertial_units_sample_in_time(imu: ImuSensor, bus: AvionicsBus, later: AvionicsBus)
    requires
        bus.sim_time.finite() && later.sim_time.finite() && imu.last_sample_time.finite(),
        bus.sim_time.not_above(later.sim_time),
    ensures
        imu.samples(bus) ==> imu.samples(later) || num(D1).quotient(
            imu.config.update_hz,
        ).difference(num(D1EM9)).nan(),
        bus.sim_time == imu.last_sample_time && num(D1EM9).below(
            num(D1).quotient(imu.config.update_hz),
        ) && num(D1).quotient(imu.config.update_hz).finite() ==> !imu.samples(bus),
{
    super::sensor_model::samples_keep_their_time(
        bus.sim_time,
        later.sim_time,
        imu.last_sample_time,
        num(D1).quotient(imu.config.update_hz),
    );
}

/// The gyroscope feels more of a rate that is higher, and without vibration the
/// rate itself; vibration adds on each axis the way it swings.
pub proof fn gyroscopes_feel_the_rates(
    imu: ImuSensor,
    bus: AvionicsBus,
    more: AvionicsBus,
    swing: Vec3,
)
    requires
        crate::vector::is_finite(bus.true_angular_rates),
        crate::vector::is_finite(more.true_angular_rates),
        crate::vector::is_finite(swing),
        imu.config.vibration_scale.finite(),
        crate::vector::is_finite(swing.scaled(imu.config.vibration_scale)),
        bus.true_angular_rates.x.not_above(more.true_angular_rates.x),
        bus.true_angular_rates.y.not_above(more.true_angular_rates.y),
        bus.true_angular_rates.z.not_above(more.true_angular_rates.z),
    ensures
        ({
            let (a, b) = (imu.felt_rates(bus, swing), imu.felt_rates(more, swing));
            let w = bus.true_angular_rates;
            &&& a.x.not_above(b.x) && a.y.not_above(b.y) && a.z.not_above(b.z)
            &&& num(D0).not_above(swing.x) ==> w.x.not_above(a.x)
            &&& num(D0).not_above(swing.y) ==> w.y.not_above(a.y)
            &&& num(D0).not_above(swing.z) ==> w.z.not_above(a.z)
            &&& swing.x.not_above(num(D0)) ==> a.x.not_above(w.x)
            &&& swing.y.not_above(num(D0)) ==> a.y.not_above(w.y)
            &&& swing.z.not_above(num(D0)) ==> a.z.not_above(w.z)
            &&& !num(D0).below(imu.config.vibration_scale) ==> a.x.same(w.x) && a.y.same(w.y)
                && a.z.same(w.z)
        }),
{
    let k = imu.config.vibration_scale;
    let (w, m) = (bus.true_angular_rates, more.true_angular_rates);
    lemma_felt(w.x, m.x, k, swing.x);
    lemma_felt(w.y, m.y, k, swing.y);
    lemma_felt(w.z, m.z, k, swing.z);
}

/// A rate with the vibration of its axis.
proof fn lemma_felt(w: Binary64, m: Binary64, k: Binary64, s: Binary64)
    requires
        w.finite() && m.finite() && s.finite() && k.finite(),
        w.not_above(m),
        s.product(k).finite(),
    ensures
        ({
            let v = if num(D0).below(k) { k.product(s) } else { num(D0) };
            &&& w.sum(v).not_above(m.sum(v))
            &&& num(D0).not_above(s) ==> w.not_above(w.sum(v))
            &&& s.not_above(num(D0)) ==> w.sum(v).not_above(w)
            &&& !num(D0).below(k) ==> w.sum(v).same(w)
        }),
{
    let v = if num(D0).below(k) { k.product(s) } else { num(D0) };
    crate::rounding::products_commute(k, s);
    crate::rounding::products_keep_signs(k, s);
    crate::rounding::sums_are_numbers(w, v);
    crate::rounding::sums_are_numbers(m, v);
    crate::rounding::sums_keep_order(w, m, v);
    crate::rounding::sums_are_numbers(w, num(D0));
    crate::rounding::zeros_keep_signs(w, num(D0));
    if num(D0).not_above(v) {
        crate::rounding::sums_of_ordered_terms(w, w, num(D0), v);
    }
    if v.not_above(num(D0)) {
        crate::rounding::sums_of_ordered_terms(w, w, v, num(D0));
    }
}

/// The accelerometer feels gravity alone, straight down, however fast the
/// aircraft flies.
pub proof fn accelerometers_feel_gravity_alone(bus: AvionicsBus)
    requires
        crate::vector::is_finite(bus.true_velocity_body),
    ensures
        ImuSensor::felt_acceleration(bus).x.zero(),
        ImuSensor::felt_acceleration(bus).y.zero(),
        ImuSensor::felt_acceleration(bus).z == num(D9_80665),
{
    let v = bus.true_velocity_body;
    crate::rounding::zero_absorbs(num(D0), v.x);
    crate::rounding::zero_absorbs(num(D0), v.y);
    crate::rounding::zero_absorbs(num(D0), v.z);
    crate::rounding::zeros_add_to_zero(v.x.product(num(D0)), num(D0));
    crate::rounding::zeros_add_to_zero(v.y.product(num(D0)), num(D0));
    crate::rounding::zeros_keep_signs(num(D9_80665), v.z.product(num(D0)));
}

} // verus!
