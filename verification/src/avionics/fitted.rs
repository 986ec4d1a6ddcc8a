//! Components that are fitted with the elementary functions that they need.
use super::actuator::ActuatorSuite;
use super::airspeed::AirspeedSensor;
use super::baro::BaroSensor;
use super::bus::{AvionicsBus, FcMode};
use super::flight_controller::FlightController;
use super::gps::{GpsNoise, GpsSensor};
use super::imu::{ImuInputs, ImuSensor};
use super::magnetometer::MagnetometerSensor;
use super::sensor_model::{NoiseDraw, SensorModel};
use super::traits::{AvionicsComponent, Controller, Memory};
use crate::binary64::Binary64;
use crate::elementary::{normal, Elementary};
use crate::literal::{num, D0, M1};
use crate::vector::Vec3;
use vstd::prelude::*;

verus! {

/// A device with the elementary functions that it needs.
pub struct Fitted<S, M> {
    pub device: S,
    pub math: M,
}

/// Whether a number is what a noise draw stands for.
pub open spec fn is_noise<M: Elementary>(m: M, draw: NoiseDraw, r: Binary64) -> bool {
    match draw {
        NoiseDraw::Silent => r == num(D0),
        NoiseDraw::Uniform(x) => r == x,
        NoiseDraw::Normal(u1, u2) => crate::elementary::is_normal(m, (u1, u2), r),
    }
}

/// The number that a noise draw stands for.
pub fn noise<M: Elementary>(m: &M, draw: NoiseDraw) -> (r: Binary64)
    ensures
        is_noise(*m, draw, r),
{
    match draw {
        NoiseDraw::Silent => num(D0),
        NoiseDraw::Uniform(x) => x,
        NoiseDraw::Normal(u1, u2) => normal(m, (u1, u2)),
    }
}

impl SensorModel {
    /// Whether this is the share of the old signal that the lag leaves after
    /// `dt` seconds.
    pub open spec fn is_decay<M: Elementary>(self, m: M, dt: Binary64, decay: Binary64) -> bool {
        if self.lags(dt) {
            call_ensures(M::exp, (&m, dt.negated().quotient(self.config.lag)), decay)
        } else {
            decay == num(D0)
        }
    }

    /// A sample of a true value: with lag, noise, drift and all else.
    pub fn sample<M: Elementary>(&mut self, true_value: Binary64, dt: Binary64, m: &M) -> (r:
        Binary64)
        ensures
            exists|decay: Binary64, n: Binary64| #[trigger]
                old(self).is_decay(*m, dt, decay) && #[trigger] is_noise(
                    *m,
                    old(self).next_draw(),
                    n,
                ) && r == old(self).drawn().degraded(true_value, dt, decay, n) && *final(self)
                    == old(self).drawn().after_sample(true_value, dt, decay),
    {
        let decay: Binary64 = match self.lag_exponent(dt) {
            Some(exponent) => m.exp(exponent),
            None => num(D0),
        };
        proof {
            assert(self.is_decay(*m, dt, decay));
        }
        let draw: NoiseDraw = self.draw();
        let n: Binary64 = noise(m, draw);
        self.process(true_value, dt, decay, n)
    }
}

/// Whether a vector is what three noise draws stand for.
pub open spec fn are_noises<M: Elementary>(
    m: M,
    x: NoiseDraw,
    y: NoiseDraw,
    z: NoiseDraw,
    r: Vec3,
) -> bool {
    is_noise(m, x, r.x) && is_noise(m, y, r.y) && is_noise(m, z, r.z)
}

fn noises<M: Elementary>(m: &M, x: NoiseDraw, y: NoiseDraw, z: NoiseDraw) -> (r: Vec3)
    ensures
        are_noises(*m, x, y, z, r),
{
    Vec3 { x: noise(m, x), y: noise(m, y), z: noise(m, z) }
}

impl<M: Elementary> Fitted<BaroSensor, M> {
    /// Whether a step does this. A due sample is the true altitude with the
    /// noise that is drawn.
    pub open spec fn runs(
        self,
        before: AvionicsBus,
        dt: Binary64,
        after: AvionicsBus,
        next: Self,
    ) -> bool {
        let d = self.device;
        let x = d.truth(before);
        if d.samples(before) {
            exists|n: Binary64| #[trigger]
                is_noise(self.math, d.pipeline.next_draw(), n) && after == (AvionicsBus {
                    baro_altitude: d.pipeline.drawn().degraded(x, dt, num(D0), n),
                    baro_sample_time: before.sim_time,
                    ..before
                }) && next == (Fitted {
                    device: BaroSensor {
                        pipeline: d.pipeline.drawn().after_sample(x, dt, num(D0)),
                        last_sample_time: before.sim_time,
                        ..d
                    },
                    math: self.math,
                })
        } else {
            after == before && next == self
        }
    }

    /// The device before its first step.
    pub open spec fn readied(self) -> Self {
        Fitted {
            device: BaroSensor {
                last_sample_time: num(M1).quotient(self.device.config.update_hz),
                ..self.device
            },
            math: self.math,
        }
    }

    /// The device as at power-on.
    pub open spec fn restored(self) -> Self {
        Fitted {
            device: BaroSensor {
                config: self.device.config,
                pipeline: self.device.pipeline.forgotten(),
                last_sample_time: num(D0),
            },
            math: self.math,
        }
    }
}

impl<M: Elementary> AvionicsComponent for Fitted<BaroSensor, M> {
    open spec fn memory(&self) -> Memory {
        Memory::Baro(self.device)
    }

    open spec fn prepares(&self, dt: Binary64, memory: Memory) -> bool {
        memory == Memory::Baro(self.readied().device)
    }

    open spec fn acts(&self, before: AvionicsBus, dt: Binary64, after: AvionicsBus) -> bool {
        exists|next: Fitted<BaroSensor, M>| #[trigger] self.runs(before, dt, after, next)
    }

    open spec fn leaves(
        &self,
        before: AvionicsBus,
        dt: Binary64,
        after: AvionicsBus,
        memory: Memory,
    ) -> bool {
        exists|next: Fitted<BaroSensor, M>| #[trigger]
            self.runs(before, dt, after, next) && memory == Memory::Baro(next.device)
    }

    open spec fn restores(&self, memory: Memory) -> bool {
        memory == Memory::Baro(self.restored().device)
    }

    fn name(&self) -> (r: &str)
        ensures
            r@ == "Baro"@,
    {
        "Baro"
    }

    fn init(&mut self, dt: Binary64)
        ensures
            *final(self) == old(self).readied(),
    {
        self.device.init();
    }

    fn step(&mut self, bus: &mut AvionicsBus, dt: Binary64)
        ensures
            old(self).runs(*old(bus), dt, *final(bus), *final(self)),
    {
        if self.device.is_due(bus) {
            let draw: NoiseDraw = self.device.draw();
            let n: Binary64 = noise(&self.math, draw);
            self.device.step(bus, dt, n);
        }
        proof {
            assert(old(self).runs(*old(bus), dt, *bus, *self));
        }
    }

    fn reset(&mut self)
        ensures
            *final(self) == old(self).restored(),
    {
        self.device.reset();
    }
}

impl<M: Elementary> Fitted<AirspeedSensor, M> {
    /// Whether a step does this. A due sample is the airspeed in the tube with
    /// the noise that is drawn.
    pub open spec fn runs(
        self,
        before: AvionicsBus,
        dt: Binary64,
        after: AvionicsBus,
        next: Self,
    ) -> bool {
        let d = self.device;
        let x = d.truth(before);
        if d.samples(before) {
            exists|n: Binary64| #[trigger]
                is_noise(self.math, d.pipeline.next_draw(), n) && after == (AvionicsBus {
                    airspeed_indicated: d.pipeline.drawn().degraded(x, dt, num(D0), n),
                    airspeed_sample_time: before.sim_time,
                    ..before
                }) && next == (Fitted {
                    device: AirspeedSensor {
                        pipeline: d.pipeline.drawn().after_sample(x, dt, num(D0)),
                        last_sample_time: before.sim_time,
                        ..d
                    },
                    math: self.math,
                })
        } else {
            after == before && next == self
        }
    }

    /// The device before its first step.
    pub open spec fn readied(self) -> Self {
        Fitted {
            device: AirspeedSensor {
                last_sample_time: num(M1).quotient(self.device.config.update_hz),
                ..self.device
            },
            math: self.math,
        }
    }

    /// The device as at power-on.
    pub open spec fn restored(self) -> Self {
        Fitted {
            device: AirspeedSensor {
                config: self.device.config,
                pipeline: self.device.pipeline.forgotten(),
                last_sample_time: num(D0),
            },
            math: self.math,
        }
    }
}

impl<M: Elementary> AvionicsComponent for Fitted<AirspeedSensor, M> {
    open spec fn memory(&self) -> Memory {
        Memory::Airspeed(self.device)
    }

    open spec fn prepares(&self, dt: Binary64, memory: Memory) -> bool {
        memory == Memory::Airspeed(self.readied().device)
    }

    open spec fn acts(&self, before: AvionicsBus, dt: Binary64, after: AvionicsBus) -> bool {
        exists|next: Fitted<AirspeedSensor, M>| #[trigger] self.runs(before, dt, after, next)
    }

    open spec fn leaves(
        &self,
        before: AvionicsBus,
        dt: Binary64,
        after: AvionicsBus,
        memory: Memory,
    ) -> bool {
        exists|next: Fitted<AirspeedSensor, M>| #[trigger]
            self.runs(before, dt, after, next) && memory == Memory::Airspeed(next.device)
    }

    open spec fn restores(&self, memory: Memory) -> bool {
        memory == Memory::Airspeed(self.restored().device)
    }

    fn name(&self) -> (r: &str)
        ensures
            r@ == "Airspeed"@,
    {
        "Airspeed"
    }

    fn init(&mut self, dt: Binary64)
        ensures
            *final(self) == old(self).readied(),
    {
        self.device.init();
    }

    fn step(&mut self, bus: &mut AvionicsBus, dt: Binary64)
        ensures
            old(self).runs(*old(bus), dt, *final(bus), *final(self)),
    {
        if self.device.is_due(bus) {
            let draw: NoiseDraw = self.device.draw();
            let n: Binary64 = noise(&self.math, draw);
            self.device.step(bus, dt, n);
        }
        proof {
            assert(old(self).runs(*old(bus), dt, *bus, *self));
        }
    }

    fn reset(&mut self)
        ensures
            *final(self) == old(self).restored(),
    {
        self.device.reset();
    }
}

impl<M: Elementary> Fitted<MagnetometerSensor, M> {
    /// Whether a step does this. A due sample is the field about the aircraft
    /// with the noise that is drawn.
    pub open spec fn runs(
        self,
        before: AvionicsBus,
        dt: Binary64,
        after: AvionicsBus,
        next: Self,
    ) -> bool {
        let d = self.device;
        let f = d.field(before);
        if d.samples(before) {
            exists|n: Vec3| #[trigger]
                are_noises(
                    self.math,
                    d.mag_x.next_draw(),
                    d.mag_y.next_draw(),
                    d.mag_z.next_draw(),
                    n,
                ) && after == (AvionicsBus {
                    mag_field_body: Vec3 {
                        x: d.mag_x.drawn().degraded(f.x, dt, num(D0), n.x),
                        y: d.mag_y.drawn().degraded(f.y, dt, num(D0), n.y),
                        z: d.mag_z.drawn().degraded(f.z, dt, num(D0), n.z),
                    },
                    mag_sample_time: before.sim_time,
                    ..before
                }) && next == (Fitted {
                    device: MagnetometerSensor {
                        mag_x: d.mag_x.drawn().after_sample(f.x, dt, num(D0)),
                        mag_y: d.mag_y.drawn().after_sample(f.y, dt, num(D0)),
                        mag_z: d.mag_z.drawn().after_sample(f.z, dt, num(D0)),
                        last_sample_time: before.sim_time,
                        ..d
                    },
                    math: self.math,
                })
        } else {
            after == before && next == self
        }
    }

    /// The device before its first step.
    pub open spec fn readied(self) -> Self {
        Fitted {
            device: MagnetometerSensor {
                last_sample_time: num(M1).quotient(self.device.config.update_hz),
                ..self.device
            },
            math: self.math,
        }
    }

    /// The device as at power-on.
    pub open spec fn restored(self) -> Self {
        Fitted {
            device: MagnetometerSensor {
                config: self.device.config,
                mag_x: self.device.mag_x.forgotten(),
                mag_y: self.device.mag_y.forgotten(),
                mag_z: self.device.mag_z.forgotten(),
                last_sample_time: num(D0),
            },
            math: self.math,
        }
    }
}

impl<M: Elementary> AvionicsComponent for Fitted<MagnetometerSensor, M> {
    open spec fn memory(&self) -> Memory {
        Memory::Magnetometer(self.device)
    }

    open spec fn prepares(&self, dt: Binary64, memory: Memory) -> bool {
        memory == Memory::Magnetometer(self.readied().device)
    }

    open spec fn acts(&self, before: AvionicsBus, dt: Binary64, after: AvionicsBus) -> bool {
        exists|next: Fitted<MagnetometerSensor, M>| #[trigger] self.runs(before, dt, after, next)
    }

    open spec fn leaves(
        &self,
        before: AvionicsBus,
        dt: Binary64,
        after: AvionicsBus,
        memory: Memory,
    ) -> bool {
        exists|next: Fitted<MagnetometerSensor, M>| #[trigger]
            self.runs(before, dt, after, next) && memory == Memory::Magnetometer(next.device)
    }

    open spec fn restores(&self, memory: Memory) -> bool {
        memory == Memory::Magnetometer(self.restored().device)
    }

    fn name(&self) -> (r: &str)
        ensures
            r@ == "Magnetometer"@,
    {
        "Magnetometer"
    }

    fn init(&mut self, dt: Binary64)
        ensures
            *final(self) == old(self).readied(),
    {
        self.device.init();
    }

    fn step(&mut self, bus: &mut AvionicsBus, dt: Binary64)
        ensures
            old(self).runs(*old(bus), dt, *final(bus), *final(self)),
    {
        if self.device.is_due(bus) {
            let d: [NoiseDraw; 3] = self.device.draw();
            let n: Vec3 = noises(&self.math, d[0], d[1], d[2]);
            self.device.step(bus, dt, &n);
        }
        proof {
            assert(old(self).runs(*old(bus), dt, *bus, *self));
        }
    }

    fn reset(&mut self)
        ensures
            *final(self) == old(self).restored(),
    {
        self.device.reset();
    }
}

/// Whether this is the noise that a satellite receiver draws.
pub open spec fn is_gps_noise<M: Elementary>(m: M, d: GpsSensor, n: GpsNoise) -> bool {
    &&& are_noises(
        m,
        d.pos_noise_x.next_draw(),
        d.pos_noise_y.next_draw(),
        d.pos_noise_z.next_draw(),
        n.position,
    )
    &&& are_noises(
        m,
        d.vel_noise_x.next_draw(),
        d.vel_noise_y.next_draw(),
        d.vel_noise_z.next_draw(),
        n.velocity,
    )
}

/// A satellite receiver after its noise was drawn.
pub open spec fn gps_drawn(d: GpsSensor) -> GpsSensor {
    GpsSensor {
        pos_noise_x: d.pos_noise_x.drawn(),
        pos_noise_y: d.pos_noise_y.drawn(),
        pos_noise_z: d.pos_noise_z.drawn(),
        vel_noise_x: d.vel_noise_x.drawn(),
        vel_noise_y: d.vel_noise_y.drawn(),
        vel_noise_z: d.vel_noise_z.drawn(),
        ..d
    }
}

impl<M: Elementary> Fitted<GpsSensor, M> {
    /// Whether a step does this. A due sample is position and velocity with
    /// the noise that is drawn; a failed receiver draws none and has no fix.
    pub open spec fn runs(
        self,
        before: AvionicsBus,
        dt: Binary64,
        after: AvionicsBus,
        next: Self,
    ) -> bool {
        let d = self.device;
        if !d.samples(before) {
            after == before && next == self
        } else if before.fc_fault_flags.gps_failed {
            &&& after == GpsSensor::dead_reading(before)
            &&& next == (Fitted {
                device: GpsSensor { last_sample_time: before.sim_time, ..d },
                math: self.math,
            })
        } else {
            exists|n: GpsNoise| #[trigger]
                is_gps_noise(self.math, d, n) && after == gps_drawn(d).reading(before, dt, n)
                    && next == (Fitted {
                    device: gps_drawn(d).after_reading(before, dt),
                    math: self.math,
                })
        }
    }

    /// The device before its first step.
    pub open spec fn readied(self) -> Self {
        Fitted {
            device: GpsSensor {
                last_sample_time: num(M1).quotient(self.device.config.update_hz),
                ..self.device
            },
            math: self.math,
        }
    }

    /// The device as at power-on.
    pub open spec fn restored(self) -> Self {
        let d = self.device;
        Fitted {
            device: GpsSensor {
                config: d.config,
                pos_noise_x: d.pos_noise_x.forgotten(),
                pos_noise_y: d.pos_noise_y.forgotten(),
                pos_noise_z: d.pos_noise_z.forgotten(),
                vel_noise_x: d.vel_noise_x.forgotten(),
                vel_noise_y: d.vel_noise_y.forgotten(),
                vel_noise_z: d.vel_noise_z.forgotten(),
                last_sample_time: num(D0),
            },
            math: self.math,
        }
    }
}

impl<M: Elementary> AvionicsComponent for Fitted<GpsSensor, M> {
    open spec fn memory(&self) -> Memory {
        Memory::Gps(self.device)
    }

    open spec fn prepares(&self, dt: Binary64, memory: Memory) -> bool {
        memory == Memory::Gps(self.readied().device)
    }

    open spec fn acts(&self, before: AvionicsBus, dt: Binary64, after: AvionicsBus) -> bool {
        exists|next: Fitted<GpsSensor, M>| #[trigger] self.runs(before, dt, after, next)
    }

    open spec fn leaves(
        &self,
        before: AvionicsBus,
        dt: Binary64,
        after: AvionicsBus,
        memory: Memory,
    ) -> bool {
        exists|next: Fitted<GpsSensor, M>| #[trigger]
            self.runs(before, dt, after, next) && memory == Memory::Gps(next.device)
    }

    open spec fn restores(&self, memory: Memory) -> bool {
        memory == Memory::Gps(self.restored().device)
    }

    fn name(&self) -> (r: &str)
        ensures
            r@ == "GPS"@,
    {
        "GPS"
    }

    fn init(&mut self, dt: Binary64)
        ensures
            *final(self) == old(self).readied(),
    {
        self.device.init();
    }

    fn step(&mut self, bus: &mut AvionicsBus, dt: Binary64)
        ensures
            old(self).runs(*old(bus), dt, *final(bus), *final(self)),
    {
        if self.device.is_due(bus) {
            if bus.fc_fault_flags.gps_failed {
                let silence: GpsNoise = GpsNoise {
                    position: Vec3::zeros(),
                    velocity: Vec3::zeros(),
                };
                self.device.step(bus, dt, &silence);
            } else {
                let d: [NoiseDraw; 6] = self.device.draw();
                let n: GpsNoise = GpsNoise {
                    position: noises(&self.math, d[0], d[1], d[2]),
                    velocity: noises(&self.math, d[3], d[4], d[5]),
                };
                proof {
                    assert(is_gps_noise(old(self).math, old(self).device, n));
                }
                self.device.step(bus, dt, &n);
            }
        }
        proof {
            assert(old(self).runs(*old(bus), dt, *bus, *self));
        }
    }

    fn reset(&mut self)
        ensures
            *final(self) == old(self).restored(),
    {
        self.device.reset();
    }
}

/// Whether these are the inputs of a sample of an inertial unit: sine, cosine
/// and sine of its vibration angles and the noise that it draws.
pub open spec fn are_imu_inputs<M: Elementary>(m: M, d: ImuSensor, i: ImuInputs) -> bool {
    &&& call_ensures(M::sin, (&m, d.angle()), i.swing.x)
    &&& call_ensures(
        M::cos,
        (&m, d.angle().product(num(crate::literal::D1_3))),
        i.swing.y,
    )
    &&& call_ensures(
        M::sin,
        (&m, d.angle().product(num(crate::literal::D0_7))),
        i.swing.z,
    )
    &&& are_noises(
        m,
        d.gyro_x.next_draw(),
        d.gyro_y.next_draw(),
        d.gyro_z.next_draw(),
        i.gyro_noise,
    )
    &&& are_noises(
        m,
        d.accel_x.next_draw(),
        d.accel_y.next_draw(),
        d.accel_z.next_draw(),
        i.accel_noise,
    )
}

/// An inertial unit after its noise was drawn.
pub open spec fn imu_drawn(d: ImuSensor) -> ImuSensor {
    ImuSensor {
        gyro_x: d.gyro_x.drawn(),
        gyro_y: d.gyro_y.drawn(),
        gyro_z: d.gyro_z.drawn(),
        accel_x: d.accel_x.drawn(),
        accel_y: d.accel_y.drawn(),
        accel_z: d.accel_z.drawn(),
        ..d
    }
}

impl<M: Elementary> Fitted<ImuSensor, M> {
    /// Whether a step does this. A due sample is rotation and acceleration
    /// with the vibration and the noise that is drawn.
    pub open spec fn runs(
        self,
        before: AvionicsBus,
        dt: Binary64,
        after: AvionicsBus,
        next: Self,
    ) -> bool {
        let d = self.device;
        if d.samples(before) {
            exists|i: ImuInputs| #[trigger]
                are_imu_inputs(self.math, d, i) && after == imu_drawn(d).reading(before, dt, i)
                    && next == (Fitted {
                    device: imu_drawn(d).after_reading(before, dt, i),
                    math: self.math,
                })
        } else {
            after == before && next == self
        }
    }

    /// The device before its first step.
    pub open spec fn readied(self) -> Self {
        Fitted {
            device: ImuSensor {
                last_sample_time: num(M1).quotient(self.device.config.update_hz),
                vibration_phase: num(D0),
                ..self.device
            },
            math: self.math,
        }
    }

    /// The device as at power-on.
    pub open spec fn restored(self) -> Self {
        let d = self.device;
        Fitted {
            device: ImuSensor {
                config: d.config,
                gyro_x: d.gyro_x.forgotten(),
                gyro_y: d.gyro_y.forgotten(),
                gyro_z: d.gyro_z.forgotten(),
                accel_x: d.accel_x.forgotten(),
                accel_y: d.accel_y.forgotten(),
                accel_z: d.accel_z.forgotten(),
                last_sample_time: num(D0),
                vibration_phase: num(D0),
                vibration_freq: d.vibration_freq,
            },
            math: self.math,
        }
    }
}

impl<M: Elementary> AvionicsComponent for Fitted<ImuSensor, M> {
    open spec fn memory(&self) -> Memory {
        Memory::Imu(self.device)
    }

    open spec fn prepares(&self, dt: Binary64, memory: Memory) -> bool {
        memory == Memory::Imu(self.readied().device)
    }

    open spec fn acts(&self, before: AvionicsBus, dt: Binary64, after: AvionicsBus) -> bool {
        exists|next: Fitted<ImuSensor, M>| #[trigger] self.runs(before, dt, after, next)
    }

    open spec fn leaves(
        &self,
        before: AvionicsBus,
        dt: Binary64,
        after: AvionicsBus,
        memory: Memory,
    ) -> bool {
        exists|next: Fitted<ImuSensor, M>| #[trigger]
            self.runs(before, dt, after, next) && memory == Memory::Imu(next.device)
    }

    open spec fn restores(&self, memory: Memory) -> bool {
        memory == Memory::Imu(self.restored().device)
    }

    fn name(&self) -> (r: &str)
        ensures
            r@ == "IMU"@,
    {
        "IMU"
    }

    fn init(&mut self, dt: Binary64)
        ensures
            *final(self) == old(self).readied(),
    {
        self.device.init();
    }

    fn step(&mut self, bus: &mut AvionicsBus, dt: Binary64)
        ensures
            old(self).runs(*old(bus), dt, *final(bus), *final(self)),
    {
        if self.device.is_due(bus) {
            let a: Vec3 = self.device.vibration_angles();
            let d: [NoiseDraw; 6] = self.device.draw();
            let i: ImuInputs = ImuInputs {
                swing: Vec3 {
                    x: self.math.sin(a.x),
                    y: self.math.cos(a.y),
                    z: self.math.sin(a.z),
                },
                gyro_noise: noises(&self.math, d[0], d[1], d[2]),
                accel_noise: noises(&self.math, d[3], d[4], d[5]),
            };
            proof {
                assert(are_imu_inputs(old(self).math, old(self).device, i));
            }
            self.device.step(bus, dt, &i);
        }
        proof {
            assert(old(self).runs(*old(bus), dt, *bus, *self));
        }
    }

    fn reset(&mut self)
        ensures
            *final(self) == old(self).restored(),
    {
        self.device.reset();
    }
}

/// A flight controller whose loops have what they need in its mode, with the
/// elementary functions that it needs.
pub struct FittedController<M> {
    device: FlightController,
    math: M,
}

/// Whether these are the roll and the pitch angle that a controller reads from
/// the bus.
pub open spec fn are_bus_angles<M: Elementary>(
    m: M,
    bus: AvionicsBus,
    roll: Binary64,
    pitch: Binary64,
) -> bool {
    let t = FlightController::angle_terms(bus);
    &&& call_ensures(M::atan2, (&m, t.0, t.1), roll)
    &&& call_ensures(M::asin, (&m, t.2), pitch)
}

impl<M> FittedController<M> {
    #[verifier::type_invariant]
    spec fn limits_in_order(self) -> bool {
        self.device.ready()
    }

    /// The controller.
    pub closed spec fn controller(self) -> FlightController {
        self.device
    }

    /// The elementary functions.
    pub closed spec fn functions(self) -> M {
        self.math
    }

    /// Fits a controller.
    pub fn new(device: FlightController, math: M) -> (r: Self)
        requires
            device.ready(),
        ensures
            r.controller() == device,
            r.functions() == math,
    {
        FittedController { device, math }
    }

    /// The mode of the controller.
    pub fn mode(&self) -> (r: FcMode)
        ensures
            r == self.controller().mode,
    {
        self.device.mode
    }

    /// Changes the mode of the controller, which forgets the past.
    pub fn set_mode(&mut self, mode: FcMode)
        requires
            (FlightController { mode, ..old(self).controller() }).ready(),
        ensures
            final(self).controller() == (FlightController {
                mode,
                ..old(self).controller().cleared()
            }),
            final(self).functions() == old(self).functions(),
    {
        proof {
            use_type_invariant(&*self);
        }
        let mut device: FlightController = self.device;
        device.set_mode(mode);
        self.device = device;
    }
}

impl<M: Elementary> FittedController<M> {
    /// Whether a step does this: the targets of surfaces and throttle for the
    /// attitude on the bus.
    pub open spec fn runs(
        self,
        before: AvionicsBus,
        dt: Binary64,
        after: AvionicsBus,
        next: Self,
    ) -> bool {
        &&& next.functions() == self.functions()
        &&& exists|roll: Binary64, pitch: Binary64| #[trigger]
            are_bus_angles(self.functions(), before, roll, pitch) && after
                == self.controller().commanded(before, roll, pitch, dt) && next.controller()
                == self.controller().stepped(before, roll, pitch, dt)
    }

    /// Whether the controller has forgotten the past.
    pub open spec fn clears(self, next: Self) -> bool {
        &&& next.functions() == self.functions()
        &&& next.controller() == self.controller().cleared()
    }
}

impl<M: Elementary> AvionicsComponent for FittedController<M> {
    open spec fn memory(&self) -> Memory {
        Memory::Controller(self.controller())
    }

    open spec fn prepares(&self, dt: Binary64, memory: Memory) -> bool {
        memory == Memory::Controller(self.controller().cleared())
    }

    open spec fn acts(&self, before: AvionicsBus, dt: Binary64, after: AvionicsBus) -> bool {
        exists|next: FittedController<M>| #[trigger] self.runs(before, dt, after, next)
    }

    open spec fn leaves(
        &self,
        before: AvionicsBus,
        dt: Binary64,
        after: AvionicsBus,
        memory: Memory,
    ) -> bool {
        exists|next: FittedController<M>| #[trigger]
            self.runs(before, dt, after, next) && memory == Memory::Controller(next.controller())
    }

    open spec fn restores(&self, memory: Memory) -> bool {
        memory == Memory::Controller(self.controller().cleared())
    }

    fn name(&self) -> (r: &str)
        ensures
            r@ == "FC"@,
    {
        "FC"
    }

    fn init(&mut self, dt: Binary64)
        ensures
            old(self).clears(*final(self)),
    {
        proof {
            use_type_invariant(&*self);
        }
        let mut device: FlightController = self.device;
        device.init();
        self.device = device;
    }

    fn step(&mut self, bus: &mut AvionicsBus, dt: Binary64)
        ensures
            old(self).runs(*old(bus), dt, *final(bus), *final(self)),
    {
        proof {
            use_type_invariant(&*self);
        }
        let t: (Binary64, Binary64, Binary64) = FlightController::attitude_terms(bus);
        let roll: Binary64 = self.math.atan2(t.0, t.1);
        let pitch: Binary64 = self.math.asin(t.2);
        proof {
            assert(are_bus_angles(self.functions(), *bus, roll, pitch));
        }
        let mut device: FlightController = self.device;
        device.step(bus, dt, roll, pitch);
        self.device = device;
        proof {
            assert(old(self).runs(*old(bus), dt, *bus, *self));
        }
    }

    fn reset(&mut self)
        ensures
            old(self).clears(*final(self)),
    {
        proof {
            use_type_invariant(&*self);
        }
        let mut device: FlightController = self.device;
        device.reset();
        self.device = device;
    }
}

impl AvionicsComponent for ActuatorSuite {
    open spec fn memory(&self) -> Memory {
        Memory::Actuators(*self)
    }

    open spec fn prepares(&self, dt: Binary64, memory: Memory) -> bool {
        memory == Memory::Actuators(self.centered_on_trim())
    }

    open spec fn leaves(
        &self,
        before: AvionicsBus,
        dt: Binary64,
        after: AvionicsBus,
        memory: Memory,
    ) -> bool {
        memory == Memory::Actuators(
            if self.moves(before, dt) {
                self.stepped(before, dt)
            } else {
                *self
            },
        )
    }

    open spec fn restores(&self, memory: Memory) -> bool {
        memory == Memory::Actuators(self.centered_on_trim())
    }

    /// The servos follow the targets on the bus, but for those that are jammed;
    /// one that should follow and cannot move in a step of `dt` holds the whole
    /// suite.
    open spec fn acts(&self, before: AvionicsBus, dt: Binary64, after: AvionicsBus) -> bool {
        if self.moves(before, dt) {
            after == self.stepped(before, dt).reported(before)
        } else {
            after == before
        }
    }

    fn name(&self) -> (r: &str)
        ensures
            r@ == "ActuatorSuite"@,
    {
        "ActuatorSuite"
    }

    fn init(&mut self, dt: Binary64)
        ensures
            *final(self) == old(self).centered_on_trim(),
    {
        self.center();
    }

    fn step(&mut self, bus: &mut AvionicsBus, dt: Binary64)
        ensures
            *final(self) == if old(self).moves(*old(bus), dt) {
                old(self).stepped(*old(bus), dt)
            } else {
                *old(self)
            },
    {
        if self.can_move(bus, dt) {
            self.follow(bus, dt);
        }
    }

    fn reset(&mut self)
        ensures
            *final(self) == old(self).centered_on_trim(),
    {
        self.center();
    }
}

} // verus!
