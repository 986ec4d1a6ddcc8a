//! Satellite navigation.
use super::bus::AvionicsBus;
use super::sensor_model::{NoiseDraw, SensorConfig, SensorModel};
use super::traits::Sensor;
use crate::binary64::Binary64;
use crate::literal::{num, D0, D0_003, D0_05, D1, D10, D1EM9, D1_2, D2, D2_5, D99_9, M1};
use crate::vector::Vec3;
use vstd::prelude::*;

verus! {

/// Parameters of the receiver.
#[derive(Clone, Copy, Debug, PartialEq, Eq, Structural)]
pub struct GpsConfig {
    /// Noise (m) of the position on each axis.
    pub position_noise: Binary64,
    /// Noise (m/s) of the velocity on each axis.
    pub velocity_noise: Binary64,
    /// Samples per second.
    pub update_hz: Binary64,
    /// Noise (rad) of the heading.
    pub heading_noise: Binary64,
    /// Dilution of precision.
    pub hdop: Binary64,
    /// Quality of the fix; three is a fix in space.
    pub fix_quality: u8,
}

impl GpsConfig {
    pub open spec fn typical() -> GpsConfig {
        GpsConfig {
            position_noise: num(D2_5),
            velocity_noise: num(D0_05),
            update_hz: num(D10),
            heading_noise: num(D0_003),
            hdop: num(D1_2),
            fix_quality: 3,
        }
    }
}

impl Default for GpsConfig {
    fn default() -> (r: Self)
        ensures
            r == GpsConfig::typical(),
    {
        GpsConfig {
            position_noise: num(D2_5),
            velocity_noise: num(D0_05),
            update_hz: num(D10),
            heading_noise: num(D0_003),
            hdop: num(D1_2),
            fix_quality: 3,
        }
    }
}

/// A quaternion as the rows of its rotation matrix.
pub open spec fn rotation_rows(q: Seq<Binary64>) -> (Vec3, Vec3, Vec3) {
    let (w, x, y, z) = (q[0], q[1], q[2], q[3]);
    let two = num(D2);
    let one = num(D1);
    (
        Vec3 {
            x: one.difference(two.product(y.product(y).sum(z.product(z)))),
            y: two.product(x.product(y).difference(z.product(w))),
            z: two.product(x.product(z).sum(y.product(w))),
        },
        Vec3 {
            x: two.product(x.product(y).sum(z.product(w))),
            y: one.difference(two.product(x.product(x).sum(z.product(z)))),
            z: two.product(y.product(z).difference(x.product(w))),
        },
        Vec3 {
            x: two.product(x.product(z).difference(y.product(w))),
            y: two.product(y.product(z).sum(x.product(w))),
            z: one.difference(two.product(x.product(x).sum(y.product(y)))),
        },
    )
}

/// A vector turned by a quaternion.
pub open spec fn turned(q: Seq<Binary64>, v: Vec3) -> Vec3 {
    let (a, b, c) = rotation_rows(q);
    Vec3 { x: a.inner(v), y: b.inner(v), z: c.inner(v) }
}

/// The rows of the rotation matrix of a quaternion.
pub fn quat_to_dcm(q: &[Binary64; 4]) -> (r: (Vec3, Vec3, Vec3))
    ensures
        r == rotation_rows(q@),
{
    let w: Binary64 = q[0];
    let x: Binary64 = q[1];
    let y: Binary64 = q[2];
    let z: Binary64 = q[3];
    let two: Binary64 = num(D2);
    let one: Binary64 = num(D1);
    (
        Vec3 {
            x: one.minus(two.times(y.times(y).plus(z.times(z)))),
            y: two.times(x.times(y).minus(z.times(w))),
            z: two.times(x.times(z).plus(y.times(w))),
        },
        Vec3 {
            x: two.times(x.times(y).plus(z.times(w))),
            y: one.minus(two.times(x.times(x).plus(z.times(z)))),
            z: two.times(y.times(z).minus(x.times(w))),
        },
        Vec3 {
            x: two.times(x.times(z).minus(y.times(w))),
            y: two.times(y.times(z).plus(x.times(w))),
            z: one.minus(two.times(x.times(x).plus(y.times(y)))),
        },
    )
}

/// A vector turned by a quaternion.
pub fn turn(q: &[Binary64; 4], v: Vec3) -> (r: Vec3)
    ensures
        r == turned(q@, v),
{
    let (a, b, c) = quat_to_dcm(q);
    Vec3 { x: a.dot(v), y: b.dot(v), z: c.dot(v) }
}

/// A vector turned back: by the inverse of a quaternion.
pub open spec fn turned_back(q: Seq<Binary64>, v: Vec3) -> Vec3 {
    let (a, b, c) = rotation_rows(q);
    Vec3 {
        x: a.x.product(v.x).sum(b.x.product(v.y)).sum(c.x.product(v.z)),
        y: a.y.product(v.x).sum(b.y.product(v.y)).sum(c.y.product(v.z)),
        z: a.z.product(v.x).sum(b.z.product(v.y)).sum(c.z.product(v.z)),
    }
}

/// A vector turned back: by the inverse of a quaternion.
pub fn turn_back(q: &[Binary64; 4], v: Vec3) -> (r: Vec3)
    ensures
        r == turned_back(q@, v),
{
    let (a, b, c) = quat_to_dcm(q);
    Vec3 {
        x: a.x.times(v.x).plus(b.x.times(v.y)).plus(c.x.times(v.z)),
        y: a.y.times(v.x).plus(b.y.times(v.y)).plus(c.y.times(v.z)),
        z: a.z.times(v.x).plus(b.z.times(v.y)).plus(c.z.times(v.z)),
    }
}

/// The receiver.
#[derive(Clone, Copy, Debug)]
pub struct GpsSensor {
    pub config: GpsConfig,
    pub pos_noise_x: SensorModel,
    pub pos_noise_y: SensorModel,
    pub pos_noise_z: SensorModel,
    pub vel_noise_x: SensorModel,
    pub vel_noise_y: SensorModel,
    pub vel_noise_z: SensorModel,
    pub last_sample_time: Binary64,
}

/// A channel with noise and nothing else.
pub open spec fn noisy_channel(noise: Binary64, state: u64) -> SensorModel {
    SensorModel::fresh(SensorConfig { noise, ..SensorConfig::perfect() }, state)
}

/// Noise on three axes of position and velocity.
#[derive(Clone, Copy, Debug, PartialEq, Eq, Structural)]
pub struct GpsNoise {
    pub position: Vec3,
    pub velocity: Vec3,
}

impl GpsSensor {
    /// A receiver whose channels are seeded with six consecutive states.
    pub open spec fn fresh(config: GpsConfig, s: Seq<u64>) -> GpsSensor {
        GpsSensor {
            config,
            pos_noise_x: noisy_channel(config.position_noise, s[0]),
            pos_noise_y: noisy_channel(config.position_noise, s[1]),
            pos_noise_z: noisy_channel(config.position_noise, s[2]),
            vel_noise_x: noisy_channel(config.velocity_noise, s[3]),
            vel_noise_y: noisy_channel(config.velocity_noise, s[4]),
            vel_noise_z: noisy_channel(config.velocity_noise, s[5]),
            last_sample_time: num(D0),
        }
    }

    pub fn new(config: GpsConfig) -> (r: Self)
        ensures
            r == GpsSensor::fresh(
                config,
                Seq::new(6, |i: int| crate::prng::DEFAULT_STATE),
            ),
    {
        let mut pos: SensorConfig = SensorConfig::default();
        pos.noise = config.position_noise;
        let mut vel: SensorConfig = SensorConfig::default();
        vel.noise = config.velocity_noise;
        GpsSensor {
            config,
            pos_noise_x: SensorModel::new(pos),
            pos_noise_y: SensorModel::new(pos),
            pos_noise_z: SensorModel::new(pos),
            vel_noise_x: SensorModel::new(vel),
            vel_noise_y: SensorModel::new(vel),
            vel_noise_z: SensorModel::new(vel),
            last_sample_time: num(D0),
        }
    }

    /// A receiver whose channels are seeded one after the other.
    pub fn with_seed(config: GpsConfig, seed: u64) -> (r: Self)
        requires
            seed + 5 <= u64::MAX,
        ensures
            r == GpsSensor::fresh(
                config,
                Seq::new(6, |i: int| crate::prng::kept_seed((seed + i) as u64)),
            ),
    {
        let mut gps: GpsSensor = GpsSensor::new(config);
        gps.pos_noise_x.set_seed(seed);
        gps.pos_noise_y.set_seed(seed + 1);
        gps.pos_noise_z.set_seed(seed + 2);
        gps.vel_noise_x.set_seed(seed + 3);
        gps.vel_noise_y.set_seed(seed + 4);
        gps.vel_noise_z.set_seed(seed + 5);
        gps
    }

    /// Prepares for the first sample at time zero.
    pub fn init(&mut self)
        ensures
            *final(self) == (GpsSensor {
                last_sample_time: num(M1).quotient(old(self).config.update_hz),
                ..*old(self)
            }),
    {
        self.last_sample_time = num(M1).over(self.config.update_hz);
    }

    /// Whether a step samples.
    pub open spec fn samples(self, bus: AvionicsBus) -> bool {
        !bus.sim_time.difference(self.last_sample_time).below(
            num(D1).quotient(self.config.update_hz).difference(num(D1EM9)),
        )
    }

    pub fn is_due(&self, bus: &AvionicsBus) -> (r: bool)
        ensures
            r == self.samples(*bus),
    {
        let period: Binary64 = num(D1).over(self.config.update_hz);
        !bus.sim_time.minus(self.last_sample_time).lt(period.minus(num(D1EM9)))
    }

    /// Draws the noise of a sample: three axes of position, then of velocity.
    pub fn draw(&mut self) -> (r: [NoiseDraw; 6])
        ensures
            *final(self) == (GpsSensor {
                pos_noise_x: old(self).pos_noise_x.drawn(),
                pos_noise_y: old(self).pos_noise_y.drawn(),
                pos_noise_z: old(self).pos_noise_z.drawn(),
                vel_noise_x: old(self).vel_noise_x.drawn(),
                vel_noise_y: old(self).vel_noise_y.drawn(),
                vel_noise_z: old(self).vel_noise_z.drawn(),
                ..*old(self)
            }),
            r@ =~= seq![
                old(self).pos_noise_x.next_draw(),
                old(self).pos_noise_y.next_draw(),
                old(self).pos_noise_z.next_draw(),
                old(self).vel_noise_x.next_draw(),
                old(self).vel_noise_y.next_draw(),
                old(self).vel_noise_z.next_draw(),
            ],
    {
        let a: NoiseDraw = self.pos_noise_x.draw();
        let b: NoiseDraw = self.pos_noise_y.draw();
        let c: NoiseDraw = self.pos_noise_z.draw();
        let d: NoiseDraw = self.vel_noise_x.draw();
        let e: NoiseDraw = self.vel_noise_y.draw();
        let f: NoiseDraw = self.vel_noise_z.draw();
        [a, b, c, d, e, f]
    }

    /// The bus after a sample of a dead receiver: no fix, no position and no
    /// velocity.
    pub open spec fn dead_reading(bus: AvionicsBus) -> AvionicsBus {
        AvionicsBus {
            gps_fix_quality: 0,
            gps_hdop: num(D99_9),
            gps_position_ned: Vec3::zero(),
            gps_velocity_ned: Vec3::zero(),
            gps_sample_time: bus.sim_time,
            ..bus
        }
    }

    /// The bus after a sample: the true position and the velocity turned into
    /// the earth frame, both with noise.
    pub open spec fn reading(self, bus: AvionicsBus, dt: Binary64, noise: GpsNoise) -> AvionicsBus {
        let p = bus.true_position_ned;
        let v = turned_back(bus.true_quat@, bus.true_velocity_body);
        AvionicsBus {
            gps_position_ned: Vec3 {
                x: self.pos_noise_x.degraded(p.x, dt, num(D0), noise.position.x),
                y: self.pos_noise_y.degraded(p.y, dt, num(D0), noise.position.y),
                z: self.pos_noise_z.degraded(p.z, dt, num(D0), noise.position.z),
            },
            gps_velocity_ned: Vec3 {
                x: self.vel_noise_x.degraded(v.x, dt, num(D0), noise.velocity.x),
                y: self.vel_noise_y.degraded(v.y, dt, num(D0), noise.velocity.y),
                z: self.vel_noise_z.degraded(v.z, dt, num(D0), noise.velocity.z),
            },
            gps_hdop: self.config.hdop,
            gps_fix_quality: self.config.fix_quality,
            gps_sample_time: bus.sim_time,
            ..bus
        }
    }

    /// The receiver after a sample.
    pub open spec fn after_reading(self, bus: AvionicsBus, dt: Binary64) -> GpsSensor {
        let p = bus.true_position_ned;
        let v = turned_back(bus.true_quat@, bus.true_velocity_body);
        GpsSensor {
            pos_noise_x: self.pos_noise_x.after_sample(p.x, dt, num(D0)),
            pos_noise_y: self.pos_noise_y.after_sample(p.y, dt, num(D0)),
            pos_noise_z: self.pos_noise_z.after_sample(p.z, dt, num(D0)),
            vel_noise_x: self.vel_noise_x.after_sample(v.x, dt, num(D0)),
            vel_noise_y: self.vel_noise_y.after_sample(v.y, dt, num(D0)),
            vel_noise_z: self.vel_noise_z.after_sample(v.z, dt, num(D0)),
            last_sample_time: bus.sim_time,
            ..self
        }
    }

    /// Samples where a sample is due. A failed receiver reports no fix.
    pub fn step(&mut self, bus: &mut AvionicsBus, dt: Binary64, noise: &GpsNoise)
        ensures
            !old(self).samples(*old(bus)) ==> *final(bus) == *old(bus) && *final(self) == *old(
                self,
            ),
            old(self).samples(*old(bus)) ==> {
                &&& *final(self) == if old(bus).fc_fault_flags.gps_failed {
                    GpsSensor { last_sample_time: old(bus).sim_time, ..*old(self) }
                } else {
                    old(self).after_reading(*old(bus), dt)
                }
                &&& *final(bus) == if old(bus).fc_fault_flags.gps_failed {
                    GpsSensor::dead_reading(*old(bus))
                } else {
                    old(self).reading(*old(bus), dt, *noise)
                }
            },
    {
        let period: Binary64 = num(D1).over(self.config.update_hz);
        if bus.sim_time.minus(self.last_sample_time).lt(period.minus(num(D1EM9))) {
            return;
        }
        if bus.fc_fault_flags.gps_failed {
            bus.gps_fix_quality = 0;
            bus.gps_hdop = num(D99_9);
            bus.gps_position_ned = Vec3::zeros();
            bus.gps_velocity_ned = Vec3::zeros();
            self.last_sample_time = bus.sim_time;
            bus.gps_sample_time = bus.sim_time;
            return;
        }
        let p: Vec3 = bus.true_position_ned;
        bus.gps_position_ned = Vec3 {
            x: self.pos_noise_x.process(p.x, dt, num(D0), noise.position.x),
            y: self.pos_noise_y.process(p.y, dt, num(D0), noise.position.y),
            z: self.pos_noise_z.process(p.z, dt, num(D0), noise.position.z),
        };
        let v: Vec3 = turn_back(&bus.true_quat, bus.true_velocity_body);
        bus.gps_velocity_ned = Vec3 {
            x: self.vel_noise_x.process(v.x, dt, num(D0), noise.velocity.x),
            y: self.vel_noise_y.process(v.y, dt, num(D0), noise.velocity.y),
            z: self.vel_noise_z.process(v.z, dt, num(D0), noise.velocity.z),
        };
        bus.gps_hdop = self.config.hdop;
        bus.gps_fix_quality = self.config.fix_quality;
        self.last_sample_time = bus.sim_time;
        bus.gps_sample_time = bus.sim_time;
    }

    /// Sets the channels and the sample time back.
    pub fn reset(&mut self)
        ensures
            *final(self) == (GpsSensor {
                config: old(self).config,
                pos_noise_x: old(self).pos_noise_x.forgotten(),
                pos_noise_y: old(self).pos_noise_y.forgotten(),
                pos_noise_z: old(self).pos_noise_z.forgotten(),
                vel_noise_x: old(self).vel_noise_x.forgotten(),
                vel_noise_y: old(self).vel_noise_y.forgotten(),
                vel_noise_z: old(self).vel_noise_z.forgotten(),
                last_sample_time: num(D0),
            }),
    {
        self.pos_noise_x.reset();
        self.pos_noise_y.reset();
        self.pos_noise_z.reset();
        self.vel_noise_x.reset();
        self.vel_noise_y.reset();
        self.vel_noise_z.reset();
        self.last_sample_time = num(D0);
    }
}

/// A sensor without noise reports the true position, and the velocity turned
/// into the earth frame.
pub proof fn quiet_receivers_tell_the_truth(
    config: GpsConfig,
    states: Seq<u64>,
    bus: AvionicsBus,
    dt: Binary64,
    noise: GpsNoise,
)
    requires
        !num(D0).below(config.position_noise),
        !num(D0).below(config.velocity_noise),
    ensures
        GpsSensor::fresh(config, states).reading(bus, dt, noise).gps_position_ned
            == bus.true_position_ned,
        GpsSensor::fresh(config, states).reading(bus, dt, noise).gps_velocity_ned == turned_back(
            bus.true_quat@,
            bus.true_velocity_body,
        ),
{
}

impl Sensor for GpsSensor {
    open spec fn rate(&self) -> Binary64 {
        self.config.update_hz
    }

    fn update_rate_hz(&self) -> Binary64 {
        self.config.update_hz
    }
}

/// Whether a sum and a difference stay finite.
pub open spec fn adds_up(p: Binary64, s: Binary64) -> bool {
    &&& p.finite() && s.finite()
    &&& p.sum(s).finite() && p.difference(s).finite()
}

/// Whether the rotation matrix of a quaternion is made of finite terms.
pub open spec fn is_turning(q: Seq<Binary64>) -> bool {
    let (w, x, y, z) = (q[0], q[1], q[2], q[3]);
    &&& w.finite() && x.finite() && y.finite() && z.finite()
    &&& adds_up(x.product(y), z.product(w))
    &&& adds_up(x.product(z), y.product(w))
    &&& adds_up(y.product(z), x.product(w))
    &&& y.product(y).finite() && y.product(y).sum(z.product(z)).finite()
    &&& x.product(x).finite() && x.product(x).sum(z.product(z)).finite()
    &&& z.product(z).finite() && x.product(x).sum(y.product(y)).finite()
}

/// Twice the sum and twice the difference of two numbers.
proof fn lemma_pair(p: Binary64, s: Binary64)
    requires
        adds_up(p, s),
    ensures
        ({
            let (up, down) = (num(D2).product(p.sum(s)), num(D2).product(p.difference(s)));
            &&& !up.nan() && !down.nan()
            &&& num(D0).not_above(s) ==> down.not_above(up)
            &&& s.not_above(num(D0)) ==> up.not_above(down)
            &&& p.zero() ==> (s.zero() ==> up.zero() && down.zero()) && (!up.zero()
                ==> up.negative() == s.negative()) && (!down.zero() ==> down.negative()
                != s.negative())
            &&& s.zero() ==> (p.zero() ==> up.zero() && down.zero()) && (!up.zero()
                ==> up.negative() == p.negative()) && (!down.zero() ==> down.negative()
                == p.negative())
        }),
{
    let (sum, diff) = (p.sum(s), p.difference(s));
    crate::rounding::products_are_numbers(num(D2), sum);
    crate::rounding::products_are_numbers(num(D2), diff);
    if num(D0).not_above(s) {
        crate::rounding::sums_of_ordered_terms(p, p, s.negated(), s);
        crate::rounding::factors_keep_order(num(D2), diff, sum);
    }
    if s.not_above(num(D0)) {
        crate::rounding::sums_of_ordered_terms(p, p, s, s.negated());
        crate::rounding::factors_keep_order(num(D2), sum, diff);
    }
    if p.zero() {
        crate::rounding::zeros_keep_signs(s, p);
        crate::rounding::zeros_keep_signs(s.negated(), p);
    }
    if s.zero() {
        crate::rounding::zeros_keep_signs(p, s);
    }
    if sum.zero() {
        crate::rounding::zero_absorbs(sum, num(D2));
    }
    if diff.zero() {
        crate::rounding::zero_absorbs(diff, num(D2));
    }
}

/// One less twice a sum of squares.
proof fn lemma_diagonal(a: Binary64, b: Binary64)
    requires
        a.finite() && b.finite(),
        a.product(a).finite() && b.product(b).finite(),
        a.product(a).sum(b.product(b)).finite(),
    ensures
        ({
            let d = num(D1).difference(num(D2).product(a.product(a).sum(b.product(b))));
            &&& d.not_above(num(D1))
            &&& a.zero() && b.zero() ==> d == num(D1)
        }),
{
    let (s, t) = (a.product(a), b.product(b));
    crate::rounding::products_are_numbers(a, a);
    crate::rounding::products_are_numbers(b, b);
    crate::rounding::sums_keep_signs(s, t);
    let u = num(D2).product(s.sum(t));
    crate::rounding::products_are_numbers(num(D2), s.sum(t));
    crate::rounding::products_keep_signs(num(D2), s.sum(t));
    crate::rounding::differences_shrink(num(D1), u);
    if a.zero() && b.zero() {
        crate::rounding::zero_absorbs(a, a);
        crate::rounding::zero_absorbs(b, b);
        crate::rounding::zeros_add_to_zero(s, t);
        crate::rounding::zero_absorbs(s.sum(t), num(D2));
        crate::rounding::zeros_keep_signs(num(D1), u);
    }
}

/// The matrix of a quaternion turns about the axes that its entries name: the
/// last entry carries the first axis towards the second, the third the third
/// axis towards the first, the second the second axis towards the third, and
/// each pair of entries across the diagonal differs by that turn alone.
pub proof fn matrices_turn_about_their_axes(q: Seq<Binary64>)
    requires
        is_turning(q),
    ensures
        ({
            let (w, x, y, z) = (q[0], q[1], q[2], q[3]);
            let (a, b, c) = rotation_rows(q);
            &&& x.zero() || y.zero() ==> crate::rounding::like_product(b.x, z, w)
                && crate::rounding::like_product(a.y, z.negated(), w)
            &&& x.zero() || z.zero() ==> crate::rounding::like_product(a.z, y, w)
                && crate::rounding::like_product(c.x, y.negated(), w)
            &&& y.zero() || z.zero() ==> crate::rounding::like_product(c.y, x, w)
                && crate::rounding::like_product(b.z, x.negated(), w)
            &&& num(D0).not_above(z.product(w)) ==> a.y.not_above(b.x)
            &&& z.product(w).not_above(num(D0)) ==> b.x.not_above(a.y)
            &&& num(D0).not_above(y.product(w)) ==> c.x.not_above(a.z)
            &&& y.product(w).not_above(num(D0)) ==> a.z.not_above(c.x)
            &&& num(D0).not_above(x.product(w)) ==> b.z.not_above(c.y)
            &&& x.product(w).not_above(num(D0)) ==> c.y.not_above(b.z)
        }),
{
    let (w, x, y, z) = (q[0], q[1], q[2], q[3]);
    lemma_pair(x.product(y), z.product(w));
    lemma_pair(x.product(z), y.product(w));
    lemma_pair(y.product(z), x.product(w));
    crate::rounding::products_have_their_signs(z, w);
    crate::rounding::products_have_their_signs(y, w);
    crate::rounding::products_have_their_signs(x, w);
    crate::rounding::products_have_their_signs(x, y);
    crate::rounding::products_have_their_signs(x, z);
    crate::rounding::products_have_their_signs(y, z);
}

/// Half a circle about an axis between two others carries each of these towards
/// the other where their entries have one sign, and no axis of a matrix is made
/// longer.
pub proof fn matrices_mirror_and_shorten(q: Seq<Binary64>)
    requires
        is_turning(q),
    ensures
        ({
            let (w, x, y, z) = (q[0], q[1], q[2], q[3]);
            let (a, b, c) = rotation_rows(q);
            &&& w.zero() || z.zero() ==> crate::rounding::like_product(a.y, x, y)
                && crate::rounding::like_product(b.x, x, y)
            &&& w.zero() || y.zero() ==> crate::rounding::like_product(a.z, x, z)
                && crate::rounding::like_product(c.x, x, z)
            &&& w.zero() || x.zero() ==> crate::rounding::like_product(b.z, y, z)
                && crate::rounding::like_product(c.y, y, z)
            &&& a.x.not_above(num(D1)) && b.y.not_above(num(D1)) && c.z.not_above(num(D1))
            &&& y.zero() && z.zero() ==> a.x == num(D1)
            &&& x.zero() && z.zero() ==> b.y == num(D1)
            &&& x.zero() && y.zero() ==> c.z == num(D1)
        }),
{
    let (w, x, y, z) = (q[0], q[1], q[2], q[3]);
    lemma_pair(x.product(y), z.product(w));
    lemma_pair(x.product(z), y.product(w));
    lemma_pair(y.product(z), x.product(w));
    crate::rounding::products_have_their_signs(z, w);
    crate::rounding::products_have_their_signs(y, w);
    crate::rounding::products_have_their_signs(x, w);
    crate::rounding::products_have_their_signs(x, y);
    crate::rounding::products_have_their_signs(x, z);
    crate::rounding::products_have_their_signs(y, z);
    lemma_diagonal(y, z);
    lemma_diagonal(x, z);
    lemma_diagonal(x, y);
}

/// The product of two negated numbers.
proof fn lemma_both_negated(a: Binary64, b: Binary64)
    requires
        a.finite(),
        b.finite(),
    ensures
        a.negated().product(b.negated()) == a.product(b),
        a.negated().product(b) == a.product(b).negated(),
        a.product(b).negated().negated() == a.product(b),
{
    crate::rounding::products_are_numbers(a, b);
    crate::rounding::negated_factors(a.negated(), b);
    crate::rounding::negated_factors(b, a);
    crate::rounding::products_commute(a.negated(), b);
    crate::rounding::products_commute(a, b);
    crate::rotation::double_negation(a.product(b));
}

/// Turning back by a quaternion is turning by its inverse.
pub proof fn turning_back_is_turning_by_the_inverse(q: Seq<Binary64>, v: Vec3)
    requires
        q[0].finite() && q[1].finite() && q[2].finite() && q[3].finite(),
    ensures
        turned_back(q, v) == turned(
            seq![q[0], q[1].negated(), q[2].negated(), q[3].negated()],
            v,
        ),
{
    let (w, x, y, z) = (q[0], q[1], q[2], q[3]);
    lemma_both_negated(x, x);
    lemma_both_negated(y, y);
    lemma_both_negated(z, z);
    lemma_both_negated(x, y);
    lemma_both_negated(x, z);
    lemma_both_negated(y, z);
    lemma_both_negated(x, w);
    lemma_both_negated(y, w);
    lemma_both_negated(z, w);
}

/// What lies along one axis is turned along the column of that axis, and along
/// its row when turned back.
pub proof fn axes_turn_along_their_columns(q: Seq<Binary64>, v: Vec3)
    requires
        ({
            let (a, b, c) = rotation_rows(q);
            crate::vector::is_finite(a) && crate::vector::is_finite(b) && crate::vector::is_finite(
                c,
            )
        }),
        crate::vector::is_finite(v),
    ensures
        ({
            let (a, b, c) = rotation_rows(q);
            let (t, u) = (turned(q, v), turned_back(q, v));
            &&& v.y.zero() && v.z.zero() ==> {
                &&& crate::rounding::like_product(t.x, a.x, v.x)
                &&& crate::rounding::like_product(t.y, b.x, v.x)
                &&& crate::rounding::like_product(t.z, c.x, v.x)
                &&& crate::rounding::like_product(u.y, a.y, v.x)
                &&& crate::rounding::like_product(u.z, a.z, v.x)
            }
            &&& v.x.zero() && v.z.zero() ==> {
                &&& crate::rounding::like_product(t.x, a.y, v.y)
                &&& crate::rounding::like_product(t.y, b.y, v.y)
                &&& crate::rounding::like_product(t.z, c.y, v.y)
                &&& crate::rounding::like_product(u.x, b.x, v.y)
                &&& crate::rounding::like_product(u.z, b.z, v.y)
            }
            &&& v.x.zero() && v.y.zero() ==> {
                &&& crate::rounding::like_product(t.x, a.z, v.z)
                &&& crate::rounding::like_product(t.y, b.z, v.z)
                &&& crate::rounding::like_product(t.z, c.z, v.z)
                &&& crate::rounding::like_product(u.x, c.x, v.z)
                &&& crate::rounding::like_product(u.y, c.y, v.z)
            }
        }),
{
    let (a, b, c) = rotation_rows(q);
    lemma_along(a.x, a.y, a.z, v);
    lemma_along(b.x, b.y, b.z, v);
    lemma_along(c.x, c.y, c.z, v);
    lemma_along(a.x, b.x, c.x, v);
    lemma_along(a.y, b.y, c.y, v);
    lemma_along(a.z, b.z, c.z, v);
}

/// A row along an axis.
proof fn lemma_along(a: Binary64, b: Binary64, c: Binary64, v: Vec3)
    requires
        a.finite() && b.finite() && c.finite(),
        crate::vector::is_finite(v),
    ensures
        ({
            let r = a.product(v.x).sum(b.product(v.y)).sum(c.product(v.z));
            &&& v.y.zero() && v.z.zero() ==> crate::rounding::like_product(r, a, v.x)
            &&& v.x.zero() && v.z.zero() ==> crate::rounding::like_product(r, b, v.y)
            &&& v.x.zero() && v.y.zero() ==> crate::rounding::like_product(r, c, v.z)
        }),
{
    let (p, s, t) = (a.product(v.x), b.product(v.y), c.product(v.z));
    crate::rounding::products_have_their_signs(a, v.x);
    crate::rounding::products_have_their_signs(b, v.y);
    crate::rounding::products_have_their_signs(c, v.z);
    if v.y.zero() && v.z.zero() {
        crate::rounding::zeros_keep_signs(p, s);
        crate::rounding::zeros_keep_signs(p.sum(s), t);
    }
    if v.x.zero() && v.z.zero() {
        crate::rounding::zeros_keep_signs(s, p);
        crate::rounding::zeros_keep_signs(p.sum(s), t);
    }
    if v.x.zero() && v.y.zero() {
        crate::rounding::zeros_keep_signs(p, s);
        crate::rounding::zeros_keep_signs(t, p.sum(s));
    }
}

/// Without a turn a vector stays what it is, and the receiver shows the velocity
/// along the body.
pub proof fn upright_attitudes_turn_nothing(q: Seq<Binary64>, v: Vec3)
    requires
        q[0].finite(),
        q[1].zero() && q[2].zero() && q[3].zero(),
        crate::vector::is_finite(v),
    ensures
        turned(q, v).x.same(v.x) && turned(q, v).y.same(v.y) && turned(q, v).z.same(v.z),
        turned_back(q, v).x.same(v.x) && turned_back(q, v).y.same(v.y) && turned_back(
            q,
            v,
        ).z.same(v.z),
{
    let (w, x, y, z) = (q[0], q[1], q[2], q[3]);
    let (a, b, c) = rotation_rows(q);
    lemma_blank(x, y, z, w);
    lemma_blank(x, z, y, w);
    lemma_blank(y, z, x, w);
    lemma_diagonal_of_zeros(y, z);
    lemma_diagonal_of_zeros(x, z);
    lemma_diagonal_of_zeros(x, y);
    lemma_kept(v.x, a.y, v.y, a.z, v.z);
    lemma_kept(v.y, b.x, v.x, b.z, v.z);
    lemma_kept(v.z, c.x, v.x, c.y, v.y);
    lemma_kept(v.x, b.x, v.y, c.x, v.z);
    lemma_kept(v.y, a.y, v.x, c.y, v.z);
    lemma_kept(v.z, a.z, v.x, b.z, v.y);
}

proof fn lemma_blank(x: Binary64, y: Binary64, z: Binary64, w: Binary64)
    requires
        x.zero() && y.zero() && z.zero(),
        w.finite(),
    ensures
        num(D2).product(x.product(y).sum(z.product(w))).zero(),
        num(D2).product(x.product(y).difference(z.product(w))).zero(),
{
    crate::rounding::zero_absorbs(x, y);
    crate::rounding::zero_absorbs(z, w);
    crate::rounding::zeros_add_to_zero(x.product(y), z.product(w));
    crate::rounding::zero_absorbs(x.product(y).sum(z.product(w)), num(D2));
    crate::rounding::zero_absorbs(x.product(y).difference(z.product(w)), num(D2));
}

proof fn lemma_diagonal_of_zeros(a: Binary64, b: Binary64)
    requires
        a.zero() && b.zero(),
    ensures
        num(D1).difference(num(D2).product(a.product(a).sum(b.product(b)))) == num(D1),
{
    crate::rounding::zero_absorbs(a, a);
    crate::rounding::zero_absorbs(b, b);
    crate::rounding::zeros_add_to_zero(a.product(a), b.product(b));
    lemma_diagonal(a, b);
}

proof fn lemma_kept(v: Binary64, a: Binary64, p: Binary64, b: Binary64, q: Binary64)
    requires
        v.finite() && p.finite() && q.finite(),
        a.zero() && b.zero(),
    ensures
        num(D1).product(v).sum(a.product(p)).sum(b.product(q)).same(v),
        a.product(p).sum(num(D1).product(v)).sum(b.product(q)).same(v),
        a.product(p).sum(b.product(q)).sum(num(D1).product(v)).same(v),
{
    let (s, t) = (a.product(p), b.product(q));
    crate::rounding::one_is_neutral(v);
    crate::rounding::zero_absorbs(a, p);
    crate::rounding::zero_absorbs(b, q);
    crate::rounding::zeros_keep_signs(v, s);
    crate::rounding::zeros_keep_signs(v.sum(s), t);
    crate::rounding::zeros_keep_signs(s.sum(v), t);
    crate::rounding::zeros_add_to_zero(s, t);
    crate::rounding::zeros_keep_signs(v, s.sum(t));
}

/// A sample that is due stays due, and none is due at the time of the last one.
pub proof fn receivers_sample_in_time(gps: GpsSensor, bus: AvionicsBus, later: AvionicsBus)
    requires
        bus.sim_time.finite() && later.sim_time.finite() && gps.last_sample_time.finite(),
        bus.sim_time.not_above(later.sim_time),
    ensures
        gps.samples(bus) ==> gps.samples(later) || num(D1).quotient(gps.config.update_hz).difference(
            num(D1EM9),
        ).nan(),
        bus.sim_time == gps.last_sample_time && num(D1EM9).below(
            num(D1).quotient(gps.config.update_hz),
        ) && num(D1).quotient(gps.config.update_hz).finite() ==> !gps.samples(bus),
{
    super::sensor_model::samples_keep_their_time(
        bus.sim_time,
        later.sim_time,
        gps.last_sample_time,
        num(D1).quotient(gps.config.update_hz),
    );
}

} // verus!
