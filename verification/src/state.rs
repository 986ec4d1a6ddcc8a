//! The state of the rigid body.
use crate::atmosphere::{rho0_sl, Atmosphere};
use crate::binary64::Binary64;
use crate::config::AircraftConfig;
use crate::literal::{
    num, D0, D0_04, D0_1, D0_2, D0_85, D1, D1EM12, D1EM3, D1EM6, D1_2, D6, D9_80665, M1,
};
use crate::rotation::Rotation;
use crate::vector::Vec3;
use vstd::prelude::*;

verus! {

/// The state of the aircraft: position north, east and down of the origin,
/// velocity and rates in body axes, orientation as a quaternion from earth to
/// body.
#[derive(Clone, Copy, Debug, PartialEq, Eq, Structural)]
pub struct AircraftState {
    pub pos_x: Binary64,
    pub pos_y: Binary64,
    pub pos_z: Binary64,
    pub u: Binary64,
    pub v: Binary64,
    pub w: Binary64,
    pub q0: Binary64,
    pub q1: Binary64,
    pub q2: Binary64,
    pub q3: Binary64,
    pub p: Binary64,
    pub q: Binary64,
    pub r: Binary64,
}

/// Cosine and sine of the angle of attack of a trim and of half of it.
#[derive(Clone, Copy, Debug, PartialEq, Eq, Structural)]
pub struct TrimAngles {
    pub cos: Binary64,
    pub sin: Binary64,
    pub half_cos: Binary64,
    pub half_sin: Binary64,
}

/// A trim: the state, and the controls that hold it.
#[derive(Clone, Copy, Debug, PartialEq, Eq, Structural)]
pub struct Trim {
    pub state: AircraftState,
    pub elevator: Binary64,
    pub throttle: Binary64,
}

/// Body axes in earth axes.
#[derive(Clone, Copy, Debug, PartialEq, Eq, Structural)]
pub struct BodyAxes {
    pub forward: Vec3,
    pub right: Vec3,
    pub down: Vec3,
}

/// The numbers from which the attitude angles follow: the pitch angle is the
/// arcsine of `pitch_sine`, the others are the angles of the vectors with
/// these components.
#[derive(Clone, Copy, Debug, PartialEq, Eq, Structural)]
pub struct AttitudeTerms {
    pub roll_y: Binary64,
    pub roll_x: Binary64,
    pub pitch_sine: Binary64,
    pub yaw_y: Binary64,
    pub yaw_x: Binary64,
}

impl Default for AircraftState {
    fn default() -> (r: Self)
        ensures
            r == AircraftState::at_rest(),
    {
        let z: Binary64 = num(D0);
        AircraftState {
            pos_x: z,
            pos_y: z,
            pos_z: z,
            u: z,
            v: z,
            w: z,
            q0: num(D1),
            q1: z,
            q2: z,
            q3: z,
            p: z,
            q: z,
            r: z,
        }
    }
}

/// The factor by which the air, as it is compressed, divides the lift slope.
pub open spec fn compressibility(mach: Binary64) -> Binary64 {
    if mach.below(num(D0_85)) {
        num(D1).difference(mach.product(mach)).larger(num(D0_04)).root()
    } else {
        num(D0_2)
    }
}

/// The factor by which the air, as it is compressed, divides the lift slope.
pub fn compressibility_factor(mach: Binary64) -> (r: Binary64)
    ensures
        r == compressibility(mach),
{
    if mach.lt(num(D0_85)) {
        num(D1).minus(mach.times(mach)).max(num(D0_04)).sqrt()
    } else {
        num(D0_2)
    }
}

impl AircraftState {
    /// At the origin, upright, pointing north, without motion.
    pub open spec fn at_rest() -> AircraftState {
        AircraftState {
            pos_x: num(D0),
            pos_y: num(D0),
            pos_z: num(D0),
            u: num(D0),
            v: num(D0),
            w: num(D0),
            q0: num(D1),
            q1: num(D0),
            q2: num(D0),
            q3: num(D0),
            p: num(D0),
            q: num(D0),
            r: num(D0),
        }
    }

    /// The lift coefficient that carries the weight.
    pub open spec fn carrying_lift(
        config: AircraftConfig,
        atm: Atmosphere,
        speed: Binary64,
    ) -> Binary64 {
        config.mass.product(num(D9_80665)).quotient(atm.ram(speed).product(config.wing_area))
    }

    /// The lift coefficient that carries the weight.
    pub fn trim_lift(
        config: &AircraftConfig,
        atm: &Atmosphere,
        speed: Binary64,
    ) -> (r: Binary64)
        ensures
            r == AircraftState::carrying_lift(*config, *atm, speed),
    {
        config.mass.times(num(D9_80665)).over(
            atm.dynamic_pressure(speed).times(config.wing_area),
        )
    }

    /// The angle of attack at which lift carries the weight.
    pub open spec fn carrying_alpha(
        config: AircraftConfig,
        atm: Atmosphere,
        speed: Binary64,
    ) -> Binary64 {
        let cla_effective = config.cla.quotient(compressibility(atm.mach(speed)));
        AircraftState::carrying_lift(config, atm, speed).difference(config.cl0).quotient(
            cla_effective.larger(num(D1EM3)),
        )
    }

    /// The angle of attack at which lift carries the weight.
    pub fn trim_alpha(
        config: &AircraftConfig,
        atm: &Atmosphere,
        speed: Binary64,
    ) -> (r: Binary64)
        ensures
            r == AircraftState::carrying_alpha(*config, *atm, speed),
    {
        let cla_effective: Binary64 = config.cla.over(compressibility_factor(atm.mach_number(speed)));
        AircraftState::trim_lift(config, atm, speed).minus(config.cl0).over(
            cla_effective.max(num(D1EM3)),
        )
    }

    /// The thrust that balances drag.
    pub open spec fn balancing_thrust(
        config: AircraftConfig,
        atm: Atmosphere,
        speed: Binary64,
        cos_alpha: Binary64,
    ) -> Binary64 {
        let cl_req = AircraftState::carrying_lift(config, atm, speed);
        let cd_req = config.cd0.sum(config.induced_factor().product(cl_req).product(cl_req));
        atm.ram(speed).product(config.wing_area).product(cd_req).quotient(cos_alpha)
    }

    /// The thrust that balances drag.
    pub fn trim_thrust(
        config: &AircraftConfig,
        atm: &Atmosphere,
        speed: Binary64,
        cos_alpha: Binary64,
    ) -> (r: Binary64)
        ensures
            r == AircraftState::balancing_thrust(*config, *atm, speed, cos_alpha),
    {
        let cl_req: Binary64 = AircraftState::trim_lift(config, atm, speed);
        let cd_req: Binary64 = config.cd0.plus(config.induced_drag_k().times(cl_req).times(cl_req));
        atm.dynamic_pressure(speed).times(config.wing_area).times(cd_req).over(cos_alpha)
    }

    /// The elevator that balances the pitching moment.
    pub open spec fn balancing_elevator(
        config: AircraftConfig,
        atm: Atmosphere,
        speed: Binary64,
        cos_alpha: Binary64,
    ) -> Binary64 {
        let alpha = AircraftState::carrying_alpha(config, atm, speed);
        let thrust = AircraftState::balancing_thrust(config, atm, speed, cos_alpha);
        let cm_thrust = thrust.product(config.thrust_arm).quotient(
            atm.ram(speed).product(config.wing_area).product(config.chord).larger(num(D1EM6)),
        );
        config.cm0.sum(config.cma.product(alpha)).sum(cm_thrust).negated().quotient(config.cme)
    }

    /// The elevator that balances the pitching moment.
    pub fn trim_elevator(
        config: &AircraftConfig,
        atm: &Atmosphere,
        speed: Binary64,
        cos_alpha: Binary64,
    ) -> (r: Binary64)
        ensures
            r == AircraftState::balancing_elevator(*config, *atm, speed, cos_alpha),
    {
        let alpha: Binary64 = AircraftState::trim_alpha(config, atm, speed);
        let thrust: Binary64 = AircraftState::trim_thrust(config, atm, speed, cos_alpha);
        let cm_thrust: Binary64 = thrust.times(config.thrust_arm).over(
            atm.dynamic_pressure(speed).times(config.wing_area).times(config.chord).max(
                num(D1EM6),
            ),
        );
        config.cm0.plus(config.cma.times(alpha)).plus(cm_thrust).neg().over(config.cme)
    }

    /// The throttle that gives the thrust, within its range.
    pub open spec fn balancing_throttle(
        config: AircraftConfig,
        atm: Atmosphere,
        speed: Binary64,
        cos_alpha: Binary64,
    ) -> Binary64 {
        let density_factor = atm.density.quotient(crate::atmosphere::sea_density()).clamped(num(D0_1), num(D1_2));
        let static_ceiling = config.thrust_max.product(density_factor);
        let power_ceiling = config.power_max.product(density_factor).quotient(speed.larger(num(D6)));
        let thrust_avail = static_ceiling.smaller(power_ceiling);
        let thrust = AircraftState::balancing_thrust(config, atm, speed, cos_alpha);
        thrust.quotient(thrust_avail.larger(num(D1))).clamped(num(D0), num(D1))
    }

    /// The throttle that gives the thrust, within its range.
    pub fn trim_throttle(
        config: &AircraftConfig,
        atm: &Atmosphere,
        speed: Binary64,
        cos_alpha: Binary64,
    ) -> (r: Binary64)
        ensures
            r == AircraftState::balancing_throttle(*config, *atm, speed, cos_alpha),
    {
        let density_factor: Binary64 = atm.density.over(rho0_sl()).clamp(num(D0_1), num(D1_2));
        let static_ceiling: Binary64 = config.thrust_max.times(density_factor);
        let power_ceiling: Binary64 = config.power_max.times(density_factor).over(speed.max(num(D6)));
        let thrust_avail: Binary64 = static_ceiling.min(power_ceiling);
        let thrust: Binary64 = AircraftState::trim_thrust(config, atm, speed, cos_alpha);
        thrust.over(thrust_avail.max(num(D1))).clamp(num(D0), num(D1))
    }

    /// Level flight at an altitude and a speed, nose up by the angle of attack.
    pub open spec fn level_flight(
        config: AircraftConfig,
        atm: Atmosphere,
        altitude: Binary64,
        speed: Binary64,
        angles: TrimAngles,
    ) -> Trim {
        Trim {
            state: AircraftState {
                pos_x: num(D0),
                pos_y: num(D0),
                pos_z: altitude.negated(),
                u: speed.product(angles.cos),
                v: num(D0),
                w: speed.product(angles.sin),
                q0: angles.half_cos,
                q1: num(D0),
                q2: angles.half_sin.negated(),
                q3: num(D0),
                p: num(D0),
                q: num(D0),
                r: num(D0),
            },
            elevator: AircraftState::balancing_elevator(config, atm, speed, angles.cos),
            throttle: AircraftState::balancing_throttle(config, atm, speed, angles.cos),
        }
    }

    /// Level flight at an altitude and a speed, nose up by the angle of
    /// attack, and the controls that hold it.
    pub fn trimmed(
        config: &AircraftConfig,
        atm: &Atmosphere,
        altitude: Binary64,
        speed: Binary64,
        angles: TrimAngles,
    ) -> (r: Trim)
        ensures
            r == AircraftState::level_flight(*config, *atm, altitude, speed, angles),
    {
        Trim {
            state: AircraftState {
                pos_x: num(D0),
                pos_y: num(D0),
                pos_z: altitude.neg(),
                u: speed.times(angles.cos),
                v: num(D0),
                w: speed.times(angles.sin),
                q0: angles.half_cos,
                q1: num(D0),
                q2: angles.half_sin.neg(),
                q3: num(D0),
                p: num(D0),
                q: num(D0),
                r: num(D0),
            },
            elevator: AircraftState::trim_elevator(config, atm, speed, angles.cos),
            throttle: AircraftState::trim_throttle(config, atm, speed, angles.cos),
        }
    }

    /// Sets the state to level flight at an altitude and a speed and returns
    /// the elevator and the throttle that hold it. `angles` are those of the
    /// angle of attack of the trim, `atm` the air at the altitude.
    pub fn trim_level_flight(
        &mut self,
        config: &AircraftConfig,
        atm: &Atmosphere,
        altitude: Binary64,
        speed: Binary64,
        angles: TrimAngles,
    ) -> (r: (Binary64, Binary64))
        ensures
            ({
                let trim = AircraftState::level_flight(*config, *atm, altitude, speed, angles);
                *final(self) == trim.state && r == (trim.elevator, trim.throttle)
            }),
    {
        let trim: Trim = AircraftState::trimmed(config, atm, altitude, speed, angles);
        *self = trim.state;
        (trim.elevator, trim.throttle)
    }

    /// The velocity in body axes.
    pub open spec fn velocity(self) -> Vec3 {
        Vec3 { x: self.u, y: self.v, z: self.w }
    }

    /// The velocity in body axes.
    pub fn body_velocity(&self) -> (r: Vec3)
        ensures
            r == self.velocity(),
    {
        Vec3 { x: self.u, y: self.v, z: self.w }
    }

    /// The angular rates in body axes.
    pub open spec fn rates(self) -> Vec3 {
        Vec3 { x: self.p, y: self.q, z: self.r }
    }

    /// The angular rates in body axes.
    pub fn body_rates(&self) -> (r: Vec3)
        ensures
            r == self.rates(),
    {
        Vec3 { x: self.p, y: self.q, z: self.r }
    }

    /// The speed over ground.
    pub open spec fn speed(self) -> Binary64 {
        self.u.product(self.u).sum(self.v.product(self.v)).sum(self.w.product(self.w)).root()
    }

    /// The speed, the length of the velocity.
    pub fn airspeed(&self) -> (r: Binary64)
        ensures
            r == self.speed(),
    {
        self.u.times(self.u).plus(self.v.times(self.v)).plus(self.w.times(self.w)).sqrt()
    }

    /// Ordinate and abscissa of the angle of attack.
    pub open spec fn attack_terms(self) -> (Binary64, Binary64) {
        (self.w, self.u)
    }

    /// Ordinate and abscissa of the angle of attack.
    pub fn angle_of_attack_terms(&self) -> (r: (Binary64, Binary64))
        ensures
            r == self.attack_terms(),
    {
        (self.w, self.u)
    }

    /// Ordinate and abscissa of the sideslip angle.
    pub open spec fn slip_terms(self) -> (Binary64, Binary64) {
        (self.v, self.u.larger(num(D1EM6)))
    }

    /// Ordinate and abscissa of the sideslip angle.
    pub fn sideslip_angle_terms(&self) -> (r: (Binary64, Binary64))
        ensures
            r == self.slip_terms(),
    {
        (self.v, self.u.max(num(D1EM6)))
    }

    /// The state with its quaternion scaled to unit length, where it has a length.
    pub open spec fn straightened(self) -> AircraftState {
        let norm = self.q0.product(self.q0).sum(self.q1.product(self.q1)).sum(self.q2.product(self.q2)).sum(
            self.q3.product(self.q3),
        ).root();
        let inv = num(D1).quotient(norm);
        if num(D1EM12).below(norm) {
            AircraftState {
                q0: self.q0.product(inv),
                q1: self.q1.product(inv),
                q2: self.q2.product(inv),
                q3: self.q3.product(inv),
                ..self
            }
        } else {
            self
        }
    }

    /// The state with its quaternion scaled to unit length, where it has a
    /// length.
    pub fn with_unit_quaternion(&self) -> (r: AircraftState)
        ensures
            r == self.straightened(),
    {
        let norm: Binary64 = self.q0.times(self.q0).plus(self.q1.times(self.q1)).plus(self.q2.times(self.q2)).plus(
            self.q3.times(self.q3),
        ).sqrt();
        let inv: Binary64 = num(D1).over(norm);
        if norm.gt(num(D1EM12)) {
            AircraftState {
                q0: self.q0.times(inv),
                q1: self.q1.times(inv),
                q2: self.q2.times(inv),
                q3: self.q3.times(inv),
                ..*self
            }
        } else {
            *self
        }
    }

    /// Scales the quaternion to unit length, where it has a length.
    pub fn normalize_quaternion(&mut self)
        ensures
            *final(self) == old(self).straightened(),
    {
        *self = self.with_unit_quaternion();
    }

    /// The rotation from earth to body.
    pub open spec fn attitude(self) -> Rotation {
        Rotation::normalized(self.q0, self.q1, self.q2, self.q3)
    }

    /// The rotation from earth to body.
    pub fn rotation_earth_to_body(&self) -> (r: Rotation)
        ensures
            r == self.attitude(),
    {
        Rotation::new_normalize(self.q0, self.q1, self.q2, self.q3)
    }

    /// The observation: position north and down, velocity, quaternion, rates.
    pub open spec fn observed(self) -> Seq<Binary64> {
        seq![
            self.pos_x,
            self.pos_z,
            self.u,
            self.v,
            self.w,
            self.q0,
            self.q1,
            self.q2,
            self.q3,
            self.p,
            self.q,
            self.r,
        ]
    }

    /// The observation: position north and down, velocity, quaternion, rates.
    pub fn to_observation_array(&self) -> (r: [Binary64; 12])
        ensures
            r@ =~= self.observed(),
    {
        [
            self.pos_x,
            self.pos_z,
            self.u,
            self.v,
            self.w,
            self.q0,
            self.q1,
            self.q2,
            self.q3,
            self.p,
            self.q,
            self.r,
        ]
    }

    /// The altitude above the origin.
    pub open spec fn height(self) -> Binary64 {
        self.pos_z.negated()
    }

    /// The altitude above the origin.
    pub fn altitude(&self) -> (r: Binary64)
        ensures
            r == self.height(),
    {
        self.pos_z.neg()
    }

    /// The body axes in earth axes.
    pub open spec fn axes(self) -> BodyAxes {
        let back = self.attitude().inverted();
        BodyAxes {
            forward: back.rotated(Vec3 { x: num(D1), y: num(D0), z: num(D0) }),
            right: back.rotated(Vec3 { x: num(D0), y: num(D1), z: num(D0) }),
            down: back.rotated(Vec3 { x: num(D0), y: num(D0), z: num(D1) }),
        }
    }

    /// The body axes in earth axes.
    pub fn body_axes_in_earth(&self) -> (r: BodyAxes)
        ensures
            r == self.axes(),
    {
        let back: Rotation = self.rotation_earth_to_body().inverse();
        BodyAxes {
            forward: back.transform_vector(Vec3 { x: num(D1), y: num(D0), z: num(D0) }),
            right: back.transform_vector(Vec3 { x: num(D0), y: num(D1), z: num(D0) }),
            down: back.transform_vector(Vec3 { x: num(D0), y: num(D0), z: num(D1) }),
        }
    }

    /// The numbers from which roll, pitch and yaw follow.
    pub open spec fn attitude_terms(self) -> AttitudeTerms {
        let a = self.axes();
        AttitudeTerms {
            roll_y: a.right.z,
            roll_x: a.down.z,
            pitch_sine: a.forward.z.negated().clamped(num(M1), num(D1)),
            yaw_y: a.forward.y,
            yaw_x: a.forward.x,
        }
    }

    /// The numbers from which roll, pitch and yaw follow.
    pub fn euler_angle_terms(&self) -> (r: AttitudeTerms)
        ensures
            r == self.attitude_terms(),
    {
        let a: BodyAxes = self.body_axes_in_earth();
        AttitudeTerms {
            roll_y: a.right.z,
            roll_x: a.down.z,
            pitch_sine: a.forward.z.neg().clamp(num(M1), num(D1)),
            yaw_y: a.forward.y,
            yaw_x: a.forward.x,
        }
    }

    /// The velocity in earth axes.
    pub open spec fn ground_velocity(self) -> Vec3 {
        self.attitude().inverted().rotated(self.velocity())
    }

    /// The velocity in earth axes.
    pub fn earth_velocity(&self) -> (r: Vec3)
        ensures
            r == self.ground_velocity(),
    {
        self.rotation_earth_to_body().inverse().transform_vector(self.body_velocity())
    }

    /// Rate of climb and ground speed: ordinate and abscissa of the climb angle.
    pub open spec fn path_terms(self) -> (Binary64, Binary64) {
        let earth = self.ground_velocity();
        (
            earth.z.negated(),
            earth.x.product(earth.x).sum(earth.y.product(earth.y)).root().larger(num(D1EM6)),
        )
    }

    /// Rate of climb and ground speed: ordinate and abscissa of the climb
    /// angle.
    pub fn flight_path_angle_terms(&self) -> (r: (Binary64, Binary64))
        ensures
            r == self.path_terms(),
    {
        let earth: Vec3 = self.earth_velocity();
        (
            earth.z.neg(),
            earth.x.times(earth.x).plus(earth.y.times(earth.y)).sqrt().max(num(D1EM6)),
        )
    }

    /// The velocity relative to the air, in body axes.
    pub open spec fn relative_velocity(self, wind_earth: Vec3) -> Vec3 {
        self.velocity().difference(self.attitude().rotated(wind_earth))
    }

    /// The velocity relative to the air, in body axes, where the wind is given
    /// in earth axes.
    pub fn air_velocity(&self, wind_earth: Vec3) -> (r: Vec3)
        ensures
            r == self.relative_velocity(wind_earth),
    {
        self.body_velocity().minus(self.rotation_earth_to_body().transform_vector(wind_earth))
    }

    /// The speed relative to the air.
    pub open spec fn relative_speed(self, wind_earth: Vec3) -> Binary64 {
        self.relative_velocity(wind_earth).length()
    }

    /// The speed relative to the air.
    pub fn true_airspeed(&self, wind_earth: Vec3) -> (r: Binary64)
        ensures
            r == self.relative_speed(wind_earth),
    {
        self.air_velocity(wind_earth).norm()
    }
}

/// A trim sits at the given altitude without rates and without sideslip, and
/// its throttle is a fraction or not a number.
pub proof fn trims_are_steady(
    config: AircraftConfig,
    atm: Atmosphere,
    altitude: Binary64,
    speed: Binary64,
    angles: TrimAngles,
)
    ensures
        ({
            let trim = AircraftState::level_flight(config, atm, altitude, speed, angles);
            &&& trim.state.height() == altitude
            &&& trim.state.rates() == Vec3::zero()
            &&& trim.state.v == num(D0)
            &&& trim.throttle.nan() || crate::rounding::is_fraction(trim.throttle)
        }),
{
    crate::rotation::double_negation(altitude);
}

/// Scaling the quaternion leaves position, velocity and rates alone.
pub proof fn straightening_turns_only_the_quaternion(s: AircraftState)
    ensures
        ({
            let t = s.straightened();
            &&& (t.pos_x, t.pos_y, t.pos_z) == (s.pos_x, s.pos_y, s.pos_z)
            &&& t.velocity() == s.velocity()
            &&& t.rates() == s.rates()
        }),
{
}

/// In still air the speed relative to the air is the speed over the ground.
pub proof fn still_air_does_not_move(s: AircraftState)
    requires
        crate::vector::is_finite(s.velocity()),
        s.attitude().w.finite(),
        crate::vector::is_finite(s.attitude().imaginary()),
    ensures
        s.relative_speed(Vec3::zero()) == s.speed(),
{
    let drift = s.attitude().rotated(Vec3::zero());
    crate::rotation::rest_stays_at_rest(s.attitude(), Vec3::zero());
    lemma_same_square(s.u, drift.x);
    lemma_same_square(s.v, drift.y);
    lemma_same_square(s.w, drift.z);
}

proof fn lemma_same_square(a: Binary64, zero: Binary64)
    requires
        a.finite(),
        zero.zero(),
    ensures
        a.difference(zero).product(a.difference(zero)) == a.product(a),
{
    crate::rounding::zeros_take_nothing_away(a, zero);
    if a.zero() {
        let d = a.difference(zero);
        crate::rounding::zero_absorbs(a, a);
        crate::rounding::zero_absorbs(d, d);
    }
}

/// The attitude of a state that is turned about one axis only, or not at all.
proof fn lemma_attitude_signs(s: AircraftState)
    requires
        s.q0.finite() && s.q1.finite() && s.q2.finite() && s.q3.finite(),
        attitude_length(s).finite() && num(D0).below(attitude_length(s)),
    ensures
        ({
            let r = s.attitude().inverted();
            &&& num(D0).not_above(s.q0) ==> num(D0).not_above(r.w)
            &&& crate::rounding::like_product(r.i, s.q1.negated(), num(D1))
            &&& crate::rounding::like_product(r.j, s.q2.negated(), num(D1))
            &&& crate::rounding::like_product(r.k, s.q3.negated(), num(D1))
        }),
{
    let n = attitude_length(s);
    crate::rounding::quotients_are_numbers(s.q0, n);
    crate::rounding::quotients_are_numbers(s.q1, n);
    crate::rounding::quotients_are_numbers(s.q2, n);
    crate::rounding::quotients_are_numbers(s.q3, n);
}

/// The length of the quaternion of a state.
pub open spec fn attitude_length(s: AircraftState) -> Binary64 {
    s.q1.product(s.q1).sum(s.q3.product(s.q3)).sum(
        s.q2.product(s.q2).sum(s.q0.product(s.q0)),
    ).root()
}

/// Whether the quaternion of a state has a length and its attitude turns a
/// vector within finite numbers.
pub open spec fn is_oriented(s: AircraftState, v: Vec3) -> bool {
    &&& s.q0.finite() && s.q1.finite() && s.q2.finite() && s.q3.finite()
    &&& attitude_length(s).finite() && num(D0).below(attitude_length(s))
    &&& num(D0).not_above(s.q0)
    &&& crate::rotation::turns_finitely(s.attitude().inverted(), v)
}

/// An aircraft that heads east of north flies east, one that heads west of it
/// flies west: in level flight straight ahead the velocity to the east has the
/// sign of minus the last entry of the quaternion, which leads from earth to
/// body.
pub proof fn level_aircraft_fly_where_they_head(s: AircraftState)
    requires
        is_oriented(s, s.velocity()),
        s.q1.zero() && s.q2.zero(),
        s.v.zero() && s.w.zero(),
    ensures
        crate::rounding::like_product(s.ground_velocity().y, s.q3.negated(), s.u),
{
    lemma_attitude_signs(s);
    crate::rotation::turns_about_the_third_axis(s.attitude().inverted(), s.velocity());
}

/// An aircraft with its nose up climbs where it flies straight ahead: down has
/// the sign of the third entry of the quaternion.
pub proof fn raised_noses_climb(s: AircraftState)
    requires
        is_oriented(s, s.velocity()),
        s.q1.zero() && s.q3.zero(),
        s.v.zero() && s.w.zero(),
    ensures
        crate::rounding::like_product(s.ground_velocity().z, s.q2, s.u),
        crate::rounding::like_product(s.path_terms().0, s.q2.negated(), s.u),
{
    lemma_attitude_signs(s);
    crate::rotation::turns_about_the_second_axis(s.attitude().inverted(), s.velocity());
}

/// A banked aircraft that slips to the right slips down where its right wing is
/// down: that is where the second entry of the quaternion is negative.
pub proof fn lowered_wings_slip_down(s: AircraftState)
    requires
        is_oriented(s, s.velocity()),
        s.q2.zero() && s.q3.zero(),
        s.u.zero() && s.w.zero(),
    ensures
        crate::rounding::like_product(s.ground_velocity().z, s.q1.negated(), s.v),
{
    lemma_attitude_signs(s);
    crate::rotation::turns_about_the_first_axis(s.attitude().inverted(), s.velocity());
}

/// Upright and pointing north the axes of the body are those of the earth: the
/// velocity over the ground is that along the body, and the velocity relative to
/// the air is what the wind leaves of it.
pub proof fn upright_axes_are_those_of_the_earth(s: AircraftState, wind: Vec3)
    requires
        s.q0.finite() && num(D0).below(s.q0),
        s.q1.zero() && s.q2.zero() && s.q3.zero(),
        attitude_length(s).finite() && num(D0).below(attitude_length(s)),
        s.attitude().w.finite(),
        crate::vector::is_finite(s.velocity()),
        crate::vector::is_finite(wind),
    ensures
        s.ground_velocity().x.same(s.u),
        s.ground_velocity().y.same(s.v),
        s.ground_velocity().z.same(s.w),
        s.relative_velocity(wind).x.same(s.u.difference(wind.x)),
        s.relative_velocity(wind).y.same(s.v.difference(wind.y)),
        s.relative_velocity(wind).z.same(s.w.difference(wind.z)),
{
    lemma_attitude_signs(s);
    crate::rotation::rest_turns_nothing_round(s.attitude().inverted(), s.velocity());
    crate::rotation::rest_turns_nothing_round(s.attitude(), wind);
    let d = s.attitude().rotated(wind);
    lemma_same_difference(s.u, wind.x, d.x);
    lemma_same_difference(s.v, wind.y, d.y);
    lemma_same_difference(s.w, wind.z, d.z);
}

proof fn lemma_same_difference(a: Binary64, b: Binary64, c: Binary64)
    requires
        a.finite() && b.finite(),
        c.same(b),
    ensures
        a.difference(c).same(a.difference(b)),
{
    crate::rounding::ranks_order_as_values(b, c);
    crate::rounding::sums_are_numbers(a, b.negated());
    crate::rounding::sums_are_numbers(a, c.negated());
    crate::rounding::sums_of_ordered_terms(a, a, c.negated(), b.negated());
    crate::rounding::sums_of_ordered_terms(a, a, b.negated(), c.negated());
}

/// The altitude is against the third axis of the earth, and the angles of
/// attack and sideslip have the signs of the motion down and to the right.
pub proof fn altitude_is_up(s: AircraftState, t: AircraftState)
    requires
        s.pos_z.finite() && t.pos_z.finite(),
        s.pos_z.not_above(t.pos_z),
    ensures
        t.height().not_above(s.height()),
        num(D0).not_above(s.pos_z) ==> s.height().not_above(num(D0)),
        s.attack_terms().0.same(s.w) || s.w.nan(),
        s.slip_terms().0.same(s.v) || s.v.nan(),
{
}

/// Upright and pointing north an aircraft sees vectors of the earth as they are.
pub proof fn upright_aircraft_see_the_earth(s: AircraftState, v: Vec3)
    requires
        s.q0.finite(),
        s.q1.zero() && s.q2.zero() && s.q3.zero(),
        attitude_length(s).finite() && num(D0).below(attitude_length(s)),
        s.attitude().w.finite(),
        crate::vector::is_finite(v),
    ensures
        s.attitude().rotated(v).x.same(v.x),
        s.attitude().rotated(v).y.same(v.y),
        s.attitude().rotated(v).z.same(v.z),
{
    lemma_attitude_signs(s);
    crate::rotation::rest_turns_nothing_round(s.attitude(), v);
}

/// The earth turns against the aircraft: what is ahead in the north lies to the
/// left where the aircraft heads east of it, and below where its nose is up.
pub proof fn the_earth_turns_against_the_aircraft(s: AircraftState, v: Vec3)
    requires
        s.q0.finite() && s.q1.finite() && s.q2.finite() && s.q3.finite(),
        attitude_length(s).finite() && num(D0).below(attitude_length(s)),
        num(D0).not_above(s.q0),
        crate::rotation::turns_finitely(s.attitude(), v),
        v.y.zero() && v.z.zero(),
    ensures
        s.q1.zero() && s.q2.zero() ==> crate::rounding::like_product(
            s.attitude().rotated(v).y,
            s.q3,
            v.x,
        ),
        s.q1.zero() && s.q3.zero() ==> crate::rounding::like_product(
            s.attitude().rotated(v).z,
            s.q2.negated(),
            v.x,
        ),
{
    lemma_attitude_signs(s);
    if s.q1.zero() && s.q2.zero() {
        crate::rotation::turns_about_the_third_axis(s.attitude(), v);
    }
    if s.q1.zero() && s.q3.zero() {
        crate::rotation::turns_about_the_second_axis(s.attitude(), v);
    }
}

/// The rotation of a state has, entry by entry, the signs of its quaternion.
pub proof fn attitudes_keep_signs(s: AircraftState)
    requires
        s.q0.finite() && s.q1.finite() && s.q2.finite() && s.q3.finite(),
        attitude_length(s).finite() && num(D0).below(attitude_length(s)),
    ensures
        num(D0).not_above(s.q0) ==> num(D0).not_above(s.attitude().w),
        crate::rounding::like_product(s.attitude().i, s.q1, num(D1)),
        crate::rounding::like_product(s.attitude().j, s.q2, num(D1)),
        crate::rounding::like_product(s.attitude().k, s.q3, num(D1)),
{
    lemma_attitude_signs(s);
}

/// A trimmed aircraft stands at its altitude and flies forward; the more its
/// nose is up, the more the air comes from below.
pub proof fn trims_fly_forward(
    config: AircraftConfig,
    atm: Atmosphere,
    altitude: Binary64,
    speed: Binary64,
    angles: TrimAngles,
)
    requires
        altitude.finite(),
        speed.finite() && num(D0).not_above(speed),
        angles.cos.finite() && angles.sin.finite(),
    ensures
        ({
            let s = AircraftState::level_flight(config, atm, altitude, speed, angles).state;
            &&& s.height() == altitude
            &&& crate::rounding::like_product(s.u, speed, angles.cos)
            &&& crate::rounding::like_product(s.w, speed, angles.sin)
            &&& s.q2.negative() != angles.half_sin.negative()
            &&& s.v.zero() && s.q1.zero() && s.q3.zero()
        }),
{
    crate::rounding::products_have_their_signs(speed, angles.cos);
    crate::rounding::products_have_their_signs(speed, angles.sin);
    crate::rotation::double_negation(altitude);
}

/// More weight takes more lift to carry, and more speed takes less of a
/// coefficient.
pub proof fn weight_takes_lift(
    light: AircraftConfig,
    heavy: AircraftConfig,
    atm: Atmosphere,
    slow: Binary64,
    fast: Binary64,
)
    requires
        light.wing_area == heavy.wing_area,
        light.mass.product(num(D9_80665)).finite() && heavy.mass.product(num(D9_80665)).finite(),
        num(D0).not_above(light.mass.product(num(D9_80665))),
        light.mass.product(num(D9_80665)).not_above(heavy.mass.product(num(D9_80665))),
        atm.ram(slow).product(light.wing_area).finite(),
        atm.ram(fast).product(light.wing_area).finite(),
        num(D0).below(atm.ram(slow).product(light.wing_area)),
        atm.ram(slow).product(light.wing_area).not_above(
            atm.ram(fast).product(light.wing_area),
        ),
    ensures
        num(D0).not_above(AircraftState::carrying_lift(light, atm, slow)),
        AircraftState::carrying_lift(light, atm, slow).not_above(
            AircraftState::carrying_lift(heavy, atm, slow),
        ),
        AircraftState::carrying_lift(light, atm, fast).not_above(
            AircraftState::carrying_lift(light, atm, slow),
        ),
{
    let (l, h) = (light.mass.product(num(D9_80665)), heavy.mass.product(num(D9_80665)));
    let (q, r) = (atm.ram(slow).product(light.wing_area), atm.ram(fast).product(light.wing_area));
    crate::rounding::quotients_keep_order(l, h, q);
    crate::rounding::larger_divisors_give_less(l, q, r);
}

/// Who needs more lift raises the nose more.
pub proof fn lift_takes_an_angle(
    light: AircraftConfig,
    heavy: AircraftConfig,
    atm: Atmosphere,
    speed: Binary64,
)
    requires
        light.cl0 == heavy.cl0 && light.cla == heavy.cla,
        light.cl0.finite(),
        AircraftState::carrying_lift(light, atm, speed).finite(),
        AircraftState::carrying_lift(heavy, atm, speed).finite(),
        AircraftState::carrying_lift(light, atm, speed).not_above(
            AircraftState::carrying_lift(heavy, atm, speed),
        ),
        light.cla.quotient(compressibility(atm.mach(speed))).finite(),
    ensures
        AircraftState::carrying_alpha(light, atm, speed).not_above(
            AircraftState::carrying_alpha(heavy, atm, speed),
        ),
        AircraftState::carrying_lift(light, atm, speed) == light.cl0
            ==> AircraftState::carrying_alpha(light, atm, speed).zero(),
{
    let (a, b) = (
        AircraftState::carrying_lift(light, atm, speed),
        AircraftState::carrying_lift(heavy, atm, speed),
    );
    let k = light.cla.quotient(compressibility(atm.mach(speed))).larger(num(D1EM3));
    crate::rounding::sums_are_numbers(a, light.cl0.negated());
    crate::rounding::sums_are_numbers(b, light.cl0.negated());
    crate::rounding::sums_keep_order(a, b, light.cl0.negated());
    crate::rounding::divisors_keep_order(a.difference(light.cl0), b.difference(light.cl0), k);
    crate::rounding::differences_cancel(light.cl0);
}

/// The trimmed throttle is a fraction.
pub proof fn trimmed_throttles_are_fractions(
    config: AircraftConfig,
    atm: Atmosphere,
    speed: Binary64,
    cosine: Binary64,
)
    requires
        !AircraftState::balancing_throttle(config, atm, speed, cosine).nan(),
    ensures
        crate::rounding::is_fraction(
            AircraftState::balancing_throttle(config, atm, speed, cosine),
        ),
{
}

/// The trimmed elevator holds the nose against the moment that is left: with
/// the thrust through the centre, where an elevator up gives a positive moment
/// it is against that moment, and with it where an elevator up gives a negative
/// one.
pub proof fn trimmed_elevators_hold_the_nose(
    config: AircraftConfig,
    atm: Atmosphere,
    speed: Binary64,
    cosine: Binary64,
)
    requires
        config.thrust_arm.zero(),
        AircraftState::balancing_thrust(config, atm, speed, cosine).finite(),
        atm.ram(speed).product(config.wing_area).product(config.chord).finite(),
        config.cme.finite() && !config.cme.zero(),
        config.cm0.sum(
            config.cma.product(AircraftState::carrying_alpha(config, atm, speed)),
        ).finite(),
    ensures
        ({
            let left = config.cm0.sum(
                config.cma.product(AircraftState::carrying_alpha(config, atm, speed)),
            );
            let e = AircraftState::balancing_elevator(config, atm, speed, cosine);
            &&& !e.nan()
            &&& left.zero() ==> e.zero()
            &&& !e.zero() ==> e.negative() == (left.negative() == config.cme.negative())
        }),
{
    let left = config.cm0.sum(
        config.cma.product(AircraftState::carrying_alpha(config, atm, speed)),
    );
    let t = AircraftState::balancing_thrust(config, atm, speed, cosine);
    let d = atm.ram(speed).product(config.wing_area).product(config.chord).larger(num(D1EM6));
    crate::rounding::zero_absorbs(config.thrust_arm, t);
    let c = t.product(config.thrust_arm).quotient(d);
    crate::rounding::quotients_are_numbers(t.product(config.thrust_arm), d);
    assert(c.zero());
    crate::rounding::zeros_keep_signs(left, c);
    let m = left.sum(c).negated();
    crate::rounding::quotients_are_numbers(m, config.cme);
}

} // verus!
