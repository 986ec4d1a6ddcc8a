//! What is set in the wind tunnel.
use crate::binary64::Binary64;
use crate::literal::{
    num, D0, D0_017453292519943295, D0_35, D1, D120, D360, D57_29577951308232, M0_35, M1,
};
use crate::single::{sgl, Single, Vector};
use vstd::prelude::*;

verus! {

/// The settings of the wind tunnel. Angles are in radians but for the flaps.
#[derive(Clone, Copy, Debug, PartialEq, Eq, Structural)]
pub struct Settings {
    pub wind_speed: Single,
    pub wind_direction: Single,
    pub pitch: Single,
    pub roll: Single,
    pub yaw: Single,
    pub aileron: Single,
    pub rudder: Single,
    pub elevator: Single,
    pub flaps_deg: Single,
    pub throttle: Binary64,
    pub throttle_split: Binary64,
}

/// Degrees as radians.
pub open spec fn radians(degrees: Single) -> Single {
    degrees.product(sgl(D0_017453292519943295))
}

/// Degrees as radians.
pub fn to_radians(degrees: Single) -> (r: Single)
    ensures
        r == radians(degrees),
{
    degrees.times(sgl(D0_017453292519943295))
}

/// Radians as degrees.
pub open spec fn degrees(radians: Single) -> Single {
    radians.product(sgl(D57_29577951308232))
}

/// Radians as degrees.
pub fn to_degrees(radians: Single) -> (r: Single)
    ensures
        r == degrees(radians),
{
    radians.times(sgl(D57_29577951308232))
}

/// The deflection of a surface for an angle in degrees, within its reach.
pub open spec fn reached(degrees: Single) -> Single {
    radians(degrees).clamped(sgl(M0_35), sgl(D0_35))
}

/// The deflection of a surface for an angle in degrees, within its reach.
pub fn deflection(degrees: Single) -> (r: Single)
    ensures
        r == reached(degrees),
{
    proof {
        crate::single::limits_are_ordered();
    }
    to_radians(degrees).clamp(sgl(M0_35), sgl(D0_35))
}

/// The direction in which the wind blows, by sine and cosine of its heading.
pub open spec fn wind_towards(sine: Single, cosine: Single) -> Vector {
    Vector { x: cosine.negated(), y: sgl(D0), z: sine }
}

/// The direction in which the wind blows, by sine and cosine of its heading.
pub fn wind_velocity(sine: Single, cosine: Single) -> (r: Vector)
    ensures
        r == wind_towards(sine, cosine),
{
    Vector { x: cosine.neg(), y: sgl(D0), z: sine }
}

impl Settings {
    /// Still air, everything at rest.
    pub fn new() -> (r: Self)
        ensures
            r == (Settings {
                wind_speed: sgl(D0),
                wind_direction: sgl(D0),
                pitch: sgl(D0),
                roll: sgl(D0),
                yaw: sgl(D0),
                aileron: sgl(D0),
                rudder: sgl(D0),
                elevator: sgl(D0),
                flaps_deg: sgl(D0),
                throttle: num(D0),
                throttle_split: num(D0),
            }),
    {
        let zero: Single = sgl(D0);
        Settings {
            wind_speed: zero,
            wind_direction: zero,
            pitch: zero,
            roll: zero,
            yaw: zero,
            aileron: zero,
            rudder: zero,
            elevator: zero,
            flaps_deg: zero,
            throttle: num(D0),
            throttle_split: num(D0),
        }
    }

    /// Sets the wind speed (m/s), within what the tunnel can blow.
    pub fn set_wind_speed(&mut self, ms: Single)
        ensures
            *final(self) == (Settings {
                wind_speed: ms.clamped(sgl(D1), sgl(D120)),
                ..*old(self)
            }),
    {
        proof {
            crate::single::limits_are_ordered();
        }
        self.wind_speed = ms.clamp(sgl(D1), sgl(D120));
    }

    /// Sets the heading of the wind (degrees).
    pub fn set_wind_direction(&mut self, degrees: Single)
        ensures
            *final(self) == (Settings { wind_direction: radians(degrees), ..*old(self) }),
    {
        self.wind_direction = to_radians(degrees);
    }

    /// Sets the attitude of the aircraft (degrees).
    pub fn set_attitude(&mut self, pitch_deg: Single, roll_deg: Single, yaw_deg: Single)
        ensures
            *final(self) == (Settings {
                pitch: radians(pitch_deg),
                roll: radians(roll_deg),
                yaw: radians(yaw_deg),
                ..*old(self)
            }),
    {
        self.pitch = to_radians(pitch_deg);
        self.roll = to_radians(roll_deg);
        self.yaw = to_radians(yaw_deg);
    }

    /// Sets the control surfaces (degrees), within their reach.
    pub fn set_controls(&mut self, aileron_deg: Single, rudder_deg: Single, elevator_deg: Single)
        ensures
            *final(self) == (Settings {
                aileron: reached(aileron_deg),
                rudder: reached(rudder_deg),
                elevator: reached(elevator_deg),
                ..*old(self)
            }),
    {
        self.aileron = deflection(aileron_deg);
        self.rudder = deflection(rudder_deg);
        self.elevator = deflection(elevator_deg);
    }

    /// Sets the flaps (degrees).
    pub fn set_flaps_deg(&mut self, degrees: Single)
        ensures
            *final(self) == (Settings { flaps_deg: degrees, ..*old(self) }),
    {
        self.flaps_deg = degrees;
    }

    /// Sets the throttle, from zero to one.
    pub fn set_throttle(&mut self, throttle: Binary64)
        ensures
            *final(self) == (Settings {
                throttle: throttle.clamped(num(D0), num(D1)),
                ..*old(self)
            }),
    {
        self.throttle = throttle.clamp(num(D0), num(D1));
    }

    /// Sets the difference between the engines.
    pub fn set_throttle_split(&mut self, split: Binary64)
        ensures
            *final(self) == (Settings {
                throttle_split: split.clamped(num(M1), num(D1)),
                ..*old(self)
            }),
    {
        self.throttle_split = split.clamp(num(M1), num(D1));
    }

    /// The settings as they are shown.
    pub open spec fn shown(self) -> Seq<Binary64> {
        seq![
            self.wind_speed.wide,
            degrees(self.wind_direction).euclidean_remainder(sgl(D360)).wide,
            degrees(self.pitch).wide,
            degrees(self.roll).wide,
            degrees(self.yaw).wide,
            degrees(self.aileron).wide,
            degrees(self.rudder).wide,
            degrees(self.elevator).wide,
            self.flaps_deg.wide,
        ]
    }

    /// The settings as they are shown: speed of the wind, its heading within
    /// a full turn, attitude and surfaces in degrees.
    pub fn get_settings(&self) -> (r: [Binary64; 9])
        ensures
            r@ == self.shown(),
    {
        let r: [Binary64; 9] = [
            self.wind_speed.wide,
            to_degrees(self.wind_direction).rem_euclid(sgl(D360)).wide,
            to_degrees(self.pitch).wide,
            to_degrees(self.roll).wide,
            to_degrees(self.yaw).wide,
            to_degrees(self.aileron).wide,
            to_degrees(self.rudder).wide,
            to_degrees(self.elevator).wide,
            self.flaps_deg.wide,
        ];
        proof {
            assert(r@ =~= self.shown());
        }
        r
    }
}

/// The surfaces stay within their reach, whatever is asked.
pub proof fn surfaces_stay_within_reach(degrees: Single)
    requires
        !radians(degrees).wide.nan(),
    ensures
        sgl(M0_35).not_above(reached(degrees)),
        reached(degrees).not_above(sgl(D0_35)),
{
    crate::single::limits_are_ordered();
}

/// Angles keep their sign and their order between degrees and radians, and what
/// is shown is larger in degrees.
pub proof fn angles_keep_their_sense(a: Single, b: Single)
    requires
        a.wide.finite() && b.wide.finite(),
        a.not_above(b),
    ensures
        radians(a).not_above(radians(b)),
        degrees(a).not_above(degrees(b)),
        crate::single::like_product(radians(a), a, sgl(D1)),
        crate::single::like_product(degrees(a), a, sgl(D1)),
        reached(a).not_above(reached(b)),
        sgl(D0).not_above(a) ==> sgl(D0).not_above(reached(a)),
        a.not_above(sgl(D0)) ==> reached(a).not_above(sgl(D0)),
{
    reveal(Binary64::narrowed);
    let (k, l) = (sgl(D0_017453292519943295), sgl(D57_29577951308232));
    crate::single::products_follow_their_factors(k, a, b);
    crate::single::products_follow_their_factors(l, a, b);
    crate::single::products_follow_their_factors(k, b, b);
    crate::single::limits_are_ordered();
    crate::single::zero_is_held();
}

/// The wind blows against the first axis where the cosine of its heading is
/// positive, and along the third where the sine is.
pub proof fn winds_turn_with_their_heading(sine: Single, cosine: Single)
    requires
        !sine.wide.nan() && !cosine.wide.nan(),
    ensures
        wind_towards(sine, cosine).x.wide.negative() != cosine.wide.negative(),
        wind_towards(sine, cosine).z == sine,
        wind_towards(sine, cosine).y.wide.zero(),
{
    crate::single::zero_is_held();
}

} // verus!
