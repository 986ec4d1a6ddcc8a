//! The cockpit of the interactive simulation: controls, modes, telemetry.
use crate::aero::ControlInputs;
use crate::atmosphere::Atmosphere;
use crate::avionics::bus::AvionicsBus;
use crate::binary64::Binary64;
use crate::literal::{
    num, D0, D0_003, D0_017453292519943295, D0_1, D0_12, D0_15, D0_35, D0_45, D0_6, D1, D100,
    D1000, D14_5, D1EM4, D1_94384, D266_5, D360, D3_28084, D533, D57_29577951308232, D60, M0_12, M0_15,
    M0_35, M0_75, M1,
};
use crate::state::AircraftState;
use crate::vector::Vec3;
use crate::wind::{TurbulenceIntensity, WindConfig, DEFAULT_WIND_SEED};
use vstd::prelude::*;
use vstd::string::*;

verus! {

/// The directories in which a file is looked for, in order.
pub const SEARCH_PATHS: usize = 6;

/// The place of a file in a directory; the empty directory is the present one.
pub open spec fn place_in(dir: Seq<char>, file: Seq<char>) -> Seq<char> {
    if dir.len() == 0 {
        file
    } else {
        dir + "/"@ + file
    }
}

/// The directory of a search.
pub open spec fn search_dir(i: int) -> Seq<char> {
    if i == 0 {
        ""@
    } else if i == 1 {
        ".."@
    } else if i == 2 {
        "../.."@
    } else if i == 3 {
        "../../.."@
    } else if i == 4 {
        "../../..."@
    } else {
        "../../../.."@
    }
}

fn directory(i: usize) -> (r: &'static str)
    ensures
        r@ == search_dir(i as int),
{
    if i == 0 {
        ""
    } else if i == 1 {
        ".."
    } else if i == 2 {
        "../.."
    } else if i == 3 {
        "../../.."
    } else if i == 4 {
        "../../..."
    } else {
        "../../../.."
    }
}

/// The places at which a file is looked for, in order.
pub fn config_candidates(file_name: &str) -> (r: Vec<String>)
    ensures
        r@.len() == SEARCH_PATHS,
        forall|i: int|
            0 <= i < SEARCH_PATHS ==> (#[trigger] r@[i])@ == place_in(search_dir(i), file_name@),
{
    let mut r: Vec<String> = Vec::new();
    let mut i: usize = 0;
    while i < SEARCH_PATHS
        invariant
            i <= SEARCH_PATHS,
            r@.len() == i,
            forall|k: int|
                0 <= k < i ==> (#[trigger] r@[k])@ == place_in(search_dir(k), file_name@),
        decreases SEARCH_PATHS - i,
    {
        let dir: &str = directory(i);
        if dir.is_empty() {
            r.push(file_name.to_owned());
        } else {
            r.push(dir.to_owned().concat("/").concat(file_name));
        }
        i += 1;
    }
    r
}

/// The wind of a simulation by its settings: speed (m/s), the heading towards
/// which it blows (degrees), shear, and the name of the turbulence.
pub fn wind_from_settings(
    speed: Binary64,
    dir_deg: Binary64,
    shear: bool,
    turbulence: &str,
) -> (r: WindConfig)
    ensures
        r == (WindConfig {
            wind_speed: speed,
            wind_direction: dir_deg.product(num(D0_017453292519943295)),
            wind_shear: shear,
            turbulence: TurbulenceIntensity::named(turbulence@),
            ..WindConfig::still()
        }),
{
    WindConfig {
        wind_speed: speed,
        wind_direction: dir_deg.times(num(D0_017453292519943295)),
        reference_altitude: num(D1000),
        wind_shear: shear,
        turbulence: TurbulenceIntensity::from_name(turbulence),
        turbulence_scale: num(D533),
        turbulence_scale_lat: num(D533),
        turbulence_scale_vert: num(D266_5),
        seed: DEFAULT_WIND_SEED,
    }
}

/// The controls of the pilot and the modes of the simulation.
#[derive(Clone, Copy, Debug, PartialEq, Eq, Structural)]
pub struct Cockpit {
    /// Stick and pedals (rad).
    pub elevator: Binary64,
    pub aileron: Binary64,
    pub rudder: Binary64,
    /// Elevator trim (rad).
    pub elevator_trim: Binary64,
    /// Flap (degrees).
    pub flaps_deg: Binary64,
    pub throttle: Binary64,
    pub throttle_split: Binary64,
    /// Whether wings and altitude are held.
    pub auto_level: bool,
    pub target_alt: Binary64,
    /// Whether the aircraft is flown through its avionics.
    pub avionics_active: bool,
}

/// The length of a step, neither too short nor too long; a sixtieth of a
/// second for zero.
pub open spec fn step_length(dt: Binary64) -> Binary64 {
    if dt.same(num(D0)) {
        num(D1).quotient(num(D60))
    } else {
        dt.clamped(num(D0), num(D0_1)).larger(num(D1EM4))
    }
}

/// The length of a step, neither too short nor too long; a sixtieth of a
/// second for zero.
pub fn step_time(dt: Binary64) -> (r: Binary64)
    ensures
        r == step_length(dt),
{
    if dt.is(num(D0)) {
        num(D1).over(num(D60))
    } else {
        dt.clamp(num(D0), num(D0_1)).max(num(D1EM4))
    }
}

impl Cockpit {
    /// The cockpit of an aircraft trimmed at an altitude, flown through its
    /// avionics.
    pub open spec fn ready(
        elevator_trim: Binary64,
        throttle: Binary64,
        throttle_split: Binary64,
        altitude: Binary64,
    ) -> Cockpit {
        Cockpit {
            elevator: num(D0),
            aileron: num(D0),
            rudder: num(D0),
            elevator_trim,
            flaps_deg: num(D0),
            throttle,
            throttle_split,
            auto_level: false,
            target_alt: altitude,
            avionics_active: true,
        }
    }

    /// The cockpit of an aircraft trimmed at an altitude, flown through its
    /// avionics.
    pub fn trimmed(
        elevator_trim: Binary64,
        throttle: Binary64,
        throttle_split: Binary64,
        altitude: Binary64,
    ) -> (r: Cockpit)
        ensures
            r == Cockpit::ready(elevator_trim, throttle, throttle_split, altitude),
    {
        Cockpit {
            elevator: num(D0),
            aileron: num(D0),
            rudder: num(D0),
            elevator_trim,
            flaps_deg: num(D0),
            throttle,
            throttle_split,
            auto_level: false,
            target_alt: altitude,
            avionics_active: true,
        }
    }

    /// The cockpit with new controls, which bypass the avionics.
    pub open spec fn steered(
        self,
        elevator: Binary64,
        aileron: Binary64,
        rudder: Binary64,
        throttle: Binary64,
        flaps_deg: Binary64,
    ) -> Cockpit {
        Cockpit {
            elevator: elevator.clamped(num(M0_35), num(D0_35)),
            aileron: aileron.clamped(num(M0_35), num(D0_35)),
            rudder: rudder.clamped(num(M0_35), num(D0_35)),
            throttle: throttle.clamped(num(D0), num(D1)),
            flaps_deg,
            avionics_active: false,
            ..self
        }
    }

    /// The cockpit with new controls, which bypass the avionics.
    pub fn with_controls(
        &self,
        elevator: Binary64,
        aileron: Binary64,
        rudder: Binary64,
        throttle: Binary64,
        flaps_deg: Binary64,
    ) -> (r: Cockpit)
        ensures
            r == self.steered(elevator, aileron, rudder, throttle, flaps_deg),
    {
        Cockpit {
            elevator: elevator.clamp(num(M0_35), num(D0_35)),
            aileron: aileron.clamp(num(M0_35), num(D0_35)),
            rudder: rudder.clamp(num(M0_35), num(D0_35)),
            throttle: throttle.clamp(num(D0), num(D1)),
            flaps_deg,
            avionics_active: false,
            ..*self
        }
    }

    /// Sets all controls, and bypasses the avionics.
    pub fn set_controls(
        &mut self,
        elevator: Binary64,
        aileron: Binary64,
        rudder: Binary64,
        throttle: Binary64,
        flaps_deg: Binary64,
    )
        ensures
            *final(self) == old(self).steered(elevator, aileron, rudder, throttle, flaps_deg),
    {
        *self = self.with_controls(elevator, aileron, rudder, throttle, flaps_deg);
    }

    /// Commands the flight controller, and flies through the avionics.
    pub fn set_avionics_command(
        &mut self,
        bus: &mut AvionicsBus,
        roll: Binary64,
        pitch: Binary64,
        yaw_rate: Binary64,
        throttle: Binary64,
    )
        ensures
            *final(self) == (Cockpit { avionics_active: true, ..*old(self) }),
            *final(bus) == (AvionicsBus {
                cmd_roll: roll,
                cmd_pitch: pitch,
                cmd_yaw_rate: yaw_rate,
                cmd_throttle: throttle.clamped(num(D0), num(D1)),
                ..*old(bus)
            }),
    {
        bus.cmd_roll = roll;
        bus.cmd_pitch = pitch;
        bus.cmd_yaw_rate = yaw_rate;
        bus.cmd_throttle = throttle.clamp(num(D0), num(D1));
        self.avionics_active = true;
    }

    /// Sets the split of the throttle, within its range.
    pub fn set_throttle_split(&mut self, split: Binary64)
        ensures
            *final(self) == (Cockpit {
                throttle_split: split.clamped(num(M1), num(D1)),
                ..*old(self)
            }),
    {
        self.throttle_split = split.clamp(num(M1), num(D1));
    }

    /// Sets the elevator trim, within its range.
    pub fn set_elevator_trim(&mut self, radians: Binary64)
        ensures
            *final(self) == (Cockpit {
                elevator_trim: radians.clamped(num(M0_15), num(D0_15)),
                ..*old(self)
            }),
    {
        self.elevator_trim = radians.clamp(num(M0_15), num(D0_15));
    }

    /// Turns the hold of wings and altitude on or off. Turned on, it holds the
    /// present altitude if there is one.
    pub fn set_auto_level(&mut self, on: bool, altitude: Option<Binary64>)
        ensures
            *final(self) == (Cockpit {
                auto_level: on,
                target_alt: match altitude {
                    Some(a) => if on {
                        a
                    } else {
                        old(self).target_alt
                    },
                    None => old(self).target_alt,
                },
                ..*old(self)
            }),
    {
        self.auto_level = on;
        if on {
            if let Some(a) = altitude {
                self.target_alt = a;
            }
        }
    }

    /// Sets the altitude to hold.
    pub fn set_target_altitude(&mut self, altitude: Binary64)
        ensures
            *final(self) == (Cockpit { target_alt: altitude, ..*old(self) }),
    {
        self.target_alt = altitude;
    }

    /// Takes over a new trim, with the stick centered.
    pub fn retrim(&mut self, elevator_trim: Binary64, throttle: Binary64)
        ensures
            *final(self) == (Cockpit { elevator: num(D0), elevator_trim, throttle, ..*old(self) }),
    {
        self.elevator = num(D0);
        self.elevator_trim = elevator_trim;
        self.throttle = throttle;
    }

    /// The cockpit after the hold of wings and altitude has acted.
    pub open spec fn leveled(
        self,
        state: AircraftState,
        roll: Binary64,
        pitch: Binary64,
    ) -> Cockpit {
        let climb = self.target_alt.difference(state.height()).product(num(D0_003)).clamped(
            num(M0_12),
            num(D0_12),
        );
        Cockpit {
            aileron: num(M0_75).product(roll).difference(num(D0_35).product(state.p)).clamped(
                num(M0_35),
                num(D0_35),
            ),
            elevator: num(D0_6).product(climb.difference(pitch)).difference(num(D0_45).product(state.q)).clamped(
                num(M0_35).product(num(D0_6)),
                num(D0_35).product(num(D0_6)),
            ),
            ..self
        }
    }

    /// The cockpit after the hold of wings and altitude has acted on a state
    /// whose roll and pitch angle are given: aileron against the roll,
    /// elevator towards the climb that the altitude asks for.
    fn held(&self, state: &AircraftState, roll: Binary64, pitch: Binary64) -> (r: Cockpit)
        requires
            num(M0_35).product(num(D0_6)).not_above(num(D0_35).product(num(D0_6))),
        ensures
            r == self.leveled(*state, roll, pitch),
    {
        let climb: Binary64 = self.target_alt.minus(state.altitude()).times(num(D0_003)).clamp(num(M0_12), num(D0_12));
        Cockpit {
            aileron: num(M0_75).times(roll).minus(num(D0_35).times(state.p)).clamp(
                num(M0_35),
                num(D0_35),
            ),
            elevator: num(D0_6).times(climb.minus(pitch)).minus(num(D0_45).times(state.q)).clamp(
                num(M0_35).times(num(D0_6)),
                num(D0_35).times(num(D0_6)),
            ),
            ..*self
        }
    }

    /// Lets the hold of wings and altitude act, if it is on and the avionics
    /// do not fly.
    pub fn autopilot(&mut self, state: &AircraftState, roll: Binary64, pitch: Binary64)
        ensures
            *final(self) == if old(self).auto_level && !old(self).avionics_active {
                old(self).leveled(*state, roll, pitch)
            } else {
                *old(self)
            },
    {
        if self.auto_level && !self.avionics_active {
            proof {
                reach_is_ordered();
            }
            *self = self.held(state, roll, pitch);
        }
    }

    /// Elevator and trim together, within the range of the surface.
    pub open spec fn elevator_total(self) -> Binary64 {
        self.elevator.sum(self.elevator_trim).clamped(num(M0_35), num(D0_35))
    }

    /// Elevator and trim together, within the range of the surface.
    pub fn total_elevator(&self) -> (r: Binary64)
        ensures
            r == self.elevator_total(),
    {
        self.elevator.plus(self.elevator_trim).clamp(num(M0_35), num(D0_35))
    }

    /// The controls of the pilot.
    pub open spec fn manual(self) -> ControlInputs {
        ControlInputs {
            elevator: self.elevator_total(),
            aileron: self.aileron,
            rudder: self.rudder,
            throttle: self.throttle,
            flap: self.flaps_deg.product(num(D0_017453292519943295)),
        }
    }

    /// The controls of the pilot.
    pub fn manual_controls(&self) -> (r: ControlInputs)
        ensures
            r == self.manual(),
    {
        ControlInputs {
            elevator: self.total_elevator(),
            aileron: self.aileron,
            rudder: self.rudder,
            throttle: self.throttle,
            flap: self.flaps_deg.times(num(D0_017453292519943295)),
        }
    }

    /// The controls of the avionics, with the flap of the pilot.
    pub fn avionics_controls(&self, bus: &AvionicsBus) -> (r: ControlInputs)
        ensures
            r == (ControlInputs {
                flap: self.flaps_deg.product(num(D0_017453292519943295)),
                ..crate::env::actuated(*bus)
            }),
    {
        let a = bus.read_actuator_outputs();
        ControlInputs {
            elevator: a.elevator,
            aileron: a.aileron,
            rudder: a.rudder,
            throttle: a.throttle,
            flap: self.flaps_deg.times(num(D0_017453292519943295)),
        }
    }
}

/// The range of the elevator under the hold is a range.
pub proof fn reach_is_ordered()
    ensures
        num(M0_35).product(num(D0_6)).not_above(num(D0_35).product(num(D0_6))),
{
    crate::rounding::products_are_numbers(num(M0_35), num(D0_6));
    crate::rounding::products_are_numbers(num(D0_35), num(D0_6));
    crate::rounding::products_keep_signs(num(M0_35), num(D0_6));
    crate::rounding::products_keep_signs(num(D0_35), num(D0_6));
}

/// The angles of the telemetry (rad).
#[derive(Clone, Copy, Debug, PartialEq, Eq, Structural)]
pub struct TelemetryAngles {
    pub alpha: Binary64,
    pub beta: Binary64,
    pub roll: Binary64,
    pub pitch: Binary64,
    pub yaw: Binary64,
    pub climb: Binary64,
    pub wind: Binary64,
}

/// An angle in degrees.
pub open spec fn in_degrees(x: Binary64) -> Binary64 {
    x.product(num(D57_29577951308232))
}

/// An angle in degrees.
pub fn degrees(x: Binary64) -> (r: Binary64)
    ensures
        r == in_degrees(x),
{
    x.times(num(D57_29577951308232))
}

/// A heading in degrees from zero.
pub open spec fn heading_of(x: Binary64) -> Binary64 {
    in_degrees(x).sum(num(D360)).remainder(num(D360))
}

/// A heading in degrees from zero.
pub fn heading(x: Binary64) -> (r: Binary64)
    ensures
        r == heading_of(x),
{
    degrees(x).plus(num(D360)).rem(num(D360))
}

/// A flag as a number.
pub open spec fn flagged(on: bool) -> Binary64 {
    if on {
        num(D1)
    } else {
        num(D0)
    }
}

/// A flag as a number.
pub fn flag(on: bool) -> (r: Binary64)
    ensures
        r == flagged(on),
{
    if on {
        num(D1)
    } else {
        num(D0)
    }
}

/// The telemetry.
pub open spec fn telemetry_of(
    c: Cockpit,
    s: AircraftState,
    wind: Vec3,
    air: Atmosphere,
    calibrated: Binary64,
    a: TelemetryAngles,
) -> Seq<Binary64> {
    let alt_m = s.height();
    let tas = s.relative_speed(wind);
    let alpha = in_degrees(a.alpha);
    seq![
        alt_m,
        alt_m.product(num(D3_28084)),
        tas,
        tas.product(num(D1_94384)),
        s.speed(),
        calibrated.product(num(D1_94384)),
        air.mach(tas),
        air.ram(tas),
        air.temperature_c,
        alpha,
        in_degrees(a.beta),
        in_degrees(a.pitch),
        in_degrees(a.roll),
        heading_of(a.yaw),
        in_degrees(a.climb),
        c.throttle.product(num(D100)),
        c.flaps_deg,
        in_degrees(c.aileron),
        in_degrees(c.elevator_total()),
        in_degrees(c.elevator_trim),
        in_degrees(c.rudder),
        wind.length(),
        heading_of(a.wind),
        flagged(num(D14_5).below(alpha)),
        flagged(c.auto_level),
    ]
}

/// The telemetry: altitude in metres and feet, true airspeed in m/s and knots,
/// ground speed, calibrated airspeed in knots, Mach number, dynamic pressure,
/// temperature, angles of attack and sideslip, pitch, roll, heading, climb
/// angle, throttle in percent, flap, aileron, elevator, trim, rudder, wind
/// speed and heading, stall, and hold of wings and altitude; angles in
/// degrees. `calibrated` is the calibrated airspeed (m/s).
pub fn telemetry(
    c: &Cockpit,
    s: &AircraftState,
    wind: Vec3,
    air: &Atmosphere,
    calibrated: Binary64,
    a: TelemetryAngles,
) -> (r: [Binary64; 25])
    ensures
        r@ =~= telemetry_of(*c, *s, wind, *air, calibrated, a),
{
    let alt_m: Binary64 = s.altitude();
    let tas: Binary64 = s.true_airspeed(wind);
    let alpha: Binary64 = degrees(a.alpha);
    [
        alt_m,
        alt_m.times(num(D3_28084)),
        tas,
        tas.times(num(D1_94384)),
        s.airspeed(),
        calibrated.times(num(D1_94384)),
        air.mach_number(tas),
        air.dynamic_pressure(tas),
        air.temperature_c,
        alpha,
        degrees(a.beta),
        degrees(a.pitch),
        degrees(a.roll),
        heading(a.yaw),
        degrees(a.climb),
        c.throttle.times(num(D100)),
        c.flaps_deg,
        degrees(c.aileron),
        degrees(c.total_elevator()),
        degrees(c.elevator_trim),
        degrees(c.rudder),
        wind.norm(),
        heading(a.wind),
        flag(alpha.gt(num(D14_5))),
        flag(c.auto_level),
    ]
}

/// The telemetry with the observation of the sensors appended, where there are
/// sensors.
pub fn full_telemetry(base: &[Binary64; 25], bus: Option<&AvionicsBus>) -> (r: Vec<Binary64>)
    ensures
        r@.len() == if bus is Some {
            44int
        } else {
            25int
        },
        forall|i: int| 0 <= i < 25 ==> #[trigger] r@[i] == base@[i],
        bus matches Some(b) ==> forall|i: int|
            0 <= i < 19 ==> #[trigger] r@[25 + i] == b.sensed(i),
{
    let mut r: Vec<Binary64> = Vec::new();
    let mut i: usize = 0;
    while i < 25
        invariant
            i <= 25,
            r@.len() == i,
            forall|k: int| 0 <= k < i ==> #[trigger] r@[k] == base@[k],
        decreases 25 - i,
    {
        r.push(base[i]);
        i += 1;
    }
    if let Some(b) = bus {
        let sensed: [Binary64; 19] = b.sensor_observation();
        let mut k: usize = 0;
        while k < 19
            invariant
                k <= 19,
                r@.len() == 25 + k,
                forall|m: int| 0 <= m < 25 ==> #[trigger] r@[m] == base@[m],
                forall|m: int| 0 <= m < 19 ==> #[trigger] sensed@[m] == b.sensed(m),
                forall|m: int| 0 <= m < k ==> #[trigger] r@[25 + m] == b.sensed(m),
            decreases 19 - k,
        {
            proof {
                assert(sensed@[k as int] == b.sensed(k as int));
            }
            r.push(sensed[k]);
            k += 1;
        }
    }
    r
}

/// Whether a sampled ground of `nx` by `nz` heights, at least two by two, has
/// all of them; gives the number of heights.
pub fn terrain_samples(nx: i64, nz: i64, heights: usize) -> (r: Option<usize>)
    ensures
        ({
            let a = if nx < 2 {
                2int
            } else {
                nx as int
            };
            let b = if nz < 2 {
                2int
            } else {
                nz as int
            };
            r == if a * b <= heights {
                Some((a * b) as usize)
            } else {
                None
            }
        }),
{
    let a: i64 = if nx < 2 {
        2
    } else {
        nx
    };
    let b: i64 = if nz < 2 {
        2
    } else {
        nz
    };
    proof {
        assert(a * b <= i64::MAX * i64::MAX) by (nonlinear_arith)
            requires
                2 <= a <= i64::MAX,
                2 <= b <= i64::MAX,
        ;
        assert(0 <= a * b) by (nonlinear_arith)
            requires
                2 <= a,
                2 <= b,
        ;
    }
    let n: u128 = a as u128 * b as u128;
    if n <= heights as u128 {
        Some(n as usize)
    } else {
        None
    }
}

/// The modes exclude each other: direct controls bypass the avionics, and a
/// command to the flight controller ends the bypass.
pub proof fn direct_controls_bypass_the_avionics(
    c: Cockpit,
    elevator: Binary64,
    aileron: Binary64,
    rudder: Binary64,
    throttle: Binary64,
    flaps: Binary64,
)
    ensures
        !c.steered(elevator, aileron, rudder, throttle, flaps).avionics_active,
        !throttle.nan() ==> crate::rounding::is_fraction(
            c.steered(elevator, aileron, rudder, throttle, flaps).throttle,
        ),
        Cockpit::ready(elevator, throttle, num(D0), num(D1000)).avionics_active,
{
}

/// A correction that opposes a number: not positive where it is positive, not
/// negative where it is negative, and smaller where it is larger.
proof fn lemma_opposing(gain: Binary64, a: Binary64, b: Binary64, other: Binary64, limit: Binary64)
    requires
        gain.finite() && gain.not_above(num(D0)),
        a.finite() && b.finite() && a.not_above(b),
        other.finite(),
        limit.finite() && num(D0).not_above(limit),
    ensures
        gain.product(b).difference(other).clamped(limit.negated(), limit).not_above(
            gain.product(a).difference(other).clamped(limit.negated(), limit),
        ),
        !gain.product(a).difference(other).nan(),
{
    let g = gain.negated();
    crate::rounding::factors_keep_order(g, a, b);
    crate::rounding::products_are_numbers(gain, a);
    crate::rounding::products_are_numbers(gain, b);
    lemma_negated_gain(gain, a);
    lemma_negated_gain(gain, b);
    let (p, q) = (gain.product(a), gain.product(b));
    assert(q.not_above(p));
    let c = other.negated();
    if p.finite() {
        crate::rounding::sums_are_numbers(p, c);
    }
    if q.finite() {
        crate::rounding::sums_are_numbers(q, c);
    }
    crate::rounding::sums_keep_order(q, p, c);
}

proof fn lemma_negated_gain(gain: Binary64, a: Binary64)
    requires
        gain.finite(),
        a.finite(),
    ensures
        gain.product(a) == gain.negated().product(a).negated(),
{
    crate::rounding::products_commute(gain, a);
    crate::rounding::products_commute(gain.negated(), a);
    crate::rounding::negated_factors(a, gain);
    crate::rotation::double_negation(a.product(gain));
}

/// Whether what the hold of wings and altitude reads is a number that it can
/// work with.
pub open spec fn holdable(c: Cockpit, s: AircraftState, roll: Binary64, pitch: Binary64) -> bool {
    &&& c.target_alt.finite() && s.pos_z.finite() && c.target_alt.difference(s.height()).finite()
    &&& roll.finite() && pitch.finite()
    &&& s.p.finite() && num(D0_35).product(s.p).finite()
    &&& s.q.finite() && num(D0_45).product(s.q).finite()
}

/// The climb that is asked for has the sign of what is missing of the
/// altitude, and grows with it.
proof fn lemma_climb(low: Binary64, high: Binary64)
    requires
        low.finite() && high.finite(),
        low.not_above(high),
    ensures
        ({
            let a = low.product(num(D0_003)).clamped(num(M0_12), num(D0_12));
            let b = high.product(num(D0_003)).clamped(num(M0_12), num(D0_12));
            &&& a.finite() && b.finite() && a.not_above(b)
            &&& num(D0).not_above(low) ==> num(D0).not_above(a)
            &&& high.not_above(num(D0)) ==> b.not_above(num(D0))
        }),
{
    crate::rounding::factors_keep_order(num(D0_003), low, high);
    crate::rounding::products_are_numbers(low, num(D0_003));
    crate::rounding::products_are_numbers(high, num(D0_003));
    crate::rounding::products_keep_signs(low, num(D0_003));
    crate::rounding::products_keep_signs(high, num(D0_003));
}

/// The elevator of the hold grows with the climb that is missing, and has its
/// sign where there is no pitch rate.
proof fn lemma_hold_elevator(low: Binary64, high: Binary64, damping: Binary64)
    requires
        low.finite() && high.finite(),
        low.not_above(high),
        damping.finite(),
    ensures
        ({
            let (lo, hi) = (num(M0_35).product(num(D0_6)), num(D0_35).product(num(D0_6)));
            let a = num(D0_6).product(low).difference(damping).clamped(lo, hi);
            let b = num(D0_6).product(high).difference(damping).clamped(lo, hi);
            &&& a.not_above(b)
            &&& num(D0).not_above(low) && damping.zero() ==> num(D0).not_above(a)
            &&& high.not_above(num(D0)) && damping.zero() ==> b.not_above(num(D0))
        }),
{
    reach_is_ordered();
    crate::rounding::products_are_numbers(num(M0_35), num(D0_6));
    crate::rounding::products_are_numbers(num(D0_35), num(D0_6));
    crate::rounding::products_keep_signs(num(M0_35), num(D0_6));
    crate::rounding::products_keep_signs(num(D0_35), num(D0_6));
    crate::rounding::factors_keep_order(num(D0_6), low, high);
    crate::rounding::products_are_numbers(num(D0_6), low);
    crate::rounding::products_are_numbers(num(D0_6), high);
    crate::rounding::products_keep_signs(num(D0_6), low);
    crate::rounding::products_keep_signs(num(D0_6), high);
    let (p, q) = (num(D0_6).product(low), num(D0_6).product(high));
    let c = damping.negated();
    if p.finite() {
        crate::rounding::sums_are_numbers(p, c);
    }
    if q.finite() {
        crate::rounding::sums_are_numbers(q, c);
    }
    crate::rounding::sums_keep_order(p, q, c);
    crate::rounding::sums_keep_signs(p, c);
    crate::rounding::sums_keep_signs(q, c);
}

/// Below its altitude the hold asks for a climb, above it for a descent: at
/// zero pitch and pitch rate its elevator is not negative where altitude is
/// missing, and not positive where there is too much.
pub proof fn the_hold_seeks_its_altitude(
    c: Cockpit,
    s: AircraftState,
    roll: Binary64,
    pitch: Binary64,
)
    requires
        holdable(c, s, roll, pitch),
        pitch.zero(),
        s.q.zero(),
    ensures
        s.height().not_above(c.target_alt) ==> num(D0).not_above(
            c.leveled(s, roll, pitch).elevator,
        ),
        c.target_alt.not_above(s.height()) ==> c.leveled(s, roll, pitch).elevator.not_above(
            num(D0),
        ),
{
    let missing = c.target_alt.difference(s.height());
    crate::rounding::differences_tell_the_order(c.target_alt, s.height());
    lemma_climb(missing, missing);
    let climb = missing.product(num(D0_003)).clamped(num(M0_12), num(D0_12));
    crate::rounding::differences_tell_the_order(climb, pitch);
    lemma_short_difference(climb, pitch);
    crate::rounding::zero_absorbs(s.q, num(D0_45));
    crate::rounding::products_commute(s.q, num(D0_45));
    lemma_hold_elevator(
        climb.difference(pitch),
        climb.difference(pitch),
        num(D0_45).product(s.q),
    );
}

/// Taking zero away leaves a finite number.
proof fn lemma_short_difference(a: Binary64, b: Binary64)
    requires
        a.finite(),
        b.zero(),
    ensures
        a.difference(b).finite(),
{
    crate::rounding::zeros_add_nothing(a, b.negated());
}

/// The elevator of the hold does not fall when the altitude to hold rises, when
/// the aircraft sinks, or when its nose drops.
pub proof fn the_hold_climbs_for_more_altitude(
    c: Cockpit,
    s: AircraftState,
    pitch: Binary64,
    d: Cockpit,
    t: AircraftState,
    lower: Binary64,
    roll: Binary64,
)
    requires
        holdable(c, s, roll, pitch),
        holdable(d, t, roll, lower),
        c.target_alt.not_above(d.target_alt),
        t.height().not_above(s.height()),
        lower.not_above(pitch),
        s.q == t.q,
        ({
            let a = c.target_alt.difference(s.height()).product(num(D0_003)).clamped(
                num(M0_12),
                num(D0_12),
            );
            let b = d.target_alt.difference(t.height()).product(num(D0_003)).clamped(
                num(M0_12),
                num(D0_12),
            );
            a.difference(pitch).finite() && b.difference(lower).finite()
        }),
    ensures
        c.leveled(s, roll, pitch).elevator.not_above(d.leveled(t, roll, lower).elevator),
{
    let a = c.target_alt.difference(s.height());
    let b = d.target_alt.difference(t.height());
    crate::rounding::sums_of_ordered_terms(
        c.target_alt,
        d.target_alt,
        s.height().negated(),
        t.height().negated(),
    );
    lemma_climb(a, b);
    let p = a.product(num(D0_003)).clamped(num(M0_12), num(D0_12));
    let q = b.product(num(D0_003)).clamped(num(M0_12), num(D0_12));
    crate::rounding::sums_of_ordered_terms(p, q, pitch.negated(), lower.negated());
    lemma_hold_elevator(p.difference(pitch), q.difference(lower), num(D0_45).product(s.q));
}

/// A nose that rises is held back: the faster it does, the smaller is the
/// elevator of the hold.
pub proof fn the_hold_damps_pitch(
    c: Cockpit,
    s: AircraftState,
    roll: Binary64,
    pitch: Binary64,
    q: Binary64,
)
    requires
        holdable(c, s, roll, pitch),
        holdable(c, AircraftState { q, ..s }, roll, pitch),
        s.q.not_above(q),
        c.target_alt.difference(s.height()).product(num(D0_003)).clamped(
            num(M0_12),
            num(D0_12),
        ).difference(pitch).finite(),
    ensures
        c.leveled(AircraftState { q, ..s }, roll, pitch).elevator.not_above(
            c.leveled(s, roll, pitch).elevator,
        ),
{
    let climb = c.target_alt.difference(s.height()).product(num(D0_003)).clamped(
        num(M0_12),
        num(D0_12),
    );
    let e = climb.difference(pitch);
    reach_is_ordered();
    crate::rounding::products_are_numbers(num(M0_35), num(D0_6));
    crate::rounding::products_are_numbers(num(D0_35), num(D0_6));
    crate::rounding::factors_keep_order(num(D0_45), s.q, q);
    crate::rounding::products_are_numbers(num(D0_6), e);
    let (x, y) = (num(D0_45).product(s.q).negated(), num(D0_45).product(q).negated());
    let p = num(D0_6).product(e);
    if p.finite() {
        crate::rounding::sums_are_numbers(p, x);
        crate::rounding::sums_are_numbers(p, y);
    }
    crate::rounding::sums_of_ordered_terms(p, p, y, x);
}

/// The hold levels the wings: its aileron opposes the roll and the roll rate,
/// and the more there is of either the more it does.
pub proof fn the_hold_levels_the_wings(
    c: Cockpit,
    s: AircraftState,
    roll: Binary64,
    more: Binary64,
    pitch: Binary64,
)
    requires
        holdable(c, s, roll, pitch),
        holdable(c, s, more, pitch),
        roll.not_above(more),
    ensures
        c.leveled(s, more, pitch).aileron.not_above(c.leveled(s, roll, pitch).aileron),
        s.p.zero() && num(D0).not_above(roll) ==> c.leveled(s, roll, pitch).aileron.not_above(
            num(D0),
        ),
        s.p.zero() && roll.not_above(num(D0)) ==> num(D0).not_above(
            c.leveled(s, roll, pitch).aileron,
        ),
{
    let damping = num(D0_35).product(s.p);
    lemma_opposing(num(M0_75), roll, more, damping, num(D0_35));
    assert(num(D0_35).negated() == num(M0_35));
    crate::rounding::products_are_numbers(num(M0_75), roll);
    crate::rounding::products_keep_signs(num(M0_75), roll);
    crate::rounding::products_keep_signs(roll, num(M0_75));
    crate::rounding::products_commute(roll, num(M0_75));
    if s.p.zero() {
        crate::rounding::zero_absorbs(s.p, num(D0_35));
        crate::rounding::products_commute(s.p, num(D0_35));
        crate::rounding::sums_keep_signs(num(M0_75).product(roll), damping.negated());
        if roll.not_above(num(D0)) {
            lemma_opposing(num(M0_75), roll, num(D0), damping, num(D0_35));
            crate::rounding::zero_absorbs(num(D0), num(M0_75));
            crate::rounding::products_commute(num(D0), num(M0_75));
            crate::rounding::zeros_add_to_zero(num(M0_75).product(num(D0)), damping.negated());
            crate::rounding::zeros_add_to_zero(num(M0_75).product(num(D0)), damping);
        }
    }
}

/// A roll that goes on is held back: the faster it does, the smaller is the
/// aileron of the hold.
pub proof fn the_hold_damps_roll(
    c: Cockpit,
    s: AircraftState,
    roll: Binary64,
    pitch: Binary64,
    p: Binary64,
)
    requires
        holdable(c, s, roll, pitch),
        holdable(c, AircraftState { p, ..s }, roll, pitch),
        s.p.not_above(p),
    ensures
        c.leveled(AircraftState { p, ..s }, roll, pitch).aileron.not_above(
            c.leveled(s, roll, pitch).aileron,
        ),
{
    crate::rounding::factors_keep_order(num(D0_35), s.p, p);
    crate::rounding::products_are_numbers(num(M0_75), roll);
    let (x, y) = (num(D0_35).product(s.p).negated(), num(D0_35).product(p).negated());
    let r = num(M0_75).product(roll);
    if r.finite() {
        crate::rounding::sums_are_numbers(r, x);
        crate::rounding::sums_are_numbers(r, y);
    }
    crate::rounding::sums_of_ordered_terms(r, r, y, x);
}

/// The hold leaves all but elevator and aileron as the pilot has it.
pub proof fn the_hold_keeps_to_its_surfaces(
    c: Cockpit,
    s: AircraftState,
    roll: Binary64,
    pitch: Binary64,
)
    ensures
        ({
            let h = c.leveled(s, roll, pitch);
            &&& h.rudder == c.rudder && h.throttle == c.throttle && h.flaps_deg == c.flaps_deg
            &&& h.elevator_trim == c.elevator_trim && h.throttle_split == c.throttle_split
            &&& h.target_alt == c.target_alt
            &&& h.auto_level == c.auto_level && h.avionics_active == c.avionics_active
        }),
{
}

/// More stick or more trim gives no less elevator, and without trim the stick
/// is the elevator.
pub proof fn stick_and_trim_add_up(c: Cockpit, d: Cockpit)
    requires
        c.elevator.finite() && c.elevator_trim.finite(),
        d.elevator.finite() && d.elevator_trim.finite(),
        c.elevator.not_above(d.elevator),
        c.elevator_trim.not_above(d.elevator_trim),
    ensures
        c.manual().elevator.not_above(d.manual().elevator),
        c.elevator_trim.zero() && num(M0_35).not_above(c.elevator) && c.elevator.not_above(
            num(D0_35),
        ) ==> c.manual().elevator.same(c.elevator),
        c.elevator.zero() && num(M0_35).not_above(c.elevator_trim) && c.elevator_trim.not_above(
            num(D0_35),
        ) ==> c.manual().elevator.same(c.elevator_trim),
{
    crate::rounding::sums_are_numbers(c.elevator, c.elevator_trim);
    crate::rounding::sums_are_numbers(d.elevator, d.elevator_trim);
    crate::rounding::sums_of_ordered_terms(
        c.elevator,
        d.elevator,
        c.elevator_trim,
        d.elevator_trim,
    );
    if c.elevator_trim.zero() {
        crate::rounding::zeros_add_nothing(c.elevator, c.elevator_trim);
    }
    if c.elevator.zero() {
        crate::rounding::zeros_add_nothing(c.elevator_trim, c.elevator);
    }
}

/// The stick, the pedals and the lever move what they are meant to: as far as
/// they are moved within their ranges, never the other way, and nothing else;
/// trim, split and the rest stay.
pub proof fn sticks_move_their_controls(
    c: Cockpit,
    a: (Binary64, Binary64, Binary64, Binary64),
    b: (Binary64, Binary64, Binary64, Binary64),
    flaps: Binary64,
)
    ensures
        ({
            let (p, q) = (c.steered(a.0, a.1, a.2, a.3, flaps), c.steered(b.0, b.1, b.2, b.3, flaps));
            &&& a.0.not_above(b.0) ==> p.elevator.not_above(q.elevator)
            &&& a.1.not_above(b.1) ==> p.aileron.not_above(q.aileron)
            &&& a.2.not_above(b.2) ==> p.rudder.not_above(q.rudder)
            &&& a.3.not_above(b.3) ==> p.throttle.not_above(q.throttle)
            &&& num(M0_35).not_above(a.0) && a.0.not_above(num(D0_35)) ==> p.elevator == a.0
            &&& num(M0_35).not_above(a.1) && a.1.not_above(num(D0_35)) ==> p.aileron == a.1
            &&& num(M0_35).not_above(a.2) && a.2.not_above(num(D0_35)) ==> p.rudder == a.2
            &&& crate::rounding::is_fraction(a.3) ==> p.throttle == a.3
            &&& p.flaps_deg == flaps
            &&& p.elevator_trim == c.elevator_trim && p.target_alt == c.target_alt
            &&& p.throttle_split == c.throttle_split && p.auto_level == c.auto_level
            &&& !p.avionics_active
        }),
{
}

/// Flown by hand each surface stands where its control is: stick and trim give
/// the elevator, the flaps their own angle with its sign.
pub proof fn hands_reach_the_surfaces(c: Cockpit)
    requires
        c.flaps_deg.finite(),
    ensures
        c.manual().aileron == c.aileron,
        c.manual().rudder == c.rudder,
        c.manual().throttle == c.throttle,
        crate::rounding::like_product(c.manual().flap, c.flaps_deg, num(D1)),
        c.elevator.finite() && c.elevator_trim.zero() && num(M0_35).not_above(c.elevator)
            && c.elevator.not_above(num(D0_35)) ==> c.manual().elevator.same(c.elevator),
{
    crate::rounding::products_have_their_signs(c.flaps_deg, num(D0_017453292519943295));
    if c.elevator_trim.zero() && c.elevator.finite() {
        crate::rounding::zeros_keep_signs(c.elevator, c.elevator_trim);
    }
}

/// A step lasts a while, but not long, and a longer one is not shorter.
pub proof fn steps_last_a_while(dt: Binary64, longer: Binary64)
    requires
        !dt.nan() && !longer.nan(),
        !dt.same(num(D0)) && !longer.same(num(D0)),
        dt.not_above(longer),
    ensures
        num(D1EM4).not_above(step_length(dt)),
        step_length(dt).not_above(num(D0_1)),
        step_length(dt).not_above(step_length(longer)),
        num(D1EM4).not_above(dt) && dt.not_above(num(D0_1)) ==> step_length(dt) == dt,
{
}

/// An angle in degrees has its sign and keeps its order.
proof fn lemma_degrees(x: Binary64, y: Binary64)
    requires
        x.finite() && y.finite(),
    ensures
        crate::rounding::like_product(in_degrees(x), x, num(D1)),
        x.not_above(y) ==> in_degrees(x).not_above(in_degrees(y)),
{
    let k = num(D57_29577951308232);
    crate::rounding::products_have_their_signs(x, k);
    if x.not_above(y) {
        crate::rounding::factors_keep_order(k, x, y);
    }
}

/// Angles are shown with their signs: those of the flow, of the attitude, of the
/// path and of the surfaces.
#[verifier::spinoff_prover]
#[verifier::rlimit(60)]
pub proof fn angles_are_shown_with_their_signs(
    c: Cockpit,
    s: AircraftState,
    wind: Vec3,
    air: Atmosphere,
    calibrated: Binary64,
    a: TelemetryAngles,
)
    requires
        a.alpha.finite() && a.beta.finite() && a.pitch.finite() && a.roll.finite()
            && a.climb.finite(),
        c.aileron.finite() && c.rudder.finite() && c.elevator_trim.finite(),
        c.elevator_total().finite(),
    ensures
        ({
            let x = telemetry_of(c, s, wind, air, calibrated, a);
            let one = num(D1);
            &&& crate::rounding::like_product(x[9], a.alpha, one)
            &&& crate::rounding::like_product(x[10], a.beta, one)
            &&& crate::rounding::like_product(x[11], a.pitch, one)
            &&& crate::rounding::like_product(x[12], a.roll, one)
            &&& crate::rounding::like_product(x[14], a.climb, one)
            &&& crate::rounding::like_product(x[17], c.aileron, one)
            &&& crate::rounding::like_product(x[18], c.elevator_total(), one)
            &&& crate::rounding::like_product(x[19], c.elevator_trim, one)
            &&& crate::rounding::like_product(x[20], c.rudder, one)
        }),
{
    lemma_degrees(a.alpha, a.alpha);
    lemma_degrees(a.beta, a.beta);
    lemma_degrees(a.pitch, a.pitch);
    lemma_degrees(a.roll, a.roll);
    lemma_degrees(a.climb, a.climb);
    lemma_degrees(c.aileron, c.aileron);
    lemma_degrees(c.elevator_total(), c.elevator_total());
    lemma_degrees(c.elevator_trim, c.elevator_trim);
    lemma_degrees(c.rudder, c.rudder);
}

/// Larger angles are shown larger, and a larger angle of attack does not take
/// the warning of a stall back.
pub proof fn measures_keep_their_order(a: Binary64, b: Binary64)
    requires
        a.finite() && b.finite() && a.not_above(b),
    ensures
        in_degrees(a).not_above(in_degrees(b)),
        flagged(num(D14_5).below(in_degrees(a))).not_above(
            flagged(num(D14_5).below(in_degrees(b))),
        ),
{
    lemma_degrees(a, b);
}

} // verus!
