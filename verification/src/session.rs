//! The interactive simulation of a flight.
use crate::aero::ControlInputs;
use crate::atmosphere::Atmosphere;
use crate::avionics::bus::{fault_flag_from_str, AvionicsBus, FaultFlag, TrueState};
use crate::avionics::stack::standard_stack;
use crate::avionics::system::{AvionicsSystem, StageTraces};
use crate::binary64::Binary64;
use crate::cockpit::{full_telemetry, step_time, telemetry, Cockpit, TelemetryAngles};
use crate::config::AircraftConfig;
use crate::elementary::Elementary;
use crate::env::{attitude, flow_data, true_state, FlowData};
use crate::flight;
use crate::literal::{num, D0, D0_016666666666666666, D0_017453292519943295, D1, D1000, D50, D60};
use crate::simulator::Simulator;
use crate::single::Vector;
use crate::state::{AircraftState, Trim};
use crate::terrain::Terrain;
use crate::tunnel::grid::Axes;
use crate::tunnel::reading::{attitude_axes, in_scene};
use crate::vector::Vec3;
use crate::wind::{WindConfig, WindEnvironment};
use vstd::prelude::*;

verus! {

/// An aircraft that flies: its simulation, the wind about it and its avionics.
pub struct Craft<M> {
    pub sim: Simulator,
    pub wind: WindEnvironment,
    pub avionics: AvionicsSystem<M>,
}

/// The simulation of a flight: the aircraft, once there is one, the cockpit,
/// the wind of the last step and the ground.
pub struct FlightSim<M> {
    pub craft: Option<Craft<M>>,
    pub cockpit: Cockpit,
    pub last_wind: Vec3,
    pub terrain: Terrain,
    pub terrain_enabled: bool,
}

/// Whether these are avionics of typical hardware before their first step, with
/// the throttle at which they are to start.
pub open spec fn is_new_stack<M: Elementary>(
    a: AvionicsSystem<M>,
    throttle: Binary64,
    m: M,
) -> bool {
    exists|stack: AvionicsSystem<M>, ready: AvionicsSystem<M>|
        #![trigger ready.readied_from(stack)]
        crate::avionics::stack::is_standard(stack, num(D0_016666666666666666), m)
            && ready.readied_from(stack) && a.same_components(ready) && a.data() == (AvionicsBus {
            cmd_throttle: throttle,
            ..ready.data()
        })
}

/// Avionics of typical hardware, with the throttle at which they are to start.
fn new_stack<M: Elementary + Copy>(throttle: Binary64, m: &M) -> (r: AvionicsSystem<M>)
    ensures
        is_new_stack(r, throttle, *m),
{
    let mut r: AvionicsSystem<M> = standard_stack(num(D0_016666666666666666), m);
    let ghost stack = r;
    r.init();
    let ghost ready = r;
    r.bus_mut().cmd_throttle = throttle;
    proof {
        assert(ready.readied_from(stack));
        assert(r.data() == (AvionicsBus { cmd_throttle: throttle, ..ready.data() }));
    }
    r
}

/// Whether this is level flight at an altitude and 60 m/s.
pub open spec fn is_departure<M: Elementary>(
    m: M,
    config: AircraftConfig,
    altitude: Binary64,
    trim: Trim,
) -> bool {
    flight::is_level_flight(m, config, altitude, num(D60), trim)
}

/// Whether an aircraft has just departed in a wind.
pub open spec fn has_departed<M: Elementary>(
    m: M,
    craft: Craft<M>,
    config: AircraftConfig,
    wind: WindConfig,
    trim: Trim,
) -> bool {
    &&& craft.sim.config == config
    &&& craft.sim.state == trim.state
    &&& craft.wind == WindEnvironment::fresh(wind)
    &&& is_new_stack(craft.avionics, trim.throttle, m)
}

/// Whether the hold of wings and altitude has acted on the cockpit, if it is
/// on.
pub open spec fn is_held<M: Elementary>(
    m: M,
    before: Cockpit,
    s: AircraftState,
    after: Cockpit,
) -> bool {
    if before.auto_level && !before.avionics_active {
        exists|angles: (Binary64, Binary64)| #[trigger]
            crate::env::is_attitude(m, s, angles) && after == before.leveled(s, angles.0, angles.1)
    } else {
        after == before
    }
}

/// The controls that avionics give with a bus, with the flap of the pilot.
pub open spec fn piloted(cockpit: Cockpit, bus: AvionicsBus) -> ControlInputs {
    ControlInputs {
        flap: cockpit.flaps_deg.product(num(D0_017453292519943295)),
        ..crate::env::actuated(bus)
    }
}

/// Whether the avionics run so on the true state of an aircraft in a wind.
pub open spec fn runs<M: Elementary>(
    m: M,
    craft: Craft<M>,
    wind: Vec3,
    truth: TrueState,
    t: StageTraces,
    after: AvionicsSystem<M>,
) -> bool {
    &&& exists|flow: FlowData| #[trigger]
        crate::env::is_flow(m, craft.sim.state, wind, flow) && crate::env::is_true_state(
            truth,
            craft.sim.state,
            wind,
            flow,
        )
    &&& craft.avionics.ran(craft.avionics.data().with_truth(truth), t, after)
}

/// Whether an aircraft flies a step in a wind, through its avionics or under
/// the hands of the pilot.
pub open spec fn is_flown<M: Elementary>(
    m: M,
    before: Craft<M>,
    cockpit: Cockpit,
    ground: Option<&Terrain>,
    dt: Binary64,
    wind: Vec3,
    after: Craft<M>,
) -> bool {
    let s = before.sim.state;
    let config = AircraftConfig { throttle_split: cockpit.throttle_split, ..before.sim.config };
    &&& flight::blows(m, before.wind, s.height(), s.speed(), dt, wind, after.wind)
    &&& after.sim.config == config
    &&& if cockpit.avionics_active {
        exists|truth: TrueState, t: StageTraces| #[trigger]
            runs(m, before, wind, truth, t, after.avionics) && flight::flies(
                m,
                s,
                config,
                piloted(cockpit, after.avionics.data()),
                wind,
                dt,
                ground,
                after.sim.state,
            )
    } else {
        &&& after.avionics == before.avionics
        &&& flight::flies(m, s, config, cockpit.manual(), wind, dt, ground, after.sim.state)
    }
}

/// Flies a step in a wind, through the avionics or under the hands of the
/// pilot; returns the wind.
fn fly_step<M: Elementary>(
    craft: &mut Craft<M>,
    cockpit: &Cockpit,
    ground: Option<&Terrain>,
    dt: Binary64,
    m: &M,
) -> (r: Vec3)
    ensures
        is_flown(*m, *old(craft), *cockpit, ground, dt, r, *final(craft)),
{
    let ghost before = *craft;
    let altitude: Binary64 = craft.sim.state.altitude();
    let airspeed: Binary64 = craft.sim.state.airspeed();
    let wind: Vec3 = flight::total_wind(m, &mut craft.wind, altitude, airspeed, dt);
    craft.sim.config.throttle_split = cockpit.throttle_split;
    if cockpit.avionics_active {
        let flow: FlowData = flow_data(m, &craft.sim.state, wind);
        let truth: TrueState = true_state(&craft.sim.state, wind, flow);
        craft.avionics.bus_mut().write_true_state(&truth);
        let ghost ready = craft.avionics;
        craft.avionics.step();
        let controls: ControlInputs = cockpit.avionics_controls(craft.avionics.bus());
        craft.sim.step_6dof(controls, Some(wind), dt, ground, m);
        proof {
            let t = choose|t: StageTraces| #[trigger] ready.ran(ready.data(), t, craft.avionics);
            assert(ready.data() == before.avionics.data().with_truth(truth));
            assert(before.avionics.ran(ready.data(), t, craft.avionics));
            assert(crate::env::is_flow(*m, before.sim.state, wind, flow));
            assert(runs(*m, before, wind, truth, t, craft.avionics));
        }
    } else {
        craft.sim.step_6dof(cockpit.manual_controls(), Some(wind), dt, ground, m);
    }
    wind
}

/// Whether these are the angles of the telemetry of a state in a wind.
pub open spec fn are_telemetry_angles<M: Elementary>(
    m: M,
    s: AircraftState,
    wind: Vec3,
    a: TelemetryAngles,
) -> bool {
    let t = crate::aero::angle_terms(s.relative_velocity(wind));
    let e = s.attitude_terms();
    &&& call_ensures(M::atan2, (&m, t.0.0, t.0.1), a.alpha)
    &&& call_ensures(M::atan2, (&m, t.1.0, t.1.1), a.beta)
    &&& flight::is_roll(m, s, a.roll)
    &&& call_ensures(M::asin, (&m, e.pitch_sine), a.pitch)
    &&& call_ensures(M::atan2, (&m, e.yaw_y, e.yaw_x), a.yaw)
    &&& call_ensures(M::atan2, (&m, s.path_terms().0, s.path_terms().1), a.climb)
    &&& call_ensures(M::atan2, (&m, wind.y, wind.x), a.wind)
}

/// Whether these numbers are the telemetry of an aircraft.
pub open spec fn is_telemetry<M: Elementary>(
    m: M,
    craft: Craft<M>,
    cockpit: Cockpit,
    wind: Vec3,
    r: Seq<Binary64>,
) -> bool {
    let s = craft.sim.state;
    &&& r.len() == 44
    &&& exists|a: TelemetryAngles, air: Atmosphere, calibrated: Binary64| #[trigger]
        are_telemetry_angles(m, s, wind, a) && #[trigger] flight::is_air(m, s.height(), air)
            && #[trigger] flight::is_calibrated(m, air, s.relative_speed(wind), calibrated)
            && r.subrange(0, 25) == crate::cockpit::telemetry_of(
            cockpit,
            s,
            wind,
            air,
            calibrated,
            a,
        )
    &&& forall|i: int| 0 <= i < 19 ==> #[trigger] r[25 + i] == craft.avionics.data().sensed(i)
}

impl<M: Elementary> FlightSim<M> {
    /// The ground that the aircraft meets, where there is one.
    pub open spec fn ground(&self) -> Option<&Terrain> {
        if self.terrain_enabled {
            Some(&self.terrain)
        } else {
            None
        }
    }

    /// A simulation without an aircraft, over flat ground.
    pub fn new() -> (r: Self)
        ensures
            r.craft is None,
            r.cockpit == (Cockpit {
                avionics_active: false,
                ..Cockpit::ready(num(D0), num(D0), num(D0), num(D0))
            }),
            r.last_wind == Vec3::zero(),
            r.terrain.hills@.len() == 0,
            !r.terrain_enabled,
    {
        let mut cockpit: Cockpit = Cockpit::trimmed(num(D0), num(D0), num(D0), num(D0));
        cockpit.avionics_active = false;
        FlightSim {
            craft: None,
            cockpit,
            last_wind: Vec3::zeros(),
            terrain: Terrain::flat(),
            terrain_enabled: false,
        }
    }

    /// Whether there is an aircraft.
    pub fn is_ready(&self) -> (r: bool)
        ensures
            r == (self.craft is Some),
    {
        self.craft.is_some()
    }

    /// Departs with an aircraft in level flight at 1000 m and 60 m/s, flown
    /// through its avionics.
    pub fn start(
        &mut self,
        config: AircraftConfig,
        wind: WindConfig,
        m: &M,
    ) where M: Copy
        ensures
            exists|trim: Trim| #[trigger]
                is_departure(*m, config, num(D1000), trim) && (final(self).craft matches Some(c)
                    && has_departed(*m, c, config, wind, trim)) && final(self).cockpit
                    == Cockpit::ready(
                    trim.elevator,
                    trim.throttle,
                    old(self).cockpit.throttle_split,
                    num(D1000),
                ),
            final(self).last_wind == Vec3::zero(),
            final(self).terrain == old(self).terrain,
            final(self).terrain_enabled == old(self).terrain_enabled,
    {
        let split: Binary64 = self.cockpit.throttle_split;
        let _trim: Trim = self.depart(config, wind, num(D1000), split, m);
        proof {
            assert(is_departure(*m, config, num(D1000), _trim));
        }
        self.last_wind = Vec3::zeros();
    }

    /// Departs with another aircraft in level flight at 50 m and 60 m/s, its
    /// engines together.
    pub fn switch_aircraft(
        &mut self,
        config: AircraftConfig,
        wind: WindConfig,
        m: &M,
    ) where M: Copy
        ensures
            exists|trim: Trim| #[trigger]
                is_departure(*m, config, num(D50), trim) && (final(self).craft matches Some(c)
                    && has_departed(*m, c, config, wind, trim)) && final(self).cockpit
                    == Cockpit::ready(trim.elevator, trim.throttle, num(D0), num(D50)),
            final(self).last_wind == old(self).last_wind,
            final(self).terrain == old(self).terrain,
            final(self).terrain_enabled == old(self).terrain_enabled,
    {
        let _trim: Trim = self.depart(config, wind, num(D50), num(D0), m);
        proof {
            assert(is_departure(*m, config, num(D50), _trim));
        }
    }

    fn depart(
        &mut self,
        config: AircraftConfig,
        wind: WindConfig,
        altitude: Binary64,
        split: Binary64,
        m: &M,
    ) -> (r: Trim) where M: Copy
        ensures
            is_departure(*m, config, altitude, r),
            final(self).craft matches Some(c) && has_departed(*m, c, config, wind, r),
            final(self).cockpit == Cockpit::ready(r.elevator, r.throttle, split, altitude),
            final(self).last_wind == old(self).last_wind,
            final(self).terrain == old(self).terrain,
            final(self).terrain_enabled == old(self).terrain_enabled,
    {
        let trim: Trim = flight::level_flight(m, &config, altitude, num(D60));
        self.craft = Some(
            Craft {
                sim: Simulator { config, state: trim.state },
                wind: WindEnvironment::new(wind),
                avionics: new_stack(trim.throttle, m),
            },
        );
        self.cockpit = Cockpit::trimmed(trim.elevator, trim.throttle, split, altitude);
        trim
    }

    /// Whether a step leaves this so.
    pub open spec fn stepped(self, m: M, dt: Binary64, after: FlightSim<M>) -> bool {
        &&& after.terrain == self.terrain
        &&& after.terrain_enabled == self.terrain_enabled
        &&& match (self.craft, after.craft) {
            (Some(c), Some(d)) => {
                &&& is_held(m, self.cockpit, c.sim.state, after.cockpit)
                &&& is_flown(
                    m,
                    c,
                    after.cockpit,
                    self.ground(),
                    crate::cockpit::step_length(dt),
                    after.last_wind,
                    d,
                )
            },
            (None, None) => after.cockpit == self.cockpit && after.last_wind == self.last_wind,
            _ => false,
        }
    }

    /// Flies a step of about `dt` seconds: the hold of wings and altitude acts,
    /// the wind blows, and the avionics or the pilot steer the aircraft.
    #[verifier::spinoff_prover]
    #[verifier::rlimit(60)]
    pub fn step(&mut self, dt: Binary64, m: &M)
        ensures
            old(self).stepped(*m, dt, *final(self)),
    {
        match self.craft.take() {
            None => {},
            Some(mut craft) => {
                let dt: Binary64 = step_time(dt);
                if self.cockpit.auto_level && !self.cockpit.avionics_active {
                    let angles: (Binary64, Binary64) = attitude(m, &craft.sim.state);
                    proof {
                        assert(crate::env::is_attitude(*m, craft.sim.state, angles));
                    }
                    self.cockpit.autopilot(&craft.sim.state, angles.0, angles.1);
                }
                let ground: Option<&Terrain> = if self.terrain_enabled {
                    Some(&self.terrain)
                } else {
                    None
                };
                self.last_wind = fly_step(&mut craft, &self.cockpit, ground, dt, m);
                self.craft = Some(craft);
            },
        }
    }

    /// Turns the ground on or off.
    pub fn set_terrain_enabled(&mut self, enabled: bool)
        ensures
            *final(self) == (FlightSim { terrain_enabled: enabled, ..*old(self) }),
    {
        self.terrain_enabled = enabled;
    }

    /// The height of the ground at a place; zero while it is off.
    pub fn terrain_height_at(&self, north: Binary64, east: Binary64, m: &M) -> (r:
        Binary64)
        ensures
            if self.terrain_enabled {
                flight::is_height(*m, self.terrain, north, east, r)
            } else {
                r == num(D0)
            },
    {
        if !self.terrain_enabled {
            return num(D0);
        }
        flight::height(m, &self.terrain, north, east)
    }

    /// Commands the flight controller, and flies through the avionics, where
    /// there are any.
    pub fn set_avionics_command(
        &mut self,
        roll: Binary64,
        pitch: Binary64,
        yaw_rate: Binary64,
        throttle: Binary64,
    )
        ensures
            final(self).last_wind == old(self).last_wind,
            final(self).terrain == old(self).terrain,
            final(self).terrain_enabled == old(self).terrain_enabled,
            match (old(self).craft, final(self).craft) {
                (Some(c), Some(d)) => {
                    &&& d.sim == c.sim
                    &&& d.wind == c.wind
                    &&& d.avionics.same_components(c.avionics)
                    &&& d.avionics.data() == (AvionicsBus {
                        cmd_roll: roll,
                        cmd_pitch: pitch,
                        cmd_yaw_rate: yaw_rate,
                        cmd_throttle: throttle.clamped(num(D0), num(crate::literal::D1)),
                        ..c.avionics.data()
                    })
                    &&& final(self).cockpit == (Cockpit {
                        avionics_active: true,
                        ..old(self).cockpit
                    })
                },
                (None, None) => final(self).cockpit == old(self).cockpit,
                _ => false,
            },
    {
        match self.craft.take() {
            None => {},
            Some(mut craft) => {
                self.cockpit.set_avionics_command(
                    craft.avionics.bus_mut(),
                    roll,
                    pitch,
                    yaw_rate,
                    throttle,
                );
                self.craft = Some(craft);
            },
        }
    }

    /// Whether the aircraft is flown through its avionics.
    pub fn is_avionics_active(&self) -> (r: bool)
        ensures
            r == (self.cockpit.avionics_active && self.craft is Some),
    {
        self.cockpit.avionics_active && self.craft.is_some()
    }

    /// Injects or clears the fault of a name; whether there is such a fault,
    /// and avionics to have it.
    pub fn set_fault(&mut self, name: &str, on: bool) -> (r: bool)
        ensures
            r == (FaultFlag::named(name@) is Some && old(self).craft is Some),
            !r ==> *final(self) == *old(self),
            r ==> match (FaultFlag::named(name@), old(self).craft, final(self).craft) {
                (Some(flag), Some(c), Some(d)) => {
                    &&& d.sim == c.sim
                    &&& d.wind == c.wind
                    &&& d.avionics.same_components(c.avionics)
                    &&& d.avionics.data() == (AvionicsBus {
                        fc_fault_flags: c.avionics.data().fc_fault_flags.with(flag, on),
                        ..c.avionics.data()
                    })
                },
                _ => false,
            },
            *final(self) == (FlightSim { craft: final(self).craft, ..*old(self) }),
    {
        let flag: FaultFlag = match fault_flag_from_str(name) {
            Some(flag) => flag,
            None => {
                return false;
            },
        };
        match self.craft.take() {
            None => false,
            Some(mut craft) => {
                craft.avionics.inject_fault(flag, on);
                self.craft = Some(craft);
                true
            },
        }
    }

    /// Turns the hold of wings and altitude on or off. Turned on, it holds the
    /// present altitude, where there is an aircraft.
    pub fn set_auto_level(&mut self, on: bool)
        ensures
            *final(self) == (FlightSim {
                cockpit: Cockpit {
                    auto_level: on,
                    target_alt: match old(self).craft {
                        Some(c) => if on {
                            c.sim.state.height()
                        } else {
                            old(self).cockpit.target_alt
                        },
                        None => old(self).cockpit.target_alt,
                    },
                    ..old(self).cockpit
                },
                ..*old(self)
            }),
    {
        let altitude: Option<Binary64> = match &self.craft {
            Some(c) => Some(c.sim.state.altitude()),
            None => None,
        };
        self.cockpit.set_auto_level(on, altitude);
    }

    /// Level flight at an altitude and a speed, with the stick centered;
    /// returns the elevator and the throttle that hold it, zeros without an
    /// aircraft.
    pub fn trim(&mut self, altitude: Binary64, speed: Binary64, m: &M) -> (r: (
        Binary64,
        Binary64,
    ))
        ensures
            final(self).last_wind == old(self).last_wind,
            final(self).terrain == old(self).terrain,
            final(self).terrain_enabled == old(self).terrain_enabled,
            match (old(self).craft, final(self).craft) {
                (Some(c), Some(d)) => exists|trim: Trim| #[trigger]
                    flight::is_level_flight(*m, c.sim.config, altitude, speed, trim) && d == (Craft {
                        sim: Simulator { state: trim.state, ..c.sim },
                        ..c
                    }) && r == (trim.elevator, trim.throttle) && final(self).cockpit == (Cockpit {
                        elevator: num(D0),
                        elevator_trim: trim.elevator,
                        throttle: trim.throttle,
                        ..old(self).cockpit
                    }),
                (None, None) => final(self).cockpit == old(self).cockpit && r == (num(D0), num(D0)),
                _ => false,
            },
    {
        match self.craft.take() {
            None => (num(D0), num(D0)),
            Some(mut craft) => {
                let r: (Binary64, Binary64) = craft.sim.trim_level_flight(altitude, speed, m);
                self.cockpit.retrim(r.0, r.1);
                self.craft = Some(craft);
                r
            },
        }
    }

    /// Departs once more with the same aircraft in the same wind, at 1000 m and
    /// 60 m/s, its engines together; returns the elevator and the throttle
    /// that hold level flight,
    /// zeros without an aircraft.
    pub fn reset(&mut self, m: &M) -> (r: (Binary64, Binary64)) where M: Copy
        ensures
            final(self).last_wind == old(self).last_wind,
            final(self).terrain == old(self).terrain,
            final(self).terrain_enabled == old(self).terrain_enabled,
            match (old(self).craft, final(self).craft) {
                (Some(c), Some(d)) => exists|trim: Trim| #[trigger]
                    is_departure(*m, c.sim.config, num(D1000), trim) && d.sim == (Simulator {
                        state: trim.state,
                        ..c.sim
                    }) && d.wind == c.wind && is_new_stack(d.avionics, trim.throttle, *m) && r == (
                        trim.elevator,
                        trim.throttle,
                    ) && final(self).cockpit == Cockpit::ready(
                        trim.elevator,
                        trim.throttle,
                        num(D0),
                        num(D1000),
                    ),
                (None, None) => final(self).cockpit == old(self).cockpit && r == (num(D0), num(D0)),
                _ => false,
            },
    {
        match self.craft.take() {
            None => (num(D0), num(D0)),
            Some(mut craft) => {
                let ghost before = craft;
                let r: (Binary64, Binary64) = craft.sim.trim_level_flight(num(D1000), num(D60), m);
                proof {
                    let trim = choose|trim: Trim| #[trigger]
                        flight::is_level_flight(
                            *m,
                            before.sim.config,
                            num(D1000),
                            num(D60),
                            trim,
                        ) && craft.sim.state == trim.state && r == (trim.elevator, trim.throttle);
                    assert(is_departure(*m, before.sim.config, num(D1000), trim));
                }
                craft.avionics = new_stack(r.1, m);
                self.cockpit = Cockpit::trimmed(r.0, r.1, num(D0), num(D1000));
                self.craft = Some(craft);
                r
            },
        }
    }

    /// Another wind blows from now on, where there is an aircraft.
    pub fn set_wind(&mut self, wind: WindConfig)
        ensures
            final(self).craft == match old(self).craft {
                Some(c) => Some(Craft { wind: WindEnvironment::fresh(wind), ..c }),
                None => None,
            },
            *final(self) == (FlightSim { craft: final(self).craft, ..*old(self) }),
    {
        match self.craft.take() {
            None => {},
            Some(mut craft) => {
                craft.wind = WindEnvironment::new(wind);
                self.craft = Some(craft);
            },
        }
    }

    /// The axes of the aircraft and its place in the scene, where there is one.
    pub fn pose(&self) -> (r: Option<(Axes, Vector)>)
        ensures
            r == match self.craft {
                Some(c) => Some(
                    (
                        crate::tunnel::reading::axes_of(c.sim.state),
                        crate::tunnel::reading::scene_of(
                            Vec3 {
                                x: c.sim.state.pos_x,
                                y: c.sim.state.pos_y,
                                z: c.sim.state.pos_z,
                            },
                        ),
                    ),
                ),
                None => None,
            },
    {
        match &self.craft {
            Some(c) => {
                let s: &AircraftState = &c.sim.state;
                Some((attitude_axes(s), in_scene(Vec3 { x: s.pos_x, y: s.pos_y, z: s.pos_z })))
            },
            None => None,
        }
    }

    /// The telemetry, with the observation of the sensors appended; empty
    /// without an aircraft.
    pub fn telemetry(&self, m: &M) -> (r: Vec<Binary64>)
        ensures
            match self.craft {
                Some(c) => is_telemetry(*m, c, self.cockpit, self.last_wind, r@),
                None => r@.len() == 0,
            },
    {
        match &self.craft {
            None => Vec::new(),
            Some(c) => {
                let s: &AircraftState = &c.sim.state;
                let wind: Vec3 = self.last_wind;
                let flow: FlowData = flow_data(m, s, wind);
                let euler: (Binary64, Binary64, Binary64) = flight::euler_angles(m, s);
                let a: TelemetryAngles = TelemetryAngles {
                    alpha: flow.alpha,
                    beta: flow.beta,
                    roll: euler.0,
                    pitch: euler.1,
                    yaw: euler.2,
                    climb: flight::flight_path_angle(m, s),
                    wind: m.atan2(wind.y, wind.x),
                };
                let calibrated: Binary64 = flight::calibrated_airspeed(
                    m,
                    &flow.air,
                    s.true_airspeed(wind),
                );
                let base: [Binary64; 25] = telemetry(
                    &self.cockpit,
                    s,
                    wind,
                    &flow.air,
                    calibrated,
                    a,
                );
                let r: Vec<Binary64> = full_telemetry(&base, Some(c.avionics.bus()));
                proof {
                    assert(are_telemetry_angles(*m, *s, wind, a));
                    assert(flight::is_air(*m, s.height(), flow.air));
                    assert(flight::is_calibrated(*m, flow.air, s.relative_speed(wind), calibrated));
                    assert(r@.subrange(0, 25) =~= base@);
                }
                r
            },
        }
    }

    /// The observation of the sensors; empty without an aircraft.
    pub fn avionics_observation(&self) -> (r: Vec<Binary64>)
        ensures
            match self.craft {
                Some(c) => r@ =~= Seq::new(19, |i: int| c.avionics.data().sensed(i)),
                None => r@.len() == 0,
            },
    {
        let mut r: Vec<Binary64> = Vec::new();
        if let Some(c) = &self.craft {
            let sensed: [Binary64; 19] = c.avionics.bus().sensor_observation();
            let mut i: usize = 0;
            while i < 19
                invariant
                    i <= 19,
                    r@.len() == i,
                    forall|k: int| 0 <= k < i ==> #[trigger] r@[k] == sensed@[k],
                decreases 19 - i,
            {
                r.push(sensed[i]);
                i += 1;
            }
            proof {
                assert forall|k: int| 0 <= k < 19 implies #[trigger] r@[k]
                    == c.avionics.data().sensed(k) by {
                    assert(sensed@[k] == c.avionics.data().sensed(k));
                }
            }
        }
        r
    }
}

/// Flown by the avionics the pilot moves the flaps alone: the surfaces are those
/// of the actuators, and the flaps have the sign of their lever.
pub proof fn pilots_move_the_flaps(cockpit: Cockpit, bus: AvionicsBus)
    requires
        cockpit.flaps_deg.finite(),
    ensures
        crate::rounding::like_product(
            piloted(cockpit, bus).flap,
            cockpit.flaps_deg,
            num(D1),
        ),
        piloted(cockpit, bus).elevator == crate::env::actuated(bus).elevator,
        piloted(cockpit, bus).aileron == crate::env::actuated(bus).aileron,
        piloted(cockpit, bus).rudder == crate::env::actuated(bus).rudder,
        piloted(cockpit, bus).throttle == crate::env::actuated(bus).throttle,
{
    crate::rounding::products_have_their_signs(
        cockpit.flaps_deg,
        num(D0_017453292519943295),
    );
}

} // verus!
