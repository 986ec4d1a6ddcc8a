//! The training environment: reset, step, reward and the end of an episode.
use crate::aero::{air_angle_terms, ControlInputs};
use crate::atmosphere::Atmosphere;
use crate::avionics::bus::{AvionicsBus, FaultFlag, FaultFlags, SurfaceTargets, TrueState};
use crate::avionics::stack::standard_stack;
use crate::avionics::system::{AvionicsSystem, Stage, StageTraces};
use crate::binary64::Binary64;
use crate::config::AircraftConfig;
use crate::elementary::Elementary;
use crate::flight::{air, euler_angles, fly, level_flight, total_wind};
use crate::literal::{num, D0, D0_35, D0_5, D0_7, D1, D10, D1000, D2, D200, D30, D50, D60};
use crate::state::{AircraftState, Trim};
use crate::vector::Vec3;
use crate::wind::{WindConfig, WindEnvironment};
use vstd::prelude::*;

verus! {

/// Deflections (rad), throttle and flap of one step.
#[derive(Clone, Copy, Debug, PartialEq, Eq, Structural)]
pub struct ControlAction {
    pub elevator: Binary64,
    pub aileron: Binary64,
    pub rudder: Binary64,
    pub throttle: Binary64,
    pub flaps: Binary64,
}

impl ControlAction {
    /// Surfaces centered, throttle at its middle.
    pub open spec fn centered() -> ControlAction {
        ControlAction {
            elevator: num(D0),
            aileron: num(D0),
            rudder: num(D0),
            throttle: num(D0_5),
            flaps: num(D0),
        }
    }

    /// Surfaces centered, throttle at its middle.
    pub fn neutral() -> (r: ControlAction)
        ensures
            r == ControlAction::centered(),
    {
        ControlAction {
            elevator: num(D0),
            aileron: num(D0),
            rudder: num(D0),
            throttle: num(D0_5),
            flaps: num(D0),
        }
    }
}

/// What a step gives.
#[derive(Clone, Copy, Debug)]
pub struct EnvStep {
    pub observation: [Binary64; 12],
    pub reward: Binary64,
    /// Whether the aircraft hit the ground.
    pub terminated: bool,
    /// Whether the steps of the episode are used up.
    pub truncated: bool,
}

/// Parameters of reward and episode.
#[derive(Clone, Copy, Debug, PartialEq, Eq, Structural)]
pub struct EnvConfig {
    /// Altitude to hold (m).
    pub target_altitude: Binary64,
    /// Airspeed to hold (m/s).
    pub target_airspeed: Binary64,
    /// Altitude of the ground (m).
    pub ground_altitude: Binary64,
    /// Largest deflections (rad).
    pub max_elevator: Binary64,
    pub max_aileron: Binary64,
    pub max_rudder: Binary64,
    /// Steps of an episode.
    pub max_steps: usize,
    /// Seconds of a step.
    pub dt: Binary64,
    /// Wind, or still air.
    pub wind_config: Option<WindConfig>,
    /// Reward of a step.
    pub w_time: Binary64,
    /// Weights and scales of the errors.
    pub w_alt: Binary64,
    pub scale_alt: Binary64,
    pub w_spd: Binary64,
    pub scale_spd: Binary64,
    pub w_pitch: Binary64,
    pub w_roll: Binary64,
    /// Penalty of a crash.
    pub w_crash: Binary64,
}

impl EnvConfig {
    /// Cruise at 1000 m and 60 m/s in still air.
    pub open spec fn cruise() -> EnvConfig {
        EnvConfig {
            target_altitude: num(D1000),
            target_airspeed: num(D60),
            ground_altitude: num(D0),
            max_elevator: num(D0_35),
            max_aileron: num(D0_35),
            max_rudder: num(D0_35),
            max_steps: 2000,
            dt: num(D1).quotient(num(D30)),
            wind_config: None,
            w_time: num(D1),
            w_alt: num(D2),
            scale_alt: num(D50),
            w_spd: num(D1),
            scale_spd: num(D10),
            w_pitch: num(D1),
            w_roll: num(D1),
            w_crash: num(D200),
        }
    }

    /// Whether the largest deflections are neither negative nor NaN.
    pub open spec fn limits(self) -> bool {
        &&& self.max_elevator.negated().not_above(self.max_elevator)
        &&& self.max_aileron.negated().not_above(self.max_aileron)
        &&& self.max_rudder.negated().not_above(self.max_rudder)
    }
}

impl Default for EnvConfig {
    fn default() -> (r: Self)
        ensures
            r == EnvConfig::cruise(),
            r.limits(),
    {
        EnvConfig {
            target_altitude: num(D1000),
            target_airspeed: num(D60),
            ground_altitude: num(D0),
            max_elevator: num(D0_35),
            max_aileron: num(D0_35),
            max_rudder: num(D0_35),
            max_steps: 2000,
            dt: num(D1).over(num(D30)),
            wind_config: None,
            w_time: num(D1),
            w_alt: num(D2),
            scale_alt: num(D50),
            w_spd: num(D1),
            scale_spd: num(D10),
            w_pitch: num(D1),
            w_roll: num(D1),
            w_crash: num(D200),
        }
    }
}

/// The reward: that of a step, less the weighted errors of altitude, airspeed,
/// pitch and roll.
pub open spec fn reward_of(
    s: AircraftState,
    cfg: EnvConfig,
    roll: Binary64,
    pitch: Binary64,
) -> Binary64 {
    cfg.w_time.difference(
        cfg.w_alt.product(s.height().difference(cfg.target_altitude).absolute()).quotient(
            cfg.scale_alt,
        ),
    ).difference(
        cfg.w_spd.product(s.speed().difference(cfg.target_airspeed).absolute()).quotient(
            cfg.scale_spd,
        ),
    ).difference(cfg.w_pitch.product(pitch).product(pitch)).difference(
        cfg.w_roll.product(roll).product(roll),
    )
}

/// The reward of a state whose roll and pitch angle are given: that of a step,
/// less the weighted errors of altitude, airspeed, pitch and roll.
pub fn shaped_reward(
    s: &AircraftState,
    cfg: &EnvConfig,
    roll: Binary64,
    pitch: Binary64,
) -> (r: Binary64)
    ensures
        r == reward_of(*s, *cfg, roll, pitch),
{
    cfg.w_time.minus(
        cfg.w_alt.times(s.altitude().minus(cfg.target_altitude).abs()).over(cfg.scale_alt),
    ).minus(
        cfg.w_spd.times(s.airspeed().minus(cfg.target_airspeed).abs()).over(cfg.scale_spd),
    ).minus(cfg.w_pitch.times(pitch).times(pitch)).minus(cfg.w_roll.times(roll).times(roll))
}

/// The controls of an action, each within its range.
pub open spec fn limited_controls(cfg: EnvConfig, action: ControlAction) -> ControlInputs {
    ControlInputs {
        elevator: action.elevator.clamped(cfg.max_elevator.negated(), cfg.max_elevator),
        aileron: action.aileron.clamped(cfg.max_aileron.negated(), cfg.max_aileron),
        rudder: action.rudder.clamped(cfg.max_rudder.negated(), cfg.max_rudder),
        throttle: action.throttle.clamped(num(D0), num(D1)),
        flap: action.flaps.clamped(num(D0), num(D0_7)),
    }
}

/// The controls of an action, each within its range.
pub fn controls_of(cfg: &EnvConfig, action: ControlAction) -> (r: ControlInputs)
    requires
        cfg.limits(),
    ensures
        r == limited_controls(*cfg, action),
{
    ControlInputs {
        elevator: action.elevator.clamp(cfg.max_elevator.neg(), cfg.max_elevator),
        aileron: action.aileron.clamp(cfg.max_aileron.neg(), cfg.max_aileron),
        rudder: action.rudder.clamp(cfg.max_rudder.neg(), cfg.max_rudder),
        throttle: action.throttle.clamp(num(D0), num(D1)),
        flap: action.flaps.clamp(num(D0), num(D0_7)),
    }
}

/// Whether an outcome is that of a state after `steps` steps, given its roll
/// and pitch angle.
pub open spec fn outcome(
    s: AircraftState,
    cfg: EnvConfig,
    steps: usize,
    angles: (Binary64, Binary64),
    r: EnvStep,
) -> bool {
    &&& r.observation@ =~= s.observed()
    &&& r.reward == reward_of(s, cfg, angles.0, angles.1)
    &&& r.terminated == s.height().not_above(cfg.ground_altitude)
    &&& r.truncated == (steps >= cfg.max_steps)
}

/// The environment: an aircraft under direct control.
#[derive(Clone, Debug)]
pub struct Environment {
    pub aircraft: AircraftConfig,
    pub state: AircraftState,
    pub config: EnvConfig,
    pub step_count: usize,
    pub wind: Option<WindEnvironment>,
}

/// The wind field of a configuration.
pub open spec fn field_of(config: EnvConfig) -> Option<WindEnvironment> {
    match config.wind_config {
        Some(w) => Some(WindEnvironment::fresh(w)),
        None => None,
    }
}

/// The wind field of a configuration.
fn wind_field(config: &EnvConfig) -> (r: Option<WindEnvironment>)
    ensures
        r == field_of(*config),
{
    match config.wind_config {
        Some(w) => Some(WindEnvironment::new(w)),
        None => None,
    }
}

/// Whether a wind blows over a step, and the field after it; still air has no
/// field.
pub open spec fn wind_blows<M: Elementary>(
    m: M,
    field: Option<WindEnvironment>,
    s: AircraftState,
    dt: Binary64,
    wind: Vec3,
    after: Option<WindEnvironment>,
) -> bool {
    match (field, after) {
        (Some(before), Some(after)) => crate::flight::blows(
            m,
            before,
            s.height(),
            s.relative_speed(Vec3::zero()),
            dt,
            wind,
            after,
        ),
        (None, None) => wind == Vec3::zero(),
        _ => false,
    }
}

/// Moves a wind field on by a step and returns the wind.
fn blow<M: Elementary>(
    m: &M,
    field: &mut Option<WindEnvironment>,
    s: &AircraftState,
    dt: Binary64,
) -> (r: Vec3)
    ensures
        wind_blows(*m, *old(field), *s, dt, r, *final(field)),
{
    match *field {
        Some(w) => {
            let mut next: WindEnvironment = w;
            let r: Vec3 = total_wind(
                m,
                &mut next,
                s.altitude(),
                s.true_airspeed(Vec3::zeros()),
                dt,
            );
            *field = Some(next);
            r
        },
        None => Vec3::zeros(),
    }
}

/// Whether these are the roll and the pitch angle of a state.
pub open spec fn is_attitude<M: Elementary>(
    m: M,
    s: AircraftState,
    angles: (Binary64, Binary64),
) -> bool {
    &&& crate::flight::is_roll(m, s, angles.0)
    &&& call_ensures(M::asin, (&m, s.attitude_terms().pitch_sine), angles.1)
}

/// The roll and the pitch angle of a state.
pub fn attitude<M: Elementary>(m: &M, s: &AircraftState) -> (r: (Binary64, Binary64))
    ensures
        is_attitude(*m, *s, r),
{
    let angles: (Binary64, Binary64, Binary64) = euler_angles(m, s);
    (angles.0, angles.1)
}

/// Whether this is level flight at 1000 m and 60 m/s.
pub open spec fn is_start<M: Elementary>(
    m: M,
    aircraft: AircraftConfig,
    trim: Trim,
) -> bool {
    crate::flight::is_level_flight(m, aircraft, num(D1000), num(D60), trim)
}

impl Environment {
    /// An environment in level flight at 1000 m and 60 m/s.
    pub fn with_config<M: Elementary>(
        aircraft: AircraftConfig,
        config: EnvConfig,
        m: &M,
    ) -> (r: Self)
        ensures
            r.aircraft == aircraft,
            exists|trim: Trim| #[trigger] is_start(*m, aircraft, trim) && r.state == trim.state,
            r.config == config,
            r.step_count == 0,
            r.wind == field_of(config),
    {
        let trim: Trim = level_flight(m, &aircraft, num(D1000), num(D60));
        proof {
            assert(is_start(*m, aircraft, trim));
        }
        Environment {
            aircraft,
            state: trim.state,
            config,
            step_count: 0,
            wind: wind_field(&config),
        }
    }

    /// Back to level flight; returns the observation and the steps of the
    /// episode that ended. Wind and configuration stay.
    pub fn reset<M: Elementary>(&mut self, m: &M) -> (r: ([Binary64; 12], usize))
        ensures
            exists|trim: Trim| #[trigger]
                is_start(*m, old(self).aircraft, trim) && *final(self) == (Environment {
                    state: trim.state,
                    step_count: 0,
                    ..*old(self)
                }),
            r.0@ =~= final(self).state.observed(),
            r.1 == old(self).step_count,
    {
        let prev_steps: usize = self.step_count;
        let trim: Trim = level_flight(m, &self.aircraft, num(D1000), num(D60));
        proof {
            assert(is_start(*m, self.aircraft, trim));
        }
        self.state = trim.state;
        self.step_count = 0;
        (self.state.to_observation_array(), prev_steps)
    }

    /// Whether a step in a wind ends so, with these angles.
    pub open spec fn flown<M: Elementary>(
        self,
        m: M,
        action: ControlAction,
        wind: Vec3,
        angles: (Binary64, Binary64),
        after: Environment,
        r: EnvStep,
    ) -> bool {
        &&& wind_blows(m, self.wind, self.state, self.config.dt, wind, after.wind)
        &&& crate::flight::flies(
            m,
            self.state,
            self.aircraft,
            limited_controls(self.config, action),
            wind,
            self.config.dt,
            None,
            after.state,
        )
        &&& is_attitude(m, after.state, angles)
        &&& after.step_count == self.step_count + 1
        &&& after.aircraft == self.aircraft
        &&& after.config == self.config
        &&& outcome(after.state, self.config, after.step_count, angles, r)
    }

    /// Applies an action for one step.
    pub fn step<M: Elementary>(&mut self, action: ControlAction, m: &M) -> (r: EnvStep)
        requires
            old(self).config.limits(),
            old(self).step_count < usize::MAX,
        ensures
            exists|wind: Vec3, angles: (Binary64, Binary64)| #[trigger]
                old(self).flown(*m, action, wind, angles, *final(self), r),
    {
        let controls: ControlInputs = controls_of(&self.config, action);
        let wind: Vec3 = blow(m, &mut self.wind, &self.state, self.config.dt);
        fly(m, &mut self.state, &self.aircraft, controls, wind, self.config.dt, None);
        self.step_count = self.step_count + 1;
        let angles: (Binary64, Binary64) = attitude(m, &self.state);
        let r: EnvStep = EnvStep {
            observation: self.state.to_observation_array(),
            reward: shaped_reward(&self.state, &self.config, angles.0, angles.1),
            terminated: self.state.altitude().le(self.config.ground_altitude),
            truncated: self.step_count >= self.config.max_steps,
        };
        proof {
            assert(old(self).flown(*m, action, wind, angles, *self, r));
        }
        r
    }

    /// The reward that a crash adds.
    pub fn crash_penalty(&self) -> (r: Binary64)
        ensures
            r == self.config.w_crash.negated(),
    {
        self.config.w_crash.neg()
    }

    /// The steps of the episode so far.
    pub fn step_count(&self) -> (r: usize)
        ensures
            r == self.step_count,
    {
        self.step_count
    }
}

/// The channels of the observation of the sensors.
pub const AVIONICS_OBS_DIM: usize = 19;

/// Commands to the flight controller: angles (rad), yaw rate (rad/s), throttle.
#[derive(Clone, Copy, Debug, PartialEq, Eq, Structural)]
pub struct AvionicsAction {
    pub roll_cmd: Binary64,
    pub pitch_cmd: Binary64,
    pub yaw_rate_cmd: Binary64,
    pub throttle: Binary64,
}

impl AvionicsAction {
    /// Level flight at a throttle.
    pub open spec fn level(throttle: Binary64) -> AvionicsAction {
        AvionicsAction {
            roll_cmd: num(D0),
            pitch_cmd: num(D0),
            yaw_rate_cmd: num(D0),
            throttle,
        }
    }

    /// Level flight at a throttle.
    pub fn level_cruise(throttle: Binary64) -> (r: AvionicsAction)
        ensures
            r == AvionicsAction::level(throttle),
    {
        AvionicsAction {
            roll_cmd: num(D0),
            pitch_cmd: num(D0),
            yaw_rate_cmd: num(D0),
            throttle,
        }
    }
}

/// What a step through the avionics gives.
#[derive(Clone, Copy, Debug)]
pub struct AvionicsEnvStep {
    pub observation: [Binary64; 19],
    pub reward: Binary64,
    /// Whether the aircraft hit the ground.
    pub terminated: bool,
    /// Whether the steps of the episode are used up.
    pub truncated: bool,
}

/// The environment: an aircraft flown through its avionics.
pub struct AvionicsEnvironment<M> {
    pub aircraft: AircraftConfig,
    pub state: AircraftState,
    pub avionics: AvionicsSystem<M>,
    pub config: EnvConfig,
    pub step_count: usize,
    pub wind: Option<WindEnvironment>,
}

/// The angles of attack and sideslip and the air of a step.
#[derive(Clone, Copy, Debug, PartialEq, Eq, Structural)]
pub struct FlowData {
    pub alpha: Binary64,
    pub beta: Binary64,
    pub air: Atmosphere,
}

/// Whether a true state on the bus is that of the aircraft in a wind.
pub open spec fn is_true_state(t: TrueState, s: AircraftState, wind: Vec3, flow: FlowData) -> bool {
    &&& t.position == (Vec3 { x: s.pos_x, y: s.pos_y, z: s.pos_z })
    &&& t.velocity == s.velocity()
    &&& t.quat@ =~= seq![s.q0, s.q1, s.q2, s.q3]
    &&& t.rates == s.rates()
    &&& t.airspeed == s.relative_speed(wind)
    &&& t.alpha == flow.alpha
    &&& t.beta == flow.beta
    &&& t.altitude == s.height()
    &&& t.wind == wind
    &&& t.q_dynamic == flow.air.ram(s.relative_speed(wind))
}

/// Whether these are the angles and the air that a state meets in a wind.
pub open spec fn is_flow<M: Elementary>(
    m: M,
    s: AircraftState,
    wind: Vec3,
    flow: FlowData,
) -> bool {
    let t = crate::aero::angle_terms(s.relative_velocity(wind));
    &&& call_ensures(M::atan2, (&m, t.0.0, t.0.1), flow.alpha)
    &&& call_ensures(M::atan2, (&m, t.1.0, t.1.1), flow.beta)
    &&& crate::flight::is_air(m, s.height(), flow.air)
}

/// The angles and the air that a state meets in a wind.
pub fn flow_data<M: Elementary>(m: &M, s: &AircraftState, wind: Vec3) -> (r: FlowData)
    ensures
        is_flow(*m, *s, wind, r),
{
    let t: ((Binary64, Binary64), (Binary64, Binary64)) = air_angle_terms(s.air_velocity(wind));
    FlowData {
        alpha: m.atan2((t.0).0, (t.0).1),
        beta: m.atan2((t.1).0, (t.1).1),
        air: air(m, s.altitude()),
    }
}

/// The true state of the aircraft in a wind.
pub fn true_state(s: &AircraftState, wind: Vec3, flow: FlowData) -> (r: TrueState)
    ensures
        is_true_state(r, *s, wind, flow),
{
    let tas: Binary64 = s.true_airspeed(wind);
    TrueState {
        position: Vec3 { x: s.pos_x, y: s.pos_y, z: s.pos_z },
        velocity: s.body_velocity(),
        quat: [s.q0, s.q1, s.q2, s.q3],
        rates: s.body_rates(),
        airspeed: tas,
        alpha: flow.alpha,
        beta: flow.beta,
        altitude: s.altitude(),
        wind,
        q_dynamic: flow.air.dynamic_pressure(tas),
    }
}

/// The bus with the commands of an action and a true state.
pub open spec fn bus_before(bus: AvionicsBus, action: AvionicsAction, t: TrueState) -> AvionicsBus {
    AvionicsBus {
        cmd_roll: action.roll_cmd,
        cmd_pitch: action.pitch_cmd,
        cmd_yaw_rate: action.yaw_rate_cmd,
        cmd_throttle: action.throttle.clamped(num(D0), num(D1)),
        ..bus.with_truth(t)
    }
}

/// The controls that the actuators on the bus give to the physics.
pub open spec fn actuated(bus: AvionicsBus) -> ControlInputs {
    let a = bus.actuator_outputs();
    ControlInputs {
        elevator: a.elevator,
        aileron: a.aileron,
        rudder: a.rudder,
        throttle: a.throttle,
        flap: num(D0),
    }
}

/// Whether the observation is that of a bus.
pub open spec fn senses(observation: [Binary64; 19], bus: AvionicsBus) -> bool {
    forall|i: int| 0 <= i < 19 ==> #[trigger] observation@[i] == bus.sensed(i)
}

impl<M: Elementary> AvionicsEnvironment<M> {
    /// An environment in level flight at 1000 m and 60 m/s, with avionics of
    /// typical hardware.
    pub fn with_config(aircraft: AircraftConfig, config: EnvConfig, m: &M) -> (r: Self) where
        M: Copy,

        ensures
            r.aircraft == aircraft,
            exists|trim: Trim| #[trigger] is_start(*m, aircraft, trim) && r.state == trim.state,
            exists|stack: AvionicsSystem<M>| #[trigger]
                crate::avionics::stack::is_standard(stack, config.dt, *m)
                    && r.avionics.readied_from(stack),
            r.config == config,
            r.step_count == 0,
            r.wind == field_of(config),
    {
        let stack: AvionicsSystem<M> = standard_stack(config.dt, m);
        proof {
            assert(crate::avionics::stack::is_standard(stack, config.dt, *m));
        }
        AvionicsEnvironment::with_avionics(aircraft, stack, config, m)
    }

    /// An environment in level flight at 1000 m and 60 m/s, with its avionics
    /// prepared.
    pub fn with_avionics(
        aircraft: AircraftConfig,
        avionics: AvionicsSystem<M>,
        config: EnvConfig,
        m: &M,
    ) -> (r: Self)
        ensures
            r.aircraft == aircraft,
            exists|trim: Trim| #[trigger] is_start(*m, aircraft, trim) && r.state == trim.state,
            r.avionics.readied_from(avionics),
            r.config == config,
            r.step_count == 0,
            r.wind == field_of(config),
    {
        let trim: Trim = level_flight(m, &aircraft, num(D1000), num(D60));
        proof {
            assert(is_start(*m, aircraft, trim));
        }
        let mut avionics: AvionicsSystem<M> = avionics;
        avionics.init();
        AvionicsEnvironment {
            aircraft,
            state: trim.state,
            avionics,
            config,
            step_count: 0,
            wind: wind_field(&config),
        }
    }

    /// Back to level flight with all faults cleared; returns the observation
    /// and the steps of the episode that ended.
    pub fn reset(&mut self, m: &M) -> (r: ([Binary64; 19], usize))
        ensures
            exists|trim: Trim| #[trigger]
                is_start(*m, old(self).aircraft, trim) && final(self).state == trim.state,
            final(self).step_count == 0,
            final(self).aircraft == old(self).aircraft,
            final(self).config == old(self).config,
            final(self).wind == old(self).wind,
            final(self).avionics.step_time() == old(self).avionics.step_time(),
            forall|stage: Stage|
                crate::avionics::system::all_restored(
                    old(self).avionics.components(stage),
                    #[trigger] final(self).avionics.components(stage),
                ),
            final(self).avionics.data() == (AvionicsBus {
                sim_time: num(D0),
                fc_fault_flags: FaultFlags::clear(),
                ..old(self).avionics.data().cleared()
            }),
            senses(r.0, final(self).avionics.data()),
            r.1 == old(self).step_count,
    {
        let prev_steps: usize = self.step_count;
        let trim: Trim = level_flight(m, &self.aircraft, num(D1000), num(D60));
        proof {
            assert(is_start(*m, self.aircraft, trim));
        }
        self.state = trim.state;
        self.avionics.reset();
        self.step_count = 0;
        self.avionics.bus_mut().fc_fault_flags = FaultFlags::default();
        (self.observation(), prev_steps)
    }

    /// Whether a step in a wind ends so, in which the components leave these
    /// buses, with these angles.
    pub open spec fn flown(
        self,
        m: M,
        action: AvionicsAction,
        wind: Vec3,
        truth: TrueState,
        t: StageTraces,
        angles: (Binary64, Binary64),
        after: AvionicsEnvironment<M>,
        r: AvionicsEnvStep,
    ) -> bool {
        let bus = after.avionics.data();
        &&& wind_blows(m, self.wind, self.state, self.config.dt, wind, after.wind)
        &&& exists|flow: FlowData| #[trigger]
            is_flow(m, self.state, wind, flow) && is_true_state(truth, self.state, wind, flow)
        &&& self.avionics.ran(
            bus_before(self.avionics.data(), action, truth),
            t,
            after.avionics,
        )
        &&& crate::flight::flies(
            m,
            self.state,
            self.aircraft,
            actuated(bus),
            wind,
            self.config.dt,
            None,
            after.state,
        )
        &&& is_attitude(m, after.state, angles)
        &&& after.step_count == self.step_count + 1
        &&& senses(r.observation, bus)
        &&& r.reward == reward_of(after.state, self.config, angles.0, angles.1)
        &&& r.terminated == after.state.height().not_above(self.config.ground_altitude)
        &&& r.truncated == (after.step_count >= self.config.max_steps)
    }

    /// Applies a command for one step: through sensors, controller and
    /// actuators to the physics.
    pub fn step(&mut self, action: AvionicsAction, m: &M) -> (r: AvionicsEnvStep)
        requires
            old(self).step_count < usize::MAX,
        ensures
            exists|wind: Vec3, truth: TrueState, t: StageTraces, angles: (Binary64, Binary64)|
             #[trigger]
                old(self).flown(*m, action, wind, truth, t, angles, *final(self), r),
            final(self).aircraft == old(self).aircraft,
            final(self).config == old(self).config,
    {
        let wind: Vec3 = blow(m, &mut self.wind, &self.state, self.config.dt);
        let flow: FlowData = flow_data(m, &self.state, wind);
        let truth: TrueState = true_state(&self.state, wind, flow);
        let bus: &mut AvionicsBus = self.avionics.bus_mut();
        bus.cmd_roll = action.roll_cmd;
        bus.cmd_pitch = action.pitch_cmd;
        bus.cmd_yaw_rate = action.yaw_rate_cmd;
        bus.cmd_throttle = action.throttle.clamp(num(D0), num(D1));
        bus.write_true_state(&truth);
        let ghost ready = self.avionics;
        proof {
            assert(ready.data() == bus_before(old(self).avionics.data(), action, truth));
        }
        self.avionics.step();
        let a: SurfaceTargets = self.avionics.bus().read_actuator_outputs();
        let controls: ControlInputs = ControlInputs {
            elevator: a.elevator,
            aileron: a.aileron,
            rudder: a.rudder,
            throttle: a.throttle,
            flap: num(D0),
        };
        fly(m, &mut self.state, &self.aircraft, controls, wind, self.config.dt, None);
        self.step_count = self.step_count + 1;
        let angles: (Binary64, Binary64) = attitude(m, &self.state);
        let r: AvionicsEnvStep = AvionicsEnvStep {
            observation: self.observation(),
            reward: shaped_reward(&self.state, &self.config, angles.0, angles.1),
            terminated: self.state.altitude().le(self.config.ground_altitude),
            truncated: self.step_count >= self.config.max_steps,
        };
        proof {
            let t = choose|t: StageTraces| #[trigger] ready.ran(ready.data(), t, self.avionics);
            assert(old(self).avionics.ran(ready.data(), t, self.avionics));
            assert(is_flow(*m, old(self).state, wind, flow));
            assert(old(self).flown(*m, action, wind, truth, t, angles, *self, r));
        }
        r
    }

    /// The observation of the sensors.
    pub fn observation(&self) -> (r: [Binary64; 19])
        ensures
            senses(r, self.avionics.data()),
    {
        self.avionics.bus().sensor_observation()
    }

    /// Registers a fault.
    pub fn inject_fault(&mut self, flag: FaultFlag)
        ensures
            final(self).avionics.data() == (AvionicsBus {
                fc_fault_flags: old(self).avionics.data().fc_fault_flags.with(flag, true),
                ..old(self).avionics.data()
            }),
            final(self).avionics.same_components(old(self).avionics),
            final(self).aircraft == old(self).aircraft,
            final(self).state == old(self).state,
            final(self).config == old(self).config,
            final(self).step_count == old(self).step_count,
            final(self).wind == old(self).wind,
    {
        self.avionics.inject_fault(flag, true);
    }

    /// Clears a fault.
    pub fn clear_fault(&mut self, flag: FaultFlag)
        ensures
            final(self).avionics.data() == (AvionicsBus {
                fc_fault_flags: old(self).avionics.data().fc_fault_flags.with(flag, false),
                ..old(self).avionics.data()
            }),
            final(self).avionics.same_components(old(self).avionics),
            final(self).aircraft == old(self).aircraft,
            final(self).state == old(self).state,
            final(self).config == old(self).config,
            final(self).step_count == old(self).step_count,
            final(self).wind == old(self).wind,
    {
        self.avionics.inject_fault(flag, false);
    }

    /// The registered faults.
    pub fn faults(&self) -> (r: FaultFlags)
        ensures
            r == self.avionics.data().fc_fault_flags,
    {
        self.avionics.faults()
    }

    /// The reward that a crash adds.
    pub fn crash_penalty(&self) -> (r: Binary64)
        ensures
            r == self.config.w_crash.negated(),
    {
        self.config.w_crash.neg()
    }

    /// The steps of the episode so far.
    pub fn step_count(&self) -> (r: usize)
        ensures
            r == self.step_count,
    {
        self.step_count
    }
}

/// The actions that reach the aircraft keep within their ranges.
pub proof fn actions_are_limited(cfg: EnvConfig, action: ControlAction)
    requires
        cfg.limits(),
        !action.throttle.nan(),
        !action.elevator.nan(),
    ensures
        crate::rounding::is_fraction(limited_controls(cfg, action).throttle),
        cfg.max_elevator.negated().not_above(limited_controls(cfg, action).elevator),
        limited_controls(cfg, action).elevator.not_above(cfg.max_elevator),
{
}

/// Errors cost: no reward exceeds that of a step.
pub proof fn rewards_are_bounded(
    s: AircraftState,
    cfg: EnvConfig,
    roll: Binary64,
    pitch: Binary64,
)
    requires
        cfg.w_time.finite(),
        num(D0).not_above(
            cfg.w_alt.product(s.height().difference(cfg.target_altitude).absolute()).quotient(
                cfg.scale_alt,
            ),
        ),
        num(D0).not_above(
            cfg.w_spd.product(s.speed().difference(cfg.target_airspeed).absolute()).quotient(
                cfg.scale_spd,
            ),
        ),
        num(D0).not_above(cfg.w_pitch.product(pitch).product(pitch)),
        num(D0).not_above(cfg.w_roll.product(roll).product(roll)),
    ensures
        reward_of(s, cfg, roll, pitch).not_above(cfg.w_time),
{
    let a = cfg.w_alt.product(s.height().difference(cfg.target_altitude).absolute()).quotient(
        cfg.scale_alt,
    );
    let b = cfg.w_spd.product(s.speed().difference(cfg.target_airspeed).absolute()).quotient(
        cfg.scale_spd,
    );
    let c = cfg.w_pitch.product(pitch).product(pitch);
    let d = cfg.w_roll.product(roll).product(roll);
    crate::rounding::differences_shrink(cfg.w_time, a);
    crate::rounding::differences_shrink(cfg.w_time.difference(a), b);
    crate::rounding::differences_shrink(cfg.w_time.difference(a).difference(b), c);
    crate::rounding::differences_shrink(cfg.w_time.difference(a).difference(b).difference(c), d);
}

/// The action that asks for given controls.
pub open spec fn asking_for(c: ControlInputs) -> ControlAction {
    ControlAction {
        elevator: c.elevator,
        aileron: c.aileron,
        rudder: c.rudder,
        throttle: c.throttle,
        flaps: c.flap,
    }
}

/// An action that was limited already is not changed by the limits, so that it
/// gives the steps of the action itself.
pub proof fn limited_actions_act_alike<M: Elementary>(
    env: Environment,
    m: M,
    action: ControlAction,
    wind: Vec3,
    angles: (Binary64, Binary64),
    after: Environment,
    r: EnvStep,
)
    requires
        env.config.limits(),
    ensures
        ({
            let limited = asking_for(limited_controls(env.config, action));
            &&& limited_controls(env.config, limited) == limited_controls(env.config, action)
            &&& env.flown(m, limited, wind, angles, after, r) == env.flown(
                m,
                action,
                wind,
                angles,
                after,
                r,
            )
        }),
{
}

/// Whether a step of an environment ends so.
#[verifier::opaque]
pub open spec fn steps_to<M: Elementary>(
    m: M,
    before: AvionicsEnvironment<M>,
    action: AvionicsAction,
    after: AvionicsEnvironment<M>,
    r: AvionicsEnvStep,
) -> bool {
    exists|wind: Vec3, truth: TrueState, t: StageTraces, angles: (Binary64, Binary64)| #[trigger]
        before.flown(m, action, wind, truth, t, angles, after, r)
}

/// An episode of an environment: its states, the actions that lead from each to
/// the next, and the results.
pub open spec fn is_episode<M: Elementary>(
    m: M,
    states: Seq<AvionicsEnvironment<M>>,
    actions: Seq<AvionicsAction>,
    results: Seq<AvionicsEnvStep>,
) -> bool {
    &&& states.len() == actions.len() + 1
    &&& results.len() == actions.len()
    &&& forall|k: int|
        0 <= k < actions.len() ==> #[trigger] steps_to(
            m,
            states[k],
            actions[k],
            states[k + 1],
            results[k],
        )
}

/// Whether avionics have the standard kinds of hardware and a depleted battery.
#[verifier::opaque]
pub open spec fn is_depleted<M: Elementary>(a: AvionicsSystem<M>) -> bool {
    &&& crate::avionics::stack::is_stack(a)
    &&& a.data().fc_fault_flags.battery_depleted
}

proof fn lemma_depleted_step<M: Elementary>(
    m: M,
    before: AvionicsEnvironment<M>,
    action: AvionicsAction,
    after: AvionicsEnvironment<M>,
    r: AvionicsEnvStep,
)
    requires
        steps_to(m, before, action, after, r),
        is_depleted(before.avionics),
    ensures
        is_depleted(after.avionics),
        after.avionics.data().actual_esc_output == num(D0),
        r.observation@[17] == num(D0),
{
    reveal(steps_to);
    reveal(is_depleted);
    let (wind, truth, t, angles) = choose|
        wind: Vec3,
        truth: TrueState,
        t: StageTraces,
        angles: (Binary64, Binary64),
    | #[trigger]
        before.flown(m, action, wind, truth, t, angles, after, r);
    let start = bus_before(before.avionics.data(), action, truth);
    crate::avionics::stack::depleted_batteries_give_no_thrust(
        before.avionics,
        start,
        t,
        after.avionics,
    );
    assert(r.observation@[17] == after.avionics.data().sensed(17));
}

/// An aircraft with the standard kinds of hardware glides once its battery is
/// depleted: from then on no step, whatever is commanded, gives thrust or
/// reports any.
pub proof fn depleted_aircraft_glide<M: Elementary>(
    m: M,
    states: Seq<AvionicsEnvironment<M>>,
    actions: Seq<AvionicsAction>,
    results: Seq<AvionicsEnvStep>,
    n: nat,
)
    requires
        is_episode(m, states, actions, results),
        is_depleted(states[0].avionics),
        n < results.len(),
    ensures
        results[n as int].observation@[17] == num(D0),
        states[n as int + 1].avionics.data().actual_esc_output == num(D0),
        is_depleted(states[n as int + 1].avionics),
    decreases n,
{
    if n > 0 {
        depleted_aircraft_glide(m, states, actions, results, (n - 1) as nat);
    }
    let k = n as int;
    assert(steps_to(m, states[k], actions[k], states[k + 1], results[k]));
    lemma_depleted_step(m, states[k], actions[k], states[k + 1], results[k]);
}

/// A depletion that is registered on the bus of the standard kinds of hardware
/// counts: the battery is depleted.
pub proof fn registered_depletion_counts<M: Elementary>(
    a: AvionicsSystem<M>,
    after: AvionicsSystem<M>,
)
    requires
        crate::avionics::stack::is_stack(a),
        after.same_components(a),
        after.data().fc_fault_flags == a.data().fc_fault_flags.with(
            FaultFlag::BatteryDepleted,
            true,
        ),
    ensures
        is_depleted(after),
{
    reveal(is_depleted);
    crate::avionics::stack::stacks_stay_stacks(a, after);
}

/// Whether weights, scales and errors of a reward are such that larger errors
/// cost more.
pub open spec fn is_weighed(
    s: AircraftState,
    cfg: EnvConfig,
    roll: Binary64,
    pitch: Binary64,
) -> bool {
    let high = s.height().difference(cfg.target_altitude);
    let fast = s.speed().difference(cfg.target_airspeed);
    &&& cfg.w_time.finite()
    &&& cfg.w_alt.finite() && num(D0).not_above(cfg.w_alt)
    &&& cfg.w_spd.finite() && num(D0).not_above(cfg.w_spd)
    &&& cfg.w_pitch.finite() && num(D0).not_above(cfg.w_pitch)
    &&& cfg.w_roll.finite() && num(D0).not_above(cfg.w_roll)
    &&& cfg.scale_alt.finite() && num(D0).below(cfg.scale_alt)
    &&& cfg.scale_spd.finite() && num(D0).below(cfg.scale_spd)
    &&& high.finite() && fast.finite() && pitch.finite() && roll.finite()
    &&& cfg.w_alt.product(high.absolute()).finite() && cfg.w_spd.product(fast.absolute()).finite()
    &&& cfg.w_pitch.product(pitch).finite() && cfg.w_roll.product(roll).finite()
}

/// The cost of an error.
proof fn lemma_cost(w: Binary64, a: Binary64, b: Binary64, scale: Binary64)
    requires
        w.finite() && num(D0).not_above(w),
        a.finite() && b.finite(),
        a.absolute().not_above(b.absolute()),
        w.product(a.absolute()).finite() && w.product(b.absolute()).finite(),
        scale.finite() && num(D0).below(scale),
    ensures
        num(D0).not_above(w.product(a.absolute()).quotient(scale)),
        w.product(a.absolute()).quotient(scale).not_above(
            w.product(b.absolute()).quotient(scale),
        ),
        a.zero() ==> w.product(a.absolute()).quotient(scale).zero(),
{
    let (p, q) = (a.absolute(), b.absolute());
    crate::rounding::factors_keep_order(w, p, q);
    crate::rounding::products_keep_signs(w, p);
    crate::rounding::quotients_keep_order(w.product(p), w.product(q), scale);
    if a.zero() {
        crate::rounding::zero_absorbs(p, w);
    }
}

/// A reward less a cost.
proof fn lemma_charged(x: Binary64, y: Binary64, a: Binary64, b: Binary64)
    requires
        !x.nan() && !y.nan(),
        x.finite() || x.negative(),
        y.finite() || y.negative(),
        y.not_above(x),
        num(D0).not_above(a),
        a.not_above(b),
    ensures
        y.difference(b).not_above(x.difference(a)),
        !x.difference(a).nan() && !y.difference(b).nan(),
        x.difference(a).finite() || x.difference(a).negative(),
        y.difference(b).finite() || y.difference(b).negative(),
{
    crate::rounding::differences_shrink(x, a);
    crate::rounding::differences_shrink(y, b);
    crate::rounding::sums_of_ordered_terms(y, x, b.negated(), a.negated());
}

/// Larger errors are worth less: whoever is further off in altitude and
/// airspeed, pitches and rolls more, on whichever side, earns no more.
pub proof fn larger_errors_are_worth_less(
    s: AircraftState,
    t: AircraftState,
    cfg: EnvConfig,
    a: (Binary64, Binary64),
    b: (Binary64, Binary64),
)
    requires
        is_weighed(s, cfg, a.0, a.1),
        is_weighed(t, cfg, b.0, b.1),
        s.height().difference(cfg.target_altitude).absolute().not_above(
            t.height().difference(cfg.target_altitude).absolute(),
        ),
        s.speed().difference(cfg.target_airspeed).absolute().not_above(
            t.speed().difference(cfg.target_airspeed).absolute(),
        ),
        a.0.absolute().not_above(b.0.absolute()),
        a.1.absolute().not_above(b.1.absolute()),
    ensures
        reward_of(t, cfg, b.0, b.1).not_above(reward_of(s, cfg, a.0, a.1)),
{
    let (h, i) = (
        s.height().difference(cfg.target_altitude),
        t.height().difference(cfg.target_altitude),
    );
    let (f, g) = (
        s.speed().difference(cfg.target_airspeed),
        t.speed().difference(cfg.target_airspeed),
    );
    lemma_cost(cfg.w_alt, h, i, cfg.scale_alt);
    lemma_cost(cfg.w_spd, f, g, cfg.scale_spd);
    crate::rounding::weighed_squares_grow(cfg.w_pitch, a.1, b.1);
    crate::rounding::weighed_squares_grow(cfg.w_roll, a.0, b.0);
    let (c0, d0) = (
        cfg.w_alt.product(h.absolute()).quotient(cfg.scale_alt),
        cfg.w_alt.product(i.absolute()).quotient(cfg.scale_alt),
    );
    let (c1, d1) = (
        cfg.w_spd.product(f.absolute()).quotient(cfg.scale_spd),
        cfg.w_spd.product(g.absolute()).quotient(cfg.scale_spd),
    );
    let (c2, d2) = (
        cfg.w_pitch.product(a.1).product(a.1),
        cfg.w_pitch.product(b.1).product(b.1),
    );
    let (c3, d3) = (cfg.w_roll.product(a.0).product(a.0), cfg.w_roll.product(b.0).product(b.0));
    let w = cfg.w_time;
    lemma_charged(w, w, c0, d0);
    lemma_charged(w.difference(c0), w.difference(d0), c1, d1);
    lemma_charged(w.difference(c0).difference(c1), w.difference(d0).difference(d1), c2, d2);
    lemma_charged(
        w.difference(c0).difference(c1).difference(c2),
        w.difference(d0).difference(d1).difference(d2),
        c3,
        d3,
    );
}

/// Flight without errors earns what a step is worth.
pub proof fn flight_without_errors_earns_the_step(
    s: AircraftState,
    cfg: EnvConfig,
    roll: Binary64,
    pitch: Binary64,
)
    requires
        is_weighed(s, cfg, roll, pitch),
        s.height() == cfg.target_altitude && s.height().finite(),
        s.speed() == cfg.target_airspeed && s.speed().finite(),
        roll.zero() && pitch.zero(),
    ensures
        reward_of(s, cfg, roll, pitch).same(cfg.w_time),
{
    let (h, f) = (
        s.height().difference(cfg.target_altitude),
        s.speed().difference(cfg.target_airspeed),
    );
    crate::rounding::differences_cancel(s.height());
    crate::rounding::differences_cancel(s.speed());
    lemma_cost(cfg.w_alt, h, h, cfg.scale_alt);
    lemma_cost(cfg.w_spd, f, f, cfg.scale_spd);
    crate::rounding::weighed_squares_grow(cfg.w_pitch, pitch, pitch);
    crate::rounding::weighed_squares_grow(cfg.w_roll, roll, roll);
    let w = cfg.w_time;
    let c0 = cfg.w_alt.product(h.absolute()).quotient(cfg.scale_alt);
    let c1 = cfg.w_spd.product(f.absolute()).quotient(cfg.scale_spd);
    let c2 = cfg.w_pitch.product(pitch).product(pitch);
    let c3 = cfg.w_roll.product(roll).product(roll);
    crate::rounding::zeros_keep_signs(w, c0);
    crate::rounding::zeros_keep_signs(w.difference(c0), c1);
    crate::rounding::zeros_keep_signs(w.difference(c0).difference(c1), c2);
    crate::rounding::zeros_keep_signs(w.difference(c0).difference(c1).difference(c2), c3);
}

/// Each part of an action reaches its own control: as it is asked for within
/// the range, never the other way, and nothing of the other parts.
pub proof fn actions_reach_their_controls(
    cfg: EnvConfig,
    action: ControlAction,
    more: ControlAction,
)
    requires
        cfg.limits(),
    ensures
        ({
            let (a, b) = (limited_controls(cfg, action), limited_controls(cfg, more));
            &&& action.elevator.not_above(more.elevator) ==> a.elevator.not_above(b.elevator)
            &&& action.aileron.not_above(more.aileron) ==> a.aileron.not_above(b.aileron)
            &&& action.rudder.not_above(more.rudder) ==> a.rudder.not_above(b.rudder)
            &&& action.throttle.not_above(more.throttle) ==> a.throttle.not_above(b.throttle)
            &&& action.flaps.not_above(more.flaps) ==> a.flap.not_above(b.flap)
            &&& action.elevator.absolute().not_above(cfg.max_elevator) ==> a.elevator
                == action.elevator
            &&& action.aileron.absolute().not_above(cfg.max_aileron) ==> a.aileron
                == action.aileron
            &&& action.rudder.absolute().not_above(cfg.max_rudder) ==> a.rudder == action.rudder
            &&& crate::rounding::is_fraction(action.throttle) ==> a.throttle == action.throttle
        }),
{
}

/// Who is lower than one that has hit the ground has hit it too.
pub proof fn the_ground_ends_what_is_lower(
    s: AircraftState,
    t: AircraftState,
    cfg: EnvConfig,
    steps: usize,
    a: (Binary64, Binary64),
    b: (Binary64, Binary64),
    r: EnvStep,
    u: EnvStep,
)
    requires
        outcome(s, cfg, steps, a, r),
        outcome(t, cfg, steps, b, u),
        t.height().not_above(s.height()),
    ensures
        r.terminated ==> u.terminated,
        r.terminated && !cfg.ground_altitude.nan() ==> !cfg.ground_altitude.below(s.height()),
        cfg.ground_altitude.below(t.height()) ==> !r.terminated && !u.terminated,
{
}

/// Commands go to the bus under their own names, and what the actuators give
/// goes to the surfaces of theirs; avionics do not move the flaps.
pub proof fn commands_keep_their_names(bus: AvionicsBus, action: AvionicsAction, t: TrueState)
    ensures
        ({
            let b = bus_before(bus, action, t);
            &&& b.cmd_roll == action.roll_cmd
            &&& b.cmd_pitch == action.pitch_cmd
            &&& b.cmd_yaw_rate == action.yaw_rate_cmd
            &&& crate::rounding::is_fraction(action.throttle) ==> b.cmd_throttle
                == action.throttle
            &&& b.true_position_ned == t.position && b.true_velocity_body == t.velocity
            &&& b.true_angular_rates == t.rates && b.true_altitude == t.altitude
            &&& actuated(bus).elevator == bus.actuator_outputs().elevator
            &&& actuated(bus).aileron == bus.actuator_outputs().aileron
            &&& actuated(bus).rudder == bus.actuator_outputs().rudder
            &&& actuated(bus).throttle == bus.actual_esc_output
            &&& actuated(bus).flap.zero()
        }),
{
}

} // verus!
