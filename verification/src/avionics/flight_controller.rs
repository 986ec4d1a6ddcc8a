//! The flight controller: nested loops from attitude to rate to surface.
use super::bus::{AvionicsBus, FcMode, SurfaceTargets};
use super::traits::Controller;
use crate::binary64::Binary64;
use crate::literal::{
    num, D0, D0_001, D0_017453292519943295, D0_05, D0_5, D1, D1EM9, D2, D20, D3, D30, D45, M1, M30,
};
use vstd::prelude::*;

verus! {

/// Parameters of a loop.
#[derive(Clone, Copy, Debug, PartialEq, Eq, Structural)]
pub struct PidConfig {
    pub kp: Binary64,
    pub ki: Binary64,
    pub kd: Binary64,
    /// Limit of the output.
    pub out_limit: Binary64,
    /// Limit of the integral.
    pub i_limit: Binary64,
}

impl PidConfig {
    pub open spec fn idle() -> PidConfig {
        PidConfig {
            kp: num(D0),
            ki: num(D0),
            kd: num(D0),
            out_limit: num(D1),
            i_limit: num(D0_5),
        }
    }

    /// Whether the limits are limits: neither negative nor NaN.
    pub open spec fn limits(self) -> bool {
        self.out_limit.negated().not_above(self.out_limit) && self.i_limit.negated().not_above(
            self.i_limit,
        )
    }
}

impl Default for PidConfig {
    fn default() -> (r: Self)
        ensures
            r == PidConfig::idle(),
            r.limits(),
    {
        PidConfig {
            kp: num(D0),
            ki: num(D0),
            kd: num(D0),
            out_limit: num(D1),
            i_limit: num(D0_5),
        }
    }
}

/// A proportional, integral and derivative loop with limits.
#[derive(Clone, Copy, Debug, PartialEq, Eq, Structural)]
pub struct PidController {
    pub config: PidConfig,
    pub integral: Binary64,
    pub prev_error: Binary64,
    /// The last measurement.
    pub prev_output: Binary64,
    /// Smoothed derivative.
    pub d_filter: Binary64,
    /// Whether the derivative is that of the measurement.
    pub derivative_on_measurement: bool,
}

impl PidController {
    /// A loop at its start.
    pub open spec fn fresh(config: PidConfig, on_measurement: bool) -> PidController {
        PidController {
            config,
            integral: num(D0),
            prev_error: num(D0),
            prev_output: num(D0),
            d_filter: num(D0),
            derivative_on_measurement: on_measurement,
        }
    }

    pub open spec fn cleared(self) -> PidController {
        PidController::fresh(self.config, self.derivative_on_measurement)
    }

    /// The loop after a step.
    pub open spec fn stepped(self, target: Binary64, measurement: Binary64, dt: Binary64) -> PidController {
        let error = target.difference(measurement);
        let dterm = if self.derivative_on_measurement {
            self.config.kd.negated().product(measurement.difference(self.prev_output)).quotient(
                dt.larger(num(D1EM9)),
            )
        } else {
            self.config.kd.product(error.difference(self.prev_error)).quotient(
                dt.larger(num(D1EM9)),
            )
        };
        let alpha = dt.quotient(num(D0_001).sum(dt));
        PidController {
            integral: self.integral.sum(error.product(dt)).clamped(
                self.config.i_limit.negated(),
                self.config.i_limit,
            ),
            prev_error: error,
            prev_output: measurement,
            d_filter: self.d_filter.sum(alpha.product(dterm.difference(self.d_filter))),
            ..self
        }
    }

    /// The output of a step, within its limit.
    pub open spec fn output(self, target: Binary64, measurement: Binary64, dt: Binary64) -> Binary64 {
        let next = self.stepped(target, measurement, dt);
        self.config.kp.product(target.difference(measurement)).sum(
            self.config.ki.product(next.integral),
        ).sum(next.d_filter).clamped(self.config.out_limit.negated(), self.config.out_limit)
    }

    pub fn new(config: PidConfig) -> (r: Self)
        ensures
            r == PidController::fresh(config, false),
    {
        PidController {
            config,
            integral: num(D0),
            prev_error: num(D0),
            prev_output: num(D0),
            d_filter: num(D0),
            derivative_on_measurement: false,
        }
    }

    /// Takes the derivative of the measurement in place of that of the error.
    pub fn set_derivative_on_measurement(&mut self, enabled: bool)
        ensures
            *final(self) == (PidController { derivative_on_measurement: enabled, ..*old(self) }),
    {
        self.derivative_on_measurement = enabled;
    }

    /// Steps the loop and returns its output.
    pub fn compute(&mut self, target: Binary64, measurement: Binary64, dt: Binary64) -> (r:
        Binary64)
        requires
            old(self).config.limits(),
        ensures
            r == old(self).output(target, measurement, dt),
            *final(self) == old(self).stepped(target, measurement, dt),
    {
        let error: Binary64 = target.minus(measurement);
        let p: Binary64 = self.config.kp.times(error);
        self.integral = self.integral.plus(error.times(dt)).clamp(
            self.config.i_limit.neg(),
            self.config.i_limit,
        );
        let i: Binary64 = self.config.ki.times(self.integral);
        let dterm: Binary64 = if self.derivative_on_measurement {
            self.config.kd.neg().times(measurement.minus(self.prev_output)).over(
                dt.max(num(D1EM9)),
            )
        } else {
            self.config.kd.times(error.minus(self.prev_error)).over(dt.max(num(D1EM9)))
        };
        let alpha: Binary64 = dt.over(num(D0_001).plus(dt));
        self.d_filter = self.d_filter.plus(alpha.times(dterm.minus(self.d_filter)));
        self.prev_error = error;
        self.prev_output = measurement;
        p.plus(i).plus(self.d_filter).clamp(self.config.out_limit.neg(), self.config.out_limit)
    }

    /// Forgets integral, derivative and past errors.
    pub fn reset(&mut self)
        ensures
            *final(self) == old(self).cleared(),
    {
        self.integral = num(D0);
        self.prev_error = num(D0);
        self.prev_output = num(D0);
        self.d_filter = num(D0);
    }
}

/// The output of a loop keeps within its limit, and so does the integral,
/// however long the error lasts. Only NaN escapes.
pub proof fn loops_keep_within_their_limits(
    pid: PidController,
    target: Binary64,
    measurement: Binary64,
    dt: Binary64,
)
    requires
        pid.config.limits(),
    ensures
        within(pid.output(target, measurement, dt), pid.config.out_limit),
        within(pid.stepped(target, measurement, dt).integral, pid.config.i_limit),
        pid.stepped(target, measurement, dt).config == pid.config,
{
}

/// At most `limit` to either side, or not a number.
pub open spec fn within(x: Binary64, limit: Binary64) -> bool {
    x.nan() || (limit.negated().not_above(x) && x.not_above(limit))
}

/// Parameters of the controller.
#[derive(Clone, Copy, Debug, PartialEq, Eq, Structural)]
pub struct FlightControllerConfig {
    /// Roll angle to roll rate.
    pub roll_attitude: PidConfig,
    /// Pitch angle to pitch rate.
    pub pitch_attitude: PidConfig,
    /// Factor on the commanded yaw rate.
    pub yaw_rate_ff: Binary64,
    /// Roll rate to aileron.
    pub roll_rate: PidConfig,
    /// Pitch rate to elevator.
    pub pitch_rate: PidConfig,
    /// Yaw rate to rudder.
    pub yaw_rate: PidConfig,
    /// Largest commanded roll or pitch angle (rad).
    pub max_attitude_rad: Binary64,
}

impl FlightControllerConfig {
    pub open spec fn typical() -> FlightControllerConfig {
        let attitude = PidConfig { kp: num(D3), ..PidConfig::idle() };
        let rate = PidConfig { kp: num(D30), out_limit: num(D30), ..PidConfig::idle() };
        FlightControllerConfig {
            roll_attitude: attitude,
            pitch_attitude: attitude,
            yaw_rate_ff: num(D1),
            roll_rate: rate,
            pitch_rate: rate,
            yaw_rate: PidConfig { kp: num(D20), ..rate },
            max_attitude_rad: num(D45).product(num(D0_017453292519943295)),
        }
    }

    pub open spec fn limits(self) -> bool {
        &&& self.roll_attitude.limits()
        &&& self.pitch_attitude.limits()
        &&& self.roll_rate.limits()
        &&& self.pitch_rate.limits()
        &&& self.yaw_rate.limits()
        &&& self.max_attitude_rad.negated().not_above(self.max_attitude_rad)
    }
}

impl Default for FlightControllerConfig {
    fn default() -> (r: Self)
        ensures
            r == FlightControllerConfig::typical(),
            r.limits(),
    {
        let mut attitude: PidConfig = PidConfig::default();
        attitude.kp = num(D3);
        let mut rate: PidConfig = PidConfig::default();
        rate.kp = num(D30);
        rate.out_limit = num(D30);
        let mut yaw: PidConfig = rate;
        yaw.kp = num(D20);
        proof {
            crate::rounding::products_are_numbers(num(D45), num(D0_017453292519943295));
        }
        FlightControllerConfig {
            roll_attitude: attitude,
            pitch_attitude: attitude,
            yaw_rate_ff: num(D1),
            roll_rate: rate,
            pitch_rate: rate,
            yaw_rate: yaw,
            max_attitude_rad: num(D45).times(num(D0_017453292519943295)),
        }
    }
}

/// The controller.
#[derive(Clone, Copy, Debug, PartialEq, Eq, Structural)]
pub struct FlightController {
    pub config: FlightControllerConfig,
    pub mode: FcMode,
    pub roll_att: PidController,
    pub pitch_att: PidController,
    pub roll_rate: PidController,
    pub pitch_rate: PidController,
    pub yaw_rate_pid: PidController,
    /// Smoothed throttle.
    pub throttle_filter: Binary64,
}

/// Commanded angular rates.
#[derive(Clone, Copy, Debug, PartialEq, Eq, Structural)]
pub struct RateTargets {
    pub p: Binary64,
    pub q: Binary64,
    pub r: Binary64,
}

impl FlightController {
    pub open spec fn fresh(config: FlightControllerConfig, mode: FcMode) -> FlightController {
        FlightController {
            config,
            mode,
            roll_att: PidController::fresh(config.roll_attitude, false),
            pitch_att: PidController::fresh(config.pitch_attitude, false),
            roll_rate: PidController::fresh(config.roll_rate, true),
            pitch_rate: PidController::fresh(config.pitch_rate, true),
            yaw_rate_pid: PidController::fresh(config.yaw_rate, true),
            throttle_filter: num(D0),
        }
    }

    /// Whether the limits of all loops are limits.
    pub open spec fn limits(self) -> bool {
        &&& self.roll_att.config.limits()
        &&& self.pitch_att.config.limits()
        &&& self.roll_rate.config.limits()
        &&& self.pitch_rate.config.limits()
        &&& self.yaw_rate_pid.config.limits()
        &&& self.config.max_attitude_rad.negated().not_above(self.config.max_attitude_rad)
    }

    /// Whether the limits that count in the mode are limits: none in manual
    /// mode, those of the rate loops in rate mode, those of all loops in
    /// stabilized flight, and with them the largest angle in attitude mode.
    pub open spec fn ready(self) -> bool {
        &&& self.mode != FcMode::Manual ==> {
            &&& self.roll_rate.config.limits()
            &&& self.pitch_rate.config.limits()
            &&& self.yaw_rate_pid.config.limits()
        }
        &&& self.mode == FcMode::Stabilize || self.mode == FcMode::Attitude ==> {
            &&& self.roll_att.config.limits()
            &&& self.pitch_att.config.limits()
        }
        &&& self.mode == FcMode::Attitude
            ==> self.config.max_attitude_rad.negated().not_above(self.config.max_attitude_rad)
    }

    pub fn new(config: FlightControllerConfig) -> (r: Self)
        ensures
            r == FlightController::fresh(config, FcMode::Attitude),
            config.limits() ==> r.limits() && r.ready(),
    {
        let mut roll_rate: PidController = PidController::new(config.roll_rate);
        roll_rate.set_derivative_on_measurement(true);
        let mut pitch_rate: PidController = PidController::new(config.pitch_rate);
        pitch_rate.set_derivative_on_measurement(true);
        let mut yaw_rate_pid: PidController = PidController::new(config.yaw_rate);
        yaw_rate_pid.set_derivative_on_measurement(true);
        FlightController {
            config,
            mode: FcMode::Attitude,
            roll_att: PidController::new(config.roll_attitude),
            pitch_att: PidController::new(config.pitch_attitude),
            roll_rate,
            pitch_rate,
            yaw_rate_pid,
            throttle_filter: num(D0),
        }
    }

    /// The terms of roll and pitch on the bus: the arguments of the arctangent
    /// of the roll angle and of the arcsine of the pitch angle. The orientation
    /// on the bus is a quaternion from earth to body; the roll angle is positive
    /// with the right wing down, and the pitch angle with the nose down.
    pub open spec fn angle_terms(bus: AvionicsBus) -> (Binary64, Binary64, Binary64) {
        let (w, x, y, z) = (
            bus.true_quat@[0],
            bus.true_quat@[1],
            bus.true_quat@[2],
            bus.true_quat@[3],
        );
        (
            num(D2).product(y.product(z).difference(w.product(x))),
            num(D1).difference(num(D2).product(x.product(x).sum(y.product(y)))),
            num(D2).product(w.product(y).difference(z.product(x))).clamped(num(M1), num(D1)),
        )
    }

    /// The numbers from which the attitude follows: the roll angle is the
    /// arctangent of the first over the second, the pitch angle, positive with
    /// the nose down, the arcsine of the third.
    pub fn attitude_terms(bus: &AvionicsBus) -> (r: (Binary64, Binary64, Binary64))
        ensures
            r == FlightController::angle_terms(*bus),
    {
        let w: Binary64 = bus.true_quat[0];
        let x: Binary64 = bus.true_quat[1];
        let y: Binary64 = bus.true_quat[2];
        let z: Binary64 = bus.true_quat[3];
        (
            num(D2).times(y.times(z).minus(w.times(x))),
            num(D1).minus(num(D2).times(x.times(x).plus(y.times(y)))),
            num(D2).times(w.times(y).minus(z.times(x))).clamp(num(M1), num(D1)),
        )
    }

    pub open spec fn cleared(self) -> FlightController {
        FlightController {
            roll_att: self.roll_att.cleared(),
            pitch_att: self.pitch_att.cleared(),
            roll_rate: self.roll_rate.cleared(),
            pitch_rate: self.pitch_rate.cleared(),
            yaw_rate_pid: self.yaw_rate_pid.cleared(),
            throttle_filter: num(D0),
            ..self
        }
    }

    /// Sets all loops and the throttle filter back.
    pub fn init(&mut self)
        ensures
            *final(self) == old(self).cleared(),
    {
        self.roll_att.reset();
        self.pitch_att.reset();
        self.roll_rate.reset();
        self.pitch_rate.reset();
        self.yaw_rate_pid.reset();
        self.throttle_filter = num(D0);
    }

    /// Sets all loops and the throttle filter back.
    pub fn reset(&mut self)
        ensures
            *final(self) == old(self).cleared(),
    {
        self.init();
    }

    /// The roll angle that is aimed at: level in stabilized flight, else the
    /// command within the largest angle.
    pub open spec fn roll_target(self, bus: AvionicsBus) -> Binary64 {
        if self.mode == FcMode::Stabilize {
            num(D0)
        } else {
            bus.cmd_roll.clamped(
                self.config.max_attitude_rad.negated(),
                self.config.max_attitude_rad,
            )
        }
    }

    /// The pitch angle that is aimed at, positive with the nose down.
    pub open spec fn pitch_target(self, bus: AvionicsBus) -> Binary64 {
        if self.mode == FcMode::Stabilize {
            bus.cmd_pitch
        } else {
            bus.cmd_pitch.clamped(
                self.config.max_attitude_rad.negated(),
                self.config.max_attitude_rad,
            )
        }
    }

    /// The rates that are aimed at: the commands themselves in rate mode, else
    /// what the attitude loops ask for.
    pub open spec fn rate_targets(
        self,
        bus: AvionicsBus,
        roll: Binary64,
        pitch: Binary64,
        dt: Binary64,
    ) -> RateTargets {
        if self.mode == FcMode::Rate {
            RateTargets { p: bus.cmd_roll, q: bus.cmd_pitch, r: bus.cmd_yaw_rate }
        } else {
            RateTargets {
                p: self.roll_att.output(self.roll_target(bus), roll, dt),
                q: self.pitch_att.output(self.pitch_target(bus), pitch, dt),
                r: bus.cmd_yaw_rate.product(self.config.yaw_rate_ff),
            }
        }
    }

    /// The throttle after the filter.
    pub open spec fn throttle_after(self, thr: Binary64, dt: Binary64) -> Binary64 {
        thr.difference(self.throttle_filter).product(dt.quotient(num(D0_05).sum(dt))).sum(
            self.throttle_filter,
        )
    }

    /// The bus after a step.
    pub open spec fn commanded(
        self,
        bus: AvionicsBus,
        roll: Binary64,
        pitch: Binary64,
        dt: Binary64,
    ) -> AvionicsBus {
        let thr = bus.cmd_throttle.clamped(num(D0), num(D1));
        if self.mode == FcMode::Manual {
            AvionicsBus {
                fc_servo_aileron: bus.direct().aileron,
                fc_servo_elevator: bus.direct().elevator,
                fc_servo_rudder: bus.direct().rudder,
                fc_esc_throttle: thr,
                fc_mode: self.mode,
                ..bus
            }
        } else {
            let t = self.rate_targets(bus, roll, pitch, dt);
            AvionicsBus {
                fc_servo_aileron: self.roll_rate.output(t.p, bus.gyro.x, dt),
                fc_servo_elevator: self.pitch_rate.output(t.q, bus.gyro.y, dt),
                fc_servo_rudder: self.yaw_rate_pid.output(t.r, bus.gyro.z, dt),
                fc_esc_throttle: self.throttle_after(thr, dt),
                fc_mode: self.mode,
                ..bus
            }
        }
    }

    /// The controller after a step: loops that did not run keep their state.
    pub open spec fn stepped(
        self,
        bus: AvionicsBus,
        roll: Binary64,
        pitch: Binary64,
        dt: Binary64,
    ) -> FlightController {
        let thr = bus.cmd_throttle.clamped(num(D0), num(D1));
        if self.mode == FcMode::Manual {
            self
        } else {
            let t = self.rate_targets(bus, roll, pitch, dt);
            FlightController {
                roll_att: if self.mode == FcMode::Rate {
                    self.roll_att
                } else {
                    self.roll_att.stepped(self.roll_target(bus), roll, dt)
                },
                pitch_att: if self.mode == FcMode::Rate {
                    self.pitch_att
                } else {
                    self.pitch_att.stepped(self.pitch_target(bus), pitch, dt)
                },
                roll_rate: self.roll_rate.stepped(t.p, bus.gyro.x, dt),
                pitch_rate: self.pitch_rate.stepped(t.q, bus.gyro.y, dt),
                yaw_rate_pid: self.yaw_rate_pid.stepped(t.r, bus.gyro.z, dt),
                throttle_filter: self.throttle_after(thr, dt),
                ..self
            }
        }
    }

    /// Turns the commands on the bus into surface targets and throttle, given
    /// the roll and pitch angle.
    pub fn step(&mut self, bus: &mut AvionicsBus, dt: Binary64, roll: Binary64, pitch: Binary64)
        requires
            old(self).ready(),
        ensures
            *final(bus) == old(self).commanded(*old(bus), roll, pitch, dt),
            *final(self) == old(self).stepped(*old(bus), roll, pitch, dt),
            final(self).ready(),
            old(self).limits() ==> final(self).limits(),
    {
        let thr: Binary64 = bus.cmd_throttle.clamp(num(D0), num(D1));
        bus.fc_mode = self.mode;
        if self.mode == FcMode::Manual {
            let t: SurfaceTargets = bus.read_agent_commands_as_actuators();
            bus.fc_servo_aileron = t.aileron;
            bus.fc_servo_elevator = t.elevator;
            bus.fc_servo_rudder = t.rudder;
            bus.fc_esc_throttle = thr;
            return;
        }
        let t: RateTargets = match self.mode {
            FcMode::Rate => RateTargets { p: bus.cmd_roll, q: bus.cmd_pitch, r: bus.cmd_yaw_rate },
            FcMode::Stabilize => RateTargets {
                p: self.roll_att.compute(num(D0), roll, dt),
                q: self.pitch_att.compute(bus.cmd_pitch, pitch, dt),
                r: bus.cmd_yaw_rate.times(self.config.yaw_rate_ff),
            },
            _ => {
                let max: Binary64 = self.config.max_attitude_rad;
                let roll_cmd: Binary64 = bus.cmd_roll.clamp(max.neg(), max);
                let pitch_cmd: Binary64 = bus.cmd_pitch.clamp(max.neg(), max);
                RateTargets {
                    p: self.roll_att.compute(roll_cmd, roll, dt),
                    q: self.pitch_att.compute(pitch_cmd, pitch, dt),
                    r: bus.cmd_yaw_rate.times(self.config.yaw_rate_ff),
                }
            },
        };
        bus.fc_servo_aileron = self.roll_rate.compute(t.p, bus.gyro.x, dt);
        bus.fc_servo_elevator = self.pitch_rate.compute(t.q, bus.gyro.y, dt);
        bus.fc_servo_rudder = self.yaw_rate_pid.compute(t.r, bus.gyro.z, dt);
        self.throttle_filter = self.smooth_throttle(thr, dt);
        bus.fc_esc_throttle = self.throttle_filter;
    }

    /// The throttle after a low-pass filter with a time constant of 50 ms.
    fn smooth_throttle(&self, target: Binary64, dt: Binary64) -> (r: Binary64)
        ensures
            r == self.throttle_after(target, dt),
    {
        let alpha: Binary64 = dt.over(num(D0_05).plus(dt));
        target.minus(self.throttle_filter).times(alpha).plus(self.throttle_filter)
    }
}

impl Controller for FlightController {
    open spec fn active(&self) -> FcMode {
        self.mode
    }

    fn mode(&self) -> FcMode {
        self.mode
    }

    /// Switches the mode and sets the loops back, so that nothing carries over.
    fn set_mode(&mut self, mode: FcMode)
        ensures
            *final(self) == (FlightController { mode, ..old(self).cleared() }),
    {
        self.init();
        self.mode = mode;
    }
}

/// In manual mode the commands reach the surfaces within 30 degrees and the
/// throttle within its range, and the controller keeps no memory of it.
pub proof fn manual_mode_passes_commands_through(
    fc: FlightController,
    bus: AvionicsBus,
    roll: Binary64,
    pitch: Binary64,
    dt: Binary64,
)
    requires
        fc.mode == FcMode::Manual,
    ensures
        fc.stepped(bus, roll, pitch, dt) == fc,
        num(M30).not_above(bus.cmd_roll) && bus.cmd_roll.not_above(num(D30)) ==> fc.commanded(
            bus,
            roll,
            pitch,
            dt,
        ).fc_servo_aileron == bus.cmd_roll,
        within(fc.commanded(bus, roll, pitch, dt).fc_servo_aileron, num(D30)),
        within(fc.commanded(bus, roll, pitch, dt).fc_servo_elevator, num(D30)),
        within(fc.commanded(bus, roll, pitch, dt).fc_servo_rudder, num(D30)),
{
}

/// In every mode the surface targets keep within the limits of the rate loops.
pub proof fn surface_targets_are_limited(
    fc: FlightController,
    bus: AvionicsBus,
    roll: Binary64,
    pitch: Binary64,
    dt: Binary64,
)
    requires
        fc.ready(),
        fc.mode != FcMode::Manual,
    ensures
        within(
            fc.commanded(bus, roll, pitch, dt).fc_servo_aileron,
            fc.roll_rate.config.out_limit,
        ),
        within(
            fc.commanded(bus, roll, pitch, dt).fc_servo_elevator,
            fc.pitch_rate.config.out_limit,
        ),
        within(
            fc.commanded(bus, roll, pitch, dt).fc_servo_rudder,
            fc.yaw_rate_pid.config.out_limit,
        ),
{
    let t = fc.rate_targets(bus, roll, pitch, dt);
    loops_keep_within_their_limits(fc.roll_rate, t.p, bus.gyro.x, dt);
    loops_keep_within_their_limits(fc.pitch_rate, t.q, bus.gyro.y, dt);
    loops_keep_within_their_limits(fc.yaw_rate_pid, t.r, bus.gyro.z, dt);
}

/// A change of mode leaves nothing of the past behind: two controllers with the
/// same parameters are the same after it.
pub proof fn mode_changes_forget_the_past(config: FlightControllerConfig, a: FlightController)
    requires
        a.config == config,
        a.roll_att.config == config.roll_attitude && !a.roll_att.derivative_on_measurement,
        a.pitch_att.config == config.pitch_attitude && !a.pitch_att.derivative_on_measurement,
        a.roll_rate.config == config.roll_rate && a.roll_rate.derivative_on_measurement,
        a.pitch_rate.config == config.pitch_rate && a.pitch_rate.derivative_on_measurement,
        a.yaw_rate_pid.config == config.yaw_rate && a.yaw_rate_pid.derivative_on_measurement,
    ensures
        a.cleared() == FlightController::fresh(config, a.mode),
{
}

/// What a loop is given in a step.
pub struct LoopInput {
    pub target: Binary64,
    pub measurement: Binary64,
    pub dt: Binary64,
}

/// A loop after a number of steps.
pub open spec fn after_inputs(pid: PidController, inputs: Seq<LoopInput>) -> PidController
    decreases inputs.len(),
{
    if inputs.len() == 0 {
        pid
    } else {
        let i = inputs.last();
        after_inputs(pid, inputs.drop_last()).stepped(i.target, i.measurement, i.dt)
    }
}

/// Whether errors and rates of the steps are numbers that a loop can take.
pub open spec fn ordinary_inputs(inputs: Seq<LoopInput>) -> bool {
    forall|k: int|
        0 <= k < inputs.len() ==> ordinary_input(
            #[trigger] inputs[k],
            if k == 0 {
                num(D0)
            } else {
                inputs[k - 1].target.difference(inputs[k - 1].measurement)
            },
            if k == 0 {
                num(D0)
            } else {
                inputs[k - 1].measurement
            },
        )
}

/// The same of one step after a given error and measurement.
pub open spec fn ordinary_input(i: LoopInput, error: Binary64, measurement: Binary64) -> bool {
    &&& i.target.difference(i.measurement).finite()
    &&& i.target.difference(i.measurement).difference(error).finite()
    &&& i.measurement.difference(measurement).finite()
    &&& i.dt.finite() && num(D0).not_above(i.dt)
}

proof fn lemma_no_derivative(kd: Binary64, rate: Binary64, dt: Binary64)
    requires
        kd.zero(),
        rate.finite(),
        dt.finite(),
    ensures
        kd.product(rate).quotient(dt.larger(num(D1EM9))).zero(),
{
    crate::rounding::zero_absorbs(kd, rate);
}

/// A smoothed derivative that is zero stays zero.
proof fn lemma_filter_stays(filter: Binary64, dterm: Binary64, dt: Binary64)
    requires
        filter.zero(),
        dterm.zero(),
        dt.finite(),
        num(D0).not_above(dt),
    ensures
        filter.sum(
            dt.quotient(num(D0_001).sum(dt)).product(dterm.difference(filter)),
        ).zero(),
{
    let span = num(D0_001).sum(dt);
    let alpha = dt.quotient(span);
    crate::rounding::sums_grow(num(D0_001), dt);
    crate::rounding::sums_grow(dt, num(D0_001));
    crate::rounding::sums_commute(num(D0_001), dt);
    if span.finite() {
        crate::rounding::shares_are_fractions(dt, span);
    }
    assert(alpha.finite());
    crate::rounding::zeros_add_to_zero(dterm, filter);
    crate::rounding::zero_absorbs(dterm.difference(filter), alpha);
    crate::rounding::zeros_add_to_zero(filter, alpha.product(dterm.difference(filter)));
}

/// A limited integral is finite and within its limit.
proof fn lemma_integral_kept(x: Binary64, more: Binary64, limit: Binary64)
    requires
        x.finite(),
        !more.nan(),
        limit.finite(),
        limit.negated().not_above(limit),
    ensures
        x.sum(more).clamped(limit.negated(), limit).finite(),
        within(x.sum(more).clamped(limit.negated(), limit), limit),
{
    if more.finite() {
        crate::rounding::sums_are_numbers(x, more);
    }
}

/// The product of a gain and a limited integral is within the size of the gain
/// times the limit.
proof fn lemma_integral_part(ki: Binary64, integral: Binary64, i_limit: Binary64)
    requires
        ki.finite(),
        i_limit.finite(),
        i_limit.negated().not_above(i_limit),
        integral.finite(),
        within(integral, i_limit),
    ensures
        !ki.product(integral).nan(),
        within(ki.product(integral), ki.absolute().product(i_limit)),
{
    let size = ki.absolute();
    crate::rounding::factors_keep_order(size, integral, i_limit);
    crate::rounding::factors_keep_order(size, i_limit.negated(), integral);
    crate::rounding::negated_factors(size, i_limit);
    crate::rounding::products_are_numbers(ki, integral);
    crate::rounding::products_are_numbers(size, integral);
    crate::rounding::products_are_numbers(size, i_limit);
    if ki.negative() {
        assert(ki == size.negated());
        crate::rounding::negated_factors(integral, size);
        crate::rounding::products_commute(integral, size.negated());
        crate::rounding::products_commute(integral, size);
        assert(ki.product(integral) == size.product(integral).negated());
    } else {
        assert(ki == size);
    }
}

/// Adding zero to a number keeps it, but for the sign of zero.
proof fn lemma_nothing_added(p: Binary64, nothing: Binary64)
    requires
        !p.nan(),
        nothing.zero(),
    ensures
        !p.sum(nothing).nan(),
        !nothing.sum(p).nan(),
        p.sum(nothing).same(p),
        nothing.sum(p).same(p),
{
    if p.finite() {
        crate::rounding::zeros_add_nothing(p, nothing);
    }
}

/// A limited output of an integral gain alone is within the size of the gain
/// times the limit of the integral.
proof fn lemma_integral_output(
    ki: Binary64,
    integral: Binary64,
    i_limit: Binary64,
    nothing: Binary64,
    filter: Binary64,
    out_limit: Binary64,
)
    requires
        ki.finite(),
        i_limit.finite(),
        i_limit.negated().not_above(i_limit),
        integral.finite(),
        within(integral, i_limit),
        nothing.zero(),
        filter.zero(),
        out_limit.negated().not_above(out_limit),
    ensures
        ({
            let out = nothing.sum(ki.product(integral)).sum(filter).clamped(
                out_limit.negated(),
                out_limit,
            );
            &&& !out.nan()
            &&& within(out, ki.absolute().product(i_limit))
        }),
{
    let p = ki.product(integral);
    lemma_integral_part(ki, integral, i_limit);
    lemma_nothing_added(p, nothing);
    lemma_nothing_added(nothing.sum(p), filter);
    crate::rounding::products_are_numbers(ki.absolute(), i_limit);
}

/// However long the error lasts, a fresh loop with an integral gain alone gives
/// no more than the size of that gain times the limit of its integral, and no
/// more than its own limit.
pub proof fn integral_loops_do_not_wind_up(
    config: PidConfig,
    on_measurement: bool,
    inputs: Seq<LoopInput>,
    next: LoopInput,
)
    requires
        config.limits(),
        config.kp.zero(),
        config.kd.zero(),
        config.ki.finite(),
        config.i_limit.finite(),
        ordinary_inputs(inputs.push(next)),
    ensures
        ({
            let out = after_inputs(PidController::fresh(config, on_measurement), inputs).output(
                next.target,
                next.measurement,
                next.dt,
            );
            &&& !out.nan()
            &&& within(out, config.ki.absolute().product(config.i_limit))
            &&& within(out, config.out_limit)
        }),
{
    let all = inputs.push(next);
    let fresh = PidController::fresh(config, on_measurement);
    assert(all.drop_last() =~= inputs);
    assert(all.last() == next);
    assert(all[inputs.len() as int] == next);
    lemma_integral_only(config, on_measurement, all);
    let before = after_inputs(fresh, inputs);
    let after = before.stepped(next.target, next.measurement, next.dt);
    assert(after == after_inputs(fresh, all));
    assert(before.config == after.config);
    let nothing = config.kp.product(next.target.difference(next.measurement));
    crate::rounding::zero_absorbs(config.kp, next.target.difference(next.measurement));
    lemma_integral_output(
        config.ki,
        after.integral,
        config.i_limit,
        nothing,
        after.d_filter,
        config.out_limit,
    );
}

/// The state of a loop with an integral gain alone.
proof fn lemma_integral_only(config: PidConfig, on_measurement: bool, inputs: Seq<LoopInput>)
    requires
        config.limits(),
        config.kd.zero(),
        config.i_limit.finite(),
        ordinary_inputs(inputs),
    ensures
        ({
            let p = after_inputs(PidController::fresh(config, on_measurement), inputs);
            &&& p.config == config
            &&& p.derivative_on_measurement == on_measurement
            &&& p.d_filter.zero()
            &&& p.integral.finite()
            &&& within(p.integral, config.i_limit)
            &&& inputs.len() > 0 ==> p.prev_error == inputs.last().target.difference(
                inputs.last().measurement,
            ) && p.prev_output == inputs.last().measurement
            &&& inputs.len() == 0 ==> p.prev_error == num(D0) && p.prev_output == num(D0)
        }),
    decreases inputs.len(),
{
    if inputs.len() > 0 {
        let past = inputs.drop_last();
        assert forall|k: int| 0 <= k < past.len() implies #[trigger] past[k] == inputs[k] by {}
        lemma_integral_only(config, on_measurement, past);
        let p = after_inputs(PidController::fresh(config, on_measurement), past);
        let i = inputs.last();
        let last = inputs[inputs.len() - 1];
        let e = i.target.difference(i.measurement);
        assert(ordinary_input(last, p.prev_error, p.prev_output));
        lemma_no_derivative(config.kd.negated(), i.measurement.difference(p.prev_output), i.dt);
        lemma_no_derivative(config.kd, e.difference(p.prev_error), i.dt);
        let d = if on_measurement {
            config.kd.negated().product(i.measurement.difference(p.prev_output)).quotient(
                i.dt.larger(num(D1EM9)),
            )
        } else {
            config.kd.product(e.difference(p.prev_error)).quotient(i.dt.larger(num(D1EM9)))
        };
        lemma_filter_stays(p.d_filter, d, i.dt);
        crate::rounding::products_are_numbers(e, i.dt);
        lemma_integral_kept(p.integral, e.product(i.dt), config.i_limit);
    }
}

/// A loop that was reset acts as a fresh one from then on.
pub proof fn reset_loops_act_as_fresh_ones(
    pid: PidController,
    inputs: Seq<LoopInput>,
    next: LoopInput,
)
    ensures
        ({
            let fresh = PidController::fresh(pid.config, pid.derivative_on_measurement);
            &&& after_inputs(pid.cleared(), inputs) == after_inputs(fresh, inputs)
            &&& after_inputs(pid.cleared(), inputs).output(next.target, next.measurement, next.dt)
                == after_inputs(fresh, inputs).output(next.target, next.measurement, next.dt)
        }),
{
}

/// Whether the gains of a loop are finite and not negative.
pub open spec fn gains_in_order(c: PidConfig) -> bool {
    &&& c.kp.finite() && num(D0).not_above(c.kp)
    &&& c.ki.finite() && num(D0).not_above(c.ki)
    &&& c.kd.finite() && num(D0).not_above(c.kd)
    &&& c.limits() && c.out_limit.finite() && c.i_limit.finite()
}

/// Whether what a loop is given, and what it makes of it, is finite.
pub open spec fn workable(
    pid: PidController,
    target: Binary64,
    measurement: Binary64,
    dt: Binary64,
) -> bool {
    let error = target.difference(measurement);
    let next = pid.stepped(target, measurement, dt);
    &&& target.finite() && measurement.finite() && error.finite()
    &&& dt.finite() && num(D0).not_above(dt)
    &&& pid.integral.finite() && pid.prev_error.finite() && pid.prev_output.finite()
    &&& pid.d_filter.finite()
    &&& error.product(dt).finite()
    &&& pid.config.kp.product(error).finite()
    &&& pid.config.ki.product(next.integral).finite()
    &&& next.d_filter.finite()
    &&& error.difference(pid.prev_error).finite()
    &&& measurement.difference(pid.prev_output).finite()
    &&& change_of(pid, target, measurement, dt).finite()
    &&& change_of(pid, target, measurement, dt).difference(pid.d_filter).finite()
}

/// The derivative that a loop sees, times its gain.
pub open spec fn change_of(
    pid: PidController,
    target: Binary64,
    measurement: Binary64,
    dt: Binary64,
) -> Binary64 {
    let error = target.difference(measurement);
    if pid.derivative_on_measurement {
        pid.config.kd.negated().product(measurement.difference(pid.prev_output)).quotient(
            dt.larger(num(D1EM9)),
        )
    } else {
        pid.config.kd.product(error.difference(pid.prev_error)).quotient(dt.larger(num(D1EM9)))
    }
}

/// A smoothing factor is a fraction.
proof fn lemma_smoothing(dt: Binary64)
    requires
        dt.finite(),
        num(D0).not_above(dt),
    ensures
        ({
            let alpha = dt.quotient(num(D0_001).sum(dt));
            alpha.finite() && num(D0).not_above(alpha)
        }),
{
    let span = num(D0_001).sum(dt);
    crate::rounding::sums_grow(num(D0_001), dt);
    crate::rounding::sums_grow(dt, num(D0_001));
    crate::rounding::sums_commute(num(D0_001), dt);
    if span.finite() {
        crate::rounding::shares_are_fractions(dt, span);
    }
}

/// A larger error changes the derivative upwards.
proof fn lemma_change_grows(
    pid: PidController,
    t: Binary64,
    m: Binary64,
    higher: Binary64,
    lower: Binary64,
    dt: Binary64,
)
    requires
        gains_in_order(pid.config),
        workable(pid, t, m, dt),
        workable(pid, higher, lower, dt),
        t.not_above(higher),
        lower.not_above(m),
        t.difference(m).not_above(higher.difference(lower)),
    ensures
        change_of(pid, t, m, dt).not_above(change_of(pid, higher, lower, dt)),
{
    let d = dt.larger(num(D1EM9));
    let kd = pid.config.kd;
    if pid.derivative_on_measurement {
        let (x, y) = (m.difference(pid.prev_output), lower.difference(pid.prev_output));
        crate::rounding::sums_are_numbers(m, pid.prev_output.negated());
        crate::rounding::sums_are_numbers(lower, pid.prev_output.negated());
        crate::rounding::sums_keep_order(lower, m, pid.prev_output.negated());
        crate::rounding::factors_keep_order(kd, y, x);
        lemma_turned_gain(kd, x);
        lemma_turned_gain(kd, y);
        crate::rounding::divisors_keep_order(kd.negated().product(x), kd.negated().product(y), d);
    } else {
        let (e, f) = (t.difference(m), higher.difference(lower));
        let (x, y) = (e.difference(pid.prev_error), f.difference(pid.prev_error));
        crate::rounding::sums_keep_order(e, f, pid.prev_error.negated());
        crate::rounding::factors_keep_order(kd, x, y);
        crate::rounding::products_are_numbers(kd, x);
        crate::rounding::products_are_numbers(kd, y);
        crate::rounding::divisors_keep_order(kd.product(x), kd.product(y), d);
    }
}

proof fn lemma_turned_gain(k: Binary64, x: Binary64)
    requires
        k.finite(),
        x.finite(),
    ensures
        k.negated().product(x) == k.product(x).negated(),
        !k.product(x).nan(),
{
    crate::rounding::products_commute(k.negated(), x);
    crate::rounding::products_commute(k, x);
    crate::rounding::negated_factors(x, k);
    crate::rounding::products_are_numbers(k, x);
}

/// A loop seeks its target: its output does not fall when the target rises or
/// the measurement sinks.
pub proof fn loops_seek_their_target(
    pid: PidController,
    t: Binary64,
    m: Binary64,
    higher: Binary64,
    lower: Binary64,
    dt: Binary64,
)
    requires
        gains_in_order(pid.config),
        workable(pid, t, m, dt),
        workable(pid, higher, lower, dt),
        t.not_above(higher),
        lower.not_above(m),
    ensures
        pid.output(t, m, dt).not_above(pid.output(higher, lower, dt)),
        pid.output(t, m, dt).finite(),
        pid.stepped(t, m, dt).integral.not_above(pid.stepped(higher, lower, dt).integral),
{
    let (e, f) = (t.difference(m), higher.difference(lower));
    crate::rounding::sums_of_ordered_terms(t, higher, m.negated(), lower.negated());
    crate::rounding::factors_keep_order(pid.config.kp, e, f);
    crate::rounding::factors_keep_order(dt, e, f);
    let (i, j) = (pid.integral.sum(e.product(dt)), pid.integral.sum(f.product(dt)));
    crate::rounding::sums_are_numbers(pid.integral, e.product(dt));
    crate::rounding::sums_are_numbers(pid.integral, f.product(dt));
    crate::rounding::sums_of_ordered_terms(
        pid.integral,
        pid.integral,
        e.product(dt),
        f.product(dt),
    );
    let (a, b) = (pid.stepped(t, m, dt), pid.stepped(higher, lower, dt));
    lemma_limited(i, pid.config.i_limit);
    lemma_limited(j, pid.config.i_limit);
    crate::rounding::factors_keep_order(pid.config.ki, a.integral, b.integral);
    lemma_change_grows(pid, t, m, higher, lower, dt);
    lemma_smoothing(dt);
    let alpha = dt.quotient(num(D0_001).sum(dt));
    let (x, y) = (change_of(pid, t, m, dt), change_of(pid, higher, lower, dt));
    crate::rounding::sums_keep_order(x, y, pid.d_filter.negated());
    let (g, h) = (x.difference(pid.d_filter), y.difference(pid.d_filter));
    crate::rounding::factors_keep_order(alpha, g, h);
    crate::rounding::products_are_numbers(alpha, g);
    crate::rounding::products_are_numbers(alpha, h);
    crate::rounding::sums_of_ordered_terms(
        pid.d_filter,
        pid.d_filter,
        alpha.product(g),
        alpha.product(h),
    );
    assert(a.d_filter == pid.d_filter.sum(alpha.product(g)));
    assert(b.d_filter == pid.d_filter.sum(alpha.product(h)));
    lemma_terms_in_order(
        (pid.config.kp.product(e), pid.config.ki.product(a.integral), a.d_filter),
        (pid.config.kp.product(f), pid.config.ki.product(b.integral), b.d_filter),
    );
    lemma_limited(
        pid.config.kp.product(e).sum(pid.config.ki.product(a.integral)).sum(a.d_filter),
        pid.config.out_limit,
    );
}

/// A limited number is finite.
proof fn lemma_limited(x: Binary64, limit: Binary64)
    requires
        !x.nan(),
        limit.finite(),
        limit.negated().not_above(limit),
    ensures
        x.clamped(limit.negated(), limit).finite(),
{
}

/// The sum of three terms keeps their order.
proof fn lemma_terms_in_order(
    a: (Binary64, Binary64, Binary64),
    b: (Binary64, Binary64, Binary64),
)
    requires
        a.0.finite() && a.1.finite() && a.2.finite(),
        b.0.finite() && b.1.finite() && b.2.finite(),
        a.0.not_above(b.0) && a.1.not_above(b.1) && a.2.not_above(b.2),
    ensures
        a.0.sum(a.1).sum(a.2).not_above(b.0.sum(b.1).sum(b.2)),
{
    crate::rounding::sums_are_numbers(a.0, a.1);
    crate::rounding::sums_are_numbers(b.0, b.1);
    crate::rounding::sums_of_ordered_terms(a.0, b.0, a.1, b.1);
    let (x, y) = (a.0.sum(a.1), b.0.sum(b.1));
    if x.finite() {
        crate::rounding::sums_are_numbers(x, a.2);
    }
    if y.finite() {
        crate::rounding::sums_are_numbers(y, b.2);
    }
    crate::rounding::sums_of_ordered_terms(x, y, a.2, b.2);
}

/// A fresh loop without an error is at rest: its output is zero, whatever its
/// gains.
pub proof fn loops_rest_without_error(config: PidConfig, on_measurement: bool, dt: Binary64)
    requires
        gains_in_order(config),
        dt.finite(),
        num(D0).not_above(dt),
    ensures
        PidController::fresh(config, on_measurement).output(num(D0), num(D0), dt).zero(),
        workable(PidController::fresh(config, on_measurement), num(D0), num(D0), dt),
{
    let pid = PidController::fresh(config, on_measurement);
    let z = num(D0);
    let e = z.difference(z);
    assert(e == z) by {
        crate::rounding::differences_cancel(z);
    }
    crate::rounding::zero_absorbs(z, dt);
    crate::rounding::zeros_add_to_zero(z, z.product(dt));
    lemma_limited(z.sum(z.product(dt)), config.i_limit);
    let next = pid.stepped(z, z, dt);
    assert(next.integral.zero());
    crate::rounding::zero_absorbs(z, config.kp);
    crate::rounding::products_commute(z, config.kp);
    crate::rounding::zero_absorbs(next.integral, config.ki);
    crate::rounding::products_commute(next.integral, config.ki);
    crate::rounding::zero_absorbs(z, config.kd);
    crate::rounding::products_commute(z, config.kd);
    crate::rounding::zero_absorbs(z, config.kd.negated());
    crate::rounding::products_commute(z, config.kd.negated());
    let d = change_of(pid, z, z, dt);
    assert(d.zero());
    crate::rounding::zeros_add_to_zero(d, z);
    lemma_smoothing(dt);
    let alpha = dt.quotient(num(D0_001).sum(dt));
    crate::rounding::zero_absorbs(d.difference(z), alpha);
    crate::rounding::products_commute(d.difference(z), alpha);
    crate::rounding::zeros_add_to_zero(z, alpha.product(d.difference(z)));
    assert(next.d_filter.zero());
    let (p, i) = (config.kp.product(z), config.ki.product(next.integral));
    crate::rounding::zeros_add_to_zero(p, i);
    crate::rounding::zeros_add_to_zero(p.sum(i), next.d_filter);
}

/// The output of a fresh loop without a measurement has the sign of the target.
pub proof fn fresh_loops_push_towards_their_target(
    config: PidConfig,
    on_measurement: bool,
    target: Binary64,
    dt: Binary64,
)
    requires
        gains_in_order(config),
        workable(PidController::fresh(config, on_measurement), target, num(D0), dt),
    ensures
        num(D0).not_above(target) ==> num(D0).not_above(
            PidController::fresh(config, on_measurement).output(target, num(D0), dt),
        ),
        target.not_above(num(D0)) ==> PidController::fresh(config, on_measurement).output(
            target,
            num(D0),
            dt,
        ).not_above(num(D0)),
{
    let pid = PidController::fresh(config, on_measurement);
    loops_rest_without_error(config, on_measurement, dt);
    if num(D0).not_above(target) {
        loops_seek_their_target(pid, num(D0), num(D0), target, num(D0), dt);
    }
    if target.not_above(num(D0)) {
        loops_seek_their_target(pid, target, num(D0), num(D0), num(D0), dt);
    }
}

/// A loop gathers what is missing: below its target the integral does not fall,
/// above it it does not rise.
pub proof fn loops_gather_what_is_missing(
    pid: PidController,
    target: Binary64,
    measurement: Binary64,
    dt: Binary64,
)
    requires
        gains_in_order(pid.config),
        workable(pid, target, measurement, dt),
        within(pid.integral, pid.config.i_limit),
    ensures
        measurement.not_above(target) ==> pid.integral.not_above(
            pid.stepped(target, measurement, dt).integral,
        ),
        target.not_above(measurement) ==> pid.stepped(
            target,
            measurement,
            dt,
        ).integral.not_above(pid.integral),
{
    let e = target.difference(measurement);
    let x = e.product(dt);
    crate::rounding::differences_tell_the_order(target, measurement);
    crate::rounding::products_keep_signs(e, dt);
    crate::rounding::sums_are_numbers(pid.integral, x);
    crate::rounding::zeros_keep_signs(pid.integral, num(D0));
    crate::rounding::sums_are_numbers(pid.integral, num(D0));
    if num(D0).not_above(x) {
        crate::rounding::sums_of_ordered_terms(pid.integral, pid.integral, num(D0), x);
    }
    if x.not_above(num(D0)) {
        crate::rounding::sums_of_ordered_terms(pid.integral, pid.integral, x, num(D0));
    }
}

/// The yaw command that a controller works with.
pub open spec fn yaw_target(fc: FlightController, bus: AvionicsBus) -> Binary64 {
    if fc.mode == FcMode::Rate {
        bus.cmd_yaw_rate
    } else {
        bus.cmd_yaw_rate.product(fc.config.yaw_rate_ff)
    }
}

/// The rudder follows the yaw command: in every mode that has loops the target
/// of the rudder does not fall when the commanded yaw rate rises or the measured
/// one sinks.
pub proof fn the_rudder_follows_the_yaw_command(
    fc: FlightController,
    bus: AvionicsBus,
    more: AvionicsBus,
    roll: Binary64,
    pitch: Binary64,
    dt: Binary64,
)
    requires
        fc.mode != FcMode::Manual,
        gains_in_order(fc.yaw_rate_pid.config),
        fc.config.yaw_rate_ff.finite() && num(D0).not_above(fc.config.yaw_rate_ff),
        bus.cmd_yaw_rate.finite() && more.cmd_yaw_rate.finite(),
        bus.cmd_yaw_rate.not_above(more.cmd_yaw_rate),
        more.gyro.z.not_above(bus.gyro.z),
        workable(fc.yaw_rate_pid, yaw_target(fc, bus), bus.gyro.z, dt),
        workable(fc.yaw_rate_pid, yaw_target(fc, more), more.gyro.z, dt),
    ensures
        fc.commanded(bus, roll, pitch, dt).fc_servo_rudder.not_above(
            fc.commanded(more, roll, pitch, dt).fc_servo_rudder,
        ),
{
    crate::rounding::factors_keep_order(
        fc.config.yaw_rate_ff,
        bus.cmd_yaw_rate,
        more.cmd_yaw_rate,
    );
    loops_seek_their_target(
        fc.yaw_rate_pid,
        yaw_target(fc, bus),
        bus.gyro.z,
        yaw_target(fc, more),
        more.gyro.z,
        dt,
    );
}

/// A fresh controller that does not turn yet gives rudder in the direction of
/// the yaw command, in every mode.
pub proof fn yaw_commands_give_rudder_their_way(
    config: FlightControllerConfig,
    mode: FcMode,
    bus: AvionicsBus,
    roll: Binary64,
    pitch: Binary64,
    dt: Binary64,
)
    requires
        gains_in_order(config.yaw_rate),
        config.yaw_rate_ff.finite() && num(D0).not_above(config.yaw_rate_ff),
        bus.cmd_yaw_rate.finite(),
        bus.gyro.z == num(D0),
        workable(
            PidController::fresh(config.yaw_rate, true),
            yaw_target(FlightController::fresh(config, mode), bus),
            num(D0),
            dt,
        ),
    ensures
        ({
            let rudder = FlightController::fresh(config, mode).commanded(
                bus,
                roll,
                pitch,
                dt,
            ).fc_servo_rudder;
            &&& num(D0).not_above(bus.cmd_yaw_rate) ==> num(D0).not_above(rudder)
            &&& bus.cmd_yaw_rate.not_above(num(D0)) ==> rudder.not_above(num(D0))
        }),
{
    let fc = FlightController::fresh(config, mode);
    let t = yaw_target(fc, bus);
    crate::rounding::products_are_numbers(bus.cmd_yaw_rate, config.yaw_rate_ff);
    crate::rounding::products_keep_signs(bus.cmd_yaw_rate, config.yaw_rate_ff);
    fresh_loops_push_towards_their_target(config.yaw_rate, true, t, dt);
}

/// With a feed-forward factor of one the yaw command means the same in all
/// modes with loops: a yaw rate.
pub proof fn modes_agree_on_yaw(
    fc: FlightController,
    mode: FcMode,
    bus: AvionicsBus,
    roll: Binary64,
    pitch: Binary64,
    dt: Binary64,
)
    requires
        fc.config.yaw_rate_ff == num(D1),
        !bus.cmd_yaw_rate.nan(),
        mode != FcMode::Manual,
    ensures
        (FlightController { mode, ..fc }).commanded(bus, roll, pitch, dt).fc_servo_rudder == (
        FlightController { mode: FcMode::Rate, ..fc }).commanded(
            bus,
            roll,
            pitch,
            dt,
        ).fc_servo_rudder,
{
    crate::rounding::one_is_neutral(bus.cmd_yaw_rate);
}

/// In rate mode aileron and elevator follow the commanded rates and oppose the
/// measured ones.
pub proof fn surfaces_follow_the_commanded_rates(
    fc: FlightController,
    bus: AvionicsBus,
    more: AvionicsBus,
    roll: Binary64,
    pitch: Binary64,
    dt: Binary64,
)
    requires
        fc.mode == FcMode::Rate,
        gains_in_order(fc.roll_rate.config),
        gains_in_order(fc.pitch_rate.config),
        bus.cmd_roll.not_above(more.cmd_roll),
        bus.cmd_pitch.not_above(more.cmd_pitch),
        more.gyro.x.not_above(bus.gyro.x),
        more.gyro.y.not_above(bus.gyro.y),
        workable(fc.roll_rate, bus.cmd_roll, bus.gyro.x, dt),
        workable(fc.roll_rate, more.cmd_roll, more.gyro.x, dt),
        workable(fc.pitch_rate, bus.cmd_pitch, bus.gyro.y, dt),
        workable(fc.pitch_rate, more.cmd_pitch, more.gyro.y, dt),
    ensures
        fc.commanded(bus, roll, pitch, dt).fc_servo_aileron.not_above(
            fc.commanded(more, roll, pitch, dt).fc_servo_aileron,
        ),
        fc.commanded(bus, roll, pitch, dt).fc_servo_elevator.not_above(
            fc.commanded(more, roll, pitch, dt).fc_servo_elevator,
        ),
{
    loops_seek_their_target(
        fc.roll_rate,
        bus.cmd_roll,
        bus.gyro.x,
        more.cmd_roll,
        more.gyro.x,
        dt,
    );
    loops_seek_their_target(
        fc.pitch_rate,
        bus.cmd_pitch,
        bus.gyro.y,
        more.cmd_pitch,
        more.gyro.y,
        dt,
    );
}

/// In attitude mode and in stabilized flight the aileron opposes the roll and
/// the roll rate. In attitude mode it follows the commanded roll; stabilized
/// flight does not look at that.
pub proof fn the_aileron_seeks_the_commanded_roll(
    fc: FlightController,
    bus: AvionicsBus,
    more: AvionicsBus,
    roll: Binary64,
    less: Binary64,
    pitch: Binary64,
    dt: Binary64,
)
    requires
        fc.mode == FcMode::Attitude || fc.mode == FcMode::Stabilize,
        fc.ready(),
        gains_in_order(fc.roll_att.config),
        gains_in_order(fc.roll_rate.config),
        bus.cmd_roll.not_above(more.cmd_roll) || fc.mode == FcMode::Stabilize,
        less.not_above(roll),
        more.gyro.x.not_above(bus.gyro.x),
        workable(fc.roll_att, fc.roll_target(bus), roll, dt),
        workable(fc.roll_att, fc.roll_target(more), less, dt),
        workable(fc.roll_rate, fc.rate_targets(bus, roll, pitch, dt).p, bus.gyro.x, dt),
        workable(fc.roll_rate, fc.rate_targets(more, less, pitch, dt).p, more.gyro.x, dt),
    ensures
        fc.commanded(bus, roll, pitch, dt).fc_servo_aileron.not_above(
            fc.commanded(more, less, pitch, dt).fc_servo_aileron,
        ),
{
    let (t, u) = (fc.roll_target(bus), fc.roll_target(more));
    assert(t.not_above(u));
    loops_seek_their_target(fc.roll_att, t, roll, u, less, dt);
    loops_seek_their_target(
        fc.roll_rate,
        fc.rate_targets(bus, roll, pitch, dt).p,
        bus.gyro.x,
        fc.rate_targets(more, less, pitch, dt).p,
        more.gyro.x,
        dt,
    );
}

/// In attitude mode and in stabilized flight the elevator follows the commanded
/// pitch and opposes the measured pitch and pitch rate.
pub proof fn the_elevator_seeks_the_commanded_pitch(
    fc: FlightController,
    bus: AvionicsBus,
    more: AvionicsBus,
    roll: Binary64,
    pitch: Binary64,
    less: Binary64,
    dt: Binary64,
)
    requires
        fc.mode == FcMode::Attitude || fc.mode == FcMode::Stabilize,
        fc.ready(),
        gains_in_order(fc.pitch_att.config),
        gains_in_order(fc.pitch_rate.config),
        bus.cmd_pitch.not_above(more.cmd_pitch),
        less.not_above(pitch),
        more.gyro.y.not_above(bus.gyro.y),
        workable(fc.pitch_att, fc.pitch_target(bus), pitch, dt),
        workable(fc.pitch_att, fc.pitch_target(more), less, dt),
        workable(fc.pitch_rate, fc.rate_targets(bus, roll, pitch, dt).q, bus.gyro.y, dt),
        workable(fc.pitch_rate, fc.rate_targets(more, roll, less, dt).q, more.gyro.y, dt),
    ensures
        fc.commanded(bus, roll, pitch, dt).fc_servo_elevator.not_above(
            fc.commanded(more, roll, less, dt).fc_servo_elevator,
        ),
{
    let (t, u) = (fc.pitch_target(bus), fc.pitch_target(more));
    assert(t.not_above(u));
    loops_seek_their_target(fc.pitch_att, t, pitch, u, less, dt);
    loops_seek_their_target(
        fc.pitch_rate,
        fc.rate_targets(bus, roll, pitch, dt).q,
        bus.gyro.y,
        fc.rate_targets(more, roll, less, dt).q,
        more.gyro.y,
        dt,
    );
}

/// In stabilized flight the wings are held level, whatever roll is commanded.
pub proof fn stabilized_flight_ignores_the_roll_command(
    fc: FlightController,
    bus: AvionicsBus,
    command: Binary64,
    roll: Binary64,
    pitch: Binary64,
    dt: Binary64,
)
    requires
        fc.mode == FcMode::Stabilize,
    ensures
        fc.commanded(
            AvionicsBus { cmd_roll: command, ..bus },
            roll,
            pitch,
            dt,
        ).fc_servo_aileron == fc.commanded(bus, roll, pitch, dt).fc_servo_aileron,
{
    let other = AvionicsBus { cmd_roll: command, ..bus };
    assert(fc.roll_target(other) == fc.roll_target(bus));
    assert(fc.rate_targets(other, roll, pitch, dt).p == fc.rate_targets(bus, roll, pitch, dt).p);
}

/// In attitude mode no angle beyond the largest is sought.
pub proof fn attitude_commands_saturate(
    fc: FlightController,
    bus: AvionicsBus,
    roll: Binary64,
    pitch: Binary64,
    dt: Binary64,
)
    requires
        fc.mode == FcMode::Attitude,
        fc.ready(),
        fc.config.max_attitude_rad.not_above(bus.cmd_roll),
    ensures
        fc.commanded(bus, roll, pitch, dt).fc_servo_aileron == fc.commanded(
            AvionicsBus { cmd_roll: fc.config.max_attitude_rad, ..bus },
            roll,
            pitch,
            dt,
        ).fc_servo_aileron || fc.config.max_attitude_rad.zero(),
{
    let other = AvionicsBus { cmd_roll: fc.config.max_attitude_rad, ..bus };
    if !fc.config.max_attitude_rad.zero() {
        assert(fc.roll_target(other) == fc.roll_target(bus));
        assert(fc.rate_targets(other, roll, pitch, dt).p == fc.rate_targets(
            bus,
            roll,
            pitch,
            dt,
        ).p);
    }
}

/// In manual mode each command reaches its own surface: roll the aileron, pitch
/// the elevator, yaw the rudder.
pub proof fn manual_commands_reach_their_surfaces(
    fc: FlightController,
    bus: AvionicsBus,
    roll: Binary64,
    pitch: Binary64,
    dt: Binary64,
)
    requires
        fc.mode == FcMode::Manual,
        within(bus.cmd_roll, num(D30)) && !bus.cmd_roll.nan(),
        within(bus.cmd_pitch, num(D30)) && !bus.cmd_pitch.nan(),
        within(bus.cmd_yaw_rate, num(D30)) && !bus.cmd_yaw_rate.nan(),
        crate::rounding::is_fraction(bus.cmd_throttle),
    ensures
        ({
            let after = fc.commanded(bus, roll, pitch, dt);
            &&& after.fc_servo_aileron == bus.cmd_roll
            &&& after.fc_servo_elevator == bus.cmd_pitch
            &&& after.fc_servo_rudder == bus.cmd_yaw_rate
            &&& after.fc_esc_throttle == bus.cmd_throttle
        }),
{
}

/// Outside manual mode the throttle moves from where it was towards its
/// command, and more command gives no less throttle.
pub proof fn the_throttle_follows_its_command(
    fc: FlightController,
    bus: AvionicsBus,
    more: AvionicsBus,
    roll: Binary64,
    pitch: Binary64,
    dt: Binary64,
)
    requires
        fc.mode != FcMode::Manual,
        crate::rounding::is_fraction(fc.throttle_filter),
        crate::rounding::is_fraction(bus.cmd_throttle),
        crate::rounding::is_fraction(more.cmd_throttle),
        bus.cmd_throttle.not_above(more.cmd_throttle),
        dt.finite() && num(D0).not_above(dt),
    ensures
        fc.commanded(bus, roll, pitch, dt).fc_esc_throttle.not_above(
            fc.commanded(more, roll, pitch, dt).fc_esc_throttle,
        ),
        fc.throttle_filter.not_above(bus.cmd_throttle) ==> fc.throttle_filter.not_above(
            fc.commanded(bus, roll, pitch, dt).fc_esc_throttle,
        ),
        bus.cmd_throttle.not_above(fc.throttle_filter) ==> fc.commanded(
            bus,
            roll,
            pitch,
            dt,
        ).fc_esc_throttle.not_above(fc.throttle_filter),
        fc.stepped(bus, roll, pitch, dt).throttle_filter == fc.commanded(
            bus,
            roll,
            pitch,
            dt,
        ).fc_esc_throttle,
{
    let f = fc.throttle_filter;
    let span = num(D0_05).sum(dt);
    crate::rounding::sums_grow(num(D0_05), dt);
    crate::rounding::sums_grow(dt, num(D0_05));
    crate::rounding::sums_commute(num(D0_05), dt);
    if span.finite() {
        crate::rounding::shares_are_fractions(dt, span);
    }
    let alpha = dt.quotient(span);
    assert(alpha.finite() && num(D0).not_above(alpha));
    lemma_moves_towards(f, bus.cmd_throttle, more.cmd_throttle, alpha);
}

/// A share of the way is in its direction.
proof fn lemma_moves_towards(f: Binary64, a: Binary64, b: Binary64, alpha: Binary64)
    requires
        crate::rounding::is_fraction(f),
        crate::rounding::is_fraction(a),
        crate::rounding::is_fraction(b),
        a.not_above(b),
        alpha.finite() && num(D0).not_above(alpha),
    ensures
        a.difference(f).product(alpha).sum(f).not_above(b.difference(f).product(alpha).sum(f)),
        f.not_above(a) ==> f.not_above(a.difference(f).product(alpha).sum(f)),
        a.not_above(f) ==> a.difference(f).product(alpha).sum(f).not_above(f),
{
    let (x, y) = (a.difference(f), b.difference(f));
    crate::rounding::differences_tell_the_order(a, f);
    crate::rounding::differences_tell_the_order(b, f);
    crate::rounding::sums_keep_order(a, b, f.negated());
    lemma_fraction_difference(a, f);
    lemma_fraction_difference(b, f);
    crate::rounding::factors_keep_order(alpha, x, y);
    crate::rounding::products_are_numbers(x, alpha);
    crate::rounding::products_are_numbers(y, alpha);
    crate::rounding::products_keep_signs(x, alpha);
    let (p, q) = (x.product(alpha), y.product(alpha));
    if p.finite() {
        crate::rounding::sums_are_numbers(p, f);
    }
    if q.finite() {
        crate::rounding::sums_are_numbers(q, f);
    }
    crate::rounding::sums_keep_order(p, q, f);
    crate::rounding::zeros_keep_signs(f, num(D0));
    crate::rounding::sums_are_numbers(num(D0), f);
    if num(D0).not_above(p) {
        crate::rounding::sums_keep_order(num(D0), p, f);
    }
    if p.not_above(num(D0)) {
        crate::rounding::sums_keep_order(p, num(D0), f);
    }
}

/// The difference of two fractions is finite.
proof fn lemma_fraction_difference(a: Binary64, b: Binary64)
    requires
        crate::rounding::is_fraction(a),
        crate::rounding::is_fraction(b),
    ensures
        a.difference(b).finite(),
{
    let one = num(D1);
    let (n, p) = (num(D0).difference(one), one.difference(num(D0)));
    crate::rounding::zeros_keep_signs(one, num(D0));
    crate::rounding::zeros_keep_signs(one.negated(), num(D0));
    crate::rounding::sums_are_numbers(a, b.negated());
    crate::rounding::sums_of_ordered_terms(a, one, b.negated(), num(D0));
    crate::rounding::sums_of_ordered_terms(num(D0), a, one.negated(), b.negated());
}

} // verus!
