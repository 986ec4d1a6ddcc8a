//! Servos of the control surfaces: rate limit, deadband, resolution, end stops.
use super::bus::AvionicsBus;
use super::traits::Actuator;
use crate::binary64::Binary64;
use crate::literal::{num, D0, D0_01, D0_015, D30, D60, M30};
use vstd::prelude::*;

verus! {

/// Parameters of a servo.
#[derive(Clone, Copy, Debug, PartialEq, Eq, Structural)]
pub struct ServoConfig {
    /// Smallest deflection (degrees).
    pub min_deg: Binary64,
    /// Largest deflection (degrees).
    pub max_deg: Binary64,
    /// Largest rate (degrees per second).
    pub rate_limit_deg_s: Binary64,
    /// Bits of the position; none for a continuous one.
    pub resolution_bits: u32,
    /// Delay of the command (s).
    pub latency_s: Binary64,
    /// Deadband about the center, as a fraction of the range.
    pub deadband_pct: Binary64,
    /// Fixed offset (degrees).
    pub trim_deg: Binary64,
}

impl ServoConfig {
    pub open spec fn typical() -> ServoConfig {
        ServoConfig {
            min_deg: num(M30),
            max_deg: num(D30),
            rate_limit_deg_s: num(D60),
            resolution_bits: 11,
            latency_s: num(D0_01),
            deadband_pct: num(D0_015),
            trim_deg: num(D0),
        }
    }

    /// The distance between two positions.
    pub open spec fn converter_step(self) -> Binary64 {
        if self.resolution_bits > 0 {
            self.max_deg.difference(self.min_deg).quotient(
                Binary64::integer((1u64 << self.resolution_bits) as nat),
            )
        } else {
            num(D0)
        }
    }

    /// The way that the servo can move in a step.
    pub open spec fn reach(self, dt: Binary64) -> Binary64 {
        self.rate_limit_deg_s.product(dt)
    }

    /// Whether the way that the servo can move in a step is neither negative
    /// nor NaN.
    pub open spec fn moves(self, dt: Binary64) -> bool {
        self.reach(dt).negated().not_above(self.reach(dt))
    }

    /// Whether the servo can move in a step of `dt`.
    pub fn can_move(&self, dt: Binary64) -> (r: bool)
        ensures
            r == self.moves(dt),
    {
        let reach: Binary64 = self.rate_limit_deg_s.times(dt);
        reach.neg().le(reach)
    }
}

impl Default for ServoConfig {
    fn default() -> (r: Self)
        ensures
            r == ServoConfig::typical(),
    {
        ServoConfig {
            min_deg: num(M30),
            max_deg: num(D30),
            rate_limit_deg_s: num(D60),
            resolution_bits: 11,
            latency_s: num(D0_01),
            deadband_pct: num(D0_015),
            trim_deg: num(D0),
        }
    }
}

/// A servo.
#[derive(Clone, Debug)]
pub struct ServoActuator {
    pub config: ServoConfig,
    /// Position (degrees) without trim.
    pub position: Binary64,
    /// Target (degrees).
    pub command: Binary64,
    /// Distance between two positions.
    pub quant_step: Binary64,
    pub label: String,
}

impl ServoActuator {
    /// A position between the end stops.
    pub open spec fn stopped(self, x: Binary64) -> Binary64 {
        x.larger(self.config.min_deg).smaller(self.config.max_deg)
    }

    /// The position after the rate limit.
    pub open spec fn driven(self, dt: Binary64) -> Binary64 {
        let reach = self.config.reach(dt);
        self.position.sum(
            self.command.difference(self.position).clamped(reach.negated(), reach),
        )
    }

    /// A position after the deadband.
    pub open spec fn centered(self, x: Binary64) -> Binary64 {
        let band = self.config.deadband_pct.product(
            self.config.max_deg.difference(self.config.min_deg),
        );
        if x.absolute().below(band) {
            num(D0)
        } else {
            x
        }
    }

    /// A position as the converter resolves it.
    pub open spec fn resolved(self, x: Binary64) -> Binary64 {
        if num(D0).below(self.quant_step) {
            x.difference(self.config.min_deg).quotient(self.quant_step).floored().product(
                self.quant_step,
            ).sum(self.config.min_deg)
        } else {
            x
        }
    }

    /// The position after a step.
    pub open spec fn next_position(self, dt: Binary64) -> Binary64 {
        self.stopped(self.resolved(self.centered(self.driven(dt))))
    }

    /// The servo after a step.
    pub open spec fn stepped(self, dt: Binary64) -> ServoActuator {
        ServoActuator { position: self.next_position(dt), ..self }
    }

    /// The servo with a new target.
    pub open spec fn commanded(self, target: Binary64) -> ServoActuator {
        ServoActuator { command: self.stopped(target), ..self }
    }

    /// The servo at its trim.
    pub open spec fn centered_on_trim(self) -> ServoActuator {
        ServoActuator { position: self.config.trim_deg, command: self.config.trim_deg, ..self }
    }

    pub fn new(config: ServoConfig, label: &str) -> (r: Self)
        requires
            config.resolution_bits < 64,
        ensures
            r.config == config,
            r.position == num(D0),
            r.command == num(D0),
            r.quant_step == config.converter_step(),
            r.label@ == label@,
    {
        let range: Binary64 = config.max_deg.minus(config.min_deg);
        let quant_step: Binary64 = if config.resolution_bits > 0 {
            range.over(Binary64::from_u64(1u64 << config.resolution_bits))
        } else {
            num(D0)
        };
        ServoActuator {
            config,
            position: num(D0),
            command: num(D0),
            quant_step,
            label: label.to_string(),
        }
    }

    /// The label.
    pub fn name(&self) -> (r: &str)
        ensures
            r@ == self.label@,
    {
        self.label.as_str()
    }

    /// Centers the servo on its trim.
    pub fn init(&mut self)
        ensures
            *final(self) == old(self).centered_on_trim(),
    {
        self.position = self.config.trim_deg;
        self.command = self.config.trim_deg;
    }

    /// Moves towards the target.
    pub fn step(&mut self, dt: Binary64)
        requires
            old(self).config.moves(dt),
        ensures
            *final(self) == old(self).stepped(dt),
    {
        let error: Binary64 = self.command.minus(self.position);
        let max_move: Binary64 = self.config.rate_limit_deg_s.times(dt);
        self.position = self.position.plus(error.clamp(max_move.neg(), max_move));
        let half_band: Binary64 = self.config.deadband_pct.times(
            self.config.max_deg.minus(self.config.min_deg),
        );
        if self.position.abs().lt(half_band) {
            self.position = num(D0);
        }
        if self.quant_step.gt(num(D0)) {
            let offset: Binary64 = self.position.minus(self.config.min_deg);
            let q: Binary64 = offset.over(self.quant_step).floor();
            self.position = q.times(self.quant_step).plus(self.config.min_deg);
        }
        self.position = self.position.max(self.config.min_deg).min(self.config.max_deg);
    }

    /// Centers the servo on its trim.
    pub fn reset(&mut self)
        ensures
            *final(self) == old(self).centered_on_trim(),
    {
        self.init();
    }
}

impl Actuator for ServoActuator {
    open spec fn target(&self) -> Binary64 {
        self.command
    }

    open spec fn output(&self) -> Binary64 {
        self.position.sum(self.config.trim_deg)
    }

    open spec fn limited(&self, target: Binary64) -> Binary64 {
        self.stopped(target)
    }

    fn command(&mut self, target: Binary64)
        ensures
            *final(self) == old(self).commanded(target),
    {
        self.command = target.max(self.config.min_deg).min(self.config.max_deg);
    }

    fn actual_output(&self) -> Binary64 {
        self.position.plus(self.config.trim_deg)
    }
}

/// A servo never leaves its end stops, whatever it is commanded.
pub proof fn servos_keep_within_their_stops(servo: ServoActuator, target: Binary64, dt: Binary64)
    requires
        servo.config.min_deg.not_above(servo.config.max_deg),
    ensures
        servo.config.min_deg.not_above(servo.commanded(target).command),
        servo.commanded(target).command.not_above(servo.config.max_deg),
        servo.config.min_deg.not_above(servo.next_position(dt)),
        servo.next_position(dt).not_above(servo.config.max_deg),
{
}

/// Elevator, aileron and rudder.
#[derive(Clone, Debug)]
pub struct ActuatorSuite {
    pub elevator: ServoActuator,
    pub aileron: ServoActuator,
    pub rudder: ServoActuator,
}

impl ActuatorSuite {
    /// Whether all servos that are not jammed can move in a step of `dt`.
    pub open spec fn moves(self, bus: AvionicsBus, dt: Binary64) -> bool {
        let faults = bus.fc_fault_flags;
        &&& faults.servo_elevator_failed || self.elevator.config.moves(dt)
        &&& faults.servo_aileron_failed || self.aileron.config.moves(dt)
        &&& faults.servo_rudder_failed || self.rudder.config.moves(dt)
    }

    /// A servo after a step: it follows its target, or is jammed.
    pub open spec fn followed(
        servo: ServoActuator,
        jammed: bool,
        target: Binary64,
        dt: Binary64,
    ) -> ServoActuator {
        if jammed {
            servo
        } else {
            servo.commanded(target).stepped(dt)
        }
    }

    /// The servos after a step.
    pub open spec fn stepped(self, bus: AvionicsBus, dt: Binary64) -> ActuatorSuite {
        let faults = bus.fc_fault_flags;
        ActuatorSuite {
            elevator: ActuatorSuite::followed(
                self.elevator,
                faults.servo_elevator_failed,
                bus.fc_servo_elevator,
                dt,
            ),
            aileron: ActuatorSuite::followed(
                self.aileron,
                faults.servo_aileron_failed,
                bus.fc_servo_aileron,
                dt,
            ),
            rudder: ActuatorSuite::followed(
                self.rudder,
                faults.servo_rudder_failed,
                bus.fc_servo_rudder,
                dt,
            ),
        }
    }

    /// The bus with the positions that the servos have reached.
    pub open spec fn reported(self, bus: AvionicsBus) -> AvionicsBus {
        AvionicsBus {
            actual_elevator_deg: self.elevator.output(),
            actual_aileron_deg: self.aileron.output(),
            actual_rudder_deg: self.rudder.output(),
            actual_esc_output: if bus.fc_fault_flags.esc_failed {
                num(D0)
            } else {
                bus.fc_esc_throttle
            },
            ..bus
        }
    }

    pub fn new(elev: ServoConfig, ail: ServoConfig, rud: ServoConfig) -> (r: Self)
        requires
            elev.resolution_bits < 64,
            ail.resolution_bits < 64,
            rud.resolution_bits < 64,
        ensures
            r.elevator.config == elev && r.aileron.config == ail && r.rudder.config == rud,
            r.elevator.position == num(D0) && r.elevator.command == num(D0),
            r.aileron.position == num(D0) && r.aileron.command == num(D0),
            r.rudder.position == num(D0) && r.rudder.command == num(D0),
            r.elevator.quant_step == elev.converter_step(),
            r.aileron.quant_step == ail.converter_step(),
            r.rudder.quant_step == rud.converter_step(),
            r.elevator.label@ == "Servo-elevator"@,
            r.aileron.label@ == "Servo-aileron"@,
            r.rudder.label@ == "Servo-rudder"@,
    {
        ActuatorSuite {
            elevator: ServoActuator::new(elev, "Servo-elevator"),
            aileron: ServoActuator::new(ail, "Servo-aileron"),
            rudder: ServoActuator::new(rud, "Servo-rudder"),
        }
    }

    pub open spec fn centered_on_trim(self) -> ActuatorSuite {
        ActuatorSuite {
            elevator: self.elevator.centered_on_trim(),
            aileron: self.aileron.centered_on_trim(),
            rudder: self.rudder.centered_on_trim(),
        }
    }

    /// Centers all servos on their trim.
    pub fn center(&mut self)
        ensures
            *final(self) == old(self).centered_on_trim(),
    {
        self.elevator.init();
        self.aileron.init();
        self.rudder.init();
    }

    /// Moves the servos towards the targets on the bus and reports where they
    /// are. A jammed servo stays where it is, and a failed speed controller
    /// gives no thrust.
    pub fn follow(&mut self, bus: &mut AvionicsBus, dt: Binary64)
        requires
            old(self).moves(*old(bus), dt),
        ensures
            *final(self) == old(self).stepped(*old(bus), dt),
            *final(bus) == old(self).stepped(*old(bus), dt).reported(*old(bus)),
    {
        if !bus.fc_fault_flags.servo_elevator_failed {
            self.elevator.command(bus.fc_servo_elevator);
            self.elevator.step(dt);
        }
        if !bus.fc_fault_flags.servo_aileron_failed {
            self.aileron.command(bus.fc_servo_aileron);
            self.aileron.step(dt);
        }
        if !bus.fc_fault_flags.servo_rudder_failed {
            self.rudder.command(bus.fc_servo_rudder);
            self.rudder.step(dt);
        }
        bus.actual_elevator_deg = self.elevator.actual_output();
        bus.actual_aileron_deg = self.aileron.actual_output();
        bus.actual_rudder_deg = self.rudder.actual_output();
        bus.actual_esc_output = if bus.fc_fault_flags.esc_failed {
            num(D0)
        } else {
            bus.fc_esc_throttle
        };
    }

    /// Whether all servos that are not jammed can move in a step of `dt`.
    pub fn can_move(&self, bus: &AvionicsBus, dt: Binary64) -> (r: bool)
        ensures
            r == self.moves(*bus, dt),
    {
        (bus.fc_fault_flags.servo_elevator_failed || self.elevator.config.can_move(dt)) && (
        bus.fc_fault_flags.servo_aileron_failed || self.aileron.config.can_move(dt)) && (
        bus.fc_fault_flags.servo_rudder_failed || self.rudder.config.can_move(dt))
    }
}

/// A jammed servo holds its position and no other is affected: the others move
/// as they would without the fault.
pub proof fn jammed_servos_are_frozen(suite: ActuatorSuite, bus: AvionicsBus, dt: Binary64)
    ensures
        ({
            let jammed = AvionicsBus {
                fc_fault_flags: bus.fc_fault_flags.with(
                    super::bus::FaultFlag::ServoElevator,
                    true,
                ),
                ..bus
            };
            &&& suite.stepped(jammed, dt).elevator == suite.elevator
            &&& suite.stepped(jammed, dt).aileron == suite.stepped(bus, dt).aileron
            &&& suite.stepped(jammed, dt).rudder == suite.stepped(bus, dt).rudder
        }),
        ({
            let jammed = AvionicsBus {
                fc_fault_flags: bus.fc_fault_flags.with(
                    super::bus::FaultFlag::ServoAileron,
                    true,
                ),
                ..bus
            };
            &&& suite.stepped(jammed, dt).aileron == suite.aileron
            &&& suite.stepped(jammed, dt).elevator == suite.stepped(bus, dt).elevator
            &&& suite.stepped(jammed, dt).rudder == suite.stepped(bus, dt).rudder
        }),
        ({
            let jammed = AvionicsBus {
                fc_fault_flags: bus.fc_fault_flags.with(
                    super::bus::FaultFlag::ServoRudder,
                    true,
                ),
                ..bus
            };
            &&& suite.stepped(jammed, dt).rudder == suite.rudder
            &&& suite.stepped(jammed, dt).elevator == suite.stepped(bus, dt).elevator
            &&& suite.stepped(jammed, dt).aileron == suite.stepped(bus, dt).aileron
        }),
{
}

/// Whether what drives a servo is finite.
pub open spec fn is_driveable(servo: ServoActuator, dt: Binary64) -> bool {
    &&& servo.position.finite() && servo.command.finite()
    &&& servo.command.difference(servo.position).finite()
    &&& servo.config.moves(dt) && servo.config.reach(dt).finite()
}

/// The way of a servo is towards its command.
proof fn lemma_driven(x: Binary64, low: Binary64, high: Binary64, reach: Binary64)
    requires
        x.finite() && low.finite() && high.finite(),
        low.not_above(high),
        low.difference(x).finite() && high.difference(x).finite(),
        reach.finite() && reach.negated().not_above(reach),
    ensures
        ({
            let a = x.sum(low.difference(x).clamped(reach.negated(), reach));
            let b = x.sum(high.difference(x).clamped(reach.negated(), reach));
            &&& a.not_above(b)
            &&& x.not_above(low) ==> x.not_above(a)
            &&& high.not_above(x) ==> b.not_above(x)
        }),
{
    let (d, e) = (low.difference(x), high.difference(x));
    crate::rounding::sums_keep_order(low, high, x.negated());
    crate::rounding::differences_tell_the_order(low, x);
    crate::rounding::differences_tell_the_order(high, x);
    let (p, q) = (d.clamped(reach.negated(), reach), e.clamped(reach.negated(), reach));
    assert(p.finite() && q.finite());
    crate::rounding::sums_are_numbers(x, p);
    crate::rounding::sums_are_numbers(x, q);
    crate::rounding::sums_are_numbers(x, num(D0));
    crate::rounding::sums_of_ordered_terms(x, x, p, q);
    crate::rounding::zeros_keep_signs(x, num(D0));
    if num(D0).not_above(p) {
        crate::rounding::sums_of_ordered_terms(x, x, num(D0), p);
    }
    if q.not_above(num(D0)) {
        crate::rounding::sums_of_ordered_terms(x, x, q, num(D0));
    }
}

/// A servo without deadband and with a continuous position turns towards its
/// command, and further for a command that is further.
pub proof fn servos_turn_towards_their_command(
    servo: ServoActuator,
    further: Binary64,
    dt: Binary64,
)
    requires
        is_driveable(servo, dt),
        is_driveable(ServoActuator { command: further, ..servo }, dt),
        servo.command.not_above(further),
        servo.config.min_deg.not_above(servo.position),
        servo.position.not_above(servo.config.max_deg),
        !num(D0).below(servo.quant_step),
        servo.config.deadband_pct.zero(),
        servo.config.max_deg.difference(servo.config.min_deg).finite(),
    ensures
        servo.next_position(dt).not_above(
            (ServoActuator { command: further, ..servo }).next_position(dt),
        ),
        servo.position.not_above(servo.command) ==> servo.position.not_above(
            servo.next_position(dt),
        ),
        further.not_above(servo.position) ==> (ServoActuator {
            command: further,
            ..servo
        }).next_position(dt).not_above(servo.position),
{
    lemma_driven(servo.position, servo.command, further, servo.config.reach(dt));
    let span = servo.config.max_deg.difference(servo.config.min_deg);
    crate::rounding::zero_absorbs(servo.config.deadband_pct, span);
}

/// A servo moves no further in a step than its rate allows.
pub proof fn servos_keep_to_their_rate(servo: ServoActuator, dt: Binary64)
    requires
        is_driveable(servo, dt),
    ensures
        servo.driven(dt).not_above(servo.position.sum(servo.config.reach(dt))),
        servo.position.difference(servo.config.reach(dt)).not_above(servo.driven(dt)),
{
    let reach = servo.config.reach(dt);
    let d = servo.command.difference(servo.position).clamped(reach.negated(), reach);
    crate::rounding::sums_are_numbers(servo.position, d);
    crate::rounding::sums_are_numbers(servo.position, reach);
    crate::rounding::sums_are_numbers(servo.position, reach.negated());
    crate::rounding::sums_of_ordered_terms(servo.position, servo.position, d, reach);
    crate::rounding::sums_of_ordered_terms(servo.position, servo.position, reach.negated(), d);
}

/// Within its deadband a servo stands in the middle, outside of it the deadband
/// does nothing.
pub proof fn deadbands_center(servo: ServoActuator, x: Binary64)
    requires
        servo.config.deadband_pct.finite() && num(D0).not_above(servo.config.deadband_pct),
        servo.config.max_deg.difference(servo.config.min_deg).finite(),
        !x.nan(),
    ensures
        servo.centered(x) == x || servo.centered(x) == num(D0),
        servo.centered(x.negated()) == servo.centered(x).negated() || servo.centered(x).zero(),
        servo.centered(servo.centered(x)) == servo.centered(x),
{
}

/// Each target on the bus reaches its own servo and no other.
pub proof fn targets_reach_their_own_servos(
    suite: ActuatorSuite,
    bus: AvionicsBus,
    target: Binary64,
    dt: Binary64,
)
    ensures
        ({
            let s = suite.stepped(bus, dt);
            let e = suite.stepped(AvionicsBus { fc_servo_elevator: target, ..bus }, dt);
            let a = suite.stepped(AvionicsBus { fc_servo_aileron: target, ..bus }, dt);
            let r = suite.stepped(AvionicsBus { fc_servo_rudder: target, ..bus }, dt);
            &&& e.aileron == s.aileron && e.rudder == s.rudder
            &&& a.elevator == s.elevator && a.rudder == s.rudder
            &&& r.elevator == s.elevator && r.aileron == s.aileron
            &&& !bus.fc_fault_flags.servo_elevator_failed ==> e.elevator.command
                == suite.elevator.stopped(target)
            &&& !bus.fc_fault_flags.servo_aileron_failed ==> a.aileron.command
                == suite.aileron.stopped(target)
            &&& !bus.fc_fault_flags.servo_rudder_failed ==> r.rudder.command
                == suite.rudder.stopped(target)
        }),
{
}

} // verus!
