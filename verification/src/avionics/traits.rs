//! What the components of the avionics have in common.
use super::actuator::ActuatorSuite;
use super::airspeed::AirspeedSensor;
use super::baro::BaroSensor;
use super::battery::Battery;
use super::bus::{AvionicsBus, FcMode};
use super::esc::Esc;
use super::flight_controller::FlightController;
use super::gps::GpsSensor;
use super::imu::ImuSensor;
use super::magnetometer::MagnetometerSensor;
use crate::binary64::Binary64;
use crate::literal::{num, D1, D1EM9};
use vstd::prelude::*;

verus! {

/// What a component carries from one step to the next, as it reports it.
pub enum Memory {
    Imu(ImuSensor),
    Gps(GpsSensor),
    Baro(BaroSensor),
    Magnetometer(MagnetometerSensor),
    Airspeed(AirspeedSensor),
    Controller(FlightController),
    Actuators(ActuatorSuite),
    Esc(Esc),
    Battery(Battery),
    /// That of a component of another kind.
    Words(Seq<u64>),
}

/// A component of the avionics. Components communicate through the bus alone.
///
/// A component gives an account of itself: what it remembers, and what its
/// set-up, a step and a reset make of that and of the bus. An account that a
/// component does not give allows anything.
pub trait AvionicsComponent {
    /// What the component remembers.
    open spec fn memory(&self) -> Memory {
        Memory::Words(Seq::empty())
    }

    /// What the set-up of the component, in its present state, for steps of
    /// `dt` seconds may leave it to remember.
    open spec fn prepares(&self, dt: Binary64, memory: Memory) -> bool {
        true
    }

    /// What a step of the component, in its present state, may do to the bus.
    open spec fn acts(&self, before: AvionicsBus, dt: Binary64, after: AvionicsBus) -> bool {
        true
    }

    /// What a step that does so may leave the component to remember.
    open spec fn leaves(
        &self,
        before: AvionicsBus,
        dt: Binary64,
        after: AvionicsBus,
        memory: Memory,
    ) -> bool {
        true
    }

    /// What a reset of the component may leave it to remember.
    open spec fn restores(&self, memory: Memory) -> bool {
        true
    }

    /// Name for logs.
    fn name(&self) -> &str;

    /// Prepares the component for steps of `dt` seconds.
    fn init(&mut self, dt: Binary64)
        ensures
            old(self).prepares(dt, final(self).memory()),
    ;

    /// Reads the bus and writes the outputs of the component.
    fn step(&mut self, bus: &mut AvionicsBus, dt: Binary64)
        ensures
            old(self).acts(*old(bus), dt, *final(bus)),
            old(self).leaves(*old(bus), dt, *final(bus), final(self).memory()),
    ;

    /// Sets the component back to its state at power-on.
    fn reset(&mut self)
        ensures
            old(self).restores(final(self).memory()),
    ;
}

/// Whether a sample is due: the time since the last one has reached the period
/// of the rate, but for rounding.
pub open spec fn sample_due(rate_hz: Binary64, sim_time: Binary64, last: Binary64) -> bool {
    num(D1).quotient(rate_hz).difference(num(D1EM9)).not_above(sim_time.difference(last))
}

/// A component that measures the true state at a rate of its own.
pub trait Sensor {
    spec fn rate(&self) -> Binary64;

    /// Samples per second.
    fn update_rate_hz(&self) -> (r: Binary64)
        ensures
            r == self.rate(),
    ;

    /// Whether a sample is due.
    fn should_sample(&self, sim_time: Binary64, last_sample_time: Binary64) -> (r: bool)
        ensures
            r == sample_due(self.rate(), sim_time, last_sample_time),
    {
        let period: Binary64 = num(D1).over(self.update_rate_hz());
        sim_time.minus(last_sample_time).ge(period.minus(num(D1EM9)))
    }
}

/// A component that moves towards a commanded position.
pub trait Actuator {
    spec fn target(&self) -> Binary64;

    spec fn output(&self) -> Binary64;

    spec fn limited(&self, target: Binary64) -> Binary64;

    /// Sets the target, within the limits of the actuator.
    fn command(&mut self, target: Binary64)
        ensures
            final(self).target() == old(self).limited(target),
            final(self).output() == old(self).output(),
    ;

    /// The position that has been reached.
    fn actual_output(&self) -> (r: Binary64)
        ensures
            r == self.output(),
    ;
}

/// A component that turns commands into surface targets.
pub trait Controller {
    spec fn active(&self) -> FcMode;

    /// The active mode.
    fn mode(&self) -> (r: FcMode)
        ensures
            r == self.active(),
    ;

    /// Switches the mode.
    fn set_mode(&mut self, mode: FcMode)
        ensures
            final(self).active() == mode,
    ;
}

} // verus!
