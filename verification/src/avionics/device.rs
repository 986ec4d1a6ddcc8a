//! The devices of the avionics.
use super::actuator::ActuatorSuite;
use super::airspeed::AirspeedSensor;
use super::baro::BaroSensor;
use super::battery::Battery;
use super::bus::AvionicsBus;
use super::esc::Esc;
use super::fitted::{Fitted, FittedController};
use super::gps::GpsSensor;
use super::imu::ImuSensor;
use super::magnetometer::MagnetometerSensor;
use super::traits::AvionicsComponent;
use crate::binary64::Binary64;
use crate::elementary::Elementary;
use crate::literal::{num, D0};
use vstd::prelude::*;

verus! {

/// A device of the avionics.
pub enum Device<M> {
    Imu(Fitted<ImuSensor, M>),
    Gps(Fitted<GpsSensor, M>),
    Baro(Fitted<BaroSensor, M>),
    Magnetometer(Fitted<MagnetometerSensor, M>),
    Airspeed(Fitted<AirspeedSensor, M>),
    Controller(FittedController<M>),
    Actuators(ActuatorSuite),
    Esc(Esc),
    Battery(Battery),
    /// A component of another kind.
    Other(Box<dyn AvionicsComponent>),
}

impl<M: Elementary> Device<M> {
    /// Whether a step on a bus leaves another bus and the device so. Of a
    /// component of another kind its own account holds.
    pub open spec fn runs(
        self,
        before: AvionicsBus,
        dt: Binary64,
        after: AvionicsBus,
        next: Device<M>,
    ) -> bool {
        match (self, next) {
            (Device::Imu(a), Device::Imu(b)) => a.runs(before, dt, after, b),
            (Device::Gps(a), Device::Gps(b)) => a.runs(before, dt, after, b),
            (Device::Baro(a), Device::Baro(b)) => a.runs(before, dt, after, b),
            (Device::Magnetometer(a), Device::Magnetometer(b)) => a.runs(before, dt, after, b),
            (Device::Airspeed(a), Device::Airspeed(b)) => a.runs(before, dt, after, b),
            (Device::Controller(a), Device::Controller(b)) => a.runs(before, dt, after, b),
            (Device::Actuators(a), Device::Actuators(b)) => if a.moves(before, dt) {
                b == a.stepped(before, dt) && after == b.reported(before)
            } else {
                b == a && after == before
            },
            (Device::Esc(a), Device::Esc(b)) => {
                &&& after == a.driven(before, dt)
                &&& b == (Esc { current_throttle: a.next_throttle(Esc::target(before), dt), ..a })
            },
            (Device::Battery(a), Device::Battery(b)) => {
                &&& after == a.supplied(before, dt)
                &&& b == a.drained(before.battery_current, dt)
            },
            (Device::Other(a), Device::Other(b)) => {
                &&& a.acts(before, dt, after)
                &&& a.leaves(before, dt, after, b.memory())
            },
            _ => false,
        }
    }

    /// Whether the device is `before`, prepared for steps of `dt` seconds.
    pub open spec fn readied_from(self, before: Device<M>, dt: Binary64) -> bool {
        match (before, self) {
            (Device::Imu(a), Device::Imu(b)) => b == a.readied(),
            (Device::Gps(a), Device::Gps(b)) => b == a.readied(),
            (Device::Baro(a), Device::Baro(b)) => b == a.readied(),
            (Device::Magnetometer(a), Device::Magnetometer(b)) => b == a.readied(),
            (Device::Airspeed(a), Device::Airspeed(b)) => b == a.readied(),
            (Device::Controller(a), Device::Controller(b)) => a.clears(b),
            (Device::Actuators(a), Device::Actuators(b)) => b == a.centered_on_trim(),
            (Device::Esc(a), Device::Esc(b)) => b == (Esc { current_throttle: num(D0), ..a }),
            (Device::Battery(a), Device::Battery(b)) => b == Battery::full(a.config),
            (Device::Other(a), Device::Other(b)) => a.prepares(dt, b.memory()),
            _ => false,
        }
    }

    /// Whether the device is `before`, set back to its state at power-on.
    pub open spec fn restored_from(self, before: Device<M>) -> bool {
        match (before, self) {
            (Device::Imu(a), Device::Imu(b)) => b == a.restored(),
            (Device::Gps(a), Device::Gps(b)) => b == a.restored(),
            (Device::Baro(a), Device::Baro(b)) => b == a.restored(),
            (Device::Magnetometer(a), Device::Magnetometer(b)) => b == a.restored(),
            (Device::Airspeed(a), Device::Airspeed(b)) => b == a.restored(),
            (Device::Controller(a), Device::Controller(b)) => a.clears(b),
            (Device::Actuators(a), Device::Actuators(b)) => b == a.centered_on_trim(),
            (Device::Esc(a), Device::Esc(b)) => b == (Esc { current_throttle: num(D0), ..a }),
            (Device::Battery(a), Device::Battery(b)) => b == Battery::full(a.config),
            (Device::Other(a), Device::Other(b)) => a.restores(b.memory()),
            _ => false,
        }
    }

    /// Prepares the device for steps of `dt` seconds.
    pub fn init(&mut self, dt: Binary64)
        ensures
            final(self).readied_from(*old(self), dt),
    {
        match self {
            Device::Imu(d) => d.init(dt),
            Device::Gps(d) => d.init(dt),
            Device::Baro(d) => d.init(dt),
            Device::Magnetometer(d) => d.init(dt),
            Device::Airspeed(d) => d.init(dt),
            Device::Controller(d) => d.init(dt),
            Device::Actuators(d) => d.init(dt),
            Device::Esc(d) => d.init(dt),
            Device::Battery(d) => d.init(dt),
            Device::Other(d) => d.init(dt),
        }
    }

    /// Reads the bus and writes the outputs of the device.
    pub fn step(&mut self, bus: &mut AvionicsBus, dt: Binary64)
        ensures
            old(self).runs(*old(bus), dt, *final(bus), *final(self)),
    {
        match self {
            Device::Imu(d) => d.step(bus, dt),
            Device::Gps(d) => d.step(bus, dt),
            Device::Baro(d) => d.step(bus, dt),
            Device::Magnetometer(d) => d.step(bus, dt),
            Device::Airspeed(d) => d.step(bus, dt),
            Device::Controller(d) => d.step(bus, dt),
            Device::Actuators(d) => d.step(bus, dt),
            Device::Esc(d) => d.step(bus, dt),
            Device::Battery(d) => d.step(bus, dt),
            Device::Other(d) => d.step(bus, dt),
        }
    }

    /// Sets the device back to its state at power-on.
    pub fn reset(&mut self)
        ensures
            final(self).restored_from(*old(self)),
    {
        match self {
            Device::Imu(d) => d.reset(),
            Device::Gps(d) => d.reset(),
            Device::Baro(d) => d.reset(),
            Device::Magnetometer(d) => d.reset(),
            Device::Airspeed(d) => d.reset(),
            Device::Controller(d) => d.reset(),
            Device::Actuators(d) => d.reset(),
            Device::Esc(d) => d.reset(),
            Device::Battery(d) => d.reset(),
            Device::Other(d) => d.reset(),
        }
    }
}

} // verus!
