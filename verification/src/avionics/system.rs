//! Runs the components of the avionics in order.
use super::bus::{AvionicsBus, FaultFlag, FaultFlags, FcMode};
use super::device::Device;
use super::traits::AvionicsComponent;
use crate::binary64::Binary64;
use crate::elementary::Elementary;
use crate::literal::{num, D0};
use vstd::prelude::*;

verus! {

/// The stages of a step, in order.
#[derive(Clone, Copy, Debug, PartialEq, Eq, Structural)]
pub enum Stage {
    /// Measures the true state.
    Sense,
    /// Computes surface targets.
    Control,
    /// Moves the surfaces.
    Actuate,
    /// Supplies power and thrust.
    Power,
}

/// A run of the components of one stage: the buses before, between and after
/// them, in the order in which they were registered, and the components
/// afterwards. Each component runs once, on the bus that the one before it
/// left.
pub open spec fn stage_run<M: Elementary>(
    components: Seq<Device<M>>,
    dt: Binary64,
    trace: Seq<AvionicsBus>,
    after: Seq<Device<M>>,
) -> bool {
    &&& trace.len() == components.len() + 1
    &&& after.len() == components.len()
    &&& forall|k: int|
        #![trigger after[k]]
        0 <= k < components.len() ==> components[k].runs(trace[k], dt, trace[k + 1], after[k])
}

/// A run of all stages.
pub struct StageTraces {
    pub sense: Seq<AvionicsBus>,
    pub control: Seq<AvionicsBus>,
    pub actuate: Seq<AvionicsBus>,
    pub power: Seq<AvionicsBus>,
}

impl StageTraces {
    /// Whether each stage starts with the bus that the one before it left.
    pub open spec fn chained(self, start: AvionicsBus) -> bool {
        &&& self.sense[0] == start
        &&& self.control[0] == self.sense.last()
        &&& self.actuate[0] == self.control.last()
        &&& self.power[0] == self.actuate.last()
    }
}

#[verifier::spinoff_prover]
#[verifier::rlimit(40)]
fn step_stage<M: Elementary>(components: &mut Vec<Device<M>>, bus: &mut AvionicsBus, dt: Binary64)
    ensures
        exists|trace: Seq<AvionicsBus>| #[trigger]
            stage_run(old(components)@, dt, trace, final(components)@) && trace[0] == *old(bus)
                && trace.last() == *final(bus),
{
    let ghost mut trace: Seq<AvionicsBus> = seq![*bus];
    let mut i: usize = 0;
    while i < components.len()
        invariant
            i <= components@.len(),
            components@.len() == old(components)@.len(),
            forall|k: int|
                i <= k < components@.len() ==> #[trigger] components@[k] == old(components)@[k],
            trace.len() == i + 1,
            trace[0] == *old(bus),
            trace.last() == *bus,
            forall|k: int|
                #![trigger trace[k]]
                0 <= k < i ==> old(components)@[k].runs(
                    trace[k],
                    dt,
                    trace[k + 1],
                    components@[k],
                ),
        decreases components@.len() - i,
    {
        let ghost earlier = trace;
        let ghost all = components@;
        components[i].step(bus, dt);
        proof {
            trace = trace.push(*bus);
            assert forall|k: int|
                #![trigger trace[k]]
                0 <= k < i + 1 implies old(components)@[k].runs(
                trace[k],
                dt,
                trace[k + 1],
                components@[k],
            ) by {
                if k < i {
                    assert(trace[k] == earlier[k]);
                    assert(trace[k + 1] == earlier[k + 1]);
                    assert(components@[k] == all[k]);
                }
            }
        }
        i = i + 1;
    }
    proof {
        assert(stage_run(old(components)@, dt, trace, components@));
    }
}

/// Whether these are the components, each prepared for steps of `dt` seconds.
pub open spec fn all_readied<M: Elementary>(
    before: Seq<Device<M>>,
    dt: Binary64,
    after: Seq<Device<M>>,
) -> bool {
    &&& after.len() == before.len()
    &&& forall|k: int| 0 <= k < after.len() ==> (#[trigger] after[k]).readied_from(before[k], dt)
}

/// Whether these are the components, each set back to its state at power-on.
pub open spec fn all_restored<M: Elementary>(
    before: Seq<Device<M>>,
    after: Seq<Device<M>>,
) -> bool {
    &&& after.len() == before.len()
    &&& forall|k: int| 0 <= k < after.len() ==> (#[trigger] after[k]).restored_from(before[k])
}

fn init_stage<M: Elementary>(components: &mut Vec<Device<M>>, dt: Binary64)
    ensures
        all_readied(old(components)@, dt, final(components)@),
{
    let mut i: usize = 0;
    while i < components.len()
        invariant
            i <= components@.len(),
            components@.len() == old(components)@.len(),
            forall|k: int|
                0 <= k < i ==> (#[trigger] components@[k]).readied_from(old(components)@[k], dt),
            forall|k: int|
                i <= k < components@.len() ==> #[trigger] components@[k] == old(components)@[k],
        decreases components@.len() - i,
    {
        components[i].init(dt);
        i = i + 1;
    }
}

fn reset_stage<M: Elementary>(components: &mut Vec<Device<M>>)
    ensures
        all_restored(old(components)@, final(components)@),
{
    let mut i: usize = 0;
    while i < components.len()
        invariant
            i <= components@.len(),
            components@.len() == old(components)@.len(),
            forall|k: int|
                0 <= k < i ==> (#[trigger] components@[k]).restored_from(old(components)@[k]),
            forall|k: int|
                i <= k < components@.len() ==> #[trigger] components@[k] == old(components)@[k],
        decreases components@.len() - i,
    {
        components[i].reset();
        i = i + 1;
    }
}

/// The avionics: the bus and the registered components.
pub struct AvionicsSystem<M> {
    bus: AvionicsBus,
    sensors: Vec<Device<M>>,
    controllers: Vec<Device<M>>,
    actuators: Vec<Device<M>>,
    devices: Vec<Device<M>>,
    dt: Binary64,
}

impl<M: Elementary> AvionicsSystem<M> {
    /// The bus.
    pub closed spec fn data(self) -> AvionicsBus {
        self.bus
    }

    /// The length of a step (s).
    pub closed spec fn step_time(self) -> Binary64 {
        self.dt
    }

    /// The components of a stage.
    pub closed spec fn components(self, stage: Stage) -> Seq<Device<M>> {
        match stage {
            Stage::Sense => self.sensors@,
            Stage::Control => self.controllers@,
            Stage::Actuate => self.actuators@,
            Stage::Power => self.devices@,
        }
    }

    /// The same components, in the same states, and the same step time.
    pub open spec fn same_components(self, other: AvionicsSystem<M>) -> bool {
        &&& self.step_time() == other.step_time()
        &&& forall|stage: Stage| #[trigger]
            self.components(stage) == other.components(stage)
    }

    /// Whether this is `before` with a component more in a stage, after those
    /// that were there.
    pub open spec fn extends(
        self,
        before: AvionicsSystem<M>,
        stage: Stage,
        device: Device<M>,
    ) -> bool {
        &&& self.components(stage) == before.components(stage).push(device)
        &&& forall|other: Stage|
            other != stage ==> #[trigger] self.components(other) == before.components(other)
        &&& self.data() == before.data()
        &&& self.step_time() == before.step_time()
    }

    /// Avionics without components, for steps of `dt` seconds.
    pub fn new(dt: Binary64) -> (r: Self)
        ensures
            super::bus::is_idle(r.data()),
            r.step_time() == dt,
            forall|stage: Stage| #[trigger] r.components(stage) == Seq::<Device<M>>::empty(),
    {
        AvionicsSystem {
            bus: AvionicsBus::default(),
            sensors: Vec::new(),
            controllers: Vec::new(),
            actuators: Vec::new(),
            devices: Vec::new(),
            dt,
        }
    }

    pub fn bus(&self) -> (r: &AvionicsBus)
        ensures
            *r == self.data(),
    {
        &self.bus
    }

    pub fn bus_mut(&mut self) -> (r: &mut AvionicsBus)
        ensures
            *r == old(self).data(),
            final(self).data() == *final(r),
            final(self).same_components(*old(self)),
    {
        &mut self.bus
    }

    /// Registers a device in a stage.
    pub fn fit(&mut self, stage: Stage, device: Device<M>)
        ensures
            final(self).extends(*old(self), stage, device),
    {
        match stage {
            Stage::Sense => self.sensors.push(device),
            Stage::Control => self.controllers.push(device),
            Stage::Actuate => self.actuators.push(device),
            Stage::Power => self.devices.push(device),
        }
    }

    /// Registers a sensor.
    pub fn add_sensor(&mut self, sensor: Box<dyn AvionicsComponent>)
        ensures
            final(self).extends(*old(self), Stage::Sense, Device::Other(sensor)),
    {
        self.fit(Stage::Sense, Device::Other(sensor));
    }

    /// Registers a flight controller.
    pub fn add_controller(&mut self, controller: Box<dyn AvionicsComponent>)
        ensures
            final(self).extends(*old(self), Stage::Control, Device::Other(controller)),
    {
        self.fit(Stage::Control, Device::Other(controller));
    }

    /// Registers an actuator.
    pub fn add_actuator(&mut self, actuator: Box<dyn AvionicsComponent>)
        ensures
            final(self).extends(*old(self), Stage::Actuate, Device::Other(actuator)),
    {
        self.fit(Stage::Actuate, Device::Other(actuator));
    }

    /// Registers a component that is none of these, such as the battery. It
    /// runs after the actuators.
    pub fn add_component(&mut self, device: Box<dyn AvionicsComponent>)
        ensures
            final(self).extends(*old(self), Stage::Power, Device::Other(device)),
    {
        self.fit(Stage::Power, Device::Other(device));
    }

    /// Sets or clears a fault in the register on the bus.
    pub fn inject_fault(&mut self, flag: FaultFlag, on: bool)
        ensures
            final(self).data() == (AvionicsBus {
                fc_fault_flags: old(self).data().fc_fault_flags.with(flag, on),
                ..old(self).data()
            }),
            final(self).same_components(*old(self)),
    {
        self.bus.fc_fault_flags.set(flag, on);
    }

    /// The registered faults.
    pub fn faults(&self) -> (r: FaultFlags)
        ensures
            r == self.data().fc_fault_flags,
    {
        self.bus.fc_fault_flags
    }

    /// Whether these are the avionics of `before`, each component prepared for
    /// steps of their length.
    pub open spec fn readied_from(self, before: AvionicsSystem<M>) -> bool {
        &&& self.data() == before.data()
        &&& self.step_time() == before.step_time()
        &&& forall|stage: Stage|
            all_readied(
                before.components(stage),
                before.step_time(),
                #[trigger] self.components(stage),
            )
    }

    /// Prepares all components, in order. The bus stays as it is.
    pub fn init(&mut self)
        ensures
            final(self).readied_from(*old(self)),
    {
        init_stage(&mut self.sensors, self.dt);
        init_stage(&mut self.controllers, self.dt);
        init_stage(&mut self.actuators, self.dt);
        init_stage(&mut self.devices, self.dt);
    }

    /// Whether a run of all components from a bus leaves the avionics so:
    /// sensors, controllers, actuators, power, on a bus from which no current is
    /// drawn yet; the clock of the bus has moved by one step.
    pub open spec fn ran(
        self,
        start: AvionicsBus,
        t: StageTraces,
        after: AvionicsSystem<M>,
    ) -> bool {
        &&& t.chained(start.unloaded())
        &&& stage_run(
            self.components(Stage::Sense),
            self.step_time(),
            t.sense,
            after.components(Stage::Sense),
        )
        &&& stage_run(
            self.components(Stage::Control),
            self.step_time(),
            t.control,
            after.components(Stage::Control),
        )
        &&& stage_run(
            self.components(Stage::Actuate),
            self.step_time(),
            t.actuate,
            after.components(Stage::Actuate),
        )
        &&& stage_run(
            self.components(Stage::Power),
            self.step_time(),
            t.power,
            after.components(Stage::Power),
        )
        &&& after.step_time() == self.step_time()
        &&& after.data() == (AvionicsBus {
            sim_time: t.power.last().sim_time.sum(self.step_time()),
            ..t.power.last()
        })
    }

    /// Runs every component once, in order, and moves the clock of the bus by
    /// one step. What the components draw from the battery is counted anew.
    pub fn step(&mut self)
        ensures
            exists|t: StageTraces| #[trigger]
                old(self).ran(old(self).data(), t, *final(self)),
    {
        self.bus.battery_current = num(D0);
        let ghost b0 = self.bus;
        step_stage(&mut self.sensors, &mut self.bus, self.dt);
        let ghost b1 = self.bus;
        step_stage(&mut self.controllers, &mut self.bus, self.dt);
        let ghost b2 = self.bus;
        step_stage(&mut self.actuators, &mut self.bus, self.dt);
        let ghost b3 = self.bus;
        step_stage(&mut self.devices, &mut self.bus, self.dt);
        let ghost b4 = self.bus;
        self.bus.sim_time = self.bus.sim_time.plus(self.dt);
        proof {
            let dt = self.dt;
            let sense = choose|t: Seq<AvionicsBus>| #[trigger]
                stage_run(old(self).sensors@, dt, t, self.sensors@) && t[0] == b0
                    && t.last() == b1;
            let control = choose|t: Seq<AvionicsBus>| #[trigger]
                stage_run(old(self).controllers@, dt, t, self.controllers@) && t[0] == b1
                    && t.last() == b2;
            let actuate = choose|t: Seq<AvionicsBus>| #[trigger]
                stage_run(old(self).actuators@, dt, t, self.actuators@) && t[0] == b2
                    && t.last() == b3;
            let power = choose|t: Seq<AvionicsBus>| #[trigger]
                stage_run(old(self).devices@, dt, t, self.devices@) && t[0] == b3 && t.last()
                    == b4;
            let t = StageTraces { sense, control, actuate, power };
            assert(old(self).ran(old(self).data(), t, *self));
        }
    }

    /// Sets all components back, in order, and clears the sensor outputs and
    /// the clock of the bus. Faults stay registered.
    pub fn reset(&mut self)
        ensures
            final(self).step_time() == old(self).step_time(),
            forall|stage: Stage|
                all_restored(
                    old(self).components(stage),
                    #[trigger] final(self).components(stage),
                ),
            final(self).data() == (AvionicsBus {
                sim_time: num(D0),
                ..old(self).data().cleared()
            }),
    {
        reset_stage(&mut self.sensors);
        reset_stage(&mut self.controllers);
        reset_stage(&mut self.actuators);
        reset_stage(&mut self.devices);
        self.bus.clear_sensor_outputs();
        self.bus.sim_time = num(D0);
    }

    /// The mode of the flight controller.
    pub fn fc_mode(&self) -> (r: FcMode)
        ensures
            r == self.data().fc_mode,
    {
        self.bus.fc_mode
    }

    /// The number of registered sensors.
    pub fn sensor_count(&self) -> (r: usize)
        ensures
            r == self.components(Stage::Sense).len(),
    {
        self.sensors.len()
    }
}

} // verus!
