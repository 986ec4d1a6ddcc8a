//! The avionics of an aircraft with typical hardware.
use super::actuator::{ActuatorSuite, ServoConfig};
use super::airspeed::{AirspeedConfig, AirspeedSensor};
use super::baro::{BaroConfig, BaroSensor};
use super::battery::{Battery, BatteryConfig};
use super::bus::{AvionicsBus, FcMode};
use super::device::Device;
use super::esc::{Esc, EscConfig};
use super::fitted::{Fitted, FittedController};
use super::flight_controller::{FlightController, FlightControllerConfig};
use super::gps::{GpsConfig, GpsSensor};
use super::imu::{ImuConfig, ImuSensor};
use super::magnetometer::{MagConfig, MagnetometerSensor};
use super::system::{AvionicsSystem, Stage, StageTraces};
use crate::binary64::Binary64;
use crate::elementary::Elementary;
use crate::literal::{num, D0};
use crate::prng::DEFAULT_STATE;
use vstd::prelude::*;

verus! {

/// The states of the generators of as many channels that were given no seed.
pub open spec fn unseeded(channels: nat) -> Seq<u64> {
    Seq::new(channels, |i: int| DEFAULT_STATE)
}

/// Whether these are the sensors of typical hardware: inertial unit, satellite
/// receiver, barometer, magnetometer and airspeed sensor.
pub open spec fn are_typical_sensors<M>(sensors: Seq<Device<M>>, math: M) -> bool {
    sensors == seq![
        Device::Imu(Fitted { device: ImuSensor::fresh(ImuConfig::typical(), unseeded(6)), math }),
        Device::Gps(Fitted { device: GpsSensor::fresh(GpsConfig::typical(), unseeded(6)), math }),
        Device::Baro(
            Fitted { device: BaroSensor::fresh(BaroConfig::typical(), DEFAULT_STATE), math },
        ),
        Device::Magnetometer(
            Fitted { device: MagnetometerSensor::fresh(MagConfig::typical(), unseeded(3)), math },
        ),
        Device::Airspeed(
            Fitted {
                device: AirspeedSensor::fresh(AirspeedConfig::typical(), DEFAULT_STATE),
                math,
            },
        ),
    ]
}

/// Whether this is the controller of typical hardware.
pub open spec fn is_typical_controller<M>(device: Device<M>, math: M) -> bool {
    match device {
        Device::Controller(c) => {
            &&& c.controller() == FlightController::fresh(
                FlightControllerConfig::typical(),
                FcMode::Attitude,
            )
            &&& c.functions() == math
        },
        _ => false,
    }
}

/// Whether these are the servos of typical hardware, centered.
pub open spec fn are_typical_servos<M>(device: Device<M>) -> bool {
    match device {
        Device::Actuators(s) => {
            let c = ServoConfig::typical();
            &&& s.elevator.config == c && s.aileron.config == c && s.rudder.config == c
            &&& s.elevator.position == num(D0) && s.elevator.command == num(D0)
            &&& s.aileron.position == num(D0) && s.aileron.command == num(D0)
            &&& s.rudder.position == num(D0) && s.rudder.command == num(D0)
            &&& s.elevator.quant_step == c.converter_step()
            &&& s.aileron.quant_step == c.converter_step()
            &&& s.rudder.quant_step == c.converter_step()
        },
        _ => false,
    }
}

/// Whether these are avionics of typical hardware that have not run: the
/// sensors, a flight controller, then servos, speed controller and battery.
pub open spec fn is_standard<M: Elementary>(a: AvionicsSystem<M>, dt: Binary64, math: M) -> bool {
    &&& super::bus::is_idle(a.data())
    &&& a.step_time() == dt
    &&& are_typical_sensors(a.components(Stage::Sense), math)
    &&& a.components(Stage::Control).len() == 1
    &&& is_typical_controller(a.components(Stage::Control)[0], math)
    &&& a.components(Stage::Actuate).len() == 0
    &&& a.components(Stage::Power).len() == 3
    &&& are_typical_servos(a.components(Stage::Power)[0])
    &&& a.components(Stage::Power)[1] == Device::<M>::Esc(
        Esc { config: EscConfig::typical(), current_throttle: num(D0) },
    )
    &&& a.components(Stage::Power)[2] == Device::<M>::Battery(
        Battery::full(BatteryConfig::typical()),
    )
}

/// The avionics of an aircraft with typical hardware, for steps of `dt`
/// seconds: inertial unit, satellite receiver, barometer, magnetometer and
/// airspeed sensor; a flight controller; servos, speed controller and battery.
pub fn standard_stack<M: Elementary + Copy>(dt: Binary64, m: &M) -> (r: AvionicsSystem<M>)
    ensures
        is_standard(r, dt, *m),
{
    let math: M = *m;
    let imu: ImuSensor = ImuSensor::new(ImuConfig::default());
    let gps: GpsSensor = GpsSensor::new(GpsConfig::default());
    let baro: BaroSensor = BaroSensor::new(BaroConfig::default());
    let mag: MagnetometerSensor = MagnetometerSensor::new(MagConfig::default());
    let airspeed: AirspeedSensor = AirspeedSensor::new(AirspeedConfig::default());
    let fc: FlightController = FlightController::new(FlightControllerConfig::default());
    let servo: ServoConfig = ServoConfig::default();
    proof {
        assert(imu == ImuSensor::fresh(ImuConfig::typical(), unseeded(6)));
        assert(gps == GpsSensor::fresh(GpsConfig::typical(), unseeded(6)));
        assert(mag == MagnetometerSensor::fresh(MagConfig::typical(), unseeded(3)));
    }
    let mut r: AvionicsSystem<M> = AvionicsSystem::new(dt);
    r.fit(Stage::Sense, Device::Imu(Fitted { device: imu, math }));
    r.fit(Stage::Sense, Device::Gps(Fitted { device: gps, math }));
    r.fit(Stage::Sense, Device::Baro(Fitted { device: baro, math }));
    r.fit(Stage::Sense, Device::Magnetometer(Fitted { device: mag, math }));
    r.fit(Stage::Sense, Device::Airspeed(Fitted { device: airspeed, math }));
    r.fit(Stage::Control, Device::Controller(FittedController::new(fc, math)));
    r.fit(Stage::Power, Device::Actuators(ActuatorSuite::new(servo, servo, servo)));
    r.fit(Stage::Power, Device::Esc(Esc::new(EscConfig::default())));
    r.fit(Stage::Power, Device::Battery(Battery::new(BatteryConfig::default())));
    proof {
        assert(r.components(Stage::Sense) =~= seq![
            Device::Imu(Fitted { device: imu, math }),
            Device::Gps(Fitted { device: gps, math }),
            Device::Baro(Fitted { device: baro, math }),
            Device::Magnetometer(Fitted { device: mag, math }),
            Device::Airspeed(Fitted { device: airspeed, math }),
        ]);
    }
    r
}

/// Whether avionics are made of the kinds of hardware of the standard stack, in
/// whatever state: none but its own devices, with servos, speed controller and
/// battery last.
pub open spec fn is_stack<M: Elementary>(a: AvionicsSystem<M>) -> bool {
    &&& all_own(a.components(Stage::Sense))
    &&& all_own(a.components(Stage::Control))
    &&& all_own(a.components(Stage::Actuate))
    &&& a.components(Stage::Power).len() == 3
    &&& a.components(Stage::Power)[0] is Actuators
    &&& a.components(Stage::Power)[1] is Esc
    &&& a.components(Stage::Power)[2] is Battery
}

/// Whether no device is a foreign one.
pub open spec fn all_own<M: Elementary>(devices: Seq<Device<M>>) -> bool {
    forall|k: int| 0 <= k < devices.len() ==> !(#[trigger] devices[k] is Other)
}

/// None of the own devices takes a registered depletion back.
proof fn lemma_depletion_stays<M: Elementary>(
    d: Device<M>,
    before: AvionicsBus,
    dt: Binary64,
    after: AvionicsBus,
    next: Device<M>,
)
    requires
        !(d is Other),
        d.runs(before, dt, after, next),
    ensures
        kept(before, after),
        !(next is Other),
{
}

/// Whether a registered depletion is still registered.
pub open spec fn kept(before: AvionicsBus, after: AvionicsBus) -> bool {
    before.fc_fault_flags.battery_depleted ==> after.fc_fault_flags.battery_depleted
}

proof fn lemma_device_keeps<M: Elementary>(
    devices: Seq<Device<M>>,
    dt: Binary64,
    trace: Seq<AvionicsBus>,
    after: Seq<Device<M>>,
    k: int,
)
    requires
        super::system::stage_run(devices, dt, trace, after),
        all_own(devices),
        0 <= k < devices.len(),
    ensures
        kept(trace[k], trace[k + 1]),
        !(after[k] is Other),
{
    let d = devices[k];
    let next = after[k];
    let before = trace[k];
    let later = trace[k + 1];
    assert(!(d is Other));
    assert(d.runs(before, dt, later, next));
    lemma_depletion_stays(d, before, dt, later, next);
}

proof fn lemma_trace_keeps(trace: Seq<AvionicsBus>, n: int)
    requires
        0 <= n < trace.len(),
        forall|k: int|
            0 <= k < trace.len() - 1 ==> kept(#[trigger] trace[k], trace.subrange(1, trace.len() as int)[k]),
    ensures
        kept(trace[0], trace[n]),
    decreases n,
{
    if n > 0 {
        lemma_trace_keeps(trace, n - 1);
        assert(kept(trace[n - 1], trace.subrange(1, trace.len() as int)[n - 1]));
    }
}

proof fn lemma_stage_keeps<M: Elementary>(
    devices: Seq<Device<M>>,
    dt: Binary64,
    trace: Seq<AvionicsBus>,
    after: Seq<Device<M>>,
)
    requires
        super::system::stage_run(devices, dt, trace, after),
        all_own(devices),
    ensures
        kept(trace[0], trace.last()),
        all_own(after),
{
    assert forall|k: int| 0 <= k < trace.len() - 1 implies kept(
        #[trigger] trace[k],
        trace.subrange(1, trace.len() as int)[k],
    ) by {
        lemma_device_keeps(devices, dt, trace, after, k);
    }
    assert forall|k: int| 0 <= k < after.len() implies !(#[trigger] after[k] is Other) by {
        lemma_device_keeps(devices, dt, trace, after, k);
    }
    lemma_trace_keeps(trace, trace.len() - 1);
}

/// A step of a stack with a depleted battery gives no thrust and leaves a stack
/// with a depleted battery.
pub proof fn depleted_batteries_give_no_thrust<M: Elementary>(
    a: AvionicsSystem<M>,
    start: AvionicsBus,
    t: StageTraces,
    after: AvionicsSystem<M>,
)
    requires
        is_stack(a),
        a.ran(start, t, after),
        start.fc_fault_flags.battery_depleted,
    ensures
        after.data().actual_esc_output == num(D0),
        after.data().fc_fault_flags.battery_depleted,
        is_stack(after),
{
    let dt = a.step_time();
    let sense = a.components(Stage::Sense);
    let control = a.components(Stage::Control);
    let actuate = a.components(Stage::Actuate);
    let power = a.components(Stage::Power);
    let next = after.components(Stage::Power);
    lemma_stage_keeps(sense, dt, t.sense, after.components(Stage::Sense));
    lemma_stage_keeps(control, dt, t.control, after.components(Stage::Control));
    lemma_stage_keeps(actuate, dt, t.actuate, after.components(Stage::Actuate));
    assert(power[0].runs(t.power[0], dt, t.power[1], next[0]));
    assert(power[1].runs(t.power[1], dt, t.power[2], next[1]));
    assert(power[2].runs(t.power[2], dt, t.power[3], next[2]));
}

/// A run of avionics: their states, and the bus with which each step starts.
/// Between two steps the true state and the commands may be written, but no
/// fault is taken back.
pub open spec fn is_run<M: Elementary>(
    states: Seq<AvionicsSystem<M>>,
    starts: Seq<AvionicsBus>,
    traces: Seq<StageTraces>,
) -> bool {
    &&& states.len() == starts.len() + 1
    &&& traces.len() == starts.len()
    &&& forall|k: int|
        #![trigger starts[k]]
        0 <= k < starts.len() ==> {
            &&& starts[k].fc_fault_flags == states[k].data().fc_fault_flags
            &&& states[k].ran(starts[k], traces[k], states[k + 1])
        }
}

/// Once its battery is depleted, a stack gives no thrust after any number of
/// steps.
pub proof fn depletion_lasts<M: Elementary>(
    states: Seq<AvionicsSystem<M>>,
    starts: Seq<AvionicsBus>,
    traces: Seq<StageTraces>,
    n: nat,
)
    requires
        is_run(states, starts, traces),
        is_stack(states[0]),
        states[0].data().fc_fault_flags.battery_depleted,
        n <= starts.len(),
    ensures
        is_stack(states[n as int]),
        states[n as int].data().fc_fault_flags.battery_depleted,
        n > 0 ==> states[n as int].data().actual_esc_output == num(D0),
    decreases n,
{
    if n > 0 {
        depletion_lasts(states, starts, traces, (n - 1) as nat);
        let k = n - 1;
        assert(starts[k].fc_fault_flags == states[k].data().fc_fault_flags);
        depleted_batteries_give_no_thrust(states[k], starts[k], traces[k], states[k + 1]);
    }
}

/// A stack that is initialised, reset or written to stays a stack.
pub proof fn stacks_stay_stacks<M: Elementary>(a: AvionicsSystem<M>, after: AvionicsSystem<M>)
    requires
        is_stack(a),
        after.readied_from(a) || after.same_components(a) || (forall|stage: Stage|
            super::system::all_restored(
                a.components(stage),
                #[trigger] after.components(stage),
            )),
    ensures
        is_stack(after),
{
    lemma_stage_stays_own(a, after, Stage::Sense);
    lemma_stage_stays_own(a, after, Stage::Control);
    lemma_stage_stays_own(a, after, Stage::Actuate);
    let power = a.components(Stage::Power);
    let next = after.components(Stage::Power);
    assert(next.len() == 3);
    assert(next[0] == power[0] || next[0].readied_from(power[0], a.step_time())
        || next[0].restored_from(power[0]));
    assert(next[1] == power[1] || next[1].readied_from(power[1], a.step_time())
        || next[1].restored_from(power[1]));
    assert(next[2] == power[2] || next[2].readied_from(power[2], a.step_time())
        || next[2].restored_from(power[2]));
}

proof fn lemma_stage_stays_own<M: Elementary>(
    a: AvionicsSystem<M>,
    after: AvionicsSystem<M>,
    stage: Stage,
)
    requires
        all_own(a.components(stage)),
        after.readied_from(a) || after.same_components(a) || (forall|stage: Stage|
            super::system::all_restored(
                a.components(stage),
                #[trigger] after.components(stage),
            )),
    ensures
        all_own(after.components(stage)),
{
    let before = a.components(stage);
    let next = after.components(stage);
    assert forall|k: int| 0 <= k < next.len() implies !(#[trigger] next[k] is Other) by {
        assert(!(before[k] is Other));
        assert(next[k] == before[k] || next[k].readied_from(before[k], a.step_time())
            || next[k].restored_from(before[k]));
    }
}

/// The standard stack is a stack, before and after it is initialised.
pub proof fn standard_stacks_are_stacks<M: Elementary>(
    a: AvionicsSystem<M>,
    dt: Binary64,
    math: M,
    ready: AvionicsSystem<M>,
)
    requires
        is_standard(a, dt, math),
        ready.readied_from(a),
    ensures
        is_stack(a),
        is_stack(ready),
{
    let sense = a.components(Stage::Sense);
    assert(sense.len() == 5);
    assert(super::system::all_readied(sense, dt, ready.components(Stage::Sense)));
    assert(super::system::all_readied(a.components(Stage::Control), dt, ready.components(Stage::Control)));
    assert(super::system::all_readied(a.components(Stage::Actuate), dt, ready.components(Stage::Actuate)));
    assert(super::system::all_readied(a.components(Stage::Power), dt, ready.components(Stage::Power)));
    assert(ready.components(Stage::Power)[0].readied_from(a.components(Stage::Power)[0], dt));
    assert(ready.components(Stage::Power)[1].readied_from(a.components(Stage::Power)[1], dt));
    assert(ready.components(Stage::Power)[2].readied_from(a.components(Stage::Power)[2], dt));
}

} // verus!
