//! The data bus through which the components of the avionics communicate.
use crate::binary64::Binary64;
use crate::literal::{num, D0, D0_5, D1, D100, D16_8, D30, M30, M9_80665, D0_017453292519943295};
use crate::text::same_text;
use crate::vector::Vec3;
use vstd::prelude::*;

verus! {

/// The faults that are registered on the bus.
#[derive(Clone, Copy, Debug, PartialEq, Eq, Structural)]
pub struct FaultFlags {
    pub imu_failed: bool,
    pub gps_failed: bool,
    pub baro_failed: bool,
    pub mag_failed: bool,
    pub airspeed_failed: bool,
    pub servo_elevator_failed: bool,
    pub servo_aileron_failed: bool,
    pub servo_rudder_failed: bool,
    pub esc_failed: bool,
    pub battery_depleted: bool,
}

/// A fault that can be injected: one for each register bit.
#[derive(Clone, Copy, Debug, PartialEq, Eq, Structural)]
pub enum FaultFlag {
    Imu,
    Gps,
    Baro,
    Mag,
    Airspeed,
    ServoElevator,
    ServoAileron,
    ServoRudder,
    Esc,
    BatteryDepleted,
}

impl FaultFlags {
    /// No faults.
    pub open spec fn clear() -> FaultFlags {
        FaultFlags {
            imu_failed: false,
            gps_failed: false,
            baro_failed: false,
            mag_failed: false,
            airspeed_failed: false,
            servo_elevator_failed: false,
            servo_aileron_failed: false,
            servo_rudder_failed: false,
            esc_failed: false,
            battery_depleted: false,
        }
    }

    /// Whether a fault is registered.
    pub open spec fn holds(self, flag: FaultFlag) -> bool {
        match flag {
            FaultFlag::Imu => self.imu_failed,
            FaultFlag::Gps => self.gps_failed,
            FaultFlag::Baro => self.baro_failed,
            FaultFlag::Mag => self.mag_failed,
            FaultFlag::Airspeed => self.airspeed_failed,
            FaultFlag::ServoElevator => self.servo_elevator_failed,
            FaultFlag::ServoAileron => self.servo_aileron_failed,
            FaultFlag::ServoRudder => self.servo_rudder_failed,
            FaultFlag::Esc => self.esc_failed,
            FaultFlag::BatteryDepleted => self.battery_depleted,
        }
    }

    /// The register with one fault set or cleared.
    pub open spec fn with(self, flag: FaultFlag, on: bool) -> FaultFlags {
        match flag {
            FaultFlag::Imu => FaultFlags { imu_failed: on, ..self },
            FaultFlag::Gps => FaultFlags { gps_failed: on, ..self },
            FaultFlag::Baro => FaultFlags { baro_failed: on, ..self },
            FaultFlag::Mag => FaultFlags { mag_failed: on, ..self },
            FaultFlag::Airspeed => FaultFlags { airspeed_failed: on, ..self },
            FaultFlag::ServoElevator => FaultFlags { servo_elevator_failed: on, ..self },
            FaultFlag::ServoAileron => FaultFlags { servo_aileron_failed: on, ..self },
            FaultFlag::ServoRudder => FaultFlags { servo_rudder_failed: on, ..self },
            FaultFlag::Esc => FaultFlags { esc_failed: on, ..self },
            FaultFlag::BatteryDepleted => FaultFlags { battery_depleted: on, ..self },
        }
    }

    /// Whether no fault is registered.
    pub fn all_clear(&self) -> (r: bool)
        ensures
            r == (forall|flag: FaultFlag| !self.holds(flag)),
    {
        let r: bool = !self.imu_failed && !self.gps_failed && !self.baro_failed
            && !self.mag_failed && !self.airspeed_failed && !self.servo_elevator_failed
            && !self.servo_aileron_failed && !self.servo_rudder_failed && !self.esc_failed
            && !self.battery_depleted;
        assert(self.holds(FaultFlag::Imu) == self.imu_failed);
        assert(self.holds(FaultFlag::Gps) == self.gps_failed);
        assert(self.holds(FaultFlag::Baro) == self.baro_failed);
        assert(self.holds(FaultFlag::Mag) == self.mag_failed);
        assert(self.holds(FaultFlag::Airspeed) == self.airspeed_failed);
        assert(self.holds(FaultFlag::ServoElevator) == self.servo_elevator_failed);
        assert(self.holds(FaultFlag::ServoAileron) == self.servo_aileron_failed);
        assert(self.holds(FaultFlag::ServoRudder) == self.servo_rudder_failed);
        assert(self.holds(FaultFlag::Esc) == self.esc_failed);
        assert(self.holds(FaultFlag::BatteryDepleted) == self.battery_depleted);
        r
    }

    /// Sets or clears one fault.
    pub fn set(&mut self, flag: FaultFlag, on: bool)
        ensures
            *final(self) == old(self).with(flag, on),
    {
        *flag.field_of(self) = on;
    }

    /// Whether one fault is registered.
    pub fn has(&self, flag: FaultFlag) -> (r: bool)
        ensures
            r == self.holds(flag),
    {
        match flag {
            FaultFlag::Imu => self.imu_failed,
            FaultFlag::Gps => self.gps_failed,
            FaultFlag::Baro => self.baro_failed,
            FaultFlag::Mag => self.mag_failed,
            FaultFlag::Airspeed => self.airspeed_failed,
            FaultFlag::ServoElevator => self.servo_elevator_failed,
            FaultFlag::ServoAileron => self.servo_aileron_failed,
            FaultFlag::ServoRudder => self.servo_rudder_failed,
            FaultFlag::Esc => self.esc_failed,
            FaultFlag::BatteryDepleted => self.battery_depleted,
        }
    }
}

impl Default for FaultFlags {
    fn default() -> (r: Self)
        ensures
            r == FaultFlags::clear(),
    {
        FaultFlags {
            imu_failed: false,
            gps_failed: false,
            baro_failed: false,
            mag_failed: false,
            airspeed_failed: false,
            servo_elevator_failed: false,
            servo_aileron_failed: false,
            servo_rudder_failed: false,
            esc_failed: false,
            battery_depleted: false,
        }
    }
}

impl FaultFlag {
    /// The fault with a name or a short name.
    pub open spec fn named(name: Seq<char>) -> Option<FaultFlag> {
        if name == "imu"@ {
            Some(FaultFlag::Imu)
        } else if name == "gps"@ {
            Some(FaultFlag::Gps)
        } else if name == "baro"@ {
            Some(FaultFlag::Baro)
        } else if name == "mag"@ || name == "magnetometer"@ {
            Some(FaultFlag::Mag)
        } else if name == "airspeed"@ {
            Some(FaultFlag::Airspeed)
        } else if name == "servo_elevator"@ || name == "servo_elev"@ {
            Some(FaultFlag::ServoElevator)
        } else if name == "servo_aileron"@ || name == "servo_ail"@ {
            Some(FaultFlag::ServoAileron)
        } else if name == "servo_rudder"@ || name == "servo_rud"@ {
            Some(FaultFlag::ServoRudder)
        } else if name == "esc"@ {
            Some(FaultFlag::Esc)
        } else if name == "battery_depleted"@ || name == "battery"@ {
            Some(FaultFlag::BatteryDepleted)
        } else {
            None
        }
    }

    /// The register bit of the fault.
    pub fn field_of(self, flags: &mut FaultFlags) -> (r: &mut bool)
        ensures
            *r == old(flags).holds(self),
            *final(flags) == old(flags).with(self, *final(r)),
    {
        match self {
            FaultFlag::Imu => &mut flags.imu_failed,
            FaultFlag::Gps => &mut flags.gps_failed,
            FaultFlag::Baro => &mut flags.baro_failed,
            FaultFlag::Mag => &mut flags.mag_failed,
            FaultFlag::Airspeed => &mut flags.airspeed_failed,
            FaultFlag::ServoElevator => &mut flags.servo_elevator_failed,
            FaultFlag::ServoAileron => &mut flags.servo_aileron_failed,
            FaultFlag::ServoRudder => &mut flags.servo_rudder_failed,
            FaultFlag::Esc => &mut flags.esc_failed,
            FaultFlag::BatteryDepleted => &mut flags.battery_depleted,
        }
    }
}

/// The fault with a name or a short name.
pub fn fault_flag_from_str(name: &str) -> (r: Option<FaultFlag>)
    ensures
        r == FaultFlag::named(name@),
{
    if same_text(name, "imu") {
        Some(FaultFlag::Imu)
    } else if same_text(name, "gps") {
        Some(FaultFlag::Gps)
    } else if same_text(name, "baro") {
        Some(FaultFlag::Baro)
    } else if same_text(name, "mag") || same_text(name, "magnetometer") {
        Some(FaultFlag::Mag)
    } else if same_text(name, "airspeed") {
        Some(FaultFlag::Airspeed)
    } else if same_text(name, "servo_elevator") || same_text(name, "servo_elev") {
        Some(FaultFlag::ServoElevator)
    } else if same_text(name, "servo_aileron") || same_text(name, "servo_ail") {
        Some(FaultFlag::ServoAileron)
    } else if same_text(name, "servo_rudder") || same_text(name, "servo_rud") {
        Some(FaultFlag::ServoRudder)
    } else if same_text(name, "esc") {
        Some(FaultFlag::Esc)
    } else if same_text(name, "battery_depleted") || same_text(name, "battery") {
        Some(FaultFlag::BatteryDepleted)
    } else {
        None
    }
}

/// Setting a fault sets that fault and no other.
pub proof fn faults_are_independent(flags: FaultFlags, flag: FaultFlag, other: FaultFlag, on: bool)
    ensures
        flags.with(flag, on).holds(flag) == on,
        other != flag ==> flags.with(flag, on).holds(other) == flags.holds(other),
{
}

/// Registers that hold the same faults are the same.
pub proof fn registers_are_their_faults(a: FaultFlags, b: FaultFlags)
    requires
        forall|flag: FaultFlag| #[trigger] a.holds(flag) == b.holds(flag),
    ensures
        a == b,
{
    assert(a.holds(FaultFlag::Imu) == b.holds(FaultFlag::Imu));
    assert(a.holds(FaultFlag::Gps) == b.holds(FaultFlag::Gps));
    assert(a.holds(FaultFlag::Baro) == b.holds(FaultFlag::Baro));
    assert(a.holds(FaultFlag::Mag) == b.holds(FaultFlag::Mag));
    assert(a.holds(FaultFlag::Airspeed) == b.holds(FaultFlag::Airspeed));
    assert(a.holds(FaultFlag::ServoElevator) == b.holds(FaultFlag::ServoElevator));
    assert(a.holds(FaultFlag::ServoAileron) == b.holds(FaultFlag::ServoAileron));
    assert(a.holds(FaultFlag::ServoRudder) == b.holds(FaultFlag::ServoRudder));
    assert(a.holds(FaultFlag::Esc) == b.holds(FaultFlag::Esc));
    assert(a.holds(FaultFlag::BatteryDepleted) == b.holds(FaultFlag::BatteryDepleted));
}

/// Clearing a fault after it was injected restores a register that did not
/// hold it.
#[verifier::spinoff_prover]
#[verifier::rlimit(60)]
pub proof fn faults_can_be_undone(flags: FaultFlags, flag: FaultFlag)
    requires
        !flags.holds(flag),
    ensures
        flags.with(flag, true).with(flag, false) == flags,
{
    if flag == FaultFlag::Imu {
    } else if flag == FaultFlag::Gps {
    } else if flag == FaultFlag::Baro {
    } else if flag == FaultFlag::Mag {
    } else if flag == FaultFlag::Airspeed {
    } else if flag == FaultFlag::ServoElevator {
    } else if flag == FaultFlag::ServoAileron {
    } else if flag == FaultFlag::ServoRudder {
    } else if flag == FaultFlag::Esc {
    } else {
    }
}

/// What the flight controller does with the commands.
#[derive(Clone, Copy, Debug, PartialEq, Eq, Structural)]
pub enum FcMode {
    /// Commands are angular rates.
    Rate,
    /// Commands are attitude angles and a yaw rate.
    Attitude,
    /// Commands go to the servos as they are.
    Manual,
    /// The wings are held level; commands give pitch, yaw rate and throttle.
    Stabilize,
}

impl Default for FcMode {
    fn default() -> (r: Self)
        ensures
            r == FcMode::Attitude,
    {
        FcMode::Attitude
    }
}

/// The data bus. Each component reads what it needs and writes its own outputs.
#[derive(Clone, Copy, Debug)]
pub struct AvionicsBus {
    // True state, written by the physics.
    /// Position (m) north, east and down.
    pub true_position_ned: Vec3,
    /// Velocity (m/s) forward, right and down.
    pub true_velocity_body: Vec3,
    /// Orientation as a quaternion from earth to body.
    pub true_quat: [Binary64; 4],
    /// Roll, pitch and yaw rate (rad/s).
    pub true_angular_rates: Vec3,
    pub true_airspeed: Binary64,
    pub true_altitude: Binary64,
    pub true_alpha: Binary64,
    pub true_beta: Binary64,
    pub true_wind: Vec3,
    pub true_q_dynamic: Binary64,
    // Inertial measurement unit.
    pub gyro: Vec3,
    pub accel: Vec3,
    pub imu_sample_time: Binary64,
    // Satellite navigation.
    pub gps_position_ned: Vec3,
    pub gps_velocity_ned: Vec3,
    pub gps_fix_quality: u8,
    pub gps_hdop: Binary64,
    pub gps_sample_time: Binary64,
    // Barometer.
    pub baro_altitude: Binary64,
    pub baro_sample_time: Binary64,
    // Magnetometer.
    pub mag_field_body: Vec3,
    pub mag_sample_time: Binary64,
    // Airspeed sensor.
    pub airspeed_indicated: Binary64,
    pub airspeed_sample_time: Binary64,
    // Battery.
    pub battery_voltage: Binary64,
    /// What is drawn in a step, counted up by those who draw.
    pub battery_current: Binary64,
    pub battery_capacity_remaining_pct: Binary64,
    // Flight controller.
    pub fc_mode: FcMode,
    pub fc_servo_elevator: Binary64,
    pub fc_servo_aileron: Binary64,
    pub fc_servo_rudder: Binary64,
    pub fc_esc_throttle: Binary64,
    pub fc_fault_flags: FaultFlags,
    // Commands of the agent.
    pub cmd_roll: Binary64,
    pub cmd_pitch: Binary64,
    pub cmd_yaw_rate: Binary64,
    pub cmd_throttle: Binary64,
    // Actuator feedback.
    pub actual_elevator_deg: Binary64,
    pub actual_aileron_deg: Binary64,
    pub actual_rudder_deg: Binary64,
    pub actual_esc_output: Binary64,
    /// Seconds since the start.
    pub sim_time: Binary64,
}

/// The values of a bus on which nothing has been written yet.
pub open spec fn is_idle(b: AvionicsBus) -> bool {
    &&& b.true_position_ned == Vec3::zero()
    &&& b.true_velocity_body == Vec3::zero()
    &&& b.true_quat@ =~= seq![num(D1), num(D0), num(D0), num(D0)]
    &&& b.true_angular_rates == Vec3::zero()
    &&& b.true_airspeed == num(D0)
    &&& b.true_altitude == num(D0)
    &&& b.true_alpha == num(D0)
    &&& b.true_beta == num(D0)
    &&& b.true_wind == Vec3::zero()
    &&& b.true_q_dynamic == num(D0)
    &&& sensors_idle(b)
    &&& b.fc_mode == FcMode::Attitude
    &&& b.fc_servo_elevator == num(D0)
    &&& b.fc_servo_aileron == num(D0)
    &&& b.fc_servo_rudder == num(D0)
    &&& b.fc_esc_throttle == num(D0)
    &&& b.fc_fault_flags == FaultFlags::clear()
    &&& b.cmd_roll == num(D0)
    &&& b.cmd_pitch == num(D0)
    &&& b.cmd_yaw_rate == num(D0)
    &&& b.cmd_throttle == num(D0_5)
    &&& b.actual_elevator_deg == num(D0)
    &&& b.actual_aileron_deg == num(D0)
    &&& b.actual_rudder_deg == num(D0)
    &&& b.actual_esc_output == num(D0)
    &&& b.sim_time == num(D0)
}

/// The sensor outputs before the first sample: gravity alone, a full battery.
pub open spec fn sensors_idle(b: AvionicsBus) -> bool {
    &&& b.gyro == Vec3::zero()
    &&& b.accel == (Vec3 { x: num(D0), y: num(D0), z: num(M9_80665) })
    &&& b.imu_sample_time == num(D0)
    &&& b.gps_position_ned == Vec3::zero()
    &&& b.gps_velocity_ned == Vec3::zero()
    &&& b.gps_fix_quality == 3
    &&& b.gps_hdop == num(D1)
    &&& b.gps_sample_time == num(D0)
    &&& b.baro_altitude == num(D0)
    &&& b.baro_sample_time == num(D0)
    &&& b.mag_field_body == Vec3::zero()
    &&& b.mag_sample_time == num(D0)
    &&& b.airspeed_indicated == num(D0)
    &&& b.airspeed_sample_time == num(D0)
    &&& b.battery_voltage == num(D16_8)
    &&& b.battery_current == num(D0)
    &&& b.battery_capacity_remaining_pct == num(D100)
}

impl Default for AvionicsBus {
    fn default() -> (r: Self)
        ensures
            is_idle(r),
    {
        let z: Binary64 = num(D0);
        AvionicsBus {
            true_position_ned: Vec3::zeros(),
            true_velocity_body: Vec3::zeros(),
            true_quat: [num(D1), z, z, z],
            true_angular_rates: Vec3::zeros(),
            true_airspeed: z,
            true_altitude: z,
            true_alpha: z,
            true_beta: z,
            true_wind: Vec3::zeros(),
            true_q_dynamic: z,
            gyro: Vec3::zeros(),
            accel: Vec3 { x: z, y: z, z: num(M9_80665) },
            imu_sample_time: z,
            gps_position_ned: Vec3::zeros(),
            gps_velocity_ned: Vec3::zeros(),
            gps_fix_quality: 3,
            gps_hdop: num(D1),
            gps_sample_time: z,
            baro_altitude: z,
            baro_sample_time: z,
            mag_field_body: Vec3::zeros(),
            mag_sample_time: z,
            airspeed_indicated: z,
            airspeed_sample_time: z,
            battery_voltage: num(D16_8),
            battery_current: z,
            battery_capacity_remaining_pct: num(D100),
            fc_mode: FcMode::Attitude,
            fc_servo_elevator: z,
            fc_servo_aileron: z,
            fc_servo_rudder: z,
            fc_esc_throttle: z,
            fc_fault_flags: FaultFlags::default(),
            cmd_roll: z,
            cmd_pitch: z,
            cmd_yaw_rate: z,
            cmd_throttle: num(D0_5),
            actual_elevator_deg: z,
            actual_aileron_deg: z,
            actual_rudder_deg: z,
            actual_esc_output: z,
            sim_time: z,
        }
    }
}

/// The true state as the physics hands it over. Airspeed and the angles of
/// attack and sideslip are relative to the moving air.
#[derive(Clone, Copy, Debug)]
pub struct TrueState {
    pub position: Vec3,
    pub velocity: Vec3,
    pub quat: [Binary64; 4],
    pub rates: Vec3,
    pub airspeed: Binary64,
    pub alpha: Binary64,
    pub beta: Binary64,
    pub altitude: Binary64,
    pub wind: Vec3,
    pub q_dynamic: Binary64,
}

/// Surface deflections and throttle.
#[derive(Clone, Copy, Debug, PartialEq, Eq, Structural)]
pub struct SurfaceTargets {
    pub elevator: Binary64,
    pub aileron: Binary64,
    pub rudder: Binary64,
    pub throttle: Binary64,
}

impl AvionicsBus {
    /// The bus with a true state.
    pub open spec fn with_truth(self, s: TrueState) -> AvionicsBus {
        AvionicsBus {
            true_position_ned: s.position,
            true_velocity_body: s.velocity,
            true_quat: s.quat,
            true_angular_rates: s.rates,
            true_airspeed: s.airspeed,
            true_alpha: s.alpha,
            true_beta: s.beta,
            true_altitude: s.altitude,
            true_wind: s.wind,
            true_q_dynamic: s.q_dynamic,
            ..self
        }
    }

    /// The bus before any current is drawn from the battery.
    pub open spec fn unloaded(self) -> AvionicsBus {
        AvionicsBus { battery_current: num(D0), ..self }
    }

    /// Writes the true state, and nothing else.
    pub fn write_true_state(&mut self, s: &TrueState)
        ensures
            *final(self) == old(self).with_truth(*s),
    {
        self.true_position_ned = s.position;
        self.true_velocity_body = s.velocity;
        self.true_quat = s.quat;
        self.true_angular_rates = s.rates;
        self.true_airspeed = s.airspeed;
        self.true_alpha = s.alpha;
        self.true_beta = s.beta;
        self.true_altitude = s.altitude;
        self.true_wind = s.wind;
        self.true_q_dynamic = s.q_dynamic;
    }

    /// The actuator outputs with the deflections in radians.
    pub open spec fn actuator_outputs(self) -> SurfaceTargets {
        SurfaceTargets {
            elevator: self.actual_elevator_deg.product(num(D0_017453292519943295)),
            aileron: self.actual_aileron_deg.product(num(D0_017453292519943295)),
            rudder: self.actual_rudder_deg.product(num(D0_017453292519943295)),
            throttle: self.actual_esc_output,
        }
    }

    /// The actuator outputs as inputs of the physics: deflections in radians.
    pub fn read_actuator_outputs(&self) -> (r: SurfaceTargets)
        ensures
            r == self.actuator_outputs(),
    {
        let k: Binary64 = num(D0_017453292519943295);
        SurfaceTargets {
            elevator: self.actual_elevator_deg.times(k),
            aileron: self.actual_aileron_deg.times(k),
            rudder: self.actual_rudder_deg.times(k),
            throttle: self.actual_esc_output,
        }
    }

    /// The commands as surface targets (degrees) and throttle.
    pub open spec fn direct(self) -> SurfaceTargets {
        SurfaceTargets {
            elevator: self.cmd_pitch.clamped(num(M30), num(D30)),
            aileron: self.cmd_roll.clamped(num(M30), num(D30)),
            rudder: self.cmd_yaw_rate.clamped(num(M30), num(D30)),
            throttle: self.cmd_throttle.clamped(num(D0), num(D1)),
        }
    }

    /// The commands as surface targets, for flight without a controller.
    pub fn read_agent_commands_as_actuators(&self) -> (r: SurfaceTargets)
        ensures
            r == self.direct(),
    {
        SurfaceTargets {
            elevator: self.cmd_pitch.clamp(num(M30), num(D30)),
            aileron: self.cmd_roll.clamp(num(M30), num(D30)),
            rudder: self.cmd_yaw_rate.clamp(num(M30), num(D30)),
            throttle: self.cmd_throttle.clamp(num(D0), num(D1)),
        }
    }

    /// The bus with all sensor outputs, their quality and their sample times
    /// set back.
    pub open spec fn cleared(self) -> AvionicsBus {
        AvionicsBus {
            gyro: Vec3::zero(),
            accel: Vec3 { x: num(D0), y: num(D0), z: num(M9_80665) },
            imu_sample_time: num(D0),
            gps_position_ned: Vec3::zero(),
            gps_velocity_ned: Vec3::zero(),
            gps_fix_quality: 3,
            gps_hdop: num(D1),
            gps_sample_time: num(D0),
            baro_altitude: num(D0),
            baro_sample_time: num(D0),
            mag_field_body: Vec3::zero(),
            mag_sample_time: num(D0),
            airspeed_indicated: num(D0),
            airspeed_sample_time: num(D0),
            battery_voltage: num(D16_8),
            battery_current: num(D0),
            battery_capacity_remaining_pct: num(D100),
            ..self
        }
    }

    /// Sets all sensor outputs back, with their quality and their sample times,
    /// and nothing else.
    pub fn clear_sensor_outputs(&mut self)
        ensures
            *final(self) == old(self).cleared(),
            sensors_idle(*final(self)),
    {
        self.gyro = Vec3::zeros();
        self.accel = Vec3 { x: num(D0), y: num(D0), z: num(M9_80665) };
        self.imu_sample_time = num(D0);
        self.gps_position_ned = Vec3::zeros();
        self.gps_velocity_ned = Vec3::zeros();
        self.gps_fix_quality = 3;
        self.gps_hdop = num(D1);
        self.gps_sample_time = num(D0);
        self.baro_altitude = num(D0);
        self.baro_sample_time = num(D0);
        self.mag_field_body = Vec3::zeros();
        self.mag_sample_time = num(D0);
        self.airspeed_indicated = num(D0);
        self.airspeed_sample_time = num(D0);
        self.battery_voltage = num(D16_8);
        self.battery_current = num(D0);
        self.battery_capacity_remaining_pct = num(D100);
    }

    /// A channel of the sensor observation.
    pub open spec fn sensed(self, i: int) -> Binary64 {
        if i == 0 {
            self.gyro.x
        } else if i == 1 {
            self.gyro.y
        } else if i == 2 {
            self.gyro.z
        } else if i == 3 {
            self.accel.x
        } else if i == 4 {
            self.accel.y
        } else if i == 5 {
            self.accel.z
        } else if i == 6 {
            self.gps_position_ned.x
        } else if i == 7 {
            self.gps_position_ned.y
        } else if i == 8 {
            self.gps_position_ned.z.negated()
        } else if i == 9 {
            Binary64::integer(self.gps_fix_quality as nat)
        } else if i == 10 {
            self.baro_altitude
        } else if i == 11 {
            self.airspeed_indicated
        } else if i == 12 {
            self.battery_voltage
        } else if i == 13 {
            self.battery_capacity_remaining_pct
        } else if i == 14 {
            self.actual_elevator_deg
        } else if i == 15 {
            self.actual_aileron_deg
        } else if i == 16 {
            self.actual_rudder_deg
        } else if i == 17 {
            self.actual_esc_output
        } else {
            self.sim_time
        }
    }

    /// The sensor observation: gyro, accelerometer, satellite position and fix,
    /// pressure altitude, airspeed, battery, actuators, time.
    pub fn sensor_observation(&self) -> (r: [Binary64; 19])
        ensures
            forall|i: int| 0 <= i < 19 ==> #[trigger] r@[i] == self.sensed(i),
    {
        [
            self.gyro.x,
            self.gyro.y,
            self.gyro.z,
            self.accel.x,
            self.accel.y,
            self.accel.z,
            self.gps_position_ned.x,
            self.gps_position_ned.y,
            self.gps_position_ned.z.neg(),
            Binary64::from_u64(self.gps_fix_quality as u64),
            self.baro_altitude,
            self.airspeed_indicated,
            self.battery_voltage,
            self.battery_capacity_remaining_pct,
            self.actual_elevator_deg,
            self.actual_aileron_deg,
            self.actual_rudder_deg,
            self.actual_esc_output,
            self.sim_time,
        ]
    }
}

/// The physics gets each deflection its own way: more of it for more, with its
/// sign, and nothing of the other surfaces; the throttle as it is.
pub proof fn surfaces_turn_their_own_way(bus: AvionicsBus, more: AvionicsBus)
    requires
        bus.actual_elevator_deg.finite() && more.actual_elevator_deg.finite(),
        bus.actual_aileron_deg.finite() && more.actual_aileron_deg.finite(),
        bus.actual_rudder_deg.finite() && more.actual_rudder_deg.finite(),
    ensures
        ({
            let (a, b) = (bus.actuator_outputs(), more.actuator_outputs());
            let one = num(D1);
            &&& crate::rounding::like_product(a.elevator, bus.actual_elevator_deg, one)
            &&& crate::rounding::like_product(a.aileron, bus.actual_aileron_deg, one)
            &&& crate::rounding::like_product(a.rudder, bus.actual_rudder_deg, one)
            &&& bus.actual_elevator_deg.not_above(more.actual_elevator_deg)
                ==> a.elevator.not_above(b.elevator)
            &&& bus.actual_aileron_deg.not_above(more.actual_aileron_deg)
                ==> a.aileron.not_above(b.aileron)
            &&& bus.actual_rudder_deg.not_above(more.actual_rudder_deg) ==> a.rudder.not_above(
                b.rudder,
            )
            &&& bus.actual_esc_output == more.actual_esc_output ==> a.throttle == b.throttle
        }),
{
    let k = num(D0_017453292519943295);
    crate::rounding::products_have_their_signs(bus.actual_elevator_deg, k);
    crate::rounding::products_have_their_signs(bus.actual_aileron_deg, k);
    crate::rounding::products_have_their_signs(bus.actual_rudder_deg, k);
    if bus.actual_elevator_deg.not_above(more.actual_elevator_deg) {
        crate::rounding::factors_keep_order(k, bus.actual_elevator_deg, more.actual_elevator_deg);
    }
    if bus.actual_aileron_deg.not_above(more.actual_aileron_deg) {
        crate::rounding::factors_keep_order(k, bus.actual_aileron_deg, more.actual_aileron_deg);
    }
    if bus.actual_rudder_deg.not_above(more.actual_rudder_deg) {
        crate::rounding::factors_keep_order(k, bus.actual_rudder_deg, more.actual_rudder_deg);
    }
}

/// Without a controller pitch moves the elevator, roll the aileron, yaw the
/// rudder: within their stops as they are commanded, and never the other way.
pub proof fn direct_commands_move_their_surfaces(bus: AvionicsBus, more: AvionicsBus)
    ensures
        ({
            let (a, b) = (bus.direct(), more.direct());
            &&& num(M30).not_above(bus.cmd_pitch) && bus.cmd_pitch.not_above(num(D30))
                ==> a.elevator == bus.cmd_pitch
            &&& num(M30).not_above(bus.cmd_roll) && bus.cmd_roll.not_above(num(D30))
                ==> a.aileron == bus.cmd_roll
            &&& num(M30).not_above(bus.cmd_yaw_rate) && bus.cmd_yaw_rate.not_above(num(D30))
                ==> a.rudder == bus.cmd_yaw_rate
            &&& crate::rounding::is_fraction(bus.cmd_throttle) ==> a.throttle == bus.cmd_throttle
            &&& bus.cmd_pitch.not_above(more.cmd_pitch) ==> a.elevator.not_above(b.elevator)
            &&& bus.cmd_roll.not_above(more.cmd_roll) ==> a.aileron.not_above(b.aileron)
            &&& bus.cmd_yaw_rate.not_above(more.cmd_yaw_rate) ==> a.rudder.not_above(b.rudder)
            &&& bus.cmd_throttle.not_above(more.cmd_throttle) ==> a.throttle.not_above(b.throttle)
        }),
{
}

/// The observation shows height, not depth, and the actuators as they stand.
pub proof fn observed_positions_are_up(bus: AvionicsBus, lower: AvionicsBus)
    requires
        !bus.gps_position_ned.z.nan() && !lower.gps_position_ned.z.nan(),
        bus.gps_position_ned.z.not_above(lower.gps_position_ned.z),
    ensures
        lower.sensed(8).not_above(bus.sensed(8)),
        bus.gps_position_ned.z.below(num(D0)) ==> num(D0).below(bus.sensed(8)),
{
}

} // verus!
