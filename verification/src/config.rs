//! The description of an aircraft that dynamics and aerodynamics depend on.
use crate::binary64::Binary64;
use crate::literal::{
    num, D0, D0_01, D0_017453292519943295, D0_05, D0_07, D0_1, D0_12, D0_14, D0_65, D0_8, D1,
    D119000, D16, D1EM3, D1_1, D1_5, D1_95, D3_141592653589793, D6, M0_004, M0_02, M0_09, M0_15,
    M0_16, M0_2, M0_31, M0_45, M12, M3,
};
use vstd::prelude::*;

verus! {

/// What drives the aircraft.
#[derive(Clone, Copy, Debug, PartialEq, Eq, Structural)]
pub enum Propulsion {
    /// Thrust is limited by shaft power at speed.
    Propeller,
    /// Thrust does not fall off with speed.
    Jet,
}

impl Default for Propulsion {
    fn default() -> (r: Self)
        ensures
            r == Propulsion::Propeller,
    {
        Propulsion::Propeller
    }
}

/// A flat plate of the collision shape, in body axes.
#[derive(Clone, Copy, Debug)]
pub struct CollisionPanel {
    /// Area (m2).
    pub area: Binary64,
    /// Normal.
    pub normal: [Binary64; 3],
    /// Centre of pressure relative to the centre of gravity (m).
    pub cp: [Binary64; 3],
    /// Drag coefficient.
    pub cd: Binary64,
}

/// The drag coefficient of a panel that gives none.
pub open spec fn plate_cd() -> Binary64 {
    num(D1_5)
}

/// The drag coefficient of a panel that gives none.
pub fn default_panel_cd() -> (r: Binary64)
    ensures
        r == plate_cd(),
{
    num(D1_5)
}

/// The number of engines of a configuration that gives none.
pub fn default_engine_count() -> (r: u32)
    ensures
        r == 1,
{
    1
}

/// An aircraft, in SI units and radians.
#[derive(Clone, Debug)]
pub struct AircraftConfig {
    pub mass: Binary64,
    pub wing_area: Binary64,
    pub wing_span: Binary64,
    /// Mean aerodynamic chord.
    pub chord: Binary64,
    /// Moments of inertia about the body axes.
    pub ixx: Binary64,
    pub iyy: Binary64,
    pub izz: Binary64,
    /// Lift coefficient without angle of attack.
    pub cl0: Binary64,
    /// Lift slope.
    pub cla: Binary64,
    /// Drag coefficient without lift.
    pub cd0: Binary64,
    /// Induced drag factor.
    pub k_drag: Binary64,
    /// Pitching moment: constant, by angle of attack, by pitch rate, by elevator.
    pub cm0: Binary64,
    pub cma: Binary64,
    pub cmq: Binary64,
    pub cme: Binary64,
    /// Static thrust of all engines.
    pub thrust_max: Binary64,
    /// Shaft power of all engines.
    pub power_max: Binary64,
    /// Span efficiency.
    pub oswald_e: Binary64,
    /// Stall angles.
    pub alpha_stall_pos: Binary64,
    pub alpha_stall_neg: Binary64,
    /// Drag coefficient of the separated wing.
    pub cd_max: Binary64,
    /// Mach number of drag divergence.
    pub mach_crit: Binary64,
    /// Pitching moment by the rate of the angle of attack.
    pub cm_adot: Binary64,
    /// Offset of the thrust line below the centre of gravity.
    pub thrust_arm: Binary64,
    pub engine_count: u32,
    /// Distance of an engine of a twin from the centre line.
    pub engine_lateral_arm: Binary64,
    /// Propeller torque, blade asymmetry and gyroscopic coupling.
    pub prop_torque_coeff: Binary64,
    pub p_factor_coeff: Binary64,
    pub gyro_coeff: Binary64,
    /// Split of the throttle between the engines of a twin, from -1 to 1: at -1
    /// the left engine is shut down, at +1 the right one.
    pub throttle_split: Binary64,
    pub propulsion: Propulsion,
    /// Side force by sideslip and rudder.
    pub cy_beta: Binary64,
    pub cy_dr: Binary64,
    /// Rolling moment by sideslip, roll rate, yaw rate, aileron and rudder.
    pub cl_beta: Binary64,
    pub cl_p: Binary64,
    pub cl_r: Binary64,
    pub cl_da: Binary64,
    pub cl_dr: Binary64,
    /// Yawing moment by sideslip, roll rate, yaw rate, aileron and rudder.
    pub cn_beta: Binary64,
    pub cn_p: Binary64,
    pub cn_r: Binary64,
    pub cn_da: Binary64,
    pub cn_dr: Binary64,
    /// Lift, drag and pitching moment by flap.
    pub cl_flap: Binary64,
    pub cd_flap: Binary64,
    pub cm_flap: Binary64,
    /// Stall angle lost by flap.
    pub flap_stall_shift: Binary64,
    /// Nose-down moment in a steep bank.
    pub spiral_nose_drop_cm: Binary64,
    pub collision_panels: Vec<CollisionPanel>,
}

/// The part of a configuration that has to be given.
#[derive(Clone, Copy, Debug, PartialEq, Eq, Structural)]
pub struct RequiredConfig {
    pub mass: Binary64,
    pub wing_area: Binary64,
    pub wing_span: Binary64,
    pub chord: Binary64,
    pub ixx: Binary64,
    pub iyy: Binary64,
    pub izz: Binary64,
    pub cl0: Binary64,
    pub cla: Binary64,
    pub cd0: Binary64,
    pub k_drag: Binary64,
    pub cm0: Binary64,
    pub cma: Binary64,
    pub cmq: Binary64,
    pub cme: Binary64,
    pub thrust_max: Binary64,
}

impl AircraftConfig {
    /// Whether the optional part has the values of a light aircraft with one
    /// engine and no collision shape.
    pub open spec fn has_defaults(self) -> bool {
        &&& self.power_max == num(D119000)
        &&& self.oswald_e == num(D0_8)
        &&& self.alpha_stall_pos == num(D16).product(num(D0_017453292519943295))
        &&& self.alpha_stall_neg == num(M12).product(num(D0_017453292519943295))
        &&& self.cd_max == num(D1_95)
        &&& self.mach_crit == num(D0_65)
        &&& self.cm_adot == num(M3)
        &&& self.thrust_arm == num(D0)
        &&& self.engine_lateral_arm == num(D0)
        &&& self.prop_torque_coeff == num(D0)
        &&& self.p_factor_coeff == num(D0)
        &&& self.gyro_coeff == num(D0)
        &&& self.throttle_split == num(D0)
        &&& self.cy_beta == num(M0_31)
        &&& self.cy_dr == num(M0_15)
        &&& self.cl_beta == num(M0_09)
        &&& self.cl_p == num(M0_45)
        &&& self.cl_r == num(D0_1)
        &&& self.cl_da == num(D0_07)
        &&& self.cl_dr == num(D0_01)
        &&& self.cn_beta == num(D0_12)
        &&& self.cn_p == num(M0_02)
        &&& self.cn_r == num(M0_16)
        &&& self.cn_da == num(M0_004)
        &&& self.cn_dr == num(D0_05)
        &&& self.cl_flap == num(D1_1)
        &&& self.cd_flap == num(D0_14)
        &&& self.cm_flap == num(M0_2)
        &&& self.flap_stall_shift == num(D6).product(num(D0_017453292519943295))
        &&& self.spiral_nose_drop_cm == num(D0_1)
        &&& self.engine_count == 1
        &&& self.propulsion == Propulsion::Propeller
        &&& self.collision_panels@ == Seq::<CollisionPanel>::empty()
    }

    /// The part that has to be given.
    pub open spec fn required(self) -> RequiredConfig {
        RequiredConfig {
            mass: self.mass,
            wing_area: self.wing_area,
            wing_span: self.wing_span,
            chord: self.chord,
            ixx: self.ixx,
            iyy: self.iyy,
            izz: self.izz,
            cl0: self.cl0,
            cla: self.cla,
            cd0: self.cd0,
            k_drag: self.k_drag,
            cm0: self.cm0,
            cma: self.cma,
            cmq: self.cmq,
            cme: self.cme,
            thrust_max: self.thrust_max,
        }
    }

    /// The configuration with the given part, and the optional part of a light
    /// aircraft.
    pub fn from_required(given: RequiredConfig) -> (r: Self)
        ensures
            r.required() == given,
            r.has_defaults(),
    {
        let degree: Binary64 = num(D0_017453292519943295);
        AircraftConfig {
            mass: given.mass,
            wing_area: given.wing_area,
            wing_span: given.wing_span,
            chord: given.chord,
            ixx: given.ixx,
            iyy: given.iyy,
            izz: given.izz,
            cl0: given.cl0,
            cla: given.cla,
            cd0: given.cd0,
            k_drag: given.k_drag,
            cm0: given.cm0,
            cma: given.cma,
            cmq: given.cmq,
            cme: given.cme,
            thrust_max: given.thrust_max,
            power_max: num(D119000),
            oswald_e: num(D0_8),
            alpha_stall_pos: num(D16).times(degree),
            alpha_stall_neg: num(M12).times(degree),
            cd_max: num(D1_95),
            mach_crit: num(D0_65),
            cm_adot: num(M3),
            thrust_arm: num(D0),
            engine_lateral_arm: num(D0),
            prop_torque_coeff: num(D0),
            p_factor_coeff: num(D0),
            gyro_coeff: num(D0),
            throttle_split: num(D0),
            cy_beta: num(M0_31),
            cy_dr: num(M0_15),
            cl_beta: num(M0_09),
            cl_p: num(M0_45),
            cl_r: num(D0_1),
            cl_da: num(D0_07),
            cl_dr: num(D0_01),
            cn_beta: num(D0_12),
            cn_p: num(M0_02),
            cn_r: num(M0_16),
            cn_da: num(M0_004),
            cn_dr: num(D0_05),
            cl_flap: num(D1_1),
            cd_flap: num(D0_14),
            cm_flap: num(M0_2),
            flap_stall_shift: num(D6).times(degree),
            spiral_nose_drop_cm: num(D0_1),
            engine_count: default_engine_count(),
            propulsion: Propulsion::Propeller,
            collision_panels: Vec::new(),
        }
    }

    /// The aspect ratio of the wing.
    pub open spec fn slenderness(self) -> Binary64 {
        self.wing_span.product(self.wing_span).quotient(self.wing_area.larger(num(D1EM3)))
    }

    /// The aspect ratio of the wing.
    pub fn aspect_ratio(&self) -> (r: Binary64)
        ensures
            r == self.slenderness(),
    {
        self.wing_span.times(self.wing_span).over(self.wing_area.max(num(D1EM3)))
    }

    /// The induced drag factor: the given one, or that of the wing.
    pub open spec fn induced_factor(self) -> Binary64 {
        if num(D0).below(self.k_drag) {
            self.k_drag
        } else {
            num(D1).quotient(
                num(D3_141592653589793).product(self.slenderness()).product(self.oswald_e),
            )
        }
    }

    /// The induced drag factor: the given one, or that of the wing.
    pub fn induced_drag_k(&self) -> (r: Binary64)
        ensures
            r == self.induced_factor(),
    {
        if self.k_drag.gt(num(D0)) {
            self.k_drag
        } else {
            num(D1).over(
                num(D3_141592653589793).times(self.aspect_ratio()).times(self.oswald_e),
            )
        }
    }
}

} // verus!
