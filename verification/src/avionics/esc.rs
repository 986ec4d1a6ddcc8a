//! The speed controller of the motor.
use super::bus::AvionicsBus;
use super::traits::{AvionicsComponent, Memory};
use crate::binary64::Binary64;
use crate::literal::{num, D0, D0_05, D0_09, D0_3, D0_5, D1, D10, D1EM6, D500};
use vstd::prelude::*;

verus! {

/// Parameters of the speed controller and its propeller.
#[derive(Clone, Copy, Debug, PartialEq, Eq, Structural)]
pub struct EscConfig {
    /// Throttle below which the motor stands still.
    pub throttle_deadband: Binary64,
    /// Thrust per power (N/W).
    pub thrust_to_power: Binary64,
    /// Time constant of the motor (s).
    pub motor_tau: Binary64,
    /// Diameter of the propeller (m).
    pub prop_diameter: Binary64,
    /// Updates per second.
    pub update_hz: Binary64,
}

impl EscConfig {
    pub open spec fn typical() -> EscConfig {
        EscConfig {
            throttle_deadband: num(D0),
            thrust_to_power: num(D0_09),
            motor_tau: num(D0_05),
            prop_diameter: num(D0_3),
            update_hz: num(D500),
        }
    }
}

impl Default for EscConfig {
    fn default() -> (r: Self)
        ensures
            r == EscConfig::typical(),
    {
        EscConfig {
            throttle_deadband: num(D0),
            thrust_to_power: num(D0_09),
            motor_tau: num(D0_05),
            prop_diameter: num(D0_3),
            update_hz: num(D500),
        }
    }
}

/// The speed controller.
#[derive(Clone, Copy, Debug, PartialEq, Eq, Structural)]
pub struct Esc {
    pub config: EscConfig,
    /// Throttle after the lag of the motor.
    pub current_throttle: Binary64,
}

impl Esc {
    pub fn new(config: EscConfig) -> (r: Self)
        ensures
            r == (Esc { config, current_throttle: num(D0) }),
    {
        Esc { config, current_throttle: num(D0) }
    }

    /// The throttle after the lag of the motor.
    pub fn throttle(&self) -> (r: Binary64)
        ensures
            r == self.current_throttle,
    {
        self.current_throttle
    }

    /// The speed of the propeller as a fraction of its largest.
    pub fn rpm_fraction(&self) -> (r: Binary64)
        ensures
            r == self.current_throttle,
    {
        self.current_throttle
    }

    /// The throttle after the lag of the motor over `dt`.
    pub open spec fn lagged(self, target: Binary64, dt: Binary64) -> Binary64 {
        let tau = self.config.motor_tau.larger(num(D1EM6));
        self.current_throttle.sum(
            dt.quotient(tau.sum(dt)).product(target.difference(self.current_throttle)),
        )
    }

    /// The throttle after a step: at rest within the deadband.
    pub open spec fn next_throttle(self, target: Binary64, dt: Binary64) -> Binary64 {
        let db = self.config.throttle_deadband;
        if self.lagged(target, dt).absolute().below(db) && target.not_above(db) {
            num(D0)
        } else {
            self.lagged(target, dt)
        }
    }

    /// The commanded throttle within its range.
    pub open spec fn target(bus: AvionicsBus) -> Binary64 {
        bus.fc_esc_throttle.clamped(num(D0), num(D1))
    }

    /// The bus after a step: the current that is drawn adds to that of others,
    /// and without power or after a failure there is no thrust.
    pub open spec fn driven(self, bus: AvionicsBus, dt: Binary64) -> AvionicsBus {
        AvionicsBus {
            actual_esc_output: if bus.fc_fault_flags.esc_failed
                || bus.fc_fault_flags.battery_depleted {
                num(D0)
            } else {
                self.next_throttle(Esc::target(bus), dt)
            },
            battery_current: bus.battery_current.sum(Esc::draw(Esc::target(bus))),
            ..bus
        }
    }

    /// The current that a throttle draws (A).
    pub open spec fn draw(target: Binary64) -> Binary64 {
        target.product(target).product(num(D10)).product(num(D0_5))
    }
}

impl AvionicsComponent for Esc {
    open spec fn memory(&self) -> Memory {
        Memory::Esc(*self)
    }

    open spec fn prepares(&self, dt: Binary64, memory: Memory) -> bool {
        memory == Memory::Esc(Esc { current_throttle: num(D0), ..*self })
    }

    open spec fn acts(&self, before: AvionicsBus, dt: Binary64, after: AvionicsBus) -> bool {
        after == self.driven(before, dt)
    }

    open spec fn leaves(
        &self,
        before: AvionicsBus,
        dt: Binary64,
        after: AvionicsBus,
        memory: Memory,
    ) -> bool {
        memory == Memory::Esc(
            Esc { current_throttle: self.next_throttle(Esc::target(before), dt), ..*self },
        )
    }

    open spec fn restores(&self, memory: Memory) -> bool {
        memory == Memory::Esc(Esc { current_throttle: num(D0), ..*self })
    }

    fn name(&self) -> (r: &str)
        ensures
            r@ == "ESC"@,
    {
        "ESC"
    }

    fn init(&mut self, dt: Binary64)
        ensures
            *final(self) == (Esc { current_throttle: num(D0), ..*old(self) }),
    {
        self.current_throttle = num(D0);
    }

    /// Follows the commanded throttle and adds its current to the load of the
    /// battery. Without power or after a failure there is no thrust.
    fn step(&mut self, bus: &mut AvionicsBus, dt: Binary64)
        ensures
            *final(self) == (Esc {
                current_throttle: old(self).next_throttle(Esc::target(*old(bus)), dt),
                ..*old(self)
            }),
            *final(bus) == old(self).driven(*old(bus), dt),
    {
        let tau: Binary64 = self.config.motor_tau.max(num(D1EM6));
        let alpha: Binary64 = dt.over(tau.plus(dt));
        let target: Binary64 = bus.fc_esc_throttle.clamp(num(D0), num(D1));
        self.current_throttle = self.current_throttle.plus(
            alpha.times(target.minus(self.current_throttle)),
        );
        let db: Binary64 = self.config.throttle_deadband;
        if self.current_throttle.abs().lt(db) && target.le(db) {
            self.current_throttle = num(D0);
        }
        bus.actual_esc_output = if bus.fc_fault_flags.esc_failed
            || bus.fc_fault_flags.battery_depleted {
            num(D0)
        } else {
            self.current_throttle
        };
        let draw: Binary64 = target.times(target).times(num(D10)).times(num(D0_5));
        bus.battery_current = bus.battery_current.plus(draw);
    }

    fn reset(&mut self)
        ensures
            *final(self) == (Esc { current_throttle: num(D0), ..*old(self) }),
    {
        self.current_throttle = num(D0);
    }
}

/// The motor follows its throttle: without a deadband it does not slow down
/// below its target, nor speed up above it, and more target gives no less.
pub proof fn motors_follow_their_throttle(
    esc: Esc,
    target: Binary64,
    more: Binary64,
    dt: Binary64,
)
    requires
        crate::rounding::is_fraction(esc.current_throttle),
        crate::rounding::is_fraction(target),
        crate::rounding::is_fraction(more),
        target.not_above(more),
        esc.config.throttle_deadband.zero(),
        esc.config.motor_tau.finite(),
        dt.finite() && num(D0).not_above(dt),
    ensures
        esc.next_throttle(target, dt).not_above(esc.next_throttle(more, dt)),
        esc.current_throttle.not_above(target) ==> esc.current_throttle.not_above(
            esc.next_throttle(target, dt),
        ),
        target.not_above(esc.current_throttle) ==> esc.next_throttle(target, dt).not_above(
            esc.current_throttle,
        ),
{
    let tau = esc.config.motor_tau.larger(num(D1EM6));
    crate::rounding::steps_are_shares(tau, dt);
    lemma_fractions_apart(target, esc.current_throttle);
    lemma_fractions_apart(more, esc.current_throttle);
    crate::rounding::shares_lead_towards(
        esc.current_throttle,
        target,
        more,
        dt.quotient(tau.sum(dt)),
    );
}

/// The difference of two fractions is finite.
proof fn lemma_fractions_apart(a: Binary64, b: Binary64)
    requires
        crate::rounding::is_fraction(a),
        crate::rounding::is_fraction(b),
    ensures
        a.difference(b).finite(),
{
    let one = num(D1);
    crate::rounding::zeros_keep_signs(one, num(D0));
    crate::rounding::zeros_keep_signs(one.negated(), num(D0));
    crate::rounding::sums_are_numbers(a, b.negated());
    crate::rounding::sums_of_ordered_terms(a, one, b.negated(), num(D0));
    crate::rounding::sums_of_ordered_terms(num(D0), a, one.negated(), b.negated());
}

/// Throttle draws current: never a negative one, none at rest, and no less for
/// more throttle.
pub proof fn more_throttle_draws_more(target: Binary64, more: Binary64)
    requires
        crate::rounding::is_fraction(target),
        crate::rounding::is_fraction(more),
        target.not_above(more),
    ensures
        num(D0).not_above(Esc::draw(target)),
        Esc::draw(target).not_above(Esc::draw(more)),
        target.zero() ==> Esc::draw(target).zero(),
{
    let (a, b) = (target.product(target), more.product(more));
    crate::rounding::factors_keep_order(target, target, more);
    crate::rounding::factors_keep_order(more, target, more);
    crate::rounding::products_commute(target, more);
    crate::rounding::products_of_fractions(target, target);
    crate::rounding::products_of_fractions(more, more);
    crate::rounding::factors_keep_order(num(D10), a, b);
    let (p, q) = (a.product(num(D10)), b.product(num(D10)));
    crate::rounding::products_are_numbers(a, num(D10));
    crate::rounding::products_are_numbers(b, num(D10));
    crate::rounding::products_keep_signs(a, num(D10));
    crate::rounding::fractions_shrink(num(D10), b);
    crate::rounding::fractions_shrink(num(D10), a);
    crate::rounding::products_commute(b, num(D10));
    crate::rounding::products_commute(a, num(D10));
    crate::rounding::factors_keep_order(num(D0_5), p, q);
    crate::rounding::products_are_numbers(p, num(D0_5));
    crate::rounding::products_keep_signs(p, num(D0_5));
    if target.zero() {
        crate::rounding::zero_absorbs(target, target);
        crate::rounding::zero_absorbs(a, num(D10));
        crate::rounding::zero_absorbs(p, num(D0_5));
    }
}

/// The current on the bus grows by what the controller draws, and its thrust
/// ends with its power.
pub proof fn controllers_add_their_current(esc: Esc, bus: AvionicsBus, dt: Binary64)
    requires
        bus.battery_current.finite(),
        crate::rounding::is_fraction(bus.fc_esc_throttle),
    ensures
        bus.battery_current.not_above(esc.driven(bus, dt).battery_current),
        bus.fc_esc_throttle.zero() ==> esc.driven(bus, dt).battery_current.same(
            bus.battery_current,
        ),
        bus.fc_fault_flags.esc_failed || bus.fc_fault_flags.battery_depleted ==> esc.driven(
            bus,
            dt,
        ).actual_esc_output == num(D0),
{
    let t = Esc::target(bus);
    more_throttle_draws_more(t, t);
    let d = Esc::draw(t);
    let i = bus.battery_current;
    if d.finite() {
        crate::rounding::sums_are_numbers(i, d);
    }
    crate::rounding::sums_are_numbers(i, num(D0));
    crate::rounding::zeros_keep_signs(i, num(D0));
    crate::rounding::sums_of_ordered_terms(i, i, num(D0), d);
    if d.zero() {
        crate::rounding::zeros_keep_signs(i, d);
    }
}

} // verus!
