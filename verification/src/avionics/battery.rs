//! The battery: charge, open-circuit voltage and sag under load.
use super::bus::AvionicsBus;
use super::traits::{AvionicsComponent, Memory};
use crate::binary64::Binary64;
use crate::literal::{num, D0, D0_03, D0_5, D1, D100, D13_2, D16_8, D3600, D5_2};
use vstd::prelude::*;

verus! {

/// Parameters of the battery.
#[derive(Clone, Copy, Debug, PartialEq, Eq, Structural)]
pub struct BatteryConfig {
    /// Open-circuit voltage when full (V).
    pub full_voltage: Binary64,
    /// Open-circuit voltage when empty (V).
    pub empty_voltage: Binary64,
    /// Capacity (Ah).
    pub capacity_ah: Binary64,
    /// Internal resistance (ohm).
    pub internal_resistance: Binary64,
    /// Current that the avionics draw themselves (A).
    pub bus_current: Binary64,
}

impl BatteryConfig {
    pub open spec fn typical() -> BatteryConfig {
        BatteryConfig {
            full_voltage: num(D16_8),
            empty_voltage: num(D13_2),
            capacity_ah: num(D5_2),
            internal_resistance: num(D0_03),
            bus_current: num(D0_5),
        }
    }
}

impl Default for BatteryConfig {
    fn default() -> (r: Self)
        ensures
            r == BatteryConfig::typical(),
    {
        BatteryConfig {
            full_voltage: num(D16_8),
            empty_voltage: num(D13_2),
            capacity_ah: num(D5_2),
            internal_resistance: num(D0_03),
            bus_current: num(D0_5),
        }
    }
}

/// The battery.
#[derive(Clone, Copy, Debug, PartialEq, Eq, Structural)]
pub struct Battery {
    pub config: BatteryConfig,
    /// State of charge as a fraction.
    pub soc: Binary64,
    /// Seconds in use.
    pub sim_time: Binary64,
}

impl Battery {
    /// A full battery.
    pub open spec fn full(config: BatteryConfig) -> Battery {
        Battery { config, soc: num(D1), sim_time: num(D0) }
    }

    pub fn new(config: BatteryConfig) -> (r: Self)
        ensures
            r == Battery::full(config),
    {
        Battery { config, soc: num(D1), sim_time: num(D0) }
    }

    /// Sets the state of charge, within the unit interval.
    pub fn set_soc(&mut self, soc: Binary64)
        ensures
            *final(self) == (Battery { soc: soc.clamped(num(D0), num(D1)), ..*old(self) }),
    {
        self.soc = soc.clamp(num(D0), num(D1));
    }

    /// The state of charge.
    pub fn soc(&self) -> (r: Binary64)
        ensures
            r == self.soc,
    {
        self.soc
    }

    /// The open-circuit voltage: linear in the state of charge.
    pub open spec fn open_circuit(self) -> Binary64 {
        self.config.empty_voltage.sum(
            self.config.full_voltage.difference(self.config.empty_voltage).product(self.soc),
        )
    }

    /// The open-circuit voltage.
    fn ocv(&self) -> (r: Binary64)
        ensures
            r == self.open_circuit(),
    {
        let range: Binary64 = self.config.full_voltage.minus(self.config.empty_voltage);
        self.config.empty_voltage.plus(range.times(self.soc))
    }

    /// The current that leaves the battery under a load.
    pub open spec fn total(self, load: Binary64) -> Binary64 {
        load.sum(self.config.bus_current)
    }

    /// The voltage under a load, never negative.
    pub open spec fn terminal(self, load: Binary64) -> Binary64 {
        self.open_circuit().difference(
            self.total(load).product(self.config.internal_resistance),
        ).larger(num(D0))
    }

    /// The battery after a load over `dt`.
    pub open spec fn drained(self, load: Binary64, dt: Binary64) -> Battery {
        Battery {
            soc: self.soc.difference(
                self.total(load).product(dt).quotient(self.config.capacity_ah.product(num(D3600))),
            ).clamped(num(D0), num(D1)),
            sim_time: self.sim_time.sum(dt),
            ..self
        }
    }

    /// The bus after a step: depletion is registered once the charge is gone,
    /// and one that was registered stays.
    pub open spec fn supplied(self, bus: AvionicsBus, dt: Binary64) -> AvionicsBus {
        let soc = self.drained(bus.battery_current, dt).soc;
        AvionicsBus {
            battery_voltage: self.terminal(bus.battery_current),
            battery_capacity_remaining_pct: soc.product(num(D100)),
            fc_fault_flags: super::bus::FaultFlags {
                battery_depleted: bus.fc_fault_flags.battery_depleted || soc.not_above(num(D0)),
                ..bus.fc_fault_flags
            },
            ..bus
        }
    }
}

impl AvionicsComponent for Battery {
    open spec fn memory(&self) -> Memory {
        Memory::Battery(*self)
    }

    open spec fn prepares(&self, dt: Binary64, memory: Memory) -> bool {
        memory == Memory::Battery(Battery::full(self.config))
    }

    open spec fn acts(&self, before: AvionicsBus, dt: Binary64, after: AvionicsBus) -> bool {
        after == self.supplied(before, dt)
    }

    open spec fn leaves(
        &self,
        before: AvionicsBus,
        dt: Binary64,
        after: AvionicsBus,
        memory: Memory,
    ) -> bool {
        memory == Memory::Battery(self.drained(before.battery_current, dt))
    }

    open spec fn restores(&self, memory: Memory) -> bool {
        memory == Memory::Battery(Battery::full(self.config))
    }

    fn name(&self) -> (r: &str)
        ensures
            r@ == "Battery"@,
    {
        "Battery"
    }

    fn init(&mut self, dt: Binary64)
        ensures
            *final(self) == Battery::full(old(self).config),
    {
        self.soc = num(D1);
        self.sim_time = num(D0);
    }

    /// Feeds the load on the bus and reports voltage and charge. Depletion is
    /// registered once the charge is gone; one that was injected stays.
    fn step(&mut self, bus: &mut AvionicsBus, dt: Binary64)
        ensures
            *final(self) == old(self).drained(old(bus).battery_current, dt),
            *final(bus) == old(self).supplied(*old(bus), dt),
    {
        let total_current: Binary64 = bus.battery_current.plus(self.config.bus_current);
        let v_terminal: Binary64 = self.ocv().minus(
            total_current.times(self.config.internal_resistance),
        );
        bus.battery_voltage = v_terminal.max(num(D0));
        let capacity_coulombs: Binary64 = self.config.capacity_ah.times(num(D3600));
        self.soc = self.soc.minus(total_current.times(dt).over(capacity_coulombs));
        self.soc = self.soc.clamp(num(D0), num(D1));
        bus.battery_capacity_remaining_pct = self.soc.times(num(D100));
        bus.fc_fault_flags.battery_depleted = bus.fc_fault_flags.battery_depleted
            || self.soc.le(num(D0));
        self.sim_time = self.sim_time.plus(dt);
    }

    fn reset(&mut self)
        ensures
            *final(self) == Battery::full(old(self).config),
    {
        self.soc = num(D1);
        self.sim_time = num(D0);
    }
}

/// The state of charge is a fraction whatever the load, but for NaN.
pub proof fn charge_is_a_fraction(battery: Battery, load: Binary64, dt: Binary64)
    ensures
        ({
            let soc = battery.drained(load, dt).soc;
            soc.nan() || crate::rounding::is_fraction(soc)
        }),
{
}

/// A battery that is drawn from does not gain charge.
pub proof fn loads_do_not_charge(battery: Battery, load: Binary64, dt: Binary64)
    requires
        crate::rounding::is_fraction(battery.soc),
        num(D0).not_above(
            battery.total(load).product(dt).quotient(
                battery.config.capacity_ah.product(num(D3600)),
            ),
        ),
    ensures
        battery.drained(load, dt).soc.not_above(battery.soc),
{
    let used = battery.total(load).product(dt).quotient(
        battery.config.capacity_ah.product(num(D3600)),
    );
    crate::rounding::differences_shrink(battery.soc, used);
}

/// More load sags the voltage further and drains the battery faster.
pub proof fn more_load_drains_more(
    battery: Battery,
    load: Binary64,
    more: Binary64,
    dt: Binary64,
)
    requires
        load.finite() && more.finite() && load.not_above(more),
        battery.config.bus_current.finite(),
        battery.total(load).finite() && battery.total(more).finite(),
        battery.config.internal_resistance.finite() && num(D0).not_above(
            battery.config.internal_resistance,
        ),
        battery.open_circuit().finite(),
        crate::rounding::is_fraction(battery.soc),
        dt.finite() && num(D0).not_above(dt),
        battery.total(load).product(dt).finite() && battery.total(more).product(dt).finite(),
        battery.config.capacity_ah.product(num(D3600)).finite(),
        num(D0).below(battery.config.capacity_ah.product(num(D3600))),
    ensures
        battery.terminal(more).not_above(battery.terminal(load)),
        battery.drained(more, dt).soc.not_above(battery.drained(load, dt).soc),
{
    let (i, j) = (battery.total(load), battery.total(more));
    crate::rounding::sums_keep_order(load, more, battery.config.bus_current);
    let r = battery.config.internal_resistance;
    crate::rounding::factors_keep_order(r, i, j);
    crate::rounding::products_are_numbers(i, r);
    crate::rounding::products_are_numbers(j, r);
    let v = battery.open_circuit();
    lemma_taken_away(v, i.product(r), j.product(r));
    crate::rounding::factors_keep_order(dt, i, j);
    let c = battery.config.capacity_ah.product(num(D3600));
    crate::rounding::divisors_keep_order(i.product(dt), j.product(dt), c);
    lemma_taken_away(battery.soc, i.product(dt).quotient(c), j.product(dt).quotient(c));
}

/// Taking more away leaves less.
proof fn lemma_taken_away(x: Binary64, a: Binary64, b: Binary64)
    requires
        x.finite(),
        a.not_above(b),
    ensures
        x.difference(b).not_above(x.difference(a)),
{
    if a.finite() {
        crate::rounding::sums_are_numbers(x, a.negated());
    }
    if b.finite() {
        crate::rounding::sums_are_numbers(x, b.negated());
    }
    crate::rounding::sums_of_ordered_terms(x, x, b.negated(), a.negated());
}

/// A battery with more charge has no lower a voltage, under any load: it is
/// that of a full one at the top and that of an empty one at the bottom.
pub proof fn fuller_batteries_have_more_voltage(battery: Battery, soc: Binary64)
    requires
        crate::rounding::is_fraction(battery.soc),
        crate::rounding::is_fraction(soc),
        battery.soc.not_above(soc),
        battery.config.empty_voltage.finite(),
        battery.config.full_voltage.finite(),
        battery.config.empty_voltage.not_above(battery.config.full_voltage),
        battery.config.full_voltage.difference(battery.config.empty_voltage).finite(),
    ensures
        battery.open_circuit().not_above((Battery { soc, ..battery }).open_circuit()),
        battery.soc.zero() ==> battery.open_circuit().same(battery.config.empty_voltage),
        battery.config.empty_voltage.not_above(battery.open_circuit()),
{
    let range = battery.config.full_voltage.difference(battery.config.empty_voltage);
    crate::rounding::differences_tell_the_order(
        battery.config.full_voltage,
        battery.config.empty_voltage,
    );
    crate::rounding::factors_keep_order(range, battery.soc, soc);
    let (p, q) = (range.product(battery.soc), range.product(soc));
    crate::rounding::products_are_numbers(range, battery.soc);
    crate::rounding::products_are_numbers(range, soc);
    crate::rounding::products_keep_signs(range, battery.soc);
    let e = battery.config.empty_voltage;
    if p.finite() {
        crate::rounding::sums_are_numbers(e, p);
    }
    if q.finite() {
        crate::rounding::sums_are_numbers(e, q);
    }
    crate::rounding::sums_of_ordered_terms(e, e, p, q);
    crate::rounding::sums_are_numbers(e, num(D0));
    crate::rounding::zeros_keep_signs(e, num(D0));
    crate::rounding::sums_of_ordered_terms(e, e, num(D0), p);
    if battery.soc.zero() {
        crate::rounding::zero_absorbs(battery.soc, range);
        crate::rounding::products_commute(battery.soc, range);
        crate::rounding::zeros_keep_signs(e, p);
    }
}

} // verus!
