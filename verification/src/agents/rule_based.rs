//! An agent that holds altitude and airspeed by proportional, integral and
//! derivative control.
use super::config::AgentConfig;
use crate::avionics::bus::AvionicsBus;
use crate::avionics::flight_controller::FlightController;
use crate::binary64::Binary64;
use crate::elementary::Elementary;
use crate::env::ControlAction;
use crate::literal::{
    num, D0, D0_001, D0_005, D0_008, D0_01, D0_015, D0_04, D0_3, D0_35, D0_5, D1, D1000, D2,
    D200, D50, D60, M0_35, M200, M50,
};
use vstd::prelude::*;

verus! {

/// The agent.
#[derive(Clone, Copy, Debug, PartialEq, Eq, Structural)]
pub struct PidAgent {
    pub target_alt: Binary64,
    pub target_airspeed: Binary64,
    /// Gains from altitude to elevator.
    pub kp_alt: Binary64,
    pub ki_alt: Binary64,
    pub kd_alt: Binary64,
    /// Gains from airspeed to throttle.
    pub kp_spd: Binary64,
    pub ki_spd: Binary64,
    pub kd_spd: Binary64,
    /// Gain from roll to aileron.
    pub kp_roll: Binary64,
    /// State of the episode.
    pub alt_integral: Binary64,
    pub spd_integral: Binary64,
    pub prev_alt_err: Binary64,
    pub prev_spd_err: Binary64,
}

/// How far the right wing, and the belly, of an observed aircraft point down.
/// The angle between the two is the roll, positive with the right wing down:
/// the orientation is a quaternion from earth to body.
pub open spec fn roll_terms(obs: [Binary64; 12]) -> (Binary64, Binary64) {
    (
        num(D2).product(obs@[7].product(obs@[8]).difference(obs@[5].product(obs@[6]))),
        num(D1).difference(
            num(D2).product(obs@[6].product(obs@[6]).sum(obs@[7].product(obs@[7]))),
        ),
    )
}

/// The numbers whose arctangent is the roll angle of an observation.
pub fn observed_roll(obs: &[Binary64; 12]) -> (r: (Binary64, Binary64))
    ensures
        r == roll_terms(*obs),
{
    (
        num(D2).times(obs[7].times(obs[8]).minus(obs[5].times(obs[6]))),
        num(D1).minus(num(D2).times(obs[6].times(obs[6]).plus(obs[7].times(obs[7])))),
    )
}

/// The airspeed of an observation.
pub open spec fn speed_of(obs: [Binary64; 12]) -> Binary64 {
    obs@[2].product(obs@[2]).sum(obs@[3].product(obs@[3])).sum(obs@[4].product(obs@[4])).root()
}

/// The airspeed of an observation.
pub fn observed_airspeed(obs: &[Binary64; 12]) -> (r: Binary64)
    ensures
        r == speed_of(*obs),
{
    obs[2].times(obs[2]).plus(obs[3].times(obs[3])).plus(obs[4].times(obs[4])).sqrt()
}

impl PidAgent {
    /// The agent with the parameters of a configuration, at the start of an
    /// episode. What is missing is that of a light aircraft at 1000 m and
    /// 60 m/s.
    pub open spec fn configured(cfg: AgentConfig) -> PidAgent {
        PidAgent {
            target_alt: float_or(cfg, "target_altitude"@, num(D1000)),
            target_airspeed: float_or(cfg, "target_airspeed"@, num(D60)),
            kp_alt: float_or(cfg, "kp_alt"@, num(D0_015)),
            ki_alt: float_or(cfg, "ki_alt"@, num(D0_001)),
            kd_alt: float_or(cfg, "kd_alt"@, num(D0_008)),
            kp_spd: float_or(cfg, "kp_spd"@, num(D0_04)),
            ki_spd: float_or(cfg, "ki_spd"@, num(D0_005)),
            kd_spd: float_or(cfg, "kd_spd"@, num(D0_01)),
            kp_roll: float_or(cfg, "kp_roll"@, num(D0_3)),
            alt_integral: num(D0),
            spd_integral: num(D0),
            prev_alt_err: num(D0),
            prev_spd_err: num(D0),
        }
    }

    /// The agent that a configuration describes.
    pub fn from_config(cfg: &AgentConfig) -> (r: Self)
        requires
            cfg.wf(),
        ensures
            r == PidAgent::configured(*cfg),
    {
        PidAgent {
            target_alt: cfg.get_f64("target_altitude", num(D1000)),
            target_airspeed: cfg.get_f64("target_airspeed", num(D60)),
            kp_alt: cfg.get_f64("kp_alt", num(D0_015)),
            ki_alt: cfg.get_f64("ki_alt", num(D0_001)),
            kd_alt: cfg.get_f64("kd_alt", num(D0_008)),
            kp_spd: cfg.get_f64("kp_spd", num(D0_04)),
            ki_spd: cfg.get_f64("ki_spd", num(D0_005)),
            kd_spd: cfg.get_f64("kd_spd", num(D0_01)),
            kp_roll: cfg.get_f64("kp_roll", num(D0_3)),
            alt_integral: num(D0),
            spd_integral: num(D0),
            prev_alt_err: num(D0),
            prev_spd_err: num(D0),
        }
    }

    pub fn name(&self) -> (r: &str)
        ensures
            r@ == "pid"@,
    {
        "pid"
    }

    pub fn obs_dim(&self) -> (r: usize)
        ensures
            r == 12,
    {
        12
    }

    pub fn act_dim(&self) -> (r: usize)
        ensures
            r == 5,
    {
        5
    }

    /// The error of altitude.
    pub open spec fn altitude_error_of(self, obs: [Binary64; 12]) -> Binary64 {
        self.target_alt.difference(obs@[1].negated())
    }

    /// The error of altitude.
    pub fn altitude_error(&self, obs: &[Binary64; 12]) -> (r: Binary64)
        ensures
            r == self.altitude_error_of(*obs),
    {
        self.target_alt.minus(obs[1].neg())
    }

    /// The error of airspeed.
    pub open spec fn airspeed_error_of(self, obs: [Binary64; 12]) -> Binary64 {
        self.target_airspeed.difference(speed_of(obs))
    }

    /// The error of airspeed.
    pub fn airspeed_error(&self, obs: &[Binary64; 12]) -> (r: Binary64)
        ensures
            r == self.airspeed_error_of(*obs),
    {
        self.target_airspeed.minus(observed_airspeed(obs))
    }

    /// The controls at an observation with a roll angle.
    pub open spec fn action_at(self, obs: [Binary64; 12], roll: Binary64) -> ControlAction {
        let alt_err = self.altitude_error_of(obs);
        let elevator = self.kp_alt.product(alt_err).sum(self.ki_alt.product(self.alt_integral)).sum(
            self.kd_alt.product(alt_err.difference(self.prev_alt_err)),
        ).negated();
        let spd_err = self.airspeed_error_of(obs);
        let throttle = num(D0_5).sum(self.kp_spd.product(spd_err)).sum(self.ki_spd.product(self.spd_integral)).sum(
            self.kd_spd.product(spd_err.difference(self.prev_spd_err)),
        ).clamped(num(D0), num(D1));
        ControlAction {
            elevator: elevator.clamped(num(M0_35), num(D0_35)),
            aileron: self.kp_roll.negated().product(roll.sum(num(D0_5).product(obs@[9]))).clamped(
                num(M0_35),
                num(D0_35),
            ),
            rudder: num(D0),
            throttle,
            flaps: num(D0),
        }
    }

    /// The controls at an observation whose roll angle is given: nose up below
    /// the target, throttle up below its speed, aileron against the roll.
    pub fn act_at(&self, obs: &[Binary64; 12], roll: Binary64) -> (r: ControlAction)
        ensures
            r == self.action_at(*obs, roll),
    {
        let alt_err: Binary64 = self.altitude_error(obs);
        let elevator: Binary64 = self.kp_alt.times(alt_err).plus(self.ki_alt.times(self.alt_integral)).plus(
            self.kd_alt.times(alt_err.minus(self.prev_alt_err)),
        ).neg();
        let spd_err: Binary64 = self.airspeed_error(obs);
        let throttle: Binary64 = num(D0_5).plus(self.kp_spd.times(spd_err)).plus(self.ki_spd.times(self.spd_integral)).plus(
            self.kd_spd.times(spd_err.minus(self.prev_spd_err)),
        ).clamp(num(D0), num(D1));
        ControlAction {
            elevator: elevator.clamp(num(M0_35), num(D0_35)),
            aileron: self.kp_roll.neg().times(roll.plus(num(D0_5).times(obs[9]))).clamp(
                num(M0_35),
                num(D0_35),
            ),
            rudder: num(D0),
            throttle,
            flaps: num(D0),
        }
    }

    /// The action on an observation.
    pub fn act<M: Elementary>(&self, obs: &[Binary64; 12], m: &M) -> (r: ControlAction)
        ensures
            exists|roll: Binary64| #[trigger]
                call_ensures(M::atan2, (m, roll_terms(*obs).0, roll_terms(*obs).1), roll) && r == self.action_at(
                    *obs,
                    roll,
                ),
    {
        let t: (Binary64, Binary64) = observed_roll(obs);
        let roll: Binary64 = m.atan2(t.0, t.1);
        self.act_at(obs, roll)
    }

    /// The agent at the start of an episode.
    pub open spec fn fresh(self) -> PidAgent {
        PidAgent {
            alt_integral: num(D0),
            spd_integral: num(D0),
            prev_alt_err: num(D0),
            prev_spd_err: num(D0),
            ..self
        }
    }

    /// The agent at the start of an episode.
    pub fn restarted(&self) -> (r: PidAgent)
        ensures
            r == self.fresh(),
    {
        PidAgent {
            alt_integral: num(D0),
            spd_integral: num(D0),
            prev_alt_err: num(D0),
            prev_spd_err: num(D0),
            ..*self
        }
    }

    /// Starts an episode.
    pub fn reset(&mut self)
        ensures
            *final(self) == old(self).fresh(),
    {
        *self = self.restarted();
    }

    /// The agent after a step: the integrals grow within their limits until
    /// the episode is done.
    pub open spec fn stepped(self, obs: [Binary64; 12], done: bool) -> PidAgent {
        let alt_err = self.altitude_error_of(obs);
        let spd_err = self.airspeed_error_of(obs);
        if done {
            PidAgent { prev_alt_err: alt_err, prev_spd_err: spd_err, ..self }
        } else {
            PidAgent {
                alt_integral: self.alt_integral.sum(alt_err).clamped(num(M200), num(D200)),
                spd_integral: self.spd_integral.sum(spd_err).clamped(num(M50), num(D50)),
                prev_alt_err: alt_err,
                prev_spd_err: spd_err,
                ..self
            }
        }
    }

    /// The agent after a step: the integrals grow within their limits until
    /// the episode is done.
    pub fn after_step(&self, obs: &[Binary64; 12], done: bool) -> (r: PidAgent)
        ensures
            r == self.stepped(*obs, done),
    {
        let alt_err: Binary64 = self.altitude_error(obs);
        let spd_err: Binary64 = self.airspeed_error(obs);
        if done {
            PidAgent { prev_alt_err: alt_err, prev_spd_err: spd_err, ..*self }
        } else {
            PidAgent {
                alt_integral: self.alt_integral.plus(alt_err).clamp(num(M200), num(D200)),
                spd_integral: self.spd_integral.plus(spd_err).clamp(num(M50), num(D50)),
                prev_alt_err: alt_err,
                prev_spd_err: spd_err,
                ..*self
            }
        }
    }

    /// Takes note of a step.
    pub fn on_step(&mut self, observation: &[Binary64; 12], done: bool)
        ensures
            *final(self) == old(self).stepped(*observation, done),
    {
        *self = self.after_step(observation, done);
    }
}

/// A parameter that is a float, else the default.
pub open spec fn float_or(cfg: AgentConfig, key: Seq<char>, default: Binary64) -> Binary64 {
    match cfg.param(key) {
        Some(super::config::ParamValue::Float(x)) => x,
        _ => default,
    }
}

/// The controls of the agent keep within their ranges, but for NaN, and it
/// uses neither rudder nor flaps.
pub proof fn actions_keep_within_their_ranges(
    agent: PidAgent,
    obs: [Binary64; 12],
    roll: Binary64,
)
    ensures
        ({
            let a = agent.action_at(obs, roll);
            &&& a.elevator.nan() || (num(M0_35).not_above(a.elevator) && a.elevator.not_above(
                num(D0_35),
            ))
            &&& a.aileron.nan() || (num(M0_35).not_above(a.aileron) && a.aileron.not_above(
                num(D0_35),
            ))
            &&& a.throttle.nan() || crate::rounding::is_fraction(a.throttle)
            &&& a.rudder == num(D0) && a.flaps == num(D0)
        }),
{
}

/// The integrals keep within their limits however long the error lasts, and a
/// new episode forgets them.
pub proof fn integrals_do_not_wind_up(agent: PidAgent, obs: [Binary64; 12])
    ensures
        ({
            let a = agent.stepped(obs, false);
            &&& a.alt_integral.nan() || (num(M200).not_above(a.alt_integral)
                && a.alt_integral.not_above(num(D200)))
            &&& a.spd_integral.nan() || (num(M50).not_above(a.spd_integral)
                && a.spd_integral.not_above(num(D50)))
            &&& a.fresh() == agent.fresh()
        }),
{
}

/// The flight controller and the agent see the same roll angle.
pub proof fn controller_and_agent_see_the_same_roll(bus: AvionicsBus, obs: [Binary64; 12])
    requires
        obs@.subrange(5, 9) == bus.true_quat@,
    ensures
        FlightController::angle_terms(bus).0 == roll_terms(obs).0,
        FlightController::angle_terms(bus).1 == roll_terms(obs).1,
{
    let q = obs@.subrange(5, 9);
    assert(q[0] == obs@[5] && q[1] == obs@[6] && q[2] == obs@[7] && q[3] == obs@[8]);
}

/// Whether the errors of an agent on an observation, and what it makes of them,
/// are finite.
pub open spec fn steady(a: PidAgent, obs: [Binary64; 12]) -> bool {
    let (e, v) = (a.altitude_error_of(obs), a.airspeed_error_of(obs));
    &&& e.finite() && e.difference(a.prev_alt_err).finite()
    &&& v.finite() && v.difference(a.prev_spd_err).finite()
    &&& a.kp_alt.product(e).finite() && a.ki_alt.product(a.alt_integral).finite()
    &&& a.kd_alt.product(e.difference(a.prev_alt_err)).finite()
    &&& a.kp_spd.product(v).finite() && a.ki_spd.product(a.spd_integral).finite()
    &&& a.kd_spd.product(v.difference(a.prev_spd_err)).finite()
    &&& a.target_alt.finite() && obs@[1].finite()
    &&& a.target_airspeed.finite() && speed_of(obs).finite()
    &&& a.prev_alt_err.finite() && a.prev_spd_err.finite()
    &&& a.alt_integral.finite() && a.spd_integral.finite()
}

/// Whether the gains are finite and not negative.
pub open spec fn gains_in_order(a: PidAgent) -> bool {
    &&& a.kp_alt.finite() && num(D0).not_above(a.kp_alt)
    &&& a.ki_alt.finite() && num(D0).not_above(a.ki_alt)
    &&& a.kd_alt.finite() && num(D0).not_above(a.kd_alt)
    &&& a.kp_spd.finite() && num(D0).not_above(a.kp_spd)
    &&& a.ki_spd.finite() && num(D0).not_above(a.ki_spd)
    &&& a.kd_spd.finite() && num(D0).not_above(a.kd_spd)
    &&& a.kp_roll.finite() && num(D0).not_above(a.kp_roll)
}

/// The sum of three terms keeps their order.
proof fn lemma_three_terms(
    a: (Binary64, Binary64, Binary64),
    b: (Binary64, Binary64, Binary64),
)
    requires
        a.0.finite() && a.1.finite() && a.2.finite(),
        b.0.finite() && b.1.finite() && b.2.finite(),
        a.0.not_above(b.0) && a.1.not_above(b.1) && a.2.not_above(b.2),
    ensures
        a.0.sum(a.1).sum(a.2).not_above(b.0.sum(b.1).sum(b.2)),
{
    crate::rounding::sums_are_numbers(a.0, a.1);
    crate::rounding::sums_are_numbers(b.0, b.1);
    crate::rounding::sums_of_ordered_terms(a.0, b.0, a.1, b.1);
    let (x, y) = (a.0.sum(a.1), b.0.sum(b.1));
    if x.finite() {
        crate::rounding::sums_are_numbers(x, a.2);
    }
    if y.finite() {
        crate::rounding::sums_are_numbers(y, b.2);
    }
    crate::rounding::sums_of_ordered_terms(x, y, a.2, b.2);
}

/// A half and three terms.
proof fn lemma_half_and_terms(
    a: (Binary64, Binary64, Binary64),
    b: (Binary64, Binary64, Binary64),
)
    requires
        a.0.finite() && a.1.finite() && a.2.finite(),
        b.0.finite() && b.1.finite() && b.2.finite(),
        a.0.not_above(b.0) && a.1.not_above(b.1) && a.2.not_above(b.2),
    ensures
        num(D0_5).sum(a.0).sum(a.1).sum(a.2).not_above(num(D0_5).sum(b.0).sum(b.1).sum(b.2)),
{
    let half = num(D0_5);
    crate::rounding::sums_are_numbers(half, a.0);
    crate::rounding::sums_are_numbers(half, b.0);
    crate::rounding::sums_of_ordered_terms(half, half, a.0, b.0);
    let (x, y) = (half.sum(a.0), half.sum(b.0));
    if x.finite() {
        crate::rounding::sums_are_numbers(x, a.1);
    }
    if y.finite() {
        crate::rounding::sums_are_numbers(y, b.1);
    }
    crate::rounding::sums_of_ordered_terms(x, y, a.1, b.1);
    let (p, q) = (x.sum(a.1), y.sum(b.1));
    if p.finite() {
        crate::rounding::sums_are_numbers(p, a.2);
    }
    if q.finite() {
        crate::rounding::sums_are_numbers(q, b.2);
    }
    crate::rounding::sums_of_ordered_terms(p, q, a.2, b.2);
}

/// Zero changes nothing in a sum that starts at a half.
proof fn lemma_zeros_leave_a_half(a: Binary64, b: Binary64, c: Binary64)
    requires
        a.zero() && b.zero() && c.zero(),
    ensures
        num(D0_5).sum(a).sum(b).sum(c) == num(D0_5),
{
    crate::rounding::zeros_keep_signs(num(D0_5), a);
    crate::rounding::zeros_keep_signs(num(D0_5), b);
    crate::rounding::zeros_keep_signs(num(D0_5), c);
}

/// The slower the aircraft is, and the faster it should be, the more throttle
/// the agent gives: it does not fall with the target, and does not rise with
/// the airspeed.
pub proof fn slow_aircraft_get_more_throttle(
    a: PidAgent,
    obs: [Binary64; 12],
    b: PidAgent,
    slower: [Binary64; 12],
    roll: Binary64,
)
    requires
        b == (PidAgent { target_airspeed: b.target_airspeed, ..a }),
        gains_in_order(a),
        steady(a, obs),
        steady(b, slower),
        a.target_airspeed.not_above(b.target_airspeed),
        speed_of(slower).not_above(speed_of(obs)),
    ensures
        a.action_at(obs, roll).throttle.not_above(b.action_at(slower, roll).throttle),
{
    let (e, f) = (a.airspeed_error_of(obs), b.airspeed_error_of(slower));
    crate::rounding::sums_of_ordered_terms(
        a.target_airspeed,
        b.target_airspeed,
        speed_of(obs).negated(),
        speed_of(slower).negated(),
    );
    let (g, h) = (e.difference(a.prev_spd_err), f.difference(a.prev_spd_err));
    crate::rounding::sums_keep_order(e, f, a.prev_spd_err.negated());
    crate::rounding::factors_keep_order(a.kp_spd, e, f);
    crate::rounding::factors_keep_order(a.kd_spd, g, h);
    let i = a.ki_spd.product(a.spd_integral);
    lemma_half_and_terms(
        (a.kp_spd.product(e), i, a.kd_spd.product(g)),
        (a.kp_spd.product(f), i, a.kd_spd.product(h)),
    );
}

/// A fresh agent opens the throttle beyond a half where the aircraft is too
/// slow, and closes it below where it is too fast.
pub proof fn fresh_agents_seek_their_speed(a: PidAgent, obs: [Binary64; 12], roll: Binary64)
    requires
        gains_in_order(a),
        steady(a.fresh(), obs),
    ensures
        speed_of(obs).not_above(a.target_airspeed) ==> num(D0_5).not_above(
            a.fresh().action_at(obs, roll).throttle,
        ),
        a.target_airspeed.not_above(speed_of(obs)) ==> a.fresh().action_at(
            obs,
            roll,
        ).throttle.not_above(num(D0_5)),
{
    let b = a.fresh();
    let e = b.airspeed_error_of(obs);
    let g = e.difference(num(D0));
    crate::rounding::differences_tell_the_order(a.target_airspeed, speed_of(obs));
    crate::rounding::differences_tell_the_order(e, num(D0));
    crate::rounding::zeros_keep_signs(e, num(D0));
    crate::rounding::products_keep_signs(b.kp_spd, e);
    crate::rounding::products_keep_signs(b.kd_spd, g);
    crate::rounding::zero_absorbs(num(D0), b.ki_spd);
    crate::rounding::products_commute(num(D0), b.ki_spd);
    let terms = (b.kp_spd.product(e), b.ki_spd.product(num(D0)), b.kd_spd.product(g));
    let none = (num(D0), num(D0), num(D0));
    lemma_zeros_leave_a_half(num(D0), num(D0), num(D0));
    if speed_of(obs).not_above(a.target_airspeed) {
        lemma_half_and_terms(none, terms);
    }
    if a.target_airspeed.not_above(speed_of(obs)) {
        lemma_half_and_terms(terms, none);
    }
}

/// A larger gain answers more: it does not lower the throttle of an agent whose
/// aircraft is too slow, nor raise it where it is too fast.
pub proof fn larger_gains_answer_more(
    a: PidAgent,
    b: PidAgent,
    obs: [Binary64; 12],
    roll: Binary64,
)
    requires
        b == (PidAgent { kp_spd: b.kp_spd, ..a }),
        gains_in_order(a),
        gains_in_order(b),
        a.kp_spd.not_above(b.kp_spd),
        steady(a, obs),
        steady(b, obs),
    ensures
        speed_of(obs).not_above(a.target_airspeed) ==> a.action_at(obs, roll).throttle.not_above(
            b.action_at(obs, roll).throttle,
        ),
        a.target_airspeed.not_above(speed_of(obs)) ==> b.action_at(obs, roll).throttle.not_above(
            a.action_at(obs, roll).throttle,
        ),
{
    let e = a.airspeed_error_of(obs);
    crate::rounding::differences_tell_the_order(a.target_airspeed, speed_of(obs));
    let i = a.ki_spd.product(a.spd_integral);
    let d = a.kd_spd.product(e.difference(a.prev_spd_err));
    let (p, q) = (a.kp_spd.product(e), b.kp_spd.product(e));
    if num(D0).not_above(e) {
        crate::rounding::factors_keep_order(e, a.kp_spd, b.kp_spd);
        lemma_half_and_terms((p, i, d), (q, i, d));
    }
    if e.not_above(num(D0)) {
        crate::rounding::factors_keep_order(e.negated(), a.kp_spd, b.kp_spd);
        crate::rounding::negated_factors(a.kp_spd, e);
        crate::rounding::negated_factors(b.kp_spd, e);
        lemma_half_and_terms((q, i, d), (p, i, d));
    }
}

/// The lower the aircraft is, and the higher it should be, the further the
/// agent pulls, which is towards negative elevator.
pub proof fn low_aircraft_are_pulled_up(
    a: PidAgent,
    obs: [Binary64; 12],
    b: PidAgent,
    lower: [Binary64; 12],
    roll: Binary64,
)
    requires
        b == (PidAgent { target_alt: b.target_alt, ..a }),
        gains_in_order(a),
        steady(a, obs),
        steady(b, lower),
        a.target_alt.not_above(b.target_alt),
        obs@[1].not_above(lower@[1]),
    ensures
        b.action_at(lower, roll).elevator.not_above(a.action_at(obs, roll).elevator),
{
    let (e, f) = (a.altitude_error_of(obs), b.altitude_error_of(lower));
    crate::rotation::double_negation(obs@[1]);
    crate::rotation::double_negation(lower@[1]);
    crate::rounding::sums_of_ordered_terms(a.target_alt, b.target_alt, obs@[1], lower@[1]);
    let (g, h) = (e.difference(a.prev_alt_err), f.difference(a.prev_alt_err));
    crate::rounding::sums_keep_order(e, f, a.prev_alt_err.negated());
    crate::rounding::factors_keep_order(a.kp_alt, e, f);
    crate::rounding::factors_keep_order(a.kd_alt, g, h);
    let i = a.ki_alt.product(a.alt_integral);
    lemma_three_terms(
        (a.kp_alt.product(e), i, a.kd_alt.product(g)),
        (a.kp_alt.product(f), i, a.kd_alt.product(h)),
    );
}

/// A fresh agent pulls below its altitude and pushes above it.
pub proof fn fresh_agents_seek_their_altitude(a: PidAgent, obs: [Binary64; 12], roll: Binary64)
    requires
        gains_in_order(a),
        steady(a.fresh(), obs),
    ensures
        obs@[1].negated().not_above(a.target_alt) ==> a.fresh().action_at(
            obs,
            roll,
        ).elevator.not_above(num(D0)),
        a.target_alt.not_above(obs@[1].negated()) ==> num(D0).not_above(
            a.fresh().action_at(obs, roll).elevator,
        ),
{
    let b = a.fresh();
    let e = b.altitude_error_of(obs);
    let g = e.difference(num(D0));
    crate::rounding::differences_tell_the_order(a.target_alt, obs@[1].negated());
    crate::rounding::differences_tell_the_order(e, num(D0));
    crate::rounding::zeros_keep_signs(e, num(D0));
    crate::rounding::products_keep_signs(b.kp_alt, e);
    crate::rounding::products_keep_signs(b.kd_alt, g);
    crate::rounding::zero_absorbs(num(D0), b.ki_alt);
    crate::rounding::products_commute(num(D0), b.ki_alt);
    let terms = (b.kp_alt.product(e), b.ki_alt.product(num(D0)), b.kd_alt.product(g));
    let none = (num(D0), num(D0), num(D0));
    crate::rounding::zeros_add_to_zero(num(D0), num(D0));
    if obs@[1].negated().not_above(a.target_alt) {
        lemma_three_terms(none, terms);
    }
    if a.target_alt.not_above(obs@[1].negated()) {
        lemma_three_terms(terms, none);
    }
}

/// What the agent has gathered counts in the same direction as what it sees: a
/// larger integral of the missing speed or altitude gives no less throttle and
/// no less pull.
pub proof fn integrals_push_the_same_way(
    a: PidAgent,
    b: PidAgent,
    obs: [Binary64; 12],
    roll: Binary64,
)
    requires
        b == (PidAgent { alt_integral: b.alt_integral, spd_integral: b.spd_integral, ..a }),
        gains_in_order(a),
        steady(a, obs),
        steady(b, obs),
        a.alt_integral.not_above(b.alt_integral),
        a.spd_integral.not_above(b.spd_integral),
    ensures
        a.action_at(obs, roll).throttle.not_above(b.action_at(obs, roll).throttle),
        b.action_at(obs, roll).elevator.not_above(a.action_at(obs, roll).elevator),
{
    let (e, v) = (a.altitude_error_of(obs), a.airspeed_error_of(obs));
    crate::rounding::factors_keep_order(a.ki_alt, a.alt_integral, b.alt_integral);
    crate::rounding::factors_keep_order(a.ki_spd, a.spd_integral, b.spd_integral);
    let (p, d) = (a.kp_spd.product(v), a.kd_spd.product(v.difference(a.prev_spd_err)));
    lemma_half_and_terms(
        (p, a.ki_spd.product(a.spd_integral), d),
        (p, a.ki_spd.product(b.spd_integral), d),
    );
    let (p, d) = (a.kp_alt.product(e), a.kd_alt.product(e.difference(a.prev_alt_err)));
    lemma_three_terms(
        (p, a.ki_alt.product(a.alt_integral), d),
        (p, a.ki_alt.product(b.alt_integral), d),
    );
}

/// A change counts too: an agent whose error was smaller before gives no less
/// throttle and no less pull.
pub proof fn growing_errors_are_answered(
    a: PidAgent,
    b: PidAgent,
    obs: [Binary64; 12],
    roll: Binary64,
)
    requires
        b == (PidAgent { prev_alt_err: b.prev_alt_err, prev_spd_err: b.prev_spd_err, ..a }),
        gains_in_order(a),
        steady(a, obs),
        steady(b, obs),
        b.prev_alt_err.not_above(a.prev_alt_err),
        b.prev_spd_err.not_above(a.prev_spd_err),
    ensures
        a.action_at(obs, roll).throttle.not_above(b.action_at(obs, roll).throttle),
        b.action_at(obs, roll).elevator.not_above(a.action_at(obs, roll).elevator),
{
    let (e, v) = (a.altitude_error_of(obs), a.airspeed_error_of(obs));
    crate::rounding::sums_of_ordered_terms(e, e, a.prev_alt_err.negated(), b.prev_alt_err.negated());
    crate::rounding::sums_of_ordered_terms(v, v, a.prev_spd_err.negated(), b.prev_spd_err.negated());
    let (g, h) = (e.difference(a.prev_alt_err), e.difference(b.prev_alt_err));
    let (s, t) = (v.difference(a.prev_spd_err), v.difference(b.prev_spd_err));
    crate::rounding::factors_keep_order(a.kd_alt, g, h);
    crate::rounding::factors_keep_order(a.kd_spd, s, t);
    let (p, i) = (a.kp_spd.product(v), a.ki_spd.product(a.spd_integral));
    lemma_half_and_terms((p, i, a.kd_spd.product(s)), (p, i, a.kd_spd.product(t)));
    let (p, i) = (a.kp_alt.product(e), a.ki_alt.product(a.alt_integral));
    lemma_three_terms((p, i, a.kd_alt.product(g)), (p, i, a.kd_alt.product(h)));
}

/// The aileron of the agent opposes the roll and the roll rate: it does not
/// rise with either, and is neutral where there is none of them.
pub proof fn agents_level_the_wings(
    a: PidAgent,
    obs: [Binary64; 12],
    roll: Binary64,
    steeper: [Binary64; 12],
    more: Binary64,
)
    requires
        gains_in_order(a),
        roll.finite() && more.finite() && obs@[9].finite() && steeper@[9].finite(),
        roll.sum(num(D0_5).product(obs@[9])).finite(),
        more.sum(num(D0_5).product(steeper@[9])).finite(),
        roll.not_above(more),
        obs@[9].not_above(steeper@[9]),
    ensures
        a.action_at(steeper, more).aileron.not_above(a.action_at(obs, roll).aileron),
        roll.zero() && obs@[9].zero() ==> a.action_at(obs, roll).aileron.zero(),
{
    crate::rounding::factors_keep_order(num(D0_5), obs@[9], steeper@[9]);
    crate::rounding::products_are_numbers(num(D0_5), obs@[9]);
    crate::rounding::products_are_numbers(num(D0_5), steeper@[9]);
    let (x, y) = (roll.sum(num(D0_5).product(obs@[9])), more.sum(num(D0_5).product(steeper@[9])));
    crate::rounding::sums_of_ordered_terms(
        roll,
        more,
        num(D0_5).product(obs@[9]),
        num(D0_5).product(steeper@[9]),
    );
    crate::rounding::factors_keep_order(a.kp_roll, x, y);
    lemma_turned_gain(a.kp_roll, x);
    lemma_turned_gain(a.kp_roll, y);
    if roll.zero() && obs@[9].zero() {
        crate::rounding::zero_absorbs(obs@[9], num(D0_5));
        crate::rounding::products_commute(obs@[9], num(D0_5));
        crate::rounding::zeros_add_to_zero(roll, num(D0_5).product(obs@[9]));
        crate::rounding::zero_absorbs(x, a.kp_roll);
        crate::rounding::products_commute(x, a.kp_roll);
    }
}

proof fn lemma_turned_gain(k: Binary64, x: Binary64)
    requires
        k.finite(),
        x.finite(),
    ensures
        k.negated().product(x) == k.product(x).negated(),
        !k.product(x).nan(),
{
    crate::rounding::products_commute(k.negated(), x);
    crate::rounding::products_commute(k, x);
    crate::rounding::negated_factors(x, k);
    crate::rounding::products_are_numbers(k, x);
}

/// What is missing is gathered: where the aircraft is too low or too slow the
/// integral does not fall, where it is too high or too fast it does not rise,
/// as long as it is within its limits.
pub proof fn missing_altitude_and_speed_are_gathered(a: PidAgent, obs: [Binary64; 12])
    requires
        steady(a, obs),
        num(M200).not_above(a.alt_integral) && a.alt_integral.not_above(num(D200)),
        num(M50).not_above(a.spd_integral) && a.spd_integral.not_above(num(D50)),
    ensures
        obs@[1].negated().not_above(a.target_alt) ==> a.alt_integral.not_above(
            a.stepped(obs, false).alt_integral,
        ),
        a.target_alt.not_above(obs@[1].negated()) ==> a.stepped(
            obs,
            false,
        ).alt_integral.not_above(a.alt_integral),
        speed_of(obs).not_above(a.target_airspeed) ==> a.spd_integral.not_above(
            a.stepped(obs, false).spd_integral,
        ),
        a.target_airspeed.not_above(speed_of(obs)) ==> a.stepped(
            obs,
            false,
        ).spd_integral.not_above(a.spd_integral),
        a.stepped(obs, true).alt_integral == a.alt_integral,
        a.stepped(obs, true).spd_integral == a.spd_integral,
{
    lemma_gathered(a.alt_integral, a.target_alt, obs@[1].negated());
    lemma_gathered(a.spd_integral, a.target_airspeed, speed_of(obs));
}

proof fn lemma_gathered(x: Binary64, target: Binary64, seen: Binary64)
    requires
        x.finite(),
        target.finite(),
        seen.finite(),
        target.difference(seen).finite(),
    ensures
        seen.not_above(target) ==> x.not_above(x.sum(target.difference(seen))),
        target.not_above(seen) ==> x.sum(target.difference(seen)).not_above(x),
{
    let e = target.difference(seen);
    crate::rounding::differences_tell_the_order(target, seen);
    crate::rounding::sums_are_numbers(x, e);
    crate::rounding::sums_are_numbers(x, num(D0));
    crate::rounding::zeros_keep_signs(x, num(D0));
    if num(D0).not_above(e) {
        crate::rounding::sums_of_ordered_terms(x, x, num(D0), e);
    }
    if e.not_above(num(D0)) {
        crate::rounding::sums_of_ordered_terms(x, x, e, num(D0));
    }
}

/// The airspeed of an observation does not depend on its direction.
pub proof fn observed_airspeed_has_no_direction(a: [Binary64; 12], b: [Binary64; 12])
    requires
        a@[2].finite() && a@[3].finite() && a@[4].finite(),
        b@[2] == a@[2].negated() && b@[3] == a@[3].negated() && b@[4] == a@[4].negated(),
    ensures
        speed_of(a) == speed_of(b),
{
    lemma_same_squares(a@[2]);
    lemma_same_squares(a@[3]);
    lemma_same_squares(a@[4]);
}

proof fn lemma_same_squares(x: Binary64)
    requires
        x.finite(),
    ensures
        x.negated().product(x.negated()) == x.product(x),
{
    lemma_turned_gain(x, x);
    lemma_turned_gain(x, x.negated());
    crate::rounding::negated_factors(x, x);
    crate::rotation::double_negation(x.product(x));
}

} // verus!
