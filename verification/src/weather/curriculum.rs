//! The training curriculum: clear sky, light turbulence, rain, storm.
use super::config::WeatherConfig;
use super::levels::CurriculumPhase;
use crate::binary64::Binary64;
use crate::literal::{num, D0, D1, D4};
use vstd::prelude::*;

verus! {

/// A schedule that moves on to the next phase after a fixed number of
/// environment steps.
#[derive(Clone, Copy, Debug, PartialEq, Eq, Structural)]
pub struct WeatherCurriculum {
    /// Environment steps in each phase; at least one.
    pub steps_per_phase: usize,
    /// Steps taken so far.
    pub step_count: usize,
    /// The active phase.
    pub current: CurriculumPhase,
    /// Whether the storm phase has been entered and completed.
    pub done: bool,
}

impl WeatherCurriculum {
    pub open spec fn wf(self) -> bool {
        self.steps_per_phase >= 1
    }

    /// A schedule at its start.
    pub open spec fn start(steps_per_phase: usize) -> WeatherCurriculum {
        WeatherCurriculum {
            steps_per_phase: if steps_per_phase >= 1 { steps_per_phase } else { 1 },
            step_count: 0,
            current: CurriculumPhase::Phase1Clear,
            done: false,
        }
    }

    /// The phases whose steps have been used up.
    pub open spec fn phases_flown(self) -> int {
        self.step_count as int / self.steps_per_phase as int
    }

    /// The phase number that the step count asks for; the storm is the last.
    pub open spec fn due(self) -> int {
        if self.phases_flown() < 3 {
            self.phases_flown()
        } else {
            3
        }
    }

    /// Whether the step count asks for a later phase.
    pub open spec fn moves_on(self) -> bool {
        !self.done && self.due() > self.current.number()
    }

    /// The schedule after the phase was brought in line with the step count.
    /// The storm is completed once its own steps are used up as well.
    pub open spec fn settled(self) -> WeatherCurriculum {
        let phase = if self.moves_on() {
            CurriculumPhase::numbered(self.due())
        } else {
            self.current
        };
        WeatherCurriculum {
            current: phase,
            done: self.done || (phase == CurriculumPhase::Phase4Storm && self.phases_flown() >= 4),
            ..self
        }
    }

    /// Whether the phase is in line with the step count, as it is in every
    /// schedule that was only stepped, advanced, moved on by hand or restarted.
    pub open spec fn in_line(self) -> bool {
        &&& self.wf()
        &&& self.settled() == self
        &&& self.done ==> self.current == CurriculumPhase::Phase4Storm
    }

    /// The schedule with another step count.
    pub open spec fn counted(self, step_count: usize) -> WeatherCurriculum {
        WeatherCurriculum {
            steps_per_phase: self.steps_per_phase,
            step_count,
            current: self.current,
            done: self.done,
        }
    }

    /// The schedule after one step.
    pub open spec fn stepped(self) -> WeatherCurriculum {
        self.counted((self.step_count + 1) as usize).settled()
    }

    /// The step count `n` steps later, or the largest count there is.
    pub open spec fn count_later(self, n: usize) -> usize {
        if self.step_count + n > usize::MAX {
            usize::MAX
        } else {
            (self.step_count + n) as usize
        }
    }

    /// The schedule after `n` steps at once.
    pub open spec fn advanced(self, n: usize) -> WeatherCurriculum {
        self.counted(self.count_later(n)).settled()
    }

    /// The schedule after it was moved on by hand. Moving on from the storm
    /// completes it.
    pub open spec fn moved_on(self) -> WeatherCurriculum {
        WeatherCurriculum {
            current: self.following(),
            done: self.done || self.current == CurriculumPhase::Phase4Storm,
            ..self
        }
    }

    /// The phase after this one; the storm is the last.
    pub open spec fn following(self) -> CurriculumPhase {
        if self.current.number() < 3 {
            CurriculumPhase::numbered(self.current.number() + 1)
        } else {
            CurriculumPhase::Phase4Storm
        }
    }

    /// The part of the curriculum that has been flown.
    pub open spec fn fraction_flown(self) -> Binary64 {
        let total = num(D4).product(Binary64::integer(self.steps_per_phase as nat));
        Binary64::integer(self.step_count as nat).quotient(total.larger(num(D1))).clamped(
            num(D0),
            num(D1),
        )
    }

    pub fn new(steps_per_phase: usize) -> (r: Self)
        ensures
            r == WeatherCurriculum::start(steps_per_phase),
            r.wf(),
    {
        WeatherCurriculum {
            steps_per_phase: if steps_per_phase >= 1 { steps_per_phase } else { 1 },
            step_count: 0,
            current: CurriculumPhase::Phase1Clear,
            done: false,
        }
    }

    /// Counts one step, and moves on where the phase is over. Returns the new
    /// phase if it changed.
    pub fn step(&mut self) -> (r: Option<CurriculumPhase>)
        requires
            old(self).wf(),
            old(self).step_count < usize::MAX,
        ensures
            *final(self) == old(self).stepped(),
            r == if old(self).counted((old(self).step_count + 1) as usize).moves_on() {
                Some(final(self).current)
            } else {
                None
            },
            final(self).wf(),
    {
        self.step_count = self.step_count + 1;
        self.advance_auto()
    }

    /// Counts `n` steps at once. Returns the new phase if it changed.
    pub fn advance(&mut self, n: usize) -> (r: Option<CurriculumPhase>)
        requires
            old(self).wf(),
        ensures
            *final(self) == old(self).advanced(n),
            r == if old(self).counted(old(self).count_later(n)).moves_on() {
                Some(final(self).current)
            } else {
                None
            },
            final(self).wf(),
    {
        self.step_count = self.step_count.saturating_add(n);
        self.advance_auto()
    }

    /// Brings the phase in line with the step count.
    pub fn advance_auto(&mut self) -> (r: Option<CurriculumPhase>)
        requires
            old(self).wf(),
        ensures
            *final(self) == old(self).settled(),
            r == if old(self).moves_on() {
                Some(final(self).current)
            } else {
                None
            },
            final(self).wf(),
    {
        if self.done {
            return None;
        }
        proof {
            lemma_quotient_sign(self.step_count as int, self.steps_per_phase as int);
        }
        let whole: usize = self.step_count / self.steps_per_phase;
        let due: i32 = if whole < 3 {
            whole as i32
        } else {
            3
        };
        let moved: bool = due > self.current.index();
        if moved {
            self.current = CurriculumPhase::from_index(due);
        }
        if whole >= 4 && self.current == CurriculumPhase::Phase4Storm {
            self.done = true;
        }
        if moved {
            Some(self.current)
        } else {
            None
        }
    }

    /// Moves to the next phase by hand. Moving on from the storm completes it.
    pub fn next_phase(&mut self) -> (r: CurriculumPhase)
        ensures
            *final(self) == old(self).moved_on(),
            r == old(self).following(),
    {
        let i: i32 = self.current.index();
        if i == 3 {
            self.done = true;
        } else {
            self.current = CurriculumPhase::from_index(i + 1);
        }
        self.current
    }

    /// Starts the schedule over.
    pub fn restart(&mut self)
        ensures
            *final(self) == (WeatherCurriculum {
                steps_per_phase: old(self).steps_per_phase,
                step_count: 0,
                current: CurriculumPhase::Phase1Clear,
                done: false,
            }),
    {
        self.step_count = 0;
        self.current = CurriculumPhase::Phase1Clear;
        self.done = false;
    }

    pub fn phase(&self) -> (r: CurriculumPhase)
        ensures
            r == self.current,
    {
        self.current
    }

    pub fn is_complete(&self) -> (r: bool)
        ensures
            r == (self.done && self.current == CurriculumPhase::Phase4Storm),
    {
        self.done && self.current == CurriculumPhase::Phase4Storm
    }

    /// The part of the curriculum that has been flown, between zero and one.
    pub fn progress(&self) -> (r: Binary64)
        ensures
            r == self.fraction_flown(),
    {
        let total: Binary64 = num(D4).times(Binary64::from_u64(self.steps_per_phase as u64));
        Binary64::from_u64(self.step_count as u64).over(total.max(num(D1))).clamp(num(D0), num(D1))
    }

    /// The weather parameters of the active phase.
    pub fn config(&self, seed: u64) -> (r: WeatherConfig)
        ensures
            r == WeatherConfig::preset(self.current.weather(), seed),
    {
        WeatherConfig::from_preset(self.current.preset(), seed)
    }
}

/// The schedule after `n` single steps.
pub open spec fn after_steps(c: WeatherCurriculum, n: nat) -> WeatherCurriculum
    decreases n,
{
    if n == 0 {
        c
    } else {
        after_steps(c, (n - 1) as nat).stepped()
    }
}

proof fn lemma_quotient_sign(n: int, d: int)
    requires
        n >= 0,
        d >= 1,
    ensures
        0 <= n / d <= n,
{
    assert(0 <= n / d <= n) by (nonlinear_arith)
        requires
            n >= 0,
            d >= 1,
    ;
}

proof fn lemma_quotient_order(m: int, n: int, d: int)
    requires
        0 <= m <= n,
        d >= 1,
    ensures
        0 <= m / d <= n / d,
{
    assert(0 <= m / d <= n / d) by (nonlinear_arith)
        requires
            0 <= m <= n,
            d >= 1,
    ;
}

/// A fresh schedule is in line with its steps, and counting steps, moving on
/// by hand and starting over keep it so.
pub proof fn schedules_stay_in_line(c: WeatherCurriculum, steps_per_phase: usize, n: usize)
    requires
        c.in_line(),
    ensures
        WeatherCurriculum::start(steps_per_phase).in_line(),
        c.step_count < usize::MAX ==> c.stepped().in_line(),
        c.advanced(n).in_line(),
        c.moved_on().in_line(),
{
    assert(0int / WeatherCurriculum::start(steps_per_phase).steps_per_phase as int == 0) by (
    nonlinear_arith)
        requires
            WeatherCurriculum::start(steps_per_phase).steps_per_phase >= 1,
    ;
}

/// Counting `n` steps at once ends where `n` single steps end.
pub proof fn advancing_agrees_with_stepping(c: WeatherCurriculum, n: usize)
    requires
        c.in_line(),
        c.step_count + n <= usize::MAX,
    ensures
        c.advanced(n) == after_steps(c, n as nat),
    decreases n,
{
    if n > 0 {
        let m = (n - 1) as usize;
        advancing_agrees_with_stepping(c, m);
        lemma_quotient_order(
            c.step_count + m,
            c.step_count + n,
            c.steps_per_phase as int,
        );
        assert(c.advanced(m).stepped() == c.advanced(n));
    }
}

/// Stepping through a fresh schedule climbs one phase each time the steps of a
/// phase are used up, stays in the storm, and is complete when the steps of
/// the storm are used up too.
pub proof fn stepping_climbs_phase_by_phase(steps_per_phase: usize, n: usize)
    requires
        steps_per_phase >= 1,
    ensures
        ({
            let c = after_steps(WeatherCurriculum::start(steps_per_phase), n as nat);
            let whole: int = n as int / steps_per_phase as int;
            &&& c.steps_per_phase == steps_per_phase
            &&& c.step_count == n
            &&& c.current.number() == if whole < 3 { whole } else { 3 }
            &&& c.done == (whole >= 4)
        }),
{
    let c = WeatherCurriculum::start(steps_per_phase);
    schedules_stay_in_line(c, steps_per_phase, n);
    advancing_agrees_with_stepping(c, n);
    lemma_quotient_sign(n as int, steps_per_phase as int);
}

/// Counting steps never leads back to an earlier phase, and a finished
/// schedule stays finished.
pub proof fn stepping_never_goes_back(c: WeatherCurriculum, n: usize)
    requires
        c.wf(),
    ensures
        c.step_count < usize::MAX ==> c.stepped().current.number() >= c.current.number(),
        c.advanced(n).current.number() >= c.current.number(),
        c.moved_on().current.number() >= c.current.number(),
        c.done ==> c.advanced(n).done && c.moved_on().done,
        c.done && c.step_count < usize::MAX ==> c.stepped().done,
{
}

/// Moving on by hand reaches the storm from every phase after three moves, and
/// completes it with one more.
pub proof fn three_moves_reach_the_storm(c: WeatherCurriculum)
    ensures
        ({
            let d = c.moved_on().moved_on().moved_on();
            &&& d.current == CurriculumPhase::Phase4Storm
            &&& d.moved_on().current == CurriculumPhase::Phase4Storm
            &&& d.moved_on().done
        }),
{
}

/// The part that has been flown is a fraction.
pub proof fn progress_is_a_fraction(c: WeatherCurriculum)
    ensures
        crate::rounding::is_fraction(c.fraction_flown()),
{
    crate::rounding::integers_are_finite(c.step_count as u64);
    let total = num(D4).product(Binary64::integer(c.steps_per_phase as nat));
    crate::rounding::quotients_are_numbers(
        Binary64::integer(c.step_count as nat),
        total.larger(num(D1)),
    );
}

} // verus!
