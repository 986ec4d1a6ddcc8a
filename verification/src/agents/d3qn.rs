//! The frame of a learning agent: its parameters and its exploration rate.
use super::config::{AgentConfig, ParamValue};
use crate::binary64::Binary64;
use crate::env::ControlAction;
use crate::literal::{num, D0, D0_0001, D0_005, D0_05, D0_99, D1, D500};
use vstd::prelude::*;

verus! {

/// The agent.
#[derive(Clone, Debug)]
pub struct D3QNAgent {
    pub obs_dim: usize,
    pub n_actions: usize,
    /// Widths of the hidden layers.
    pub hidden_sizes: Vec<usize>,
    pub learning_rate: Binary64,
    /// Discount factor.
    pub gamma: Binary64,
    /// Exploration rate at the start, at the end, and the episodes between.
    pub epsilon_start: Binary64,
    pub epsilon_end: Binary64,
    pub epsilon_decay: Binary64,
    pub batch_size: usize,
    pub buffer_size: usize,
    pub tau: Binary64,
    pub target_update: usize,
    /// Episodes and steps so far.
    pub episode: u64,
    pub step: u64,
    pub current_epsilon: Binary64,
}

/// A parameter that is an integer, as a size, else the default.
pub open spec fn size_or(cfg: AgentConfig, key: Seq<char>, default: usize) -> usize {
    match cfg.param(key) {
        Some(ParamValue::Integer(k)) => k as usize,
        _ => default,
    }
}

/// The widths of the hidden layers: those of a configuration, or two layers.
pub open spec fn layers_of(cfg: AgentConfig) -> Seq<usize> {
    match cfg.param("hidden_sizes"@) {
        Some(ParamValue::List(items)) => if super::config::sizes_of(items@).len() > 0 {
            super::config::sizes_of(items@)
        } else {
            seq![256usize, 256usize]
        },
        _ => seq![256usize, 256usize],
    }
}

/// The exploration rate of an episode: linear from start to end.
pub open spec fn rate_at(
    start: Binary64,
    end: Binary64,
    decay: Binary64,
    episode: u64,
) -> Binary64 {
    let progress = Binary64::integer(episode as nat).quotient(decay).smaller(num(D1));
    start.sum(progress.product(end.difference(start)))
}

/// The exploration rate of an episode: linear from start to end.
pub fn annealed(start: Binary64, end: Binary64, decay: Binary64, episode: u64) -> (r: Binary64)
    ensures
        r == rate_at(start, end, decay, episode),
{
    let progress: Binary64 = Binary64::from_u64(episode).over(decay).min(num(D1));
    start.plus(progress.times(end.minus(start)))
}

impl D3QNAgent {
    /// The agent that a configuration describes, before its first episode.
    pub fn from_config(cfg: &AgentConfig) -> (r: Self)
        requires
            cfg.wf(),
        ensures
            r.obs_dim == size_or(*cfg, "obs_dim"@, 12),
            r.n_actions == size_or(*cfg, "n_actions"@, 5),
            r.hidden_sizes@ == layers_of(*cfg),
            r.learning_rate == super::rule_based::float_or(*cfg, "learning_rate"@, num(D0_0001)),
            r.gamma == super::rule_based::float_or(*cfg, "gamma"@, num(D0_99)),
            r.epsilon_start == super::rule_based::float_or(*cfg, "epsilon_start"@, num(D1)),
            r.epsilon_end == super::rule_based::float_or(*cfg, "epsilon_end"@, num(D0_05)),
            r.epsilon_decay == super::rule_based::float_or(*cfg, "epsilon_decay"@, num(D500)),
            r.batch_size == size_or(*cfg, "batch_size"@, 64),
            r.buffer_size == size_or(*cfg, "buffer_size"@, 100_000),
            r.tau == super::rule_based::float_or(*cfg, "tau"@, num(D0_005)),
            r.target_update == size_or(*cfg, "target_update"@, 1000),
            r.episode == 0,
            r.step == 0,
            r.current_epsilon == r.epsilon_start,
    {
        let epsilon_start: Binary64 = cfg.get_f64("epsilon_start", num(D1));
        let mut layers: Vec<usize> = Vec::new();
        layers.push(256);
        layers.push(256);
        proof {
            assert(layers@ =~= seq![256usize, 256usize]);
        }
        D3QNAgent {
            obs_dim: cfg.get_usize("obs_dim", 12),
            n_actions: cfg.get_usize("n_actions", 5),
            hidden_sizes: cfg.get_usize_vec("hidden_sizes", layers),
            learning_rate: cfg.get_f64("learning_rate", num(D0_0001)),
            gamma: cfg.get_f64("gamma", num(D0_99)),
            epsilon_start,
            epsilon_end: cfg.get_f64("epsilon_end", num(D0_05)),
            epsilon_decay: cfg.get_f64("epsilon_decay", num(D500)),
            batch_size: cfg.get_usize("batch_size", 64),
            buffer_size: cfg.get_usize("buffer_size", 100_000),
            tau: cfg.get_f64("tau", num(D0_005)),
            target_update: cfg.get_usize("target_update", 1000),
            episode: 0,
            step: 0,
            current_epsilon: epsilon_start,
        }
    }

    pub fn name(&self) -> (r: &str)
        ensures
            r@ == "d3qn"@,
    {
        "d3qn"
    }

    pub fn obs_dim(&self) -> (r: usize)
        ensures
            r == self.obs_dim,
    {
        self.obs_dim
    }

    pub fn act_dim(&self) -> (r: usize)
        ensures
            r == self.n_actions,
    {
        self.n_actions
    }

    /// The exploration rate.
    pub fn epsilon(&self) -> (r: Binary64)
        ensures
            r == self.current_epsilon,
    {
        self.current_epsilon
    }

    /// The values of the actions: equal, as nothing has been learned.
    pub fn q_values(&self) -> (r: Vec<Binary64>)
        ensures
            r@ =~= Seq::new(self.n_actions as nat, |i: int| num(D0)),
    {
        let mut r: Vec<Binary64> = Vec::new();
        let mut i: usize = 0;
        while i < self.n_actions
            invariant
                i <= self.n_actions,
                r@ =~= Seq::new(i as nat, |k: int| num(D0)),
            decreases self.n_actions - i,
        {
            r.push(num(D0));
            i += 1;
        }
        r
    }

    /// The controls: neutral, whatever is observed.
    pub fn act(&self) -> (r: ControlAction)
        ensures
            r == ControlAction::centered(),
    {
        ControlAction::neutral()
    }

    /// Starts an episode: the exploration rate is that of the episodes so far.
    pub fn reset(&mut self)
        requires
            old(self).episode < u64::MAX,
        ensures
            final(self).current_epsilon == rate_at(
                old(self).epsilon_start,
                old(self).epsilon_end,
                old(self).epsilon_decay,
                old(self).episode,
            ),
            final(self).episode == old(self).episode + 1,
            final(self).step == 0,
            final(self).same_parameters(*old(self)),
    {
        self.current_epsilon = annealed(
            self.epsilon_start,
            self.epsilon_end,
            self.epsilon_decay,
            self.episode,
        );
        self.episode = self.episode + 1;
        self.step = 0;
    }

    /// Takes note of a step.
    pub fn on_step(&mut self)
        requires
            old(self).step < u64::MAX,
            old(self).target_update != 0,
        ensures
            final(self).step == old(self).step + 1,
            final(self).episode == old(self).episode,
            final(self).current_epsilon == old(self).current_epsilon,
            final(self).same_parameters(*old(self)),
    {
        self.step = self.step + 1;
    }

    /// The same parameters.
    pub open spec fn same_parameters(self, other: D3QNAgent) -> bool {
        &&& self.obs_dim == other.obs_dim
        &&& self.n_actions == other.n_actions
        &&& self.hidden_sizes == other.hidden_sizes
        &&& self.learning_rate == other.learning_rate
        &&& self.gamma == other.gamma
        &&& self.epsilon_start == other.epsilon_start
        &&& self.epsilon_end == other.epsilon_end
        &&& self.epsilon_decay == other.epsilon_decay
        &&& self.batch_size == other.batch_size
        &&& self.buffer_size == other.buffer_size
        &&& self.tau == other.tau
        &&& self.target_update == other.target_update
    }
}

/// From the episode in which the annealing ends, the exploration rate stays
/// the same.
pub proof fn annealing_ends(
    start: Binary64,
    end: Binary64,
    decay: Binary64,
    a: u64,
    b: u64,
)
    requires
        num(D1).not_above(Binary64::integer(a as nat).quotient(decay)),
        num(D1).not_above(Binary64::integer(b as nat).quotient(decay)),
    ensures
        rate_at(start, end, decay, a) == rate_at(start, end, decay, b),
{
}

/// Exploration starts at its start and falls towards its end: where the end is
/// not above the start, no later episode explores more.
pub proof fn exploration_falls(
    start: Binary64,
    end: Binary64,
    decay: Binary64,
    a: u64,
    b: u64,
)
    requires
        start.finite() && end.finite() && end.not_above(start),
        end.difference(start).finite(),
        decay.finite() && num(D0).below(decay),
        a <= b,
    ensures
        rate_at(start, end, decay, b).not_above(rate_at(start, end, decay, a)),
        rate_at(start, end, decay, a).not_above(start),
        a == 0 ==> rate_at(start, end, decay, a).same(start),
{
    let (m, n) = (Binary64::integer(a as nat), Binary64::integer(b as nat));
    crate::rounding::integers_are_finite(a);
    crate::rounding::integers_are_finite(b);
    crate::rounding::counts_keep_order(a as nat, b as nat);
    crate::rounding::quotients_keep_order(m, n, decay);
    let (p, q) = (m.quotient(decay).smaller(num(D1)), n.quotient(decay).smaller(num(D1)));
    let d = end.difference(start);
    crate::rounding::differences_tell_the_order(end, start);
    crate::rounding::fractions_shrink_negatives(d, p);
    crate::rounding::fractions_shrink_negatives(d, q);
    crate::rounding::products_commute(d, p);
    crate::rounding::products_commute(d, q);
    crate::rounding::products_keep_order(d, p, q);
    crate::rounding::sums_are_numbers(start, p.product(d));
    crate::rounding::sums_are_numbers(start, q.product(d));
    crate::rounding::sums_of_ordered_terms(start, start, q.product(d), p.product(d));
    crate::rounding::sums_are_numbers(start, num(D0));
    crate::rounding::zeros_keep_signs(start, num(D0));
    crate::rounding::sums_of_ordered_terms(start, start, p.product(d), num(D0));
    if a == 0 {
        crate::rounding::zero_absorbs(p, d);
        crate::rounding::zeros_keep_signs(start, p.product(d));
    }
}

} // verus!
