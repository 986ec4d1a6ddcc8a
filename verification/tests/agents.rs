//! The agents.
use flight_core::agents::config::{AgentConfig, ParamItem, ParamValue};
use flight_core::agents::d3qn::D3QNAgent;
use flight_core::agents::observe::observe;
use flight_core::agents::registry::AgentRegistry;
use flight_core::agents::rule_based::PidAgent;
use flight_core::binary64::Binary64;
use flight_core::elementary::Elementary;
use flight_core::state::AircraftState;
use flight_core::text::text_earlier;

fn b(x: f64) -> Binary64 {
    Binary64::from_bits(x.to_bits())
}

fn f(x: Binary64) -> f64 {
    f64::from_bits(x.to_bits())
}

/// The elementary functions of the machine.
#[derive(Clone, Copy)]
struct Machine;

impl Elementary for Machine {
    fn sin(&self, x: Binary64) -> Binary64 {
        b(f(x).sin())
    }

    fn cos(&self, x: Binary64) -> Binary64 {
        b(f(x).cos())
    }

    fn asin(&self, x: Binary64) -> Binary64 {
        b(f(x).asin())
    }

    fn atan2(&self, y: Binary64, x: Binary64) -> Binary64 {
        b(f(y).atan2(f(x)))
    }

    fn hypot(&self, x: Binary64, y: Binary64) -> Binary64 {
        b(f(x).hypot(f(y)))
    }

    fn tanh(&self, x: Binary64) -> Binary64 {
        b(f(x).tanh())
    }

    fn exp(&self, x: Binary64) -> Binary64 {
        b(f(x).exp())
    }

    fn ln(&self, x: Binary64) -> Binary64 {
        b(f(x).ln())
    }

    fn powf(&self, x: Binary64, y: Binary64) -> Binary64 {
        b(f(x).powf(f(y)))
    }
}

#[test]
fn pid_produces_neutral_action_at_target() {
    let agent = PidAgent::from_config(&AgentConfig::new("pid"));
    let mut obs = [b(0.0); 12];
    obs[1] = b(-1000.0);
    obs[2] = b(60.0);
    obs[5] = b(1.0);
    let action = agent.act(&obs, &Machine);
    assert!(f(action.elevator).abs() < 0.02, "{}", f(action.elevator));
    assert!((f(action.throttle) - 0.5).abs() < 0.1, "{}", f(action.throttle));
}

#[test]
fn pid_climbs_when_below_target() {
    let agent = PidAgent::from_config(&AgentConfig::new("pid"));
    let mut obs = [b(0.0); 12];
    obs[1] = b(-800.0);
    obs[2] = b(60.0);
    obs[5] = b(1.0);
    let action = agent.act(&obs, &Machine);
    assert!(f(action.elevator) < 0.0, "{}", f(action.elevator));
}

#[test]
fn pid_integrals_are_limited_and_forgotten() {
    let mut agent = PidAgent::from_config(&AgentConfig::new("pid"));
    let mut obs = [b(0.0); 12];
    obs[1] = b(-800.0);
    obs[2] = b(60.0);
    for _ in 0..10_000 {
        agent.on_step(&obs, false);
    }
    assert_eq!(f(agent.alt_integral), 200.0);
    agent.reset();
    assert_eq!(f(agent.alt_integral), 0.0);
    assert_eq!(agent.name(), "pid");
}

#[test]
fn parameters_are_read_with_defaults() {
    let mut c = AgentConfig::new("d3qn");
    c.set("gamma", ParamValue::Float(b(0.5)));
    c.set("batch", ParamValue::Integer(16));
    c.set("flag", ParamValue::Boolean(true));
    c.set("label", ParamValue::Text(String::from("x")));
    c.set("sizes", ParamValue::List(vec![ParamItem::Integer(3), ParamItem::Integer(4)]));
    assert_eq!(f(c.get_f64("gamma", b(1.0))), 0.5);
    assert_eq!(f(c.get_f64("batch", b(1.0))), 1.0);
    assert_eq!(f(c.get_f64("none", b(1.0))), 1.0);
    assert_eq!(c.get_usize("batch", 7), 16);
    assert!(c.get_bool("flag", false));
    assert_eq!(c.get_str("label", "y"), "x");
    assert_eq!(c.get_str("gamma", "y"), "y");
    assert_eq!(c.get_usize_vec("sizes", vec![1]), vec![3, 4]);
    assert_eq!(c.get_f64_vec("none", vec![b(2.0)]), vec![b(2.0)]);
    c.set("gamma", ParamValue::Float(b(0.25)));
    assert_eq!(f(c.get_f64("gamma", b(1.0))), 0.25);
}

#[test]
fn exploration_is_annealed() {
    let mut agent = D3QNAgent::from_config(&AgentConfig::new("d3qn"));
    let start = f(agent.epsilon());
    for _ in 0..10 {
        agent.reset();
    }
    assert!(f(agent.epsilon()) < start);
    assert_eq!(agent.q_values().len(), agent.act_dim());
    agent.on_step();
    assert_eq!(agent.step, 1);
}

fn build_pid(_: &AgentConfig) -> u8 {
    1
}

fn build_d3qn(_: &AgentConfig) -> u8 {
    2
}

fn build_own(_: &AgentConfig) -> u8 {
    3
}

#[test]
fn registries_build_by_name() {
    let mut r: AgentRegistry<fn(&AgentConfig) -> u8> = AgentRegistry::new(build_pid, build_d3qn);
    assert_eq!(r.available(), vec![String::from("d3qn"), String::from("pid")]);
    assert_eq!(r.build(&AgentConfig::new("pid")), 1);
    r.register("zeta", build_own);
    r.register("pid", build_own);
    assert_eq!(r.build(&AgentConfig::new("pid")), 3);
    assert!(r.contains("zeta") && !r.contains("other"));
    assert_eq!(r.try_build(&AgentConfig::new("zeta")), Ok(3));
    let names = vec![String::from("d3qn"), String::from("pid"), String::from("zeta")];
    assert_eq!(r.try_build(&AgentConfig::new("other")), Err(names));
}

#[test]
fn observations_have_the_size_that_is_asked_for() {
    let s = AircraftState::default();
    assert_eq!(observe(&s, 12), s.to_observation_array().to_vec());
    assert!(text_earlier("abc", "abd") && !text_earlier("b", "abc") && text_earlier("", "a"));
}

#[test]
fn pid_levels_the_wings_whatever_the_pitch() {
    let agent = PidAgent::from_config(&AgentConfig::new("pid"));
    let mut obs = [b(0.0); 12];
    obs[1] = b(-1000.0);
    obs[2] = b(60.0);
    obs[5] = b(0.8);
    obs[7] = b(0.6);
    let action = agent.act(&obs, &Machine);
    assert_eq!(f(action.aileron), 0.0);
    assert_eq!(f(action.elevator), 0.0);
    assert_eq!(f(action.throttle), 0.5);
    assert_eq!((f(action.rudder), f(action.flaps)), (0.0, 0.0));
    // With the right wing down the aileron rolls to the left.
    obs[5] = b(0.1f64.cos());
    obs[6] = b(-0.1f64.sin());
    obs[7] = b(0.0);
    let action = agent.act(&obs, &Machine);
    assert!((f(action.aileron) + 0.3 * 0.2).abs() < 1e-12, "{}", f(action.aileron));
}
