use graph_search::agents::{Action, Agent, SimpleReflexAgent};
use graph_search::environments::{Environment, RandomEnvironment, State};

#[test]
fn reflex_agent_cleans_dirty_squares() {
    let mut agent = SimpleReflexAgent::new();
    let seen = State { dirty: true, location: 0 };
    match agent.act(&seen) {
        Action::Clean => {},
        Action::Move(x) => panic!("expected a clean, got a move to {}", x),
    }
}

#[test]
fn reflex_agent_shuttles_between_squares() {
    let mut agent = SimpleReflexAgent::new();
    match agent.act(&State { dirty: false, location: 0 }) {
        Action::Move(1) => {},
        other => panic!("expected a move to square 1, got {:?}", other),
    }
    match agent.act(&State { dirty: false, location: 1 }) {
        Action::Move(0) => {},
        other => panic!("expected a move to square 0, got {:?}", other),
    }
}

#[test]
fn environment_runs_and_stays_consistent() {
    let mut env = RandomEnvironment::new(SimpleReflexAgent::new());
    env.run(5);
    let state = env.get_state();
    assert!(state.location < 2);
}

#[test]
fn environment_accepts_an_idle_run() {
    let mut env = RandomEnvironment::new(SimpleReflexAgent::new());
    env.run(0);
    let state = env.get_state();
    assert!(state.location < 2);
}
