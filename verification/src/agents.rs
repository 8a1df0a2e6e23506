//! Reactive agents: policies that map an observed environment state to
//! the next action, with no search involved.

use vstd::prelude::*;

use crate::environments::State;

verus! {

/// What an agent can ask of its environment.
#[derive(Debug)]
pub enum Action {
    /// Move the robot to this square.
    Move(usize),
    /// Clean the square the robot stands on.
    Clean,
}

/// A policy from observed states to actions. An agent may keep memory
/// of its own, but the action it takes is the function of that memory
/// and the observed state that `action_of` states.
pub trait Agent: Sized {
    /// The action this agent takes on seeing a state.
    spec fn action_of(&self, state: State) -> Action;

    /// Reacts to the observed state.
    fn act(&mut self, environment_state: &State) -> (action: Action)
        ensures
            action == old(self).action_of(*environment_state),
    ;
}

/// The simplest policy: clean a dirty square, otherwise shuttle between
/// the first two squares.
#[derive(Debug)]
pub struct SimpleReflexAgent;

impl SimpleReflexAgent {
    /// Makes the stateless reflex agent.
    pub fn new() -> SimpleReflexAgent {
        SimpleReflexAgent {  }
    }
}

impl Agent for SimpleReflexAgent {
    open spec fn action_of(&self, state: State) -> Action {
        if state.dirty {
            Action::Clean
        } else if state.location == 0 {
            Action::Move(1)
        } else {
            Action::Move(0)
        }
    }

    fn act(&mut self, environment_state: &State) -> (action: Action) {
        let State { dirty, location } = *environment_state;
        if dirty {
            return Action::Clean;
        }
        match location {
            0 => Action::Move(1),
            _ => Action::Move(0),
        }
    }
}

} // verus!
