//! A demonstration environment for reactive agents: a row of two
//! squares, each possibly dirty, and a robot that an agent steers.

use vstd::prelude::*;

use crate::agents::{Action, Agent};

verus! {

/// One square of the floor: either dirty or clean.
#[derive(Debug)]
struct Square {
    dirty: bool,
}

/// Relies on rand::random::<bool>: draws an arbitrary boolean from the
/// thread-local generator. Nothing is assumed of the value.
#[verifier::external_body]
fn random_bool() -> bool {
    rand::random()
}

/// Relies on rand::random_range on a non-empty integer range: the drawn
/// value lies in the range; the call panics only on an empty range,
/// which the precondition rules out.
#[verifier::external_body]
fn random_below(n: usize) -> (r: usize)
    requires
        n >= 1,
    ensures
        r < n,
{
    rand::random_range(0..n)
}

impl Square {
    /// A fresh square whose dirtiness is drawn at random.
    fn random() -> Square {
        Square { dirty: random_bool() }
    }
}

/// What the robot observes: whether its square is dirty, and where it
/// stands.
#[derive(Clone, Copy, Debug, PartialEq, Eq, Structural)]
pub struct State {
    pub dirty: bool,
    pub location: usize,
}

/// A world an agent acts in, run for a number of rounds.
pub trait Environment: Sized {
    /// The environment is internally consistent.
    spec fn inv(&self) -> bool;

    /// A run of this many rounds stays within machine limits.
    spec fn can_run(&self, interval: i32) -> bool;

    /// The state the robot observes.
    spec fn observed(&self) -> State;

    /// Runs the loop of observing, acting and scoring for `interval`
    /// rounds.
    fn run(&mut self, interval: i32)
        requires
            old(self).inv(),
            old(self).can_run(interval),
        ensures
            final(self).inv(),
    ;

    /// What the robot observes right now.
    fn get_state(&self) -> (state: State)
        requires
            self.inv(),
        ensures
            state == self.observed(),
    ;
}

/// Two squares with randomly drawn dirtiness, a robot at a randomly
/// drawn start square, and the agent that steers it. Each round, every
/// clean square scores one point.
#[derive(Debug)]
pub struct RandomEnvironment<A: Agent> {
    squares: Vec<Square>,
    clean_square_count: i64,
    robot_location: usize,
    agent: A,
}

impl<A: Agent> RandomEnvironment<A> {
    /// The score so far: one point per clean square per round run.
    pub closed spec fn score(&self) -> int {
        self.clean_square_count as int
    }

    /// Draws a fresh two-square world and hands it to the given agent.
    pub fn new(agent: A) -> (env: RandomEnvironment<A>)
        ensures
            env.inv(),
            env.score() == 0,
    {
        let mut squares: Vec<Square> = Vec::new();
        squares.push(Square::random());
        squares.push(Square::random());
        let robot_location = random_below(2);
        RandomEnvironment { squares, clean_square_count: 0, robot_location, agent }
    }
}

impl<A: Agent> Environment for RandomEnvironment<A> {
    closed spec fn inv(&self) -> bool {
        &&& self.squares@.len() == 2
        &&& self.robot_location < 2
        &&& 0 <= self.clean_square_count
    }

    closed spec fn can_run(&self, interval: i32) -> bool {
        self.clean_square_count + 2 * (interval as int) <= i64::MAX
    }

    closed spec fn observed(&self) -> State {
        State { dirty: self.squares@[self.robot_location as int].dirty, location: self.robot_location }
    }

    /// Each round the agent sees the robot's square and reacts: a move
    /// anywhere beyond the squares is ignored, so the world stays
    /// consistent; a clean wipes the robot's square. Every clean square
    /// then scores one point.
    fn run(&mut self, interval: i32)
        ensures
            old(self).score() <= final(self).score(),
    {
        let mut t: i32 = 0;
        while t < interval
            invariant
                self.inv(),
                0 <= t,
                interval >= 0 ==> t <= interval,
                interval < 0 ==> t == 0,
                old(self).score() <= self.score(),
                self.score() <= old(self).score() + 2 * (t as int),
                old(self).can_run(interval),
            decreases interval - t,
        {
            let state = self.get_state();
            let action = self.agent.act(&state);
            match action {
                Action::Move(x) => {
                    if x < self.squares.len() {
                        self.robot_location = x;
                    }
                },
                Action::Clean => {
                    let at = self.robot_location;
                    self.squares[at].dirty = false;
                },
            }
            let mut clean_count: i64 = 0;
            if !self.squares[0].dirty {
                clean_count += 1;
            }
            if !self.squares[1].dirty {
                clean_count += 1;
            }
            self.clean_square_count = self.clean_square_count + clean_count;
            t += 1;
        }
    }

    fn get_state(&self) -> (state: State) {
        State { dirty: self.squares[self.robot_location].dirty, location: self.robot_location }
    }
}

} // verus!
