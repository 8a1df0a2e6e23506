//! The search-problem formulation and the solver abstraction, with the
//! baseline unguided random-walk strategy.

use vstd::prelude::*;
use vstd::string::StringExecFns;

use crate::graph::{
    edge_weights_ok, lemma_neighbor_weights_ok, neighbor_weight, romania_edges, romania_keys,
    spec_neighbors, tos_view, StringNode, To, UndirectedGraph, UndirectedGraphImpl,
};

verus! {

/// One step a solver may take from a state.
#[derive(Debug)]
pub enum Action {
    /// Move to the neighbouring node.
    To(StringNode),
}

/// The key of the node an action moves to.
pub open spec fn action_key(action: Action) -> Seq<char> {
    match action {
        Action::To(node) => node.key(),
    }
}

/// The outcome of applying one action in one state: the state reached
/// and the cost of the step.
#[derive(Debug)]
pub struct Transition<T> {
    pub to: T,
    pub step_cost: i64,
}

/// A search problem: an initial state, a goal predicate, and the moves
/// each state offers. The goal is an arbitrary predicate over nodes;
/// equality against a fixed target is only the common case.
pub trait SearchProblem: Sized {
    /// The problem is fit to search: every step cost it answers is
    /// non-negative.
    spec fn wf(&self) -> bool;

    /// The key of the designated start node.
    spec fn initial_key(&self) -> Seq<char>;

    /// The goal predicate, over node keys.
    spec fn goal_pred(&self, key: Seq<char>) -> bool;

    /// The keys reachable from a key in one step, in adjacency order.
    spec fn neighbor_keys(&self, key: Seq<char>) -> Seq<Seq<char>>;

    /// The cost of the step between two keys.
    spec fn weight(&self, from: Seq<char>, to: Seq<char>) -> int;

    /// The designated start node.
    fn initial_state(&self) -> (state: &StringNode)
        requires
            self.wf(),
        ensures
            state.key() == self.initial_key(),
    ;

    /// Every move available in `state`, one per incident connection.
    fn actions(&self, state: &StringNode) -> (acts: Vec<Action>)
        requires
            self.wf(),
        ensures
            acts@.len() == self.neighbor_keys(state.key()).len(),
            forall|i: int|
                0 <= i < acts@.len() ==> action_key(#[trigger] acts@[i]) == self.neighbor_keys(
                    state.key(),
                )[i],
    ;

    /// Applies one available action to a state.
    fn transition_model(&self, state: &StringNode, action: &Action) -> (t: Transition<StringNode>)
        requires
            self.wf(),
            self.neighbor_keys(state.key()).contains(action_key(*action)),
        ensures
            t.to.key() == action_key(*action),
            t.step_cost == self.weight(state.key(), action_key(*action)),
            0 <= t.step_cost,
    ;

    /// Whether a state satisfies the goal predicate. Pure: no state is
    /// changed by asking.
    fn is_goal(&self, state: &StringNode) -> (b: bool)
        requires
            self.wf(),
        ensures
            b == self.goal_pred(state.key()),
    ;
}

/// The moves a graph offers from a state, one per incident connection,
/// in adjacency order.
fn graph_actions<G: UndirectedGraph>(graph: &G, state: &StringNode) -> (acts: Vec<Action>)
    ensures
        acts@.len() == spec_neighbors(graph.edges(), state.key()).len(),
        forall|i: int|
            0 <= i < acts@.len() ==> action_key(#[trigger] acts@[i]) == spec_neighbors(
                graph.edges(),
                state.key(),
            )[i].0,
{
    let tos = graph.get_connections(state);
    let mut acts: Vec<Action> = Vec::new();
    let mut i: usize = 0;
    while i < tos.len()
        invariant
            tos_view(tos@) == spec_neighbors(graph.edges(), state.key()),
            i <= tos@.len(),
            acts@.len() == i,
            forall|j: int|
                0 <= j < i ==> action_key(#[trigger] acts@[j]) == spec_neighbors(
                    graph.edges(),
                    state.key(),
                )[j].0,
        decreases tos@.len() - i,
    {
        proof {
            assert(tos_view(tos@)[i as int] == (tos@[i as int].0.key(), tos@[i as int].1 as int));
        }
        acts.push(Action::To(tos[i].0.clone()));
        i += 1;
    }
    acts
}

/// The step a graph prescribes for one available action: the first
/// stored connection between the two keys gives the cost.
fn graph_transition<G: UndirectedGraph>(graph: &G, state: &StringNode, action: &Action) -> (t:
    Transition<StringNode>)
    requires
        edge_weights_ok(graph.edges()),
        spec_neighbors(graph.edges(), state.key()).map_values(|p: (Seq<char>, int)| p.0).contains(
            action_key(*action),
        ),
    ensures
        t.to.key() == action_key(*action),
        t.step_cost == neighbor_weight(spec_neighbors(graph.edges(), state.key()), action_key(*action)),
        0 <= t.step_cost,
{
    let ghost neighbors = spec_neighbors(graph.edges(), state.key());
    match action {
        Action::To(target) => {
            let tos = graph.get_connections(state);
            let mut i: usize = 0;
            proof {
                assert(neighbors.skip(0) =~= neighbors);
            }
            while i < tos.len()
                invariant
                    tos_view(tos@) == neighbors,
                    neighbors == spec_neighbors(graph.edges(), state.key()),
                    target.key() == action_key(*action),
                    edge_weights_ok(graph.edges()),
                    i <= tos@.len(),
                    forall|j: int| 0 <= j < i ==> (#[trigger] neighbors[j]).0 != target.key(),
                    neighbor_weight(neighbors, target.key()) == neighbor_weight(
                        neighbors.skip(i as int),
                        target.key(),
                    ),
                decreases tos@.len() - i,
            {
                proof {
                    assert(tos_view(tos@)[i as int] == (
                        tos@[i as int].0.key(),
                        tos@[i as int].1 as int,
                    ));
                    assert(neighbors.skip(i as int).first() == neighbors[i as int]);
                }
                if tos[i].0 == *target {
                    proof {
                        lemma_neighbor_weights_ok(graph.edges(), state.key());
                        assert(neighbor_weight(neighbors, target.key()) == neighbors[i as int].1);
                    }
                    return Transition { to: tos[i].0.clone(), step_cost: tos[i].1 };
                }
                proof {
                    assert(neighbors.skip(i as int).drop_first() =~= neighbors.skip(i + 1 as int));
                }
                i += 1;
            }
            proof {
                let mapped = neighbors.map_values(|p: (Seq<char>, int)| p.0);
                let j = choose|j: int| 0 <= j < mapped.len() && mapped[j] == action_key(*action);
                assert(neighbors[j].0 == target.key());
                assert(false);
            }
            vstd::pervasive::unreached()
        },
    }
}

/// A search problem over a borrowed graph: start at `initial_state`,
/// stop at the node equal to `goal`.
pub struct GenericSearchProblem<'a, G: UndirectedGraph> {
    pub graph: &'a G,
    pub initial_state: StringNode,
    pub goal: StringNode,
}

impl<'a, G: UndirectedGraph> GenericSearchProblem<'a, G> {
    /// Binds a graph, a start node and a target node into a problem.
    pub fn new(initial_state: &StringNode, goal: &StringNode, graph: &'a G) -> (problem: Self)
        ensures
            problem.graph == graph,
            problem.initial_state == *initial_state,
            problem.goal == *goal,
    {
        GenericSearchProblem { graph, initial_state: initial_state.clone(), goal: goal.clone() }
    }
}

impl<'a, G: UndirectedGraph> SearchProblem for GenericSearchProblem<'a, G> {
    open spec fn wf(&self) -> bool {
        edge_weights_ok(self.graph.edges())
    }

    open spec fn initial_key(&self) -> Seq<char> {
        self.initial_state.key()
    }

    open spec fn goal_pred(&self, key: Seq<char>) -> bool {
        key == self.goal.key()
    }

    open spec fn neighbor_keys(&self, key: Seq<char>) -> Seq<Seq<char>> {
        spec_neighbors(self.graph.edges(), key).map_values(|p: (Seq<char>, int)| p.0)
    }

    open spec fn weight(&self, from: Seq<char>, to: Seq<char>) -> int {
        neighbor_weight(spec_neighbors(self.graph.edges(), from), to)
    }

    fn initial_state(&self) -> (state: &StringNode) {
        &self.initial_state
    }

    fn actions(&self, state: &StringNode) -> (acts: Vec<Action>) {
        graph_actions(self.graph, state)
    }

    fn transition_model(&self, state: &StringNode, action: &Action) -> (t: Transition<StringNode>) {
        graph_transition(self.graph, state, action)
    }

    fn is_goal(&self, state: &StringNode) -> (b: bool) {
        *state == self.goal
    }
}

/// The cities of the Romania road map, as a closed enumeration.
#[derive(Clone, Copy, Debug, PartialEq, Eq, Structural)]
pub enum RomaniaState {
    Oradea,
    Zerind,
    Arad,
    Timisoara,
    Lugoj,
    Mehadia,
    Drobeta,
    Craiova,
    RimnicuVilcea,
    Sibiu,
    Fagarus,
    Pitesti,
    Bucharest,
    Giurgiu,
    Urzieni,
    Hirsova,
    Eforie,
    Vaslui,
    Iasi,
    Neamt,
}

impl RomaniaState {
    /// The node key of this city.
    pub open spec fn spec_key(self) -> Seq<char> {
        match self {
            RomaniaState::Oradea => "Oradea"@,
            RomaniaState::Zerind => "Zerind"@,
            RomaniaState::Arad => "Arad"@,
            RomaniaState::Timisoara => "Timisoara"@,
            RomaniaState::Lugoj => "Lugoj"@,
            RomaniaState::Mehadia => "Mehadia"@,
            RomaniaState::Drobeta => "Drobeta"@,
            RomaniaState::Craiova => "Craiova"@,
            RomaniaState::RimnicuVilcea => "RimnicuVilcea"@,
            RomaniaState::Sibiu => "Sibiu"@,
            RomaniaState::Fagarus => "Fagarus"@,
            RomaniaState::Pitesti => "Pitesti"@,
            RomaniaState::Bucharest => "Bucharest"@,
            RomaniaState::Giurgiu => "Giurgiu"@,
            RomaniaState::Urzieni => "Urzieni"@,
            RomaniaState::Hirsova => "Hirsova"@,
            RomaniaState::Eforie => "Eforie"@,
            RomaniaState::Vaslui => "Vaslui"@,
            RomaniaState::Iasi => "Iasi"@,
            RomaniaState::Neamt => "Neamt"@,
        }
    }

    /// This city as a graph node.
    pub fn node(self) -> (node: StringNode)
        ensures
            node.key() == self.spec_key(),
    {
        match self {
            RomaniaState::Oradea => StringNode::from(String::from_str("Oradea")),
            RomaniaState::Zerind => StringNode::from(String::from_str("Zerind")),
            RomaniaState::Arad => StringNode::from(String::from_str("Arad")),
            RomaniaState::Timisoara => StringNode::from(String::from_str("Timisoara")),
            RomaniaState::Lugoj => StringNode::from(String::from_str("Lugoj")),
            RomaniaState::Mehadia => StringNode::from(String::from_str("Mehadia")),
            RomaniaState::Drobeta => StringNode::from(String::from_str("Drobeta")),
            RomaniaState::Craiova => StringNode::from(String::from_str("Craiova")),
            RomaniaState::RimnicuVilcea => StringNode::from(String::from_str("RimnicuVilcea")),
            RomaniaState::Sibiu => StringNode::from(String::from_str("Sibiu")),
            RomaniaState::Fagarus => StringNode::from(String::from_str("Fagarus")),
            RomaniaState::Pitesti => StringNode::from(String::from_str("Pitesti")),
            RomaniaState::Bucharest => StringNode::from(String::from_str("Bucharest")),
            RomaniaState::Giurgiu => StringNode::from(String::from_str("Giurgiu")),
            RomaniaState::Urzieni => StringNode::from(String::from_str("Urzieni")),
            RomaniaState::Hirsova => StringNode::from(String::from_str("Hirsova")),
            RomaniaState::Eforie => StringNode::from(String::from_str("Eforie")),
            RomaniaState::Vaslui => StringNode::from(String::from_str("Vaslui")),
            RomaniaState::Iasi => StringNode::from(String::from_str("Iasi")),
            RomaniaState::Neamt => StringNode::from(String::from_str("Neamt")),
        }
    }
}

/// The classic route-finding problem over the Romania road map: start
/// at Arad, stop at Bucharest.
pub struct RomaniaSearchProblem {
    pub graph: UndirectedGraphImpl,
    pub initial_state: StringNode,
    pub goal: StringNode,
}

impl RomaniaSearchProblem {
    /// Builds the Romania graph and binds it to the Arad-to-Bucharest
    /// route question.
    pub fn init() -> (problem: RomaniaSearchProblem)
        ensures
            problem.wf(),
            problem.graph.edges() == romania_edges(),
            problem.graph.node_keys() == romania_keys(),
            problem.initial_key() == "Arad"@,
            forall|k: Seq<char>| #[trigger] problem.goal_pred(k) <==> k == "Bucharest"@,
    {
        let graph = match UndirectedGraphImpl::romania() {
            Ok(g) => g,
            Err(_) => vstd::pervasive::unreached(),
        };
        RomaniaSearchProblem {
            graph,
            initial_state: RomaniaState::Arad.node(),
            goal: RomaniaState::Bucharest.node(),
        }
    }

    /// Every connection incident to a state, with the other endpoint
    /// and the weight.
    pub fn find_connections(&self, state: &StringNode) -> (res: Vec<To<StringNode>>)
        ensures
            tos_view(res@) == spec_neighbors(self.graph.edges(), state.key()),
    {
        self.graph.get_connections(state)
    }

    /// The first stored connection between two states, if any, as the
    /// second endpoint and the weight.
    pub fn find_connection(&self, from: &StringNode, to: &StringNode) -> (res: Option<
        To<StringNode>,
    >)
        ensures
            match res {
                Some(t) => t.0.key() == to.key() && t.1 as int == neighbor_weight(
                    spec_neighbors(self.graph.edges(), from.key()),
                    to.key(),
                ) && self.neighbor_keys(from.key()).contains(to.key()),
                None => !self.neighbor_keys(from.key()).contains(to.key()),
            },
    {
        let ghost neighbors = spec_neighbors(self.graph.edges(), from.key());
        let tos = self.graph.get_connections(from);
        let mut i: usize = 0;
        proof {
            assert(neighbors.skip(0) =~= neighbors);
        }
        while i < tos.len()
            invariant
                tos_view(tos@) == neighbors,
                neighbors == spec_neighbors(self.graph.edges(), from.key()),
                i <= tos@.len(),
                forall|j: int| 0 <= j < i ==> (#[trigger] neighbors[j]).0 != to.key(),
                neighbor_weight(neighbors, to.key()) == neighbor_weight(
                    neighbors.skip(i as int),
                    to.key(),
                ),
            decreases tos@.len() - i,
        {
            proof {
                assert(tos_view(tos@)[i as int] == (
                    tos@[i as int].0.key(),
                    tos@[i as int].1 as int,
                ));
                assert(neighbors.skip(i as int).first() == neighbors[i as int]);
            }
            if tos[i].0 == *to {
                proof {
                    assert(self.neighbor_keys(from.key())[i as int] == to.key());
                }
                return Some(To(tos[i].0.clone(), tos[i].1));
            }
            proof {
                assert(neighbors.skip(i as int).drop_first() =~= neighbors.skip(i + 1 as int));
            }
            i += 1;
        }
        proof {
            assert forall|j: int| 0 <= j < self.neighbor_keys(from.key()).len() implies (
            #[trigger] self.neighbor_keys(from.key())[j]) != to.key() by {
                assert(self.neighbor_keys(from.key())[j] == neighbors[j].0);
            }
        }
        None
    }
}

impl SearchProblem for RomaniaSearchProblem {
    open spec fn wf(&self) -> bool {
        edge_weights_ok(self.graph.edges())
    }

    open spec fn initial_key(&self) -> Seq<char> {
        self.initial_state.key()
    }

    open spec fn goal_pred(&self, key: Seq<char>) -> bool {
        key == self.goal.key()
    }

    open spec fn neighbor_keys(&self, key: Seq<char>) -> Seq<Seq<char>> {
        spec_neighbors(self.graph.edges(), key).map_values(|p: (Seq<char>, int)| p.0)
    }

    open spec fn weight(&self, from: Seq<char>, to: Seq<char>) -> int {
        neighbor_weight(spec_neighbors(self.graph.edges(), from), to)
    }

    fn initial_state(&self) -> (state: &StringNode) {
        &self.initial_state
    }

    fn actions(&self, state: &StringNode) -> (acts: Vec<Action>) {
        graph_actions(&self.graph, state)
    }

    fn transition_model(&self, state: &StringNode, action: &Action) -> (t: Transition<StringNode>) {
        graph_transition(&self.graph, state, action)
    }

    fn is_goal(&self, state: &StringNode) -> (b: bool) {
        *state == self.goal
    }
}

/// A path reduced to the keys of its nodes, in walk order.
pub open spec fn path_keys(path: Seq<StringNode>) -> Seq<Seq<char>> {
    path.map_values(|n: StringNode| n.key())
}

/// Each consecutive pair of keys is one available step of the problem.
pub open spec fn valid_walk<P: SearchProblem>(problem: P, keys: Seq<Seq<char>>) -> bool {
    forall|i: int|
        0 <= i < keys.len() - 1 ==> problem.neighbor_keys(#[trigger] keys[i]).contains(keys[i + 1])
}

/// The cost of a walk: the sum of the step costs between consecutive
/// keys.
pub open spec fn walk_cost<P: SearchProblem>(problem: P, keys: Seq<Seq<char>>) -> int
    decreases keys.len(),
{
    if keys.len() <= 1 {
        0
    } else {
        walk_cost(problem, keys.drop_last()) + problem.weight(
            keys[keys.len() - 2],
            keys[keys.len() - 1],
        )
    }
}

/// A walk that starts at the initial state, takes only available steps,
/// and never touches a goal state.
pub open spec fn goalless_walk<P: SearchProblem>(problem: P, keys: Seq<Seq<char>>) -> bool {
    &&& keys.len() >= 1
    &&& keys[0] == problem.initial_key()
    &&& valid_walk(problem, keys)
    &&& forall|i: int| 0 <= i < keys.len() ==> !problem.goal_pred(#[trigger] keys[i])
}

/// What a successful solver invocation hands back: the path taken, from
/// the initial state to a goal state, and the accumulated cost.
#[derive(Debug)]
pub struct SearchResult {
    pub path: Vec<StringNode>,
    pub cost: u128,
}

/// A typed solver failure; never a process abort.
#[derive(Debug)]
pub enum SolveError {
    /// The walk reached this node, which offers no connection to
    /// continue over.
    DeadEnd(StringNode),
    /// The configured step budget ran out before a goal state was
    /// reached.
    StepLimitExceeded,
    /// A systematic strategy proved that no path exists. The baseline
    /// random walk cannot prove that and never answers this.
    UnreachableGoal,
}

#[verifier::external_type_specification]
#[verifier::external_body]
pub struct ExStdRng(rand::rngs::StdRng);

/// Relies on rand::SeedableRng::seed_from_u64 for rand::rngs::StdRng:
/// builds a generator from a seed and never panics. Nothing is assumed
/// of the values the generator will produce.
#[verifier::external_body]
fn rng_from_seed(seed: u64) -> rand::rngs::StdRng {
    <rand::rngs::StdRng as rand::SeedableRng>::seed_from_u64(seed)
}

/// Relies on rand::RngExt::random_range: the drawn value lies in the
/// given range, and the call panics only on an empty range, which the
/// precondition rules out. Which value comes back is not assumed: two
/// calls on equal arguments may differ.
#[verifier::external_body]
fn draw_index(rng: &mut rand::rngs::StdRng, n: usize) -> (r: usize)
    requires
        n >= 1,
    ensures
        r < n,
{
    rand::RngExt::random_range(rng, 0..n)
}

/// The baseline strategy: an unguided random walk. It owns its random
/// source, seeded at construction, so that runs are reproducible and
/// concurrent invocations share no entropy state; and it carries a step
/// budget, since an unguided walk has no termination guarantee of its
/// own.
#[derive(Debug)]
pub struct RandomSearchSolver {
    rng: rand::rngs::StdRng,
    max_steps: usize,
}

impl RandomSearchSolver {
    /// The configured step budget.
    pub closed spec fn step_limit(&self) -> usize {
        self.max_steps
    }

    /// Makes a solver around a freshly seeded random source and a step
    /// budget.
    pub fn new(seed: u64, max_steps: usize) -> (solver: RandomSearchSolver)
        ensures
            solver.step_limit() == max_steps,
    {
        RandomSearchSolver { rng: rng_from_seed(seed), max_steps }
    }

    /// Walks from the initial state, drawing each step uniformly among
    /// the available connections, until a goal state is reached, a node
    /// without connections blocks the walk, or the step budget runs
    /// out. An initial state that already satisfies the goal is
    /// answered at once, with a one-node path and cost zero.
    pub fn solve<P: SearchProblem>(&mut self, search_problem: &P) -> (res: Result<
        SearchResult,
        SolveError,
    >)
        requires
            search_problem.wf(),
        ensures
            final(self).step_limit() == old(self).step_limit(),
            match res {
                Ok(r) => {
                    &&& 1 <= r.path@.len() <= old(self).step_limit() + 1
                    &&& path_keys(r.path@)[0] == search_problem.initial_key()
                    &&& search_problem.goal_pred(path_keys(r.path@).last())
                    &&& forall|i: int|
                        0 <= i < r.path@.len() - 1 ==> !search_problem.goal_pred(
                            #[trigger] path_keys(r.path@)[i],
                        )
                    &&& valid_walk(*search_problem, path_keys(r.path@))
                    &&& r.cost == walk_cost(*search_problem, path_keys(r.path@))
                },
                Err(SolveError::DeadEnd(node)) => {
                    &&& search_problem.neighbor_keys(node.key()).len() == 0
                    &&& !search_problem.goal_pred(node.key())
                    &&& exists|keys: Seq<Seq<char>>|
                        goalless_walk(*search_problem, keys) && keys.last() == node.key()
                },
                Err(SolveError::StepLimitExceeded) => exists|keys: Seq<Seq<char>>|
                    goalless_walk(*search_problem, keys) && keys.len() == old(self).step_limit()
                        + 1,
                Err(SolveError::UnreachableGoal) => false,
            },
            search_problem.goal_pred(search_problem.initial_key()) ==> (res matches Ok(r)
                && r.path@.len() == 1 && r.cost == 0),
    {
        let limit = self.max_steps;
        let initial = search_problem.initial_state();
        let mut current: StringNode = initial.clone();
        let mut path: Vec<StringNode> = Vec::new();
        path.push(initial.clone());
        if search_problem.is_goal(&current) {
            return Ok(SearchResult { path, cost: 0 });
        }
        let mut cost: u128 = 0;
        let mut steps: usize = 0;
        while steps < limit
            invariant
                search_problem.wf(),
                self.step_limit() == old(self).step_limit(),
                limit == old(self).step_limit(),
                steps <= limit,
                path@.len() == steps + 1,
                current == path@.last(),
                path_keys(path@)[0] == search_problem.initial_key(),
                valid_walk(*search_problem, path_keys(path@)),
                cost == walk_cost(*search_problem, path_keys(path@)),
                cost <= (steps as int) * (i64::MAX as int),
                forall|i: int|
                    0 <= i < path@.len() ==> !search_problem.goal_pred(
                        #[trigger] path_keys(path@)[i],
                    ),
            decreases limit - steps,
        {
            let acts = search_problem.actions(&current);
            if acts.len() == 0 {
                proof {
                    assert(goalless_walk(*search_problem, path_keys(path@)) && path_keys(
                        path@,
                    ).last() == current.key());
                }
                return Err(SolveError::DeadEnd(current));
            }
            let chosen = draw_index(&mut self.rng, acts.len());
            proof {
                assert(action_key(acts@[chosen as int]) == search_problem.neighbor_keys(
                    current.key(),
                )[chosen as int]);
                assert(search_problem.neighbor_keys(current.key()).contains(
                    action_key(acts@[chosen as int]),
                ));
            }
            let transition = search_problem.transition_model(&current, &acts[chosen]);
            proof {
                assert(cost + transition.step_cost <= ((steps + 1) as int) * (i64::MAX as int));
                assert(((steps + 1) as int) * (i64::MAX as int) <= 0x1_0000_0000_0000_0000int * (
                i64::MAX as int));
            }
            cost = cost + (transition.step_cost as u128);
            let ghost old_keys = path_keys(path@);
            path.push(transition.to.clone());
            proof {
                let new_keys = path_keys(path@);
                assert(new_keys =~= old_keys.push(transition.to.key()));
                assert(new_keys.drop_last() =~= old_keys);
                assert(new_keys[new_keys.len() - 2] == current.key());
                assert(cost == walk_cost(*search_problem, new_keys));
                assert forall|i: int| 0 <= i < new_keys.len() - 1 implies search_problem
                    .neighbor_keys(#[trigger] new_keys[i]).contains(new_keys[i + 1]) by {
                    if i < old_keys.len() - 1 {
                        assert(old_keys[i] == new_keys[i] && old_keys[i + 1] == new_keys[i + 1]);
                    } else {
                        assert(new_keys[i] == current.key());
                    }
                }
            }
            current = transition.to;
            steps = steps + 1;
            if search_problem.is_goal(&current) {
                return Ok(SearchResult { path, cost });
            }
        }
        proof {
            assert(goalless_walk(*search_problem, path_keys(path@)) && path_keys(path@).len()
                == old(self).step_limit() + 1);
        }
        Err(SolveError::StepLimitExceeded)
    }
}

} // verus!
