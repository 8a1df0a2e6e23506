use graph_search::graph::{Location, StringNode, UndirectedGraph, UndirectedGraphImpl};
use graph_search::search::{
    GenericSearchProblem, RandomSearchSolver, RomaniaSearchProblem, RomaniaState, SearchProblem,
    SolveError,
};

fn node(key: &str) -> StringNode {
    StringNode::from(key.to_string())
}

fn nodes_table(keys: &[&str]) -> Vec<(String, Location)> {
    keys.iter().map(|k| (k.to_string(), Location(0, 0))).collect()
}

fn entry(parent: &str, children: &[(&str, i64)]) -> (String, Vec<(String, i64)>) {
    (
        parent.to_string(),
        children.iter().map(|(c, w)| (c.to_string(), *w)).collect(),
    )
}

/// A-B weight 4, B-C weight 6, A-D weight 9.
fn scenario_graph() -> UndirectedGraphImpl {
    let nodes = nodes_table(&["A", "B", "C", "D"]);
    let distances = vec![
        entry("A", &[("B", 4)]),
        entry("B", &[("C", 6)]),
        entry("A", &[("D", 9)]),
    ];
    UndirectedGraphImpl::new(nodes, distances).unwrap()
}

/// The weight of the connection between two nodes, looked up over the
/// graph's own adjacency answers.
fn weight_between(graph: &UndirectedGraphImpl, a: &StringNode, b: &StringNode) -> i64 {
    graph
        .get_connections(a)
        .iter()
        .find(|t| t.0 == *b)
        .map(|t| t.1)
        .expect("consecutive path nodes must be connected")
}

#[test]
fn concrete_scenario_reaches_goal_with_accounted_cost() {
    let graph = scenario_graph();
    let start = node("A");
    let goal = node("C");
    let problem = GenericSearchProblem::new(&start, &goal, &graph);
    let mut solver = RandomSearchSolver::new(7, 10_000);
    let result = solver.solve(&problem).expect("a path from A to C exists");
    assert_eq!(result.path.first().unwrap().0, "A");
    assert_eq!(result.path.last().unwrap().0, "C");
    let mut recomputed: u128 = 0;
    for pair in result.path.windows(2) {
        recomputed += weight_between(&graph, &pair[0], &pair[1]) as u128;
    }
    assert_eq!(result.cost, recomputed);
    // A cheapest route is [A, B, C] with cost 10; no walk can do better.
    assert!(result.cost >= 10);
    if result.path.len() == 3 {
        assert_eq!(result.cost, 10);
    }
}

#[test]
fn immediate_goal_is_answered_without_a_step() {
    let graph = scenario_graph();
    let start = node("A");
    let problem = GenericSearchProblem::new(&start, &start, &graph);
    let mut solver = RandomSearchSolver::new(1, 0);
    let result = solver.solve(&problem).expect("the initial state is the goal");
    assert_eq!(result.path.len(), 1);
    assert_eq!(result.path[0].0, "A");
    assert_eq!(result.cost, 0);
}

#[test]
fn isolated_start_is_a_dead_end() {
    let nodes = nodes_table(&["A", "B", "E"]);
    let distances = vec![entry("A", &[("B", 4)])];
    let graph = UndirectedGraphImpl::new(nodes, distances).unwrap();
    let start = node("E");
    let goal = node("B");
    let problem = GenericSearchProblem::new(&start, &goal, &graph);
    let mut solver = RandomSearchSolver::new(3, 50);
    match solver.solve(&problem) {
        Err(SolveError::DeadEnd(n)) => assert_eq!(n.0, "E"),
        other => panic!("expected a dead end, got {:?}", other),
    }
}

#[test]
fn unreachable_goal_exhausts_the_step_budget() {
    let nodes = nodes_table(&["A", "B", "C"]);
    let distances = vec![entry("A", &[("B", 4)])];
    let graph = UndirectedGraphImpl::new(nodes, distances).unwrap();
    let start = node("A");
    let goal = node("C");
    let problem = GenericSearchProblem::new(&start, &goal, &graph);
    let mut solver = RandomSearchSolver::new(11, 50);
    match solver.solve(&problem) {
        Err(SolveError::StepLimitExceeded) => {},
        other => panic!("expected the step budget to run out, got {:?}", other),
    }
}

#[test]
fn seeded_runs_are_reproducible() {
    let graph = scenario_graph();
    let start = node("A");
    let goal = node("C");
    let problem = GenericSearchProblem::new(&start, &goal, &graph);
    let mut first = RandomSearchSolver::new(42, 10_000);
    let mut second = RandomSearchSolver::new(42, 10_000);
    let a = first.solve(&problem).expect("a path from A to C exists");
    let b = second.solve(&problem).expect("a path from A to C exists");
    assert_eq!(a.path, b.path);
    assert_eq!(a.cost, b.cost);
}

#[test]
fn romania_walk_reaches_bucharest() {
    let problem = RomaniaSearchProblem::init();
    assert_eq!(problem.initial_state().0, "Arad");
    assert!(problem.is_goal(&node("Bucharest")));
    assert!(!problem.is_goal(&node("Arad")));
    let mut solver = RandomSearchSolver::new(2024, 1_000_000);
    let result = solver.solve(&problem).expect("Bucharest is reachable from Arad");
    assert_eq!(result.path.first().unwrap().0, "Arad");
    assert_eq!(result.path.last().unwrap().0, "Bucharest");
    // The cheapest route in these tables runs over Sibiu, Rimnicu
    // Vilcea and Pitesti, at cost 428; no walk can do better.
    assert!(result.cost >= 428);
}

#[test]
fn romania_connections_answer_both_directions() {
    let problem = RomaniaSearchProblem::init();
    match problem.find_connection(&node("Arad"), &node("Sibiu")) {
        Some(to) => {
            assert_eq!(to.0 .0, "Sibiu");
            assert_eq!(to.1, 150);
        },
        None => panic!("Arad and Sibiu are connected"),
    }
    match problem.find_connection(&node("Sibiu"), &node("Arad")) {
        Some(to) => {
            assert_eq!(to.0 .0, "Arad");
            assert_eq!(to.1, 150);
        },
        None => panic!("Sibiu and Arad are connected"),
    }
    assert!(problem.find_connection(&node("Arad"), &node("Bucharest")).is_none());
    let from_bucharest = problem.find_connections(&node("Bucharest"));
    let keys: Vec<String> = from_bucharest.iter().map(|t| t.0 .0.clone()).collect();
    assert_eq!(keys, vec!["Pitesti", "Giurgiu", "Urzieni"]);
}

#[test]
fn romania_states_name_their_nodes() {
    assert_eq!(RomaniaState::Arad.node().0, "Arad");
    assert_eq!(RomaniaState::RimnicuVilcea.node().0, "RimnicuVilcea");
    assert!(RomaniaState::Arad == RomaniaState::Arad);
    assert!(RomaniaState::Arad != RomaniaState::Neamt);
}

#[test]
fn transitions_report_the_connection_weight() {
    let graph = scenario_graph();
    let start = node("A");
    let goal = node("C");
    let problem = GenericSearchProblem::new(&start, &goal, &graph);
    let actions = problem.actions(&node("B"));
    assert_eq!(actions.len(), 2);
    let mut reached: Vec<(String, i64)> = Vec::new();
    for action in &actions {
        let t = problem.transition_model(&node("B"), action);
        reached.push((t.to.0.clone(), t.step_cost));
    }
    assert_eq!(reached, vec![("A".to_string(), 4), ("C".to_string(), 6)]);
}
