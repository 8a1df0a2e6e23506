use graph_search::graph::{
    ConfigError, Location, StringNode, To, UndirectedGraph, UndirectedGraphImpl,
};

fn node(key: &str) -> StringNode {
    StringNode::from(key.to_string())
}

fn nodes_table(keys: &[&str]) -> Vec<(String, Location)> {
    keys.iter().map(|k| (k.to_string(), Location(0, 0))).collect()
}

fn entry(parent: &str, children: &[(&str, i64)]) -> (String, Vec<(String, i64)>) {
    (
        parent.to_string(),
        children.iter().map(|(c, w)| (c.to_string(), *w)).collect(),
    )
}

/// The small graph of the concrete scenario: A-B weight 4, B-C weight 6,
/// A-D weight 9, plus an isolated node E.
fn small_graph() -> UndirectedGraphImpl {
    let nodes = nodes_table(&["A", "B", "C", "D", "E"]);
    let distances = vec![
        entry("A", &[("B", 4)]),
        entry("B", &[("C", 6)]),
        entry("A", &[("D", 9)]),
    ];
    UndirectedGraphImpl::new(nodes, distances).unwrap()
}

fn keys_and_weights(tos: &[To<StringNode>]) -> Vec<(String, i64)> {
    tos.iter().map(|t| (t.0 .0.clone(), t.1)).collect()
}

#[test]
fn connections_are_symmetric() {
    let graph = small_graph();
    let from_a = keys_and_weights(&graph.get_connections(&node("A")));
    let from_b = keys_and_weights(&graph.get_connections(&node("B")));
    let from_c = keys_and_weights(&graph.get_connections(&node("C")));
    let from_d = keys_and_weights(&graph.get_connections(&node("D")));
    assert!(from_a.contains(&("B".to_string(), 4)));
    assert!(from_b.contains(&("A".to_string(), 4)));
    assert!(from_b.contains(&("C".to_string(), 6)));
    assert!(from_c.contains(&("B".to_string(), 6)));
    assert!(from_a.contains(&("D".to_string(), 9)));
    assert!(from_d.contains(&("A".to_string(), 9)));
}

#[test]
fn connections_come_in_stored_order() {
    let graph = small_graph();
    let from_a = keys_and_weights(&graph.get_connections(&node("A")));
    assert_eq!(from_a, vec![("B".to_string(), 4), ("D".to_string(), 9)]);
}

#[test]
fn isolated_node_has_no_connections() {
    let graph = small_graph();
    assert!(graph.get_connections(&node("E")).is_empty());
}

#[test]
fn list_nodes_keeps_every_table_key() {
    let graph = small_graph();
    let listed: Vec<String> = graph.list_nodes().iter().map(|n| n.0.clone()).collect();
    assert_eq!(listed, vec!["A", "B", "C", "D", "E"]);
}

#[test]
fn unknown_child_key_is_a_config_error() {
    let nodes = nodes_table(&["A", "B"]);
    let distances = vec![entry("A", &[("B", 4)]), entry("B", &[("X", 2)])];
    match UndirectedGraphImpl::new(nodes, distances) {
        Err(ConfigError::MissingKey(k)) => assert_eq!(k, "X"),
        other => panic!("expected a missing-key error, got {:?}", other),
    }
}

#[test]
fn unknown_parent_key_is_a_config_error() {
    let nodes = nodes_table(&["A", "B"]);
    let distances = vec![entry("Y", &[("B", 4)])];
    match UndirectedGraphImpl::new(nodes, distances) {
        Err(ConfigError::MissingKey(k)) => assert_eq!(k, "Y"),
        other => panic!("expected a missing-key error, got {:?}", other),
    }
}

#[test]
fn negative_weight_is_a_config_error() {
    let nodes = nodes_table(&["A", "B"]);
    let distances = vec![entry("A", &[("B", -3)])];
    match UndirectedGraphImpl::new(nodes, distances) {
        Err(ConfigError::NegativeWeight(p, c, w)) => {
            assert_eq!(p, "A");
            assert_eq!(c, "B");
            assert_eq!(w, -3);
        },
        other => panic!("expected a negative-weight error, got {:?}", other),
    }
}

#[test]
fn node_identity_ignores_metadata() {
    let plain = node("A");
    let placed = StringNode("A".to_string(), Location(7, -2));
    assert!(plain == placed);
    assert!(node("A") != node("B"));
}

#[test]
fn romania_graph_builds() {
    let graph = UndirectedGraphImpl::romania().unwrap();
    assert_eq!(graph.list_nodes().len(), 20);
    let from_arad = keys_and_weights(&graph.get_connections(&node("Arad")));
    assert_eq!(
        from_arad,
        vec![
            ("Zerind".to_string(), 75),
            ("Timisoara".to_string(), 118),
            ("Sibiu".to_string(), 150),
        ]
    );
}
