//! A small framework for shortest-path-style search over weighted
//! undirected graphs: a graph built from tabular configuration data, a
//! search-problem formulation binding a graph to an initial node and a
//! goal predicate, and a solver abstraction with a baseline random-walk
//! strategy.

pub mod agents;
pub mod environments;
pub mod graph;
pub mod search;
