use why::analyzer::dependency_graph::{DependencyGraph, GraphError};
use why::manifest::cargo::{CargoDependency, DependencyType};

fn deps(names: &[&str]) -> Vec<CargoDependency> {
    names
        .iter()
        .map(|n| CargoDependency {
            name: n.to_string(),
            version: None,
            features: Vec::new(),
            optional: false,
            dependency_type: DependencyType::Normal,
            source: "Cargo.toml".to_string(),
        })
        .collect()
}

fn graph(names: &[&str], edges: &[(&str, &str)]) -> DependencyGraph {
    let mut g = DependencyGraph::new(&deps(names));
    for (a, b) in edges {
        g.add_dependency(a, b).unwrap();
    }
    g
}

fn as_sets(groups: Vec<Vec<String>>) -> Vec<Vec<String>> {
    let mut sets: Vec<Vec<String>> = groups
        .into_iter()
        .map(|mut g| {
            g.sort();
            g
        })
        .collect();
    sets.sort();
    sets
}

#[test]
fn a_new_graph_has_a_node_for_each_dependency_and_no_edge() {
    let g = DependencyGraph::new(&deps(&["a", "b", "c"]));
    assert_eq!(g.node_count(), 3);
    assert_eq!(g.edge_count(), 0);
    assert_eq!(g.node_indices.get("a"), Some(&0));
    assert_eq!(g.node_indices.get("c"), Some(&2));
    assert!(g.find_circular_dependencies().is_empty());
    let empty = DependencyGraph::new(&deps(&[]));
    assert_eq!(empty.node_count(), 0);
    assert!(empty.find_circular_dependencies().is_empty());
}

#[test]
fn three_dependencies_in_a_circle_are_one_group() {
    let g = graph(&["a", "b", "c"], &[("a", "b"), ("b", "c"), ("c", "a")]);
    let groups = g.find_circular_dependencies();
    assert_eq!(groups.len(), 1);
    assert_eq!(as_sets(groups), vec![vec!["a".to_string(), "b".to_string(), "c".to_string()]]);
}

#[test]
fn every_cycle_is_found_and_chains_are_not() {
    let g = graph(
        &["a", "b", "c", "d", "e", "f", "g"],
        &[("a", "b"), ("b", "a"), ("b", "c"), ("c", "d"), ("d", "e"), ("e", "c"), ("e", "f"), ("g", "g")],
    );
    assert_eq!(
        as_sets(g.find_circular_dependencies()),
        vec![
            vec!["a".to_string(), "b".to_string()],
            vec!["c".to_string(), "d".to_string(), "e".to_string()],
        ]
    );
}

#[test]
fn groups_come_in_reverse_topological_order() {
    let g = graph(&["a", "b", "c", "d"], &[("a", "b"), ("b", "a"), ("b", "c"), ("c", "d"), ("d", "c")]);
    let groups = as_ordered(g.find_circular_dependencies());
    assert_eq!(groups, vec![vec!["c".to_string(), "d".to_string()], vec!["a".to_string(), "b".to_string()]]);
}

fn as_ordered(groups: Vec<Vec<String>>) -> Vec<Vec<String>> {
    groups
        .into_iter()
        .map(|mut g| {
            g.sort();
            g
        })
        .collect()
}

#[test]
fn cycle_detection_does_not_depend_on_the_order_of_the_nodes() {
    let edges = [("a", "b"), ("b", "c"), ("c", "a"), ("c", "d"), ("d", "e"), ("e", "d"), ("f", "a")];
    let orders: [[&str; 6]; 4] = [
        ["a", "b", "c", "d", "e", "f"],
        ["f", "e", "d", "c", "b", "a"],
        ["c", "a", "e", "b", "f", "d"],
        ["d", "f", "a", "e", "c", "b"],
    ];
    let expected = as_sets(graph(&orders[0], &edges).find_circular_dependencies());
    assert_eq!(expected.len(), 2);
    for order in orders.iter() {
        assert_eq!(as_sets(graph(order, &edges).find_circular_dependencies()), expected);
    }
    let mut reversed = edges;
    reversed.reverse();
    assert_eq!(as_sets(graph(&orders[2], &reversed).find_circular_dependencies()), expected);
}

#[test]
fn groups_of_takes_the_components_as_given() {
    let g = graph(&["x", "y", "z"], &[]);
    let groups = g.groups_of(&vec![vec![2, 0], vec![1], vec![], vec![1, 1, 2]]);
    assert_eq!(
        groups,
        vec![vec!["z".to_string(), "x".to_string()], vec!["y".to_string(), "y".to_string(), "z".to_string()]]
    );
}

#[test]
fn an_edge_needs_both_of_its_ends() {
    let mut g = DependencyGraph::new(&deps(&["a", "b"]));
    match g.add_dependency("zz", "b") {
        Err(GraphError::DependentNotFound(n)) => assert_eq!(n, "zz"),
        other => panic!("unexpected {:?}", other),
    }
    match g.add_dependency("a", "yy") {
        Err(e) => {
            assert!(matches!(e, GraphError::DependencyNotFound(_)));
            assert_eq!(e.message(), "Dependency yy not found in graph");
        }
        other => panic!("unexpected {:?}", other),
    }
    match g.add_dependency("zz", "yy") {
        Err(e) => assert_eq!(e.message(), "Dependent zz not found in graph"),
        other => panic!("unexpected {:?}", other),
    }
    assert_eq!(g.edge_count(), 0);
    assert!(g.add_dependency("a", "b").is_ok());
    assert!(g.add_dependency("a", "b").is_ok());
    assert_eq!(g.edge_count(), 2);
    assert_eq!(g.node_count(), 2);
}

#[test]
fn paths_follow_the_direction_of_the_edges() {
    let g = graph(&["a", "b", "c", "d"], &[("a", "b"), ("b", "c")]);
    assert!(g.has_path("a", "b"));
    assert!(g.has_path("a", "c"));
    assert!(!g.has_path("c", "a"));
    assert!(!g.has_path("a", "d"));
    assert!(g.has_path("d", "d"));
    assert!(!g.has_path("a", "nowhere"));
    assert!(!g.has_path("nowhere", "a"));
    assert!(!g.has_path("nowhere", "nowhere"));
}

#[test]
fn transitive_dependencies_are_what_a_node_reaches() {
    let g = graph(&["a", "b", "c", "d"], &[("a", "b"), ("b", "c"), ("c", "b")]);
    let all = g.calculate_transitive_dependencies();
    assert_eq!(all.len(), 4);
    assert_eq!(all.key_at(0), "a");
    assert_eq!(all.get("a"), Some(&vec!["b".to_string(), "c".to_string()]));
    assert_eq!(all.get("b"), Some(&vec!["c".to_string()]));
    assert_eq!(all.get("c"), Some(&vec!["b".to_string()]));
    assert_eq!(all.get("d"), Some(&Vec::new()));
    let flat = DependencyGraph::new(&deps(&["a", "b"]));
    let none = flat.calculate_transitive_dependencies();
    assert_eq!(none.get("a"), Some(&Vec::new()));
    assert_eq!(none.get("b"), Some(&Vec::new()));
}

#[test]
fn lock_data_adds_the_relationships_between_declared_dependencies() {
    let lock = vec![
        ("a".to_string(), "b".to_string()),
        ("b".to_string(), "libc".to_string()),
        ("b".to_string(), "c".to_string()),
        ("unknown".to_string(), "a".to_string()),
        ("c".to_string(), "a".to_string()),
    ];
    let g = DependencyGraph::from_cargo_lock(&lock, &deps(&["a", "b", "c"]));
    assert_eq!(g.node_count(), 3);
    assert_eq!(g.edge_count(), 3);
    assert_eq!(as_sets(g.find_circular_dependencies()), vec![vec!["a".to_string(), "b".to_string(), "c".to_string()]]);
    let bare = DependencyGraph::from_cargo_lock(&Vec::new(), &deps(&["a", "b"]));
    assert_eq!(bare.edge_count(), 0);
    assert!(bare.find_circular_dependencies().is_empty());
}

#[test]
fn the_dot_text_names_nodes_and_edges() {
    let g = graph(&["alpha", "beta"], &[("alpha", "beta")]);
    let dot = g.to_dot();
    assert!(dot.starts_with("digraph {"));
    assert!(dot.contains("0 [ label = \"\\\"alpha\\\"\" ]") || dot.contains("alpha"));
    assert!(dot.contains("beta"));
    assert!(dot.contains("0 -> 1"));
    assert_ne!(dot, DependencyGraph::new(&deps(&["alpha", "beta"])).to_dot());
}

#[test]
fn a_name_declared_twice_has_two_nodes_and_the_last_index() {
    let g = DependencyGraph::new(&deps(&["a", "b", "a"]));
    assert_eq!(g.node_count(), 3);
    assert_eq!(g.node_indices.len(), 2);
    assert_eq!(g.node_indices.get("a"), Some(&2));
}
