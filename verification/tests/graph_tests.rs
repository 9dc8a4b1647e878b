use genere::graph::Graph;

#[test]
fn graph() {
    let mut graph = Graph::new();
    graph.add_dependency("a", "b").unwrap();
    graph.add_dependency("b", "c").unwrap();
    let res = graph.add_dependency("c", "a");
    assert!(res.is_err());
}

#[test]
fn graph_duplicate_edge_is_accepted() {
    let mut graph = Graph::new();
    graph.add_dependency("a", "b").unwrap();
    graph.add_dependency("a", "b").unwrap();
}

#[test]
fn graph_reports_indirect_dependencies() {
    let mut graph = Graph::new();
    graph.add_dependency("a", "b").unwrap();
    graph.add_dependency("b", "c").unwrap();
    assert!(graph.has_indirect_dependency("a", "b"));
    assert!(graph.has_indirect_dependency("a", "c"));
    assert!(graph.has_indirect_dependency("b", "c"));
    assert!(!graph.has_indirect_dependency("c", "a"));
    assert!(!graph.has_indirect_dependency("b", "a"));
    assert!(!graph.has_indirect_dependency("d", "a"));
}

#[test]
fn graph_self_edge_is_cyclic() {
    let mut graph = Graph::new();
    let res = graph.add_dependency("a", "a");
    assert!(res.is_err());
}
