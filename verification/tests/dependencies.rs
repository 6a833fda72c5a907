use sps2_builder::dependencies::{
    graph_from_resolution, Dependency, DependencyContext, DependencyGraph, DependencyNode, ExtendedDepKind,
};

fn node(name: &str, version: &str) -> DependencyNode {
    DependencyNode {
        name: name.to_string(),
        version: version.to_string(),
        dependencies: vec![],
        virtual_node: false,
    }
}

#[test]
fn example_feature_flags() {
    let mut context = DependencyContext::new("x86_64-apple-darwin".to_string());

    let core_dep = Dependency::new("mylib-core>=1.0.0".to_string(), ExtendedDepKind::Runtime);
    context.add_dependency(core_dep);

    let gui_dep = Dependency::new("mylib-gui>=1.0.0".to_string(), ExtendedDepKind::Runtime)
        .with_features(vec!["gui".to_string()]);
    context.add_dependency(gui_dep);

    let db_dep = Dependency::new("postgresql>=13.0.0".to_string(), ExtendedDepKind::Runtime)
        .with_features(vec!["database".to_string(), "postgres".to_string()]);
    context.add_dependency(db_dep);

    assert_eq!(context.active_dependencies().len(), 1);

    context.enable_feature("gui".to_string());
    assert_eq!(context.active_dependencies().len(), 2);

    context.enable_feature("database".to_string());
    assert_eq!(context.active_dependencies().len(), 3);
}

#[test]
fn example_dependency_graph_visualization() {
    let mut graph = DependencyGraph::new();
    graph.add_node(node("myapp", "1.0.0"));
    graph.add_node(node("libssl", "1.1.1"));
    graph.add_node(node("zlib", "1.2.11"));

    graph.add_edge("myapp-1.0.0", "libssl-1.1.1");
    graph.add_edge("libssl-1.1.1", "zlib-1.2.11");

    let dot = graph.to_dot();
    println!("Dependency graph visualization:\n{}", dot);

    let order = graph.topological_sort().unwrap();
    assert_eq!(order.len(), 3);

    let zlib_pos = order.iter().position(|x| x.contains("zlib")).unwrap();
    let ssl_pos = order.iter().position(|x| x.contains("libssl")).unwrap();
    let app_pos = order.iter().position(|x| x.contains("myapp")).unwrap();

    println!("Topological order: {:?}", order);
    println!(
        "Positions - zlib: {}, libssl: {}, myapp: {}",
        zlib_pos, ssl_pos, app_pos
    );

    assert!(app_pos < ssl_pos, "myapp should come before libssl");
    assert!(ssl_pos < zlib_pos, "libssl should come before zlib");
}

#[test]
fn topological_order_puts_dependents_first() {
    let mut graph = DependencyGraph::new();
    graph.add_node(node("a", "1"));
    graph.add_node(node("b", "1"));
    graph.add_node(node("c", "1"));
    graph.add_edge("a-1", "b-1");
    graph.add_edge("a-1", "c-1");
    graph.add_edge("b-1", "c-1");
    let order = graph.topological_sort().unwrap();
    assert_eq!(order, vec!["a-1".to_string(), "b-1".to_string(), "c-1".to_string()]);
    assert!(graph.detect_cycle().is_none());
}

#[test]
fn cycle_blocks_topological_order() {
    let mut graph = DependencyGraph::new();
    graph.add_node(node("x", "1"));
    graph.add_node(node("y", "1"));
    graph.add_edge("x-1", "y-1");
    graph.add_edge("y-1", "x-1");
    assert!(graph.topological_sort().is_none());
    let cycle = graph.detect_cycle().unwrap();
    assert!(cycle.len() >= 2);
}

#[test]
fn find_paths_lists_simple_paths() {
    let mut graph = DependencyGraph::new();
    graph.add_node(node("a", "1"));
    graph.add_node(node("b", "1"));
    graph.add_node(node("c", "1"));
    graph.add_edge("a-1", "b-1");
    graph.add_edge("b-1", "c-1");
    graph.add_edge("a-1", "c-1");
    let paths = graph.find_paths("a-1", "c-1");
    assert_eq!(paths.len(), 2);
    for p in &paths {
        assert_eq!(p.first().unwrap(), "a-1");
        assert_eq!(p.last().unwrap(), "c-1");
    }
}

#[test]
fn find_paths_follows_edge_order() {
    let mut graph = DependencyGraph::new();
    graph.add_node(node("a", "1"));
    graph.add_node(node("b", "1"));
    graph.add_node(node("c", "1"));
    graph.add_edge("a-1", "b-1");
    graph.add_edge("b-1", "c-1");
    graph.add_edge("a-1", "c-1");
    graph.add_edge("c-1", "a-1");
    let paths = graph.find_paths("a-1", "c-1");
    assert_eq!(
        paths,
        vec![
            vec!["a-1".to_string(), "b-1".to_string(), "c-1".to_string()],
            vec!["a-1".to_string(), "c-1".to_string()],
        ]
    );
    assert!(graph.find_paths("c-1", "d-1").is_empty());
    assert_eq!(graph.find_paths("b-1", "b-1"), vec![vec!["b-1".to_string()]]);
}

#[test]
fn detect_cycle_finds_self_loop() {
    let mut graph = DependencyGraph::new();
    graph.add_node(node("a", "1"));
    graph.add_edge("a-1", "a-1");
    assert_eq!(graph.detect_cycle(), Some(vec!["a-1".to_string()]));
}

#[test]
fn detect_cycle_ignores_unreachable_cycle() {
    let mut graph = DependencyGraph::new();
    graph.add_node(node("a", "1"));
    graph.add_edge("x-1", "y-1");
    graph.add_edge("y-1", "x-1");
    assert!(graph.detect_cycle().is_none());
    graph.add_edge("a-1", "x-1");
    let cycle = graph.detect_cycle().unwrap();
    assert_eq!(cycle, vec!["x-1".to_string(), "y-1".to_string()]);
}

#[test]
fn to_dot_lists_nodes_and_edges() {
    let mut graph = DependencyGraph::new();
    graph.add_node(node("a", "1"));
    graph.add_node(node("b", "2"));
    graph.add_edge("a-1", "b-2");
    let dot = graph.to_dot();
    assert!(dot.starts_with("digraph"));
    assert!(dot.contains("a-1"));
    assert!(dot.contains("b-2"));
    assert!(dot.contains("->"));
}

#[test]
fn cross_compiling_depends_on_target() {
    let context = DependencyContext::new("x86_64-apple-darwin".to_string());
    assert!(!context.is_cross_compiling());
}

#[test]
fn resolver_request_splits_build_and_runtime() {
    let mut context = DependencyContext::new("aarch64-apple-darwin".to_string());
    context.add_dependency(Dependency::new("cmake>=3.0".to_string(), ExtendedDepKind::Build));
    context.add_dependency(Dependency::new("pkg-config".to_string(), ExtendedDepKind::Host));
    context.add_dependency(Dependency::new("zlib>=1.2".to_string(), ExtendedDepKind::Runtime));
    context.add_dependency(
        Dependency::new("openssl".to_string(), ExtendedDepKind::Target).with_features(vec!["tls".to_string()]),
    );
    let (build, runtime) = context.resolution_request();
    assert_eq!(build, vec!["cmake>=3.0".to_string(), "pkg-config".to_string()]);
    assert_eq!(runtime, vec!["zlib>=1.2".to_string()]);
    context.enable_feature("tls".to_string());
    assert_eq!(context.resolution_request().1, vec!["zlib>=1.2".to_string(), "openssl".to_string()]);
}

#[test]
fn resolved_packages_become_graph_nodes() {
    let resolved = vec![
        ("zlib".to_string(), "1.3".to_string()),
        ("openssl".to_string(), "3.0".to_string()),
        ("zlib".to_string(), "1.3".to_string()),
    ];
    let graph = graph_from_resolution(&resolved).unwrap();
    assert_eq!(graph.node_count(), 2);
    assert_eq!(graph.topological_sort().map(|o| o.len()), Some(2));
}
