use depdive::code::AnalysisError;
use depdive::code::CodeAnalyzer;
use depdive::graph::collect;
use depdive::graph::DependencyGraph;
use depdive::graph::GraphError;
use depdive::graph::PackageInfo;

fn package(name: &str, in_workspace: bool) -> PackageInfo {
    PackageInfo {
        name: name.to_string(),
        version: "1.0.0".to_string(),
        manifest_path: format!("/src/{}/Cargo.toml", name),
        has_build_script: false,
        in_workspace,
    }
}

fn graph_of(names: &[&str], links: &[(usize, usize)]) -> DependencyGraph {
    let mut graph = DependencyGraph::new();
    for name in names {
        graph.add_package(package(name, false));
    }
    for (from, to) in links {
        graph.add_dependency(*from, *to).unwrap();
    }
    graph
}

#[test]
fn new_graph_is_empty() {
    let graph = DependencyGraph::new();
    assert_eq!(graph.len(), 0);
    assert_eq!(graph.list_workspace_roots(), Vec::<usize>::new());
    assert_eq!(graph.direct_dependencies(), Vec::<usize>::new());
    assert_eq!(graph.analysis_scope(), Vec::<usize>::new());
}

#[test]
fn packages_are_numbered_in_order() {
    let mut graph = DependencyGraph::new();
    assert_eq!(graph.add_package(package("a", true)), 0);
    assert_eq!(graph.add_package(package("b", false)), 1);
    assert_eq!(graph.len(), 2);
    assert_eq!(graph.package(1).unwrap().name, "b");
    assert_eq!(graph.package(0).unwrap().manifest_path, "/src/a/Cargo.toml");
    assert!(matches!(graph.package(2), Err(GraphError::NotFound)));
}

#[test]
fn link_to_unknown_package_is_refused() {
    let mut graph = graph_of(&["a", "b"], &[]);
    assert_eq!(graph.add_dependency(0, 2), Err(GraphError::NotFound));
    assert_eq!(graph.add_dependency(2, 0), Err(GraphError::NotFound));
    assert_eq!(graph.add_dependency(0, 1), Ok(()));
    assert_eq!(graph.transitive_dependencies(0), Ok(vec![1]));
    assert_eq!(graph.transitive_dependencies(1), Ok(vec![]));
}

#[test]
fn queries_on_unknown_package_fail() {
    let graph = graph_of(&["a", "b"], &[(0, 1)]);
    assert_eq!(graph.transitive_dependencies(2), Err(GraphError::NotFound));
    assert_eq!(graph.direct_dependents(2), Err(GraphError::NotFound));
    assert_eq!(graph.exclusive_dependencies(2, &vec![]), Err(GraphError::NotFound));
    assert_eq!(graph.exclusive_dependencies(0, &vec![1, 2]), Err(GraphError::NotFound));
    let analyzer = CodeAnalyzer::new();
    assert_eq!(analyzer.get_package_dependencies(&graph, 5), Err(AnalysisError::NotFound));
    assert_eq!(analyzer.filter_exclusive_deps(&graph, 0, &vec![7]), Err(AnalysisError::NotFound));
    assert_eq!(analyzer.filter_exclusive_deps(&graph, 9, &vec![1]), Err(AnalysisError::NotFound));
}

#[test]
fn workspace_roots_are_the_members() {
    let mut graph = DependencyGraph::new();
    graph.add_package(package("dep", false));
    graph.add_package(package("member_one", true));
    graph.add_package(package("other", false));
    graph.add_package(package("member_two", true));
    assert_eq!(graph.list_workspace_roots(), vec![1, 3]);
}

#[test]
fn direct_dependencies_leave_out_members_and_indirect_ones() {
    let mut graph = DependencyGraph::new();
    let member = graph.add_package(package("member", true));
    let helper = graph.add_package(package("helper", true));
    let direct = graph.add_package(package("direct", false));
    let indirect = graph.add_package(package("indirect", false));
    let also_direct = graph.add_package(package("also_direct", false));
    graph.add_dependency(member, helper).unwrap();
    graph.add_dependency(member, direct).unwrap();
    graph.add_dependency(direct, indirect).unwrap();
    graph.add_dependency(helper, also_direct).unwrap();
    assert_eq!(graph.direct_dependencies(), vec![direct, also_direct]);
    assert_eq!(graph.analysis_scope(), vec![direct, indirect, also_direct]);
}

#[test]
fn direct_dependents_are_the_reverse_links() {
    let graph = graph_of(&["a", "b", "c", "d"], &[(0, 1), (0, 2), (1, 3), (2, 3), (1, 3)]);
    assert_eq!(graph.direct_dependents(3), Ok(vec![1, 2]));
    assert_eq!(graph.direct_dependents(1), Ok(vec![0]));
    assert_eq!(graph.direct_dependents(0), Ok(vec![]));
}

#[test]
fn transitive_dependencies_of_a_diamond() {
    let graph = graph_of(&["a", "b", "c", "d"], &[(0, 1), (0, 2), (1, 3), (2, 3)]);
    assert_eq!(graph.transitive_dependencies(0), Ok(vec![1, 2, 3]));
    assert_eq!(graph.transitive_dependencies(1), Ok(vec![3]));
    assert_eq!(graph.transitive_dependencies(3), Ok(vec![]));
}

#[test]
fn transitive_dependencies_of_a_chain() {
    let graph = graph_of(&["a", "b", "d"], &[(0, 1), (1, 2)]);
    assert_eq!(graph.transitive_dependencies(0), Ok(vec![1, 2]));
}

#[test]
fn transitive_dependencies_survive_a_cycle() {
    let graph = graph_of(&["a", "b", "c", "d"], &[(0, 1), (1, 2), (2, 0), (2, 3)]);
    assert_eq!(graph.transitive_dependencies(0), Ok(vec![1, 2, 3]));
    assert_eq!(graph.transitive_dependencies(1), Ok(vec![0, 2, 3]));
    let alone = graph_of(&["a"], &[(0, 0)]);
    assert_eq!(alone.transitive_dependencies(0), Ok(vec![]));
}

#[test]
fn diamond_below_one_root_is_exclusive() {
    // a -> {b, c}, b -> d, c -> d: d has two dependents, both below a.
    let graph = graph_of(&["a", "b", "c", "d"], &[(0, 1), (0, 2), (1, 3), (2, 3)]);
    let deps = graph.transitive_dependencies(0).unwrap();
    assert_eq!(graph.exclusive_dependencies(0, &deps), Ok(vec![1, 2, 3]));
}

#[test]
fn diamond_between_two_roots_is_shared() {
    // Seen from b, d has the dependent c outside; and the other way round.
    let graph = graph_of(&["a", "b", "c", "d"], &[(0, 1), (0, 2), (1, 3), (2, 3)]);
    let below_b = graph.transitive_dependencies(1).unwrap();
    let below_c = graph.transitive_dependencies(2).unwrap();
    assert_eq!(below_b, vec![3]);
    assert_eq!(below_c, vec![3]);
    assert_eq!(graph.exclusive_dependencies(1, &below_b), Ok(vec![]));
    assert_eq!(graph.exclusive_dependencies(2, &below_c), Ok(vec![]));
}

#[test]
fn chain_is_exclusive() {
    let graph = graph_of(&["a", "b", "d"], &[(0, 1), (1, 2)]);
    let deps = graph.transitive_dependencies(0).unwrap();
    assert_eq!(deps, vec![1, 2]);
    assert_eq!(graph.exclusive_dependencies(0, &deps), Ok(vec![1, 2]));
}

#[test]
fn dependent_of_the_root_does_not_make_its_dependencies_shared() {
    // w -> a -> b: w is outside, but it reaches b only through a.
    let graph = graph_of(&["w", "a", "b"], &[(0, 1), (1, 2)]);
    assert_eq!(graph.exclusive_dependencies(1, &vec![2]), Ok(vec![2]));
}

#[test]
fn shared_status_passes_down() {
    // a -> b -> d, x -> b: b is shared with x, and so is d below it.
    let graph = graph_of(&["a", "b", "d", "x", "e"], &[(0, 1), (1, 2), (3, 1), (0, 4)]);
    let deps = graph.transitive_dependencies(0).unwrap();
    assert_eq!(deps, vec![1, 2, 4]);
    assert_eq!(graph.exclusive_dependencies(0, &deps), Ok(vec![4]));
}

#[test]
fn shared_status_passes_down_against_the_order_of_ids() {
    // a -> d -> b, x -> d, listed with b before d.
    let graph = graph_of(&["a", "b", "x", "d"], &[(0, 3), (3, 1), (2, 3)]);
    assert_eq!(graph.exclusive_dependencies(0, &vec![1, 3]), Ok(vec![]));
    assert_eq!(graph.exclusive_dependencies(0, &vec![3, 1]), Ok(vec![]));
}

#[test]
fn exclusive_dependencies_ignore_order_and_repeats() {
    let graph = graph_of(
        &["a", "b", "c", "d", "x", "e"],
        &[(0, 1), (0, 2), (1, 3), (2, 3), (4, 2), (0, 5)],
    );
    let expected: Vec<usize> = vec![1, 5];
    let orders: Vec<Vec<usize>> = vec![
        vec![1, 2, 3, 5],
        vec![5, 3, 2, 1],
        vec![3, 1, 5, 2],
        vec![2, 5, 1, 3],
        vec![3, 3, 2, 1, 5, 1],
    ];
    for order in &orders {
        assert_eq!(graph.exclusive_dependencies(0, order), Ok(expected.clone()));
    }
}

#[test]
fn root_is_never_its_own_exclusive_dependency() {
    let graph = graph_of(&["a", "b"], &[(0, 1), (1, 0)]);
    assert_eq!(graph.exclusive_dependencies(0, &vec![0, 1]), Ok(vec![1]));
}

#[test]
fn exclusive_dependencies_are_among_the_dependencies() {
    let graph = graph_of(
        &["w", "a", "b", "c", "d", "e"],
        &[(0, 1), (0, 2), (1, 3), (2, 3), (1, 4), (4, 5), (2, 5)],
    );
    for root in 0..graph.len() {
        let deps = graph.transitive_dependencies(root).unwrap();
        let exclusive = graph.exclusive_dependencies(root, &deps).unwrap();
        for d in &exclusive {
            assert!(deps.contains(d));
        }
    }
    assert_eq!(graph.exclusive_dependencies(1, &vec![3, 4, 5]), Ok(vec![4]));
    assert_eq!(graph.exclusive_dependencies(2, &vec![3, 5]), Ok(vec![]));
    assert_eq!(graph.exclusive_dependencies(0, &vec![1, 2, 3, 4, 5]), Ok(vec![1, 2, 3, 4, 5]));
}

#[test]
fn analyzer_filters_as_the_graph_does() {
    let graph = graph_of(&["a", "b", "d", "x", "e"], &[(0, 1), (1, 2), (3, 1), (0, 4)]);
    let analyzer = CodeAnalyzer::new();
    let deps = analyzer.get_package_dependencies(&graph, 0).unwrap();
    assert_eq!(deps, vec![1, 2, 4]);
    assert_eq!(analyzer.filter_exclusive_deps(&graph, 0, &deps), Ok(vec![4]));
}

#[test]
fn collect_lists_the_set_flags() {
    assert_eq!(collect(&vec![]), Vec::<usize>::new());
    assert_eq!(collect(&vec![false, true, true, false, true]), vec![1, 2, 4]);
}
