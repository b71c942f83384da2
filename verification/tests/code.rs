use depdive::code::CodeAnalyzer;
use depdive::geiger::GeigerPackage;
use depdive::geiger::GeigerPackageId;
use depdive::geiger::GeigerPackageInfo;
use depdive::geiger::GeigerReport;
use depdive::geiger::UnsafeCount;
use depdive::geiger::UnsafeInfo;
use depdive::geiger::Unsafety;
use depdive::graph::DependencyGraph;
use depdive::graph::PackageInfo;
use depdive::report::LOCReport;

fn add(graph: &mut DependencyGraph, name: &str, version: &str, in_workspace: bool) -> usize {
    graph.add_package(PackageInfo {
        name: name.to_string(),
        version: version.to_string(),
        manifest_path: format!("/cargo/registry/{}-{}/Cargo.toml", name, version),
        has_build_script: name == "libc",
        in_workspace,
    })
}

// valid_dep (the workspace) -> libc, octocrab, gitlab
// octocrab -> serde, reqwest;  reqwest -> libc, serde
// gitlab -> serde, graphql_client;  graphql_client -> graphql_query
fn get_test_graph() -> DependencyGraph {
    let mut graph = DependencyGraph::new();
    let valid_dep = add(&mut graph, "valid_dep", "0.1.0", true);
    let libc = add(&mut graph, "libc", "0.2.93", false);
    let octocrab = add(&mut graph, "octocrab", "0.9.1", false);
    let gitlab = add(&mut graph, "gitlab", "0.1400.0", false);
    let serde = add(&mut graph, "serde", "1.0.125", false);
    let reqwest = add(&mut graph, "reqwest", "0.11.3", false);
    let graphql_client = add(&mut graph, "graphql_client", "0.9.0", false);
    let graphql_query = add(&mut graph, "graphql_query", "0.9.0", false);
    for (from, to) in [
        (valid_dep, libc),
        (valid_dep, octocrab),
        (valid_dep, gitlab),
        (octocrab, serde),
        (octocrab, reqwest),
        (reqwest, libc),
        (reqwest, serde),
        (gitlab, serde),
        (gitlab, graphql_client),
        (graphql_client, graphql_query),
    ] {
        graph.add_dependency(from, to).unwrap();
    }
    graph
}

fn find(graph: &DependencyGraph, name: &str) -> usize {
    (0..graph.len()).find(|p| graph.package(*p).unwrap().name == name).unwrap()
}

fn unsafe_info(n: u64) -> UnsafeInfo {
    UnsafeInfo {
        functions: UnsafeCount { safe: 1, unsafe_: n },
        exprs: UnsafeCount { safe: 1, unsafe_: n },
        item_impls: UnsafeCount { safe: 1, unsafe_: n },
        item_traits: UnsafeCount { safe: 1, unsafe_: n },
        methods: UnsafeCount { safe: 1, unsafe_: n },
    }
}

fn get_test_geiger_report(graph: &DependencyGraph) -> GeigerReport {
    let mut packages = Vec::new();
    for p in 0..graph.len() {
        let info = graph.package(p).unwrap();
        if info.name == "graphql_query" {
            continue;
        }
        packages.push(GeigerPackageInfo {
            package: GeigerPackage {
                id: GeigerPackageId { name: info.name.clone(), version: info.version.clone() },
            },
            unsafety: Unsafety {
                used: unsafe_info(p as u64),
                unused: unsafe_info(0),
                forbids_unsafe: false,
            },
        });
    }
    GeigerReport { packages, used_but_not_scanned_files: Vec::new() }
}

fn get_test_code_analyzer() -> CodeAnalyzer {
    CodeAnalyzer::new()
}

fn count_lines(analyzer: &mut CodeAnalyzer, graph: &DependencyGraph) {
    for dir in analyzer.pending_loc_scans(graph) {
        let lines = dir.len() as u64;
        analyzer.record_loc_report(dir, LOCReport { total_loc: 2 * lines, rust_loc: lines });
    }
}

#[test]
fn test_loc_report_for_valid_package() {
    let graph = get_test_graph();
    let mut code_analyzer = get_test_code_analyzer();
    count_lines(&mut code_analyzer, &graph);
    let pkg = graph.package(find(&graph, "libc")).unwrap();
    let report = code_analyzer.get_loc_report(&pkg.manifest_path).unwrap();

    assert!(report.total_loc > 0);
    assert!(report.rust_loc > 0);
}

#[test]
fn test_loc_report_for_non_rust_directory() {
    let non_rust_path = "resources/test/non_rust/norust.md";
    let mut code_analyzer = get_test_code_analyzer();
    code_analyzer.record_loc_report(
        "resources/test/non_rust".to_string(),
        LOCReport { total_loc: 3, rust_loc: 0 },
    );
    let report = code_analyzer.get_loc_report(non_rust_path).unwrap();

    assert_eq!(report.rust_loc, 0);
}

#[test]
fn test_code_dep_report_for_valid_report() {
    let graph = get_test_graph();
    let mut code_analyzer = get_test_code_analyzer();
    count_lines(&mut code_analyzer, &graph);
    let package = find(&graph, "octocrab");
    let dependencies = code_analyzer
        .get_package_dependencies(&graph, package)
        .unwrap();
    let report = code_analyzer.get_dep_report(&graph, &dependencies).unwrap();

    println!("{:?}", report);
    assert!(report.total_deps > 0);
    assert!(report.deps_total_loc_report.total_loc > 0);
    assert!(report.deps_total_loc_report.rust_loc > 0);
    // No unsafe report at this test, as geiger cache would remain empty here
    assert_eq!(report.total_deps, 3);
    assert_eq!(report.deps_analyzed_for_unsafe, 0);
}

#[test]
fn test_code_analyzer() {
    let mut code_analyzer = get_test_code_analyzer();
    let graph = get_test_graph();
    code_analyzer.get_cargo_geiger_report_for_workspace(&vec![get_test_geiger_report(&graph)]);
    count_lines(&mut code_analyzer, &graph);
    let code_reports = code_analyzer.analyze_code(&graph).unwrap();
    println!("{:?}", code_reports);

    assert!(code_reports.len() > 0);
    let report = &code_reports[0];
    assert_eq!(report.unsafe_report.is_none(), false);
    assert_eq!(code_reports.len(), 3);
    assert_eq!(report.name, "libc");
}

#[test]
fn test_code_geiger_report_for_workspace() {
    let mut code_analyzer = get_test_code_analyzer();
    let graph = get_test_graph();
    code_analyzer.get_cargo_geiger_report_for_workspace(&vec![get_test_geiger_report(&graph)]);
    let key = ("serde".to_string(), "1.0.125".to_string());
    assert!(code_analyzer.get_cargo_geiger_report_from_cache(&key).is_some());
    let gap = ("graphql_query".to_string(), "0.9.0".to_string());
    assert!(code_analyzer.get_cargo_geiger_report_from_cache(&gap).is_none());
}

#[test]
fn test_code_exclusive_deps() {
    let graph = get_test_graph();
    let code_analyzer = get_test_code_analyzer();
    let package = find(&graph, "gitlab");
    let dependencies = code_analyzer
        .get_package_dependencies(&graph, package)
        .unwrap();
    let exclusive_deps = code_analyzer
        .filter_exclusive_deps(&graph, package, &dependencies)
        .unwrap();
    println!("{}", exclusive_deps.len());
    assert_eq!(
        exclusive_deps,
        vec![find(&graph, "graphql_client"), find(&graph, "graphql_query")]
    );
}
