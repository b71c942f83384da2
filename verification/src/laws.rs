//! What holds of the roll-ups, of the exclusive dependencies and of the
//! caches, whatever the graph.

use crate::code::AnalysisError;
use crate::code::CodeAnalyzer;
use crate::code::CodeSummary;
use crate::report::LOCReport;
use crate::graph::enumerate;
use crate::graph::ids;
use crate::graph::DependencyGraph;
use crate::report::DepTally;
use vstd::prelude::*;

verus! {

/// Adding the tally of no package changes nothing.
pub proof fn law_plus_zero(a: DepTally)
    ensures
        a.plus(DepTally::zero()) == a,
        DepTally::zero().plus(a) == a,
{
}

/// The sum of two tallies does not depend on their order.
pub proof fn law_plus_commutative(a: DepTally, b: DepTally)
    ensures
        a.plus(b) == b.plus(a),
{
}

/// The sum of three tallies does not depend on the grouping.
pub proof fn law_plus_associative(a: DepTally, b: DepTally, c: DepTally)
    ensures
        a.plus(b).plus(c) == a.plus(b.plus(c)),
{
}

/// The roll-up of no package is the zero tally.
pub proof fn law_sum_of_nothing(analyzer: CodeAnalyzer, graph: DependencyGraph)
    ensures
        analyzer.tally(&graph, Set::empty()) == DepTally::zero(),
{
    lemma_sum_of_nothing(analyzer, graph, graph.size());
}

proof fn lemma_sum_of_nothing(analyzer: CodeAnalyzer, graph: DependencyGraph, bound: nat)
    ensures
        analyzer.tally_upto(&graph, Set::empty(), bound) == DepTally::zero(),
    decreases bound,
{
    if bound > 0 {
        lemma_sum_of_nothing(analyzer, graph, (bound - 1) as nat);
    }
}

/// The roll-up of the union of two sets without a common package is the
/// sum of their roll-ups.
pub proof fn law_sum_of_disjoint_union(
    analyzer: CodeAnalyzer,
    graph: DependencyGraph,
    a: Set<int>,
    b: Set<int>,
)
    requires
        a.disjoint(b),
    ensures
        analyzer.tally(&graph, a.union(b)) == analyzer.tally(&graph, a).plus(
            analyzer.tally(&graph, b),
        ),
{
    lemma_sum_of_disjoint_union(analyzer, graph, a, b, graph.size());
}

proof fn lemma_sum_of_disjoint_union(
    analyzer: CodeAnalyzer,
    graph: DependencyGraph,
    a: Set<int>,
    b: Set<int>,
    bound: nat,
)
    requires
        a.disjoint(b),
    ensures
        analyzer.tally_upto(&graph, a.union(b), bound) == analyzer.tally_upto(&graph, a, bound).plus(
            analyzer.tally_upto(&graph, b, bound),
        ),
    decreases bound,
{
    if bound > 0 {
        lemma_sum_of_disjoint_union(analyzer, graph, a, b, (bound - 1) as nat);
        assert(!(a.contains(bound - 1) && b.contains(bound - 1)));
    }
}

/// A list and any reordering of it hold the same ids.
pub proof fn lemma_reordering_keeps_ids(a: Seq<usize>, b: Seq<usize>)
    requires
        a.to_multiset() == b.to_multiset(),
    ensures
        ids(a) == ids(b),
{
    a.to_multiset_ensures();
    b.to_multiset_ensures();
    assert forall|p: int| ids(a).contains(p) <==> ids(b).contains(p) by {
        if 0 <= p <= usize::MAX {
            assert(a.contains(p as usize) <==> a.to_multiset().count(p as usize) > 0);
            assert(b.contains(p as usize) <==> b.to_multiset().count(p as usize) > 0);
        }
    }
    assert(ids(a) =~= ids(b));
}

/// The roll-up of a list of packages does not depend on the order of the
/// list.
pub proof fn law_sum_order_independent(
    analyzer: CodeAnalyzer,
    graph: DependencyGraph,
    a: Seq<usize>,
    b: Seq<usize>,
)
    requires
        a.to_multiset() == b.to_multiset(),
    ensures
        analyzer.dep_report_outcome(&graph, a) == analyzer.dep_report_outcome(&graph, b),
{
    lemma_reordering_keeps_ids(a, b);
    a.to_multiset_ensures();
    b.to_multiset_ensures();
    if exists|i: int| 0 <= i < a.len() && a[i] >= graph.size() {
        let i = choose|i: int| 0 <= i < a.len() && a[i] >= graph.size();
        assert(a.contains(a[i]));
        assert(a.to_multiset().count(a[i]) > 0);
        assert(b.to_multiset().count(a[i]) > 0);
        assert(b.contains(a[i]));
        let j = choose|j: int| 0 <= j < b.len() && b[j] == a[i];
        assert(b[j] >= graph.size());
    }
    if exists|i: int| 0 <= i < b.len() && b[i] >= graph.size() {
        let i = choose|i: int| 0 <= i < b.len() && b[i] >= graph.size();
        assert(b.contains(b[i]));
        assert(b.to_multiset().count(b[i]) > 0);
        assert(a.to_multiset().count(b[i]) > 0);
        assert(a.contains(b[i]));
        let j = choose|j: int| 0 <= j < a.len() && a[j] == b[i];
        assert(a[j] >= graph.size());
    }
}

/// A package that the scanner did not report counts towards the number of
/// packages and the lines of code of a roll-up, and leaves every count of
/// unsafe code as it was.
pub proof fn law_scanner_gap(
    analyzer: CodeAnalyzer,
    graph: DependencyGraph,
    set: Set<int>,
    p: int,
)
    requires
        0 <= p < graph.size(),
        !set.contains(p),
        analyzer.unsafe_of(graph.info(p).name@, graph.info(p).version@) is None,
        analyzer.package_loc(&graph, p) is Ok,
    ensures
        ({
            let before = analyzer.tally(&graph, set);
            let after = analyzer.tally(&graph, set.insert(p));
            let loc = analyzer.package_loc(&graph, p)->Ok_0;
            &&& after.total_deps == before.total_deps + 1
            &&& after.total_loc == before.total_loc + loc.total_loc
            &&& after.rust_loc == before.rust_loc + loc.rust_loc
            &&& after.analyzed_for_unsafe == before.analyzed_for_unsafe
            &&& after.forbidding_unsafe == before.forbidding_unsafe
            &&& after.using_unsafe == before.using_unsafe
            &&& after.functions == before.functions
            &&& after.expressions == before.expressions
            &&& after.impls == before.impls
            &&& after.traits == before.traits
            &&& after.methods == before.methods
        }),
{
    let one = Set::<int>::empty().insert(p);
    assert(set.insert(p) =~= set.union(one));
    law_sum_of_disjoint_union(analyzer, graph, set, one);
    lemma_sum_of_one(analyzer, graph, p, graph.size());
}

proof fn lemma_sum_of_one(analyzer: CodeAnalyzer, graph: DependencyGraph, p: int, bound: nat)
    requires
        0 <= p,
    ensures
        analyzer.tally_upto(&graph, Set::<int>::empty().insert(p), bound) == (if p < bound {
            analyzer.package_tally(&graph, p)
        } else {
            DepTally::zero()
        }),
    decreases bound,
{
    if bound > 0 {
        lemma_sum_of_one(analyzer, graph, p, (bound - 1) as nat);
    }
}

/// The dependencies that only `root` pulls in are among its dependencies.
pub proof fn law_exclusive_within_transitive(graph: DependencyGraph, root: int)
    ensures
        graph.exclusive(root, graph.transitive(root)).subset_of(graph.transitive(root)),
{
}

/// The exclusive dependencies do not depend on the order in which the
/// dependencies are listed: a list and any reordering of it give the same
/// set, and the same list of it.
pub proof fn law_exclusive_order_independent(
    graph: DependencyGraph,
    root: int,
    a: Seq<usize>,
    b: Seq<usize>,
)
    requires
        a.to_multiset() == b.to_multiset(),
    ensures
        graph.exclusive(root, ids(a)) == graph.exclusive(root, ids(b)),
        enumerate(graph.exclusive(root, ids(a)), graph.size()) == enumerate(
            graph.exclusive(root, ids(b)),
            graph.size(),
        ),
{
    lemma_reordering_keeps_ids(a, b);
}

/// A chain of links that starts at a package which does not reach `wall`
/// never steps onto `wall`.
proof fn lemma_walk_misses(graph: DependencyGraph, wall: int, a: int, b: int, steps: nat)
    requires
        graph.walk(None, a, b, steps),
        !graph.reaches(a, wall),
    ensures
        graph.walk(Some(wall), a, b, steps),
    decreases steps,
{
    if steps > 0 {
        let m = choose|m: int|
            graph.walk(None, a, m, (steps - 1) as nat) && #[trigger] graph.edge(m, b);
        lemma_walk_misses(graph, wall, a, m, (steps - 1) as nat);
        assert(graph.reaches_around(None, a, b));
        assert(graph.edge(m, b));
    }
}

/// A dependency that a package outside the dependencies of `root` reaches
/// without passing through `root` is no exclusive dependency of `root`.
pub proof fn law_outside_reach_shares(graph: DependencyGraph, root: int, other: int, d: int)
    requires
        other != root,
        !graph.transitive(root).contains(other),
        graph.reaches_around(Some(root), other, d),
    ensures
        graph.shared(root, graph.transitive(root), d),
        !graph.exclusive(root, graph.transitive(root)).contains(d),
{
    graph.lemma_reach_in_range(Some(root), other, d);
}

/// A dependency of two roots, neither of which depends on the other, is an
/// exclusive dependency of neither.
pub proof fn law_common_dependency_is_shared(graph: DependencyGraph, first: int, second: int, d: int)
    requires
        first != second,
        !graph.reaches(first, second),
        !graph.reaches(second, first),
        graph.transitive(first).contains(d),
        graph.transitive(second).contains(d),
    ensures
        !graph.exclusive(first, graph.transitive(first)).contains(d),
        !graph.exclusive(second, graph.transitive(second)).contains(d),
{
    let from_second = choose|steps: nat| graph.walk(None, second, d, steps);
    lemma_walk_misses(graph, first, second, d, from_second);
    assert(graph.reaches_around(Some(first), second, d));
    law_outside_reach_shares(graph, first, second, d);
    let from_first = choose|steps: nat| graph.walk(None, first, d, steps);
    lemma_walk_misses(graph, second, first, d, from_first);
    assert(graph.reaches_around(Some(second), first, d));
    law_outside_reach_shares(graph, second, first, d);
}

/// The rule of sharing: a dependency is shared exactly when one of its
/// direct dependents, other than the root, is outside the dependencies or
/// is itself shared.
pub proof fn law_sharing_rule(graph: DependencyGraph, root: int, deps: Set<int>, d: int)
    requires
        deps.contains(d),
        d != root,
    ensures
        graph.shared(root, deps, d) <==> exists|p: int|
            #[trigger] graph.edge(p, d) && p != root && (!deps.contains(p) || graph.shared(
                root,
                deps,
                p,
            )),
{
    let wall = Some(root);
    if graph.shared(root, deps, d) {
        let x = choose|x: int|
            0 <= x < graph.size() && x != root && !deps.contains(x)
                && #[trigger] graph.reaches_around(wall, x, d);
        let steps = choose|steps: nat| graph.walk(wall, x, d, steps);
        assert(steps > 0);
        let m = choose|m: int|
            graph.walk(wall, x, m, (steps - 1) as nat) && #[trigger] graph.edge(m, d);
        if steps - 1 > 0 {
            let before = choose|before: int|
                graph.walk(wall, x, before, (steps - 2) as nat) && #[trigger] graph.edge(before, m)
                    && crate::graph::passable(wall, m);
        }
        assert(m != root);
        assert(graph.reaches_around(wall, x, m));
        assert(graph.shared(root, deps, m));
        assert(graph.edge(m, d) && m != root && (!deps.contains(m) || graph.shared(root, deps, m)));
    }
    if exists|p: int|
        #[trigger] graph.edge(p, d) && p != root && (!deps.contains(p) || graph.shared(
            root,
            deps,
            p,
        )) {
        let p = choose|p: int|
            #[trigger] graph.edge(p, d) && p != root && (!deps.contains(p) || graph.shared(
                root,
                deps,
                p,
            ));
        graph.lemma_edge_in_range(p, d);
        if !deps.contains(p) {
            assert(graph.walk(wall, p, p, 0));
            assert(graph.reaches_around(wall, p, p));
            graph.lemma_walk_step(wall, p, p, d);
        } else {
            let x = choose|x: int|
                0 <= x < graph.size() && x != root && !deps.contains(x)
                    && #[trigger] graph.reaches_around(wall, x, p);
            graph.lemma_walk_step(wall, x, p, d);
        }
    }
}

/// Sharing passes down: a dependency on which a shared dependency depends
/// directly is shared too.
pub proof fn law_sharing_passes_down(
    graph: DependencyGraph,
    root: int,
    deps: Set<int>,
    d: int,
    below: int,
)
    requires
        graph.shared(root, deps, d),
        graph.edge(d, below),
        deps.contains(below),
        below != root,
    ensures
        graph.shared(root, deps, below),
        !graph.exclusive(root, deps).contains(below),
{
    let x = choose|x: int|
        0 <= x < graph.size() && x != root && !deps.contains(x) && #[trigger] graph.reaches_around(
            Some(root),
            x,
            d,
        );
    graph.lemma_walk_step(Some(root), x, d, below);
}

/// A dependency whose direct dependents are the root or exclusive
/// dependencies is itself exclusive. So is, above all, one on which only
/// the root depends.
pub proof fn law_inner_dependency_is_exclusive(
    graph: DependencyGraph,
    root: int,
    deps: Set<int>,
    d: int,
)
    requires
        deps.contains(d),
        d != root,
        forall|p: int| #[trigger]
            graph.edge(p, d) ==> p == root || graph.exclusive(root, deps).contains(p),
    ensures
        graph.exclusive(root, deps).contains(d),
{
    law_sharing_rule(graph, root, deps, d);
}

/// Where no dependency has a direct dependent outside the root and the
/// dependencies, every dependency is exclusive.
pub proof fn law_closed_dependencies_are_exclusive(graph: DependencyGraph, root: int, deps: Set<int>)
    requires
        forall|p: int, d: int|
            deps.contains(d) && d != root && #[trigger] graph.edge(p, d) ==> p == root
                || deps.contains(p),
    ensures
        graph.exclusive(root, deps) == deps.remove(root),
{
    assert forall|d: int| deps.contains(d) && d != root implies !graph.shared(root, deps, d) by {
        if graph.shared(root, deps, d) {
            let x = choose|x: int|
                0 <= x < graph.size() && x != root && !deps.contains(x)
                    && #[trigger] graph.reaches_around(Some(root), x, d);
            let steps = choose|steps: nat| graph.walk(Some(root), x, d, steps);
            lemma_walk_stays_outside(graph, root, deps, x, d, steps);
        }
    }
    assert(graph.exclusive(root, deps) =~= deps.remove(root));
}

proof fn lemma_walk_stays_outside(
    graph: DependencyGraph,
    root: int,
    deps: Set<int>,
    x: int,
    d: int,
    steps: nat,
)
    requires
        forall|p: int, d: int|
            deps.contains(d) && d != root && #[trigger] graph.edge(p, d) ==> p == root
                || deps.contains(p),
        x != root,
        !deps.contains(x),
        graph.walk(Some(root), x, d, steps),
    ensures
        d != root,
        !deps.contains(d),
    decreases steps,
{
    if steps > 0 {
        let m = choose|m: int|
            graph.walk(Some(root), x, m, (steps - 1) as nat) && #[trigger] graph.edge(m, d)
                && crate::graph::passable(Some(root), d);
        lemma_walk_stays_outside(graph, root, deps, x, m, (steps - 1) as nat);
    }
}

/// Once the lines of code of every directory in the scope of an analysis
/// are recorded, the report of a direct dependency fails neither for a
/// missing record nor for a missing package.
pub proof fn law_warm_cache_never_misses(analyzer: CodeAnalyzer, graph: DependencyGraph, d: int)
    requires
        graph.direct().contains(d),
        forall|p: int|
            graph.scope().contains(p) ==> #[trigger] analyzer.package_loc(&graph, p) != Err::<
                LOCReport,
                AnalysisError,
            >(AnalysisError::LocNotCached),
    ensures
        analyzer.package_outcome(&graph, d) != Err::<CodeSummary, AnalysisError>(
            AnalysisError::LocNotCached,
        ),
        analyzer.package_outcome(&graph, d) != Err::<CodeSummary, AnalysisError>(
            AnalysisError::NotFound,
        ),
{
    assert(graph.walk(None, d, d, 0));
    assert(graph.reaches(d, d));
    assert(graph.scope().contains(d));
    let all = graph.transitive(d);
    let own = graph.exclusive(d, all);
    assert forall|p: int| all.contains(p) implies graph.scope().contains(p) by {
        assert(graph.reaches(d, p));
    }
    assert(!analyzer.loc_fails(&graph, all, AnalysisError::LocNotCached));
    assert(!analyzer.loc_fails(&graph, own, AnalysisError::LocNotCached));
}

} // verus!
