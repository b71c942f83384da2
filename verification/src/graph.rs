//! The dependency graph and the queries over it.

use vstd::prelude::*;

verus! {

/// What the analysis reads of one package.
#[derive(Debug, Clone)]
pub struct PackageInfo {
    pub name: String,
    pub version: String,
    pub manifest_path: String,
    pub has_build_script: bool,
    pub in_workspace: bool,
}

/// Why a graph query failed.
#[derive(Debug, Clone, Copy, PartialEq, Eq, Structural)]
pub enum GraphError {
    /// The package id names no package of the graph.
    NotFound,
}

struct Node {
    info: PackageInfo,
    deps: Vec<usize>,
}

/// A dependency graph: packages, numbered from zero in the order in which
/// they were added, and "depends on" links between them.
pub struct DependencyGraph {
    nodes: Vec<Node>,
}

/// Whether the ids of `v` are in strictly ascending order.
pub open spec fn ascending(v: Seq<usize>) -> bool {
    forall|i: int, j: int| 0 <= i < j < v.len() ==> v[i] < v[j]
}

/// Whether `v` lists exactly the ids of `s`, each once, in ascending order.
pub open spec fn lists(v: Seq<usize>, s: Set<int>) -> bool {
    &&& ascending(v)
    &&& forall|i: int| 0 <= i < v.len() ==> s.contains(#[trigger] v[i] as int)
    &&& forall|p: int| #[trigger] s.contains(p) ==> 0 <= p <= usize::MAX && v.contains(p as usize)
}

/// The ids below `bound` that `s` holds, in ascending order.
pub open spec fn enumerate(s: Set<int>, bound: nat) -> Seq<usize>
    decreases bound,
{
    if bound == 0 {
        Seq::empty()
    } else if s.contains(bound - 1) {
        enumerate(s, (bound - 1) as nat).push((bound - 1) as usize)
    } else {
        enumerate(s, (bound - 1) as nat)
    }
}

/// A list of a set holds the ids of the set and no others.
pub proof fn lemma_lists_ids(v: Seq<usize>, s: Set<int>)
    requires
        lists(v, s),
    ensures
        ids(v) == s,
{
    assert forall|p: int| ids(v).contains(p) implies s.contains(p) by {
        let k = choose|k: int| 0 <= k < v.len() && v[k] == p as usize;
        assert(s.contains(v[k] as int));
    }
    assert(ids(v) =~= s);
}

/// The ids that occur in `v`.
pub open spec fn ids(v: Seq<usize>) -> Set<int> {
    Set::new(|p: int| 0 <= p <= usize::MAX && v.contains(p as usize))
}

/// Whether a walk may step onto `v`: every package but the barrier is open.
pub open spec fn passable(barrier: Option<int>, v: int) -> bool {
    match barrier {
        Some(b) => v != b,
        None => true,
    }
}

/// The number of `false` entries of `s`.
spec fn count_false(s: Seq<bool>) -> nat
    decreases s.len(),
{
    if s.len() == 0 {
        0
    } else {
        count_false(s.drop_last()) + if s.last() { 0nat } else { 1nat }
    }
}

proof fn lemma_count_false_update(s: Seq<bool>, i: int)
    requires
        0 <= i < s.len(),
        !s[i],
    ensures
        count_false(s.update(i, true)) + 1 == count_false(s),
    decreases s.len(),
{
    let t = s.update(i, true);
    if i == s.len() - 1 {
        assert(t.drop_last() =~= s.drop_last());
    } else {
        lemma_count_false_update(s.drop_last(), i);
        assert(t.drop_last() =~= s.drop_last().update(i, true));
    }
}

fn filled(n: usize, value: bool) -> (flags: Vec<bool>)
    ensures
        flags.len() == n,
        forall|i: int| 0 <= i < n ==> flags[i] == value,
{
    let mut flags: Vec<bool> = Vec::new();
    while flags.len() < n
        invariant
            flags.len() <= n,
            forall|i: int| 0 <= i < flags.len() ==> flags[i] == value,
        decreases n - flags.len(),
    {
        flags.push(value);
    }
    flags
}

/// The indices at which `flags` holds `true`, in ascending order.
pub fn collect(flags: &Vec<bool>) -> (v: Vec<usize>)
    ensures
        lists(v@, Set::new(|p: int| 0 <= p < flags.len() && flags[p])),
        forall|i: int| 0 <= i < v.len() ==> v[i] < flags.len(),
        v@ == enumerate(Set::new(|p: int| 0 <= p < flags.len() && flags[p]), flags.len() as nat),
{
    let mut v: Vec<usize> = Vec::new();
    let mut i: usize = 0;
    while i < flags.len()
        invariant
            i <= flags.len(),
            v@ == enumerate(Set::new(|p: int| 0 <= p < flags.len() && flags[p]), i as nat),
            ascending(v@),
            forall|k: int| 0 <= k < v.len() ==> #[trigger] v[k] < i && flags[v[k] as int],
            forall|p: int| 0 <= p < i && flags[p] ==> v@.contains(p as usize),
        decreases flags.len() - i,
    {
        if flags[i] {
            let ghost before = v@;
            v.push(i);
            assert forall|p: int| 0 <= p < i + 1 && flags[p] implies v@.contains(p as usize) by {
                if p < i {
                    let k = choose|k: int| 0 <= k < before.len() && before[k] == p as usize;
                    assert(v@[k] == p as usize);
                } else {
                    assert(v@[v.len() - 1] == p as usize);
                }
            }
        }
        i += 1;
    }
    v
}

impl DependencyGraph {
    #[verifier::type_invariant]
    spec fn links_in_range(&self) -> bool {
        forall|a: int, k: int|
            0 <= a < self.nodes.len() && 0 <= k < self.nodes[a].deps.len() ==> (
            #[trigger] self.nodes[a].deps[k]) < self.nodes.len()
    }

    /// The number of packages.
    pub closed spec fn size(&self) -> nat {
        self.nodes.len() as nat
    }

    /// The attributes of package `p`.
    pub closed spec fn info(&self, p: int) -> PackageInfo {
        self.nodes[p].info
    }

    /// Whether package `a` depends directly on package `b`.
    pub closed spec fn edge(&self, a: int, b: int) -> bool {
        &&& 0 <= a < self.nodes.len()
        &&& 0 <= b < self.nodes.len()
        &&& exists|k: int| 0 <= k < self.nodes[a].deps.len() && #[trigger] self.nodes[a].deps[k] == b
    }

    /// Whether `steps` links lead from `a` to `b` over packages that the
    /// barrier leaves open. The start is not held to the barrier.
    pub open spec fn walk(&self, barrier: Option<int>, a: int, b: int, steps: nat) -> bool
        decreases steps,
    {
        if steps == 0 {
            a == b && 0 <= a < self.size()
        } else {
            exists|m: int|
                self.walk(barrier, a, m, (steps - 1) as nat) && #[trigger] self.edge(m, b)
                    && passable(barrier, b)
        }
    }

    /// Whether some chain of links leads from `a` to `b` without stepping
    /// onto the barrier.
    pub open spec fn reaches_around(&self, barrier: Option<int>, a: int, b: int) -> bool {
        exists|steps: nat| self.walk(barrier, a, b, steps)
    }

    /// Whether some chain of links, possibly empty, leads from `a` to `b`.
    pub open spec fn reaches(&self, a: int, b: int) -> bool {
        self.reaches_around(None, a, b)
    }

    /// The packages other than `root` that `root` depends on, directly or
    /// through others.
    pub open spec fn transitive(&self, root: int) -> Set<int> {
        Set::new(|p: int| p != root && self.reaches(root, p))
    }

    /// The packages that depend directly on `node`.
    pub open spec fn dependents(&self, node: int) -> Set<int> {
        Set::new(|p: int| self.edge(p, node))
    }

    /// Whether `d` is shared: whether a package that is neither `root` nor
    /// one of `deps` reaches `d` without passing through `root`.
    ///
    /// This is the least set closed under the rule that a dependency is
    /// shared when one of its direct dependents is outside `deps` and is
    /// not `root`, or is itself a shared dependency.
    pub open spec fn shared(&self, root: int, deps: Set<int>, d: int) -> bool {
        exists|x: int|
            0 <= x < self.size() && x != root && !deps.contains(x) && #[trigger] self.reaches_around(
                Some(root),
                x,
                d,
            )
    }

    /// The members of `deps`, without `root`, that are not shared.
    pub open spec fn exclusive(&self, root: int, deps: Set<int>) -> Set<int> {
        Set::new(|d: int| deps.contains(d) && d != root && !self.shared(root, deps, d))
    }

    /// The packages that belong to the analysed workspace.
    pub open spec fn workspace(&self) -> Set<int> {
        Set::new(|p: int| 0 <= p < self.size() && self.info(p).in_workspace)
    }

    /// The packages outside the workspace that a workspace member depends
    /// on directly.
    pub open spec fn direct(&self) -> Set<int> {
        Set::new(
            |p: int|
                0 <= p < self.size() && !self.info(p).in_workspace && exists|w: int|
                    self.workspace().contains(w) && #[trigger] self.edge(w, p),
        )
    }

    /// The packages that an analysis of the workspace reports on or rolls
    /// up: its direct dependencies and all that they depend on.
    pub open spec fn scope(&self) -> Set<int> {
        Set::new(|p: int| exists|d: int| self.direct().contains(d) && #[trigger] self.reaches(d, p))
    }

    /// A graph without packages.
    pub fn new() -> (graph: DependencyGraph)
        ensures
            graph.size() == 0,
            forall|a: int, b: int| !graph.edge(a, b),
    {
        DependencyGraph { nodes: Vec::new() }
    }

    /// The number of packages.
    pub fn len(&self) -> (n: usize)
        ensures
            n == self.size(),
    {
        self.nodes.len()
    }

    /// Adds a package without links and returns its id.
    pub fn add_package(&mut self, info: PackageInfo) -> (id: usize)
        ensures
            id == old(self).size(),
            final(self).size() == old(self).size() + 1,
            final(self).info(id as int) == info,
            forall|p: int| 0 <= p < old(self).size() ==> final(self).info(p) == old(self).info(p),
            forall|a: int, b: int| final(self).edge(a, b) == old(self).edge(a, b),
    {
        proof {
            use_type_invariant(&*self);
        }
        let mut taken = DependencyGraph { nodes: Vec::new() };
        core::mem::swap(self, &mut taken);
        let mut nodes = taken.nodes;
        let id = nodes.len();
        nodes.push(Node { info, deps: Vec::new() });
        *self = DependencyGraph { nodes };
        proof {
            let before = old(self).nodes@;
            let after = self.nodes@;
            assert(after == before.push(Node { info, deps: after[id as int].deps }));
            assert forall|a: int, b: int| self.edge(a, b) == old(self).edge(a, b) by {
                if 0 <= a < before.len() {
                    assert(after[a] == before[a]);
                }
            }
        }
        id
    }

    /// Records that package `from` depends on package `to`.
    pub fn add_dependency(&mut self, from: usize, to: usize) -> (done: Result<(), GraphError>)
        ensures
            done is Ok <==> from < old(self).size() && to < old(self).size(),
            done is Err ==> *final(self) == *old(self),
            final(self).size() == old(self).size(),
            forall|p: int| 0 <= p < old(self).size() ==> final(self).info(p) == old(self).info(p),
            done is Ok ==> forall|a: int, b: int|
                final(self).edge(a, b) == (old(self).edge(a, b) || (a == from && b == to)),
    {
        if from >= self.nodes.len() || to >= self.nodes.len() {
            return Err(GraphError::NotFound);
        }
        proof {
            use_type_invariant(&*self);
        }
        let mut taken = DependencyGraph { nodes: Vec::new() };
        core::mem::swap(self, &mut taken);
        let mut nodes = taken.nodes;
        nodes[from].deps.push(to);
        *self = DependencyGraph { nodes };
        proof {
            let before = old(self).nodes@;
            let after = self.nodes@;
            let row = before[from as int].deps@;
            assert(after[from as int].deps@ == row.push(to));
            assert forall|a: int, b: int|
                self.edge(a, b) == (old(self).edge(a, b) || (a == from && b == to)) by {
                if 0 <= a < before.len() && 0 <= b < before.len() {
                    if a == from {
                        if old(self).edge(a, b) {
                            let k = choose|k: int| 0 <= k < row.len() && row[k] == b;
                            assert(after[a].deps[k] == b);
                        }
                        if b == to {
                            assert(after[a].deps[row.len() as int] == b);
                        }
                    } else {
                        assert(after[a] == before[a]);
                    }
                }
            }
        }
        Ok(())
    }

    /// The attributes of package `id`.
    pub fn package(&self, id: usize) -> (found: Result<&PackageInfo, GraphError>)
        ensures
            found is Ok <==> id < self.size(),
            found is Ok ==> *found->Ok_0 == self.info(id as int),
    {
        if id >= self.nodes.len() {
            return Err(GraphError::NotFound);
        }
        Ok(&self.nodes[id].info)
    }

    pub(crate) fn info_at(&self, id: usize) -> (info: &PackageInfo)
        requires
            id < self.size(),
        ensures
            *info == self.info(id as int),
    {
        &self.nodes[id].info
    }

    /// Whether one of the seeds reaches `v` without stepping onto the
    /// barrier.
    pub open spec fn seeded(&self, barrier: Option<int>, seeds: Seq<bool>, v: int) -> bool {
        exists|s: int|
            0 <= s < seeds.len() && seeds[s] && #[trigger] self.reaches_around(barrier, s, v)
    }

    /// Whether every open package that a marked package depends on is
    /// marked too.
    pub open spec fn closed_under_links(&self, barrier: Option<int>, marks: Seq<bool>) -> bool {
        forall|u: int, v: int|
            0 <= u < marks.len() && marks[u] && #[trigger] self.edge(u, v) && passable(barrier, v)
                ==> marks[v]
    }

    /// A link joins two packages of the graph.
    pub proof fn lemma_edge_in_range(&self, a: int, b: int)
        requires
            self.edge(a, b),
        ensures
            0 <= a < self.size(),
            0 <= b < self.size(),
    {
    }

    /// A set of marks that holds a package and is closed under links holds
    /// everything that the package reaches.
    proof fn lemma_closed_holds_walks(
        &self,
        barrier: Option<int>,
        marks: Seq<bool>,
        s: int,
        v: int,
        steps: nat,
    )
        requires
            marks.len() == self.size(),
            self.closed_under_links(barrier, marks),
            0 <= s < marks.len(),
            marks[s],
            self.walk(barrier, s, v, steps),
        ensures
            0 <= v < marks.len(),
            marks[v],
        decreases steps,
    {
        if steps > 0 {
            let m = choose|m: int|
                self.walk(barrier, s, m, (steps - 1) as nat) && #[trigger] self.edge(m, v)
                    && passable(barrier, v);
            self.lemma_closed_holds_walks(barrier, marks, s, m, (steps - 1) as nat);
            self.lemma_edge_in_range(m, v);
        }
    }

    /// One more link extends a walk.
    pub proof fn lemma_walk_step(&self, barrier: Option<int>, a: int, m: int, b: int)
        requires
            self.reaches_around(barrier, a, m),
            self.edge(m, b),
            passable(barrier, b),
        ensures
            self.reaches_around(barrier, a, b),
    {
        let steps = choose|steps: nat| self.walk(barrier, a, m, steps);
        assert(self.walk(barrier, a, m, ((steps + 1) - 1) as nat));
        assert(self.walk(barrier, a, b, steps + 1));
    }

    /// Marks every package that a seed reaches without stepping onto the
    /// barrier.
    pub(crate) fn spread(&self, seeds: Vec<bool>, barrier: Option<usize>) -> (marks: Vec<bool>)
        requires
            seeds.len() == self.size(),
        ensures
            marks.len() == self.size(),
            forall|v: int|
                0 <= v < self.size() ==> (marks[v] <==> self.seeded(
                    match barrier {
                        Some(b) => Some(b as int),
                        None => None,
                    },
                    seeds@,
                    v,
                )),
    {
        proof {
            use_type_invariant(self);
        }
        let ghost wall: Option<int> = match barrier {
            Some(b) => Some(b as int),
            None => None,
        };
        let n = self.nodes.len();
        let mut marks = seeds;
        let mut stack: Vec<usize> = Vec::new();
        let mut i: usize = 0;
        while i < n
            invariant
                i <= n,
                n == self.nodes.len(),
                marks == seeds,
                marks.len() == n,
                forall|k: int| 0 <= k < stack.len() ==> #[trigger] stack[k] < n && marks[stack[k] as int],
                forall|u: int| 0 <= u < i && marks[u] ==> stack@.contains(u as usize),
            decreases n - i,
        {
            if marks[i] {
                let ghost before = stack@;
                stack.push(i);
                assert forall|u: int| 0 <= u < i + 1 && marks[u] implies stack@.contains(
                    u as usize,
                ) by {
                    if u < i {
                        let k = choose|k: int| 0 <= k < before.len() && before[k] == u as usize;
                        assert(stack@[k] == u as usize);
                    } else {
                        assert(stack@[stack.len() - 1] == u as usize);
                    }
                }
            }
            i += 1;
        }
        proof {
            assert forall|v: int| 0 <= v < n && marks[v] implies self.seeded(wall, seeds@, v) by {
                assert(self.walk(wall, v, v, 0));
                assert(self.reaches_around(wall, v, v));
            }
        }
        while stack.len() > 0
            invariant
                n == self.nodes.len(),
                n == self.size(),
                seeds.len() == n,
                marks.len() == n,
                self.links_in_range(),
                wall == (match barrier {
                    Some(b) => Some(b as int),
                    None => None,
                }),
                forall|k: int| 0 <= k < stack.len() ==> #[trigger] stack[k] < n && marks[stack[k] as int],
                forall|s: int| 0 <= s < n && seeds[s] ==> marks[s],
                forall|v: int| 0 <= v < n && marks[v] ==> self.seeded(wall, seeds@, v),
                forall|u: int, v: int|
                    0 <= u < n && marks[u] && !stack@.contains(u as usize) && #[trigger] self.edge(
                        u,
                        v,
                    ) && passable(wall, v) ==> marks[v],
            decreases 2 * count_false(marks@) + stack.len(),
        {
            let ghost stack_before = stack@;
            let ghost measure = 2 * count_false(marks@) + stack.len();
            let u = stack.pop().unwrap();
            let row = &self.nodes[u].deps;
            proof {
                assert forall|w: usize| w != u && #[trigger] stack_before.contains(w) implies stack@.contains(
                    w,
                ) by {
                    let k = choose|k: int| 0 <= k < stack_before.len() && stack_before[k] == w;
                    assert(stack@[k] == w);
                }
            }
            let mut j: usize = 0;
            while j < row.len()
                invariant
                    j <= row.len(),
                    n == self.nodes.len(),
                    n == self.size(),
                    seeds.len() == n,
                    marks.len() == n,
                    u < n,
                    marks[u as int],
                    row == &self.nodes[u as int].deps,
                    self.links_in_range(),
                    wall == (match barrier {
                        Some(b) => Some(b as int),
                        None => None,
                    }),
                    2 * count_false(marks@) + stack.len() < measure,
                    forall|k: int| 0 <= k < stack.len() ==> #[trigger] stack[k] < n && marks[stack[k] as int],
                    forall|s: int| 0 <= s < n && seeds[s] ==> marks[s],
                    forall|v: int| 0 <= v < n && marks[v] ==> self.seeded(wall, seeds@, v),
                    forall|w: int, v: int|
                        0 <= w < n && w != u && marks[w] && !stack@.contains(w as usize)
                            && #[trigger] self.edge(w, v) && passable(wall, v) ==> marks[v],
                    forall|k: int| 0 <= k < j && passable(wall, #[trigger] row[k] as int) ==> marks[row[k] as int],
                decreases row.len() - j,
            {
                let v = row[j];
                assert(v < n);
                let open = match barrier {
                    Some(b) => v != b,
                    None => true,
                };
                if open && !marks[v] {
                    let ghost marks_before = marks@;
                    let ghost pile_before = stack@;
                    proof {
                        lemma_count_false_update(marks@, v as int);
                        assert(self.edge(u as int, v as int));
                        let s = choose|s: int|
                            0 <= s < seeds.len() && seeds[s] && #[trigger] self.reaches_around(
                                wall,
                                s,
                                u as int,
                            );
                        self.lemma_walk_step(wall, s, u as int, v as int);
                    }
                    marks.set(v, true);
                    stack.push(v);
                    proof {
                        assert(stack@[stack.len() - 1] == v);
                        assert forall|k: int| 0 <= k < stack.len() implies #[trigger] stack[k] < n
                            && marks[stack[k] as int] by {
                            if k < pile_before.len() {
                                assert(stack[k] == pile_before[k]);
                            }
                        }
                        assert forall|w: int, x: int|
                            0 <= w < n && w != u && marks[w] && !stack@.contains(w as usize)
                                && #[trigger] self.edge(w, x) && passable(wall, x) implies marks[x] by {
                            assert(w != v);
                            assert(marks_before[w]);
                            if pile_before.contains(w as usize) {
                                let k = choose|k: int|
                                    0 <= k < pile_before.len() && pile_before[k] == w as usize;
                                assert(stack@[k] == w as usize);
                            }
                        }
                    }
                }
                j += 1;
            }
            proof {
                assert forall|w: int, x: int|
                    0 <= w < n && marks[w] && !stack@.contains(w as usize) && #[trigger] self.edge(
                        w,
                        x,
                    ) && passable(wall, x) implies marks[x] by {
                    if w == u {
                        let k = choose|k: int|
                            0 <= k < self.nodes[w].deps.len() && #[trigger] self.nodes[w].deps[k]
                                == x;
                        assert(row[k] as int == x);
                    }
                }
            }
        }
        proof {
            assert(self.closed_under_links(wall, marks@)) by {
                assert forall|u: int, v: int|
                    0 <= u < marks.len() && marks[u] && #[trigger] self.edge(u, v) && passable(
                        wall,
                        v,
                    ) implies marks[v] by {
                    assert(!stack@.contains(u as usize));
                }
            }
            assert forall|v: int| 0 <= v < n && self.seeded(wall, seeds@, v) implies marks[v] by {
                let s = choose|s: int|
                    0 <= s < seeds.len() && seeds[s] && #[trigger] self.reaches_around(wall, s, v);
                let steps = choose|steps: nat| self.walk(wall, s, v, steps);
                self.lemma_closed_holds_walks(wall, marks@, s, v, steps);
            }
        }
        marks
    }

    /// The workspace members, in ascending order.
    pub fn list_workspace_roots(&self) -> (roots: Vec<usize>)
        ensures
            lists(roots@, self.workspace()),
            roots@ == enumerate(self.workspace(), self.size()),
            forall|i: int| 0 <= i < roots.len() ==> roots[i] < self.size(),
    {
        let n = self.nodes.len();
        let mut flags = filled(n, false);
        let mut i: usize = 0;
        while i < n
            invariant
                i <= n,
                n == self.nodes.len(),
                flags.len() == n,
                forall|p: int| 0 <= p < i ==> flags[p] == self.info(p).in_workspace,
                forall|p: int| i <= p < n ==> !flags[p],
            decreases n - i,
        {
            if self.nodes[i].info.in_workspace {
                flags.set(i, true);
            }
            i += 1;
        }
        let roots = collect(&flags);
        assert(Set::new(|p: int| 0 <= p < flags.len() && flags[p]) =~= self.workspace());
        roots
    }

    /// The packages outside the workspace that a workspace member depends
    /// on directly, in ascending order.
    pub fn direct_dependencies(&self) -> (direct: Vec<usize>)
        ensures
            lists(direct@, self.direct()),
            direct@ == enumerate(self.direct(), self.size()),
            forall|i: int| 0 <= i < direct.len() ==> direct[i] < self.size(),
    {
        proof {
            use_type_invariant(self);
        }
        let n = self.nodes.len();
        let mut flags = filled(n, false);
        let mut w: usize = 0;
        while w < n
            invariant
                w <= n,
                n == self.nodes.len(),
                flags.len() == n,
                self.links_in_range(),
                forall|p: int| 0 <= p < n && flags[p] ==> self.direct().contains(p),
                forall|a: int, p: int|
                    0 <= a < w && self.info(a).in_workspace && #[trigger] self.edge(a, p)
                        && !self.info(p).in_workspace ==> flags[p],
            decreases n - w,
        {
            if self.nodes[w].info.in_workspace {
                let row = &self.nodes[w].deps;
                let mut j: usize = 0;
                while j < row.len()
                    invariant
                        j <= row.len(),
                        w < n,
                        n == self.nodes.len(),
                        flags.len() == n,
                        self.links_in_range(),
                        self.info(w as int).in_workspace,
                        row == &self.nodes[w as int].deps,
                        forall|p: int| 0 <= p < n && flags[p] ==> self.direct().contains(p),
                        forall|a: int, p: int|
                            0 <= a < w && self.info(a).in_workspace && #[trigger] self.edge(a, p)
                                && !self.info(p).in_workspace ==> flags[p],
                        forall|k: int|
                            0 <= k < j && !self.info(#[trigger] row[k] as int).in_workspace
                                ==> flags[row[k] as int],
                    decreases row.len() - j,
                {
                    let v = row[j];
                    assert(v < n);
                    if !self.nodes[v].info.in_workspace {
                        assert(self.edge(w as int, v as int));
                        assert(self.workspace().contains(w as int));
                        flags.set(v, true);
                    }
                    j += 1;
                }
                assert forall|p: int| #[trigger]
                    self.edge(w as int, p) && !self.info(p).in_workspace implies flags[p] by {
                    let k = choose|k: int|
                        0 <= k < self.nodes[w as int].deps.len() && #[trigger] self.nodes[w as int].deps[k]
                            == p;
                    assert(row[k] as int == p);
                }
            }
            w += 1;
        }
        let direct = collect(&flags);
        assert(Set::new(|p: int| 0 <= p < flags.len() && flags[p]) =~= self.direct());
        direct
    }

    /// The packages that depend directly on `node`, in ascending order.
    pub fn direct_dependents(&self, node: usize) -> (found: Result<Vec<usize>, GraphError>)
        ensures
            found is Ok <==> node < self.size(),
            found is Ok ==> lists(found->Ok_0@, self.dependents(node as int)),
            found is Ok ==> found->Ok_0@ == enumerate(self.dependents(node as int), self.size()),
            found is Ok ==> forall|i: int|
                0 <= i < found->Ok_0.len() ==> found->Ok_0[i] < self.size(),
    {
        let n = self.nodes.len();
        if node >= n {
            return Err(GraphError::NotFound);
        }
        let mut flags = filled(n, false);
        let mut p: usize = 0;
        while p < n
            invariant
                p <= n,
                node < n,
                n == self.nodes.len(),
                flags.len() == n,
                forall|a: int| 0 <= a < p ==> flags[a] == self.edge(a, node as int),
                forall|a: int| p <= a < n ==> !flags[a],
            decreases n - p,
        {
            let row = &self.nodes[p].deps;
            let mut j: usize = 0;
            let mut hit = false;
            while j < row.len()
                invariant
                    j <= row.len(),
                    row == &self.nodes[p as int].deps,
                    p < n,
                    hit <==> exists|k: int| 0 <= k < j && #[trigger] row[k] == node,
                decreases row.len() - j,
            {
                if row[j] == node {
                    hit = true;
                }
                j += 1;
            }
            if hit {
                flags.set(p, true);
            }
            p += 1;
        }
        let dependents = collect(&flags);
        assert(Set::new(|a: int| 0 <= a < flags.len() && flags[a]) =~= self.dependents(node as int));
        Ok(dependents)
    }

    /// The packages other than `root` that `root` depends on, directly or
    /// through others, in ascending order.
    pub fn transitive_dependencies(&self, root: usize) -> (found: Result<Vec<usize>, GraphError>)
        ensures
            found is Ok <==> root < self.size(),
            found is Ok ==> lists(found->Ok_0@, self.transitive(root as int)),
            found is Ok ==> found->Ok_0@ == enumerate(self.transitive(root as int), self.size()),
            found is Ok ==> forall|i: int|
                0 <= i < found->Ok_0.len() ==> found->Ok_0[i] < self.size(),
    {
        let n = self.nodes.len();
        if root >= n {
            return Err(GraphError::NotFound);
        }
        let mut seeds = filled(n, false);
        seeds.set(root, true);
        let ghost seeded_from = seeds@;
        let mut marks = self.spread(seeds, None);
        marks.set(root, false);
        let found = collect(&marks);
        proof {
            assert forall|p: int| 0 <= p < n && p != root implies (marks[p] <==> self.reaches(
                root as int,
                p,
            )) by {
                if self.reaches(root as int, p) {
                    assert(self.reaches_around(None, root as int, p));
                    assert(self.seeded(None, seeded_from, p));
                }
            }
            assert forall|p: int| self.reaches(root as int, p) implies 0 <= p < n by {
                self.lemma_reach_in_range(None, root as int, p);
            }
            assert(Set::new(|p: int| 0 <= p < marks.len() && marks[p]) =~= self.transitive(
                root as int,
            ));
        }
        Ok(found)
    }

    /// A walk starts and ends at packages of the graph.
    pub proof fn lemma_reach_in_range(&self, barrier: Option<int>, a: int, b: int)
        requires
            self.reaches_around(barrier, a, b),
        ensures
            0 <= a < self.size(),
            0 <= b < self.size(),
    {
        let steps = choose|steps: nat| self.walk(barrier, a, b, steps);
        self.lemma_walk_in_range(barrier, a, b, steps);
    }

    proof fn lemma_walk_in_range(&self, barrier: Option<int>, a: int, b: int, steps: nat)
        requires
            self.walk(barrier, a, b, steps),
        ensures
            0 <= a < self.size(),
            0 <= b < self.size(),
        decreases steps,
    {
        if steps > 0 {
            let m = choose|m: int|
                self.walk(barrier, a, m, (steps - 1) as nat) && #[trigger] self.edge(m, b)
                    && passable(barrier, b);
            self.lemma_walk_in_range(barrier, a, m, (steps - 1) as nat);
        }
    }

    /// The members of `deps` that only `root` pulls in, in ascending order.
    ///
    /// A member of `deps` is dropped when a package outside `deps`, other
    /// than `root`, depends on it directly or through other members.
    pub fn exclusive_dependencies(&self, root: usize, deps: &Vec<usize>) -> (found: Result<
        Vec<usize>,
        GraphError,
    >)
        ensures
            found is Ok <==> root < self.size() && forall|i: int|
                0 <= i < deps.len() ==> deps[i] < self.size(),
            found is Ok ==> lists(found->Ok_0@, self.exclusive(root as int, ids(deps@))),
            found is Ok ==> found->Ok_0@ == enumerate(
                self.exclusive(root as int, ids(deps@)),
                self.size(),
            ),
            found is Ok ==> forall|i: int|
                0 <= i < found->Ok_0.len() ==> found->Ok_0[i] < self.size(),
    {
        let n = self.nodes.len();
        if root >= n {
            return Err(GraphError::NotFound);
        }
        let mut outside = filled(n, true);
        outside.set(root, false);
        let mut listed = filled(n, false);
        let mut i: usize = 0;
        while i < deps.len()
            invariant
                i <= deps.len(),
                root < n,
                n == self.nodes.len(),
                outside.len() == n,
                listed.len() == n,
                forall|k: int| 0 <= k < i ==> deps[k] < n,
                forall|k: int| 0 <= k < i ==> listed[#[trigger] deps[k] as int],
                forall|p: int|
                    0 <= p < n && #[trigger] listed[p] ==> exists|k: int|
                        0 <= k < i && deps[k] == p,
                forall|p: int| 0 <= p < n ==> outside[p] == (p != root && !listed[p]),
            decreases deps.len() - i,
        {
            let d = deps[i];
            if d >= n {
                return Err(GraphError::NotFound);
            }
            outside.set(d, false);
            listed.set(d, true);
            i += 1;
        }
        let ghost seeds = outside@;
        let tainted = self.spread(outside, Some(root));
        let mut flags = filled(n, false);
        let mut p: usize = 0;
        while p < n
            invariant
                p <= n,
                n == self.nodes.len(),
                flags.len() == n,
                listed.len() == n,
                tainted.len() == n,
                forall|a: int|
                    0 <= a < p ==> flags[a] == (listed[a] && a != root && !tainted[a]),
                forall|a: int| p <= a < n ==> !flags[a],
            decreases n - p,
        {
            if listed[p] && p != root && !tainted[p] {
                flags.set(p, true);
            }
            p += 1;
        }
        let found = collect(&flags);
        proof {
            let wall = Some(root as int);
            let named = ids(deps@);
            assert forall|a: int| 0 <= a < n implies listed[a] == named.contains(a) by {
                if listed[a] {
                    let k = choose|k: int| 0 <= k < deps.len() && deps[k] == a;
                    assert(deps@[k] == a as usize);
                }
                if named.contains(a) {
                    let k = choose|k: int| 0 <= k < deps.len() && deps@[k] == a as usize;
                    assert(listed[deps[k] as int]);
                }
            }
            assert forall|a: int| 0 <= a < n implies tainted[a] == self.shared(
                root as int,
                named,
                a,
            ) by {
                if self.shared(root as int, named, a) {
                    let x = choose|x: int|
                        0 <= x < self.size() && x != root && !named.contains(x)
                            && #[trigger] self.reaches_around(wall, x, a);
                    assert(seeds[x]);
                    assert(self.seeded(wall, seeds, a));
                }
                if tainted[a] {
                    let s = choose|s: int|
                        0 <= s < seeds.len() && seeds[s] && #[trigger] self.reaches_around(
                            wall,
                            s,
                            a,
                        );
                    assert(!named.contains(s));
                }
            }
            assert forall|a: int| named.contains(a) implies 0 <= a < n by {
                let k = choose|k: int| 0 <= k < deps.len() && deps@[k] == a as usize;
            }
            assert(Set::new(|a: int| 0 <= a < flags.len() && flags[a]) =~= self.exclusive(
                root as int,
                named,
            ));
        }
        Ok(found)
    }

    /// The direct dependencies of the workspace and all that they depend
    /// on, in ascending order.
    pub fn analysis_scope(&self) -> (found: Vec<usize>)
        ensures
            lists(found@, self.scope()),
            found@ == enumerate(self.scope(), self.size()),
            forall|i: int| 0 <= i < found.len() ==> found[i] < self.size(),
    {
        let n = self.nodes.len();
        let direct = self.direct_dependencies();
        let mut seeds = filled(n, false);
        let mut i: usize = 0;
        while i < direct.len()
            invariant
                i <= direct.len(),
                n == self.size(),
                seeds.len() == n,
                lists(direct@, self.direct()),
                forall|k: int| 0 <= k < i ==> seeds[#[trigger] direct[k] as int],
                forall|p: int| 0 <= p < n && seeds[p] ==> self.direct().contains(p),
            decreases direct.len() - i,
        {
            let d = direct[i];
            assert(self.direct().contains(direct@[i as int] as int));
            seeds.set(d, true);
            i += 1;
        }
        let ghost seeded_from = seeds@;
        let marks = self.spread(seeds, None);
        let found = collect(&marks);
        proof {
            assert forall|p: int| 0 <= p < n implies (marks[p] <==> self.scope().contains(p)) by {
                if self.scope().contains(p) {
                    let d = choose|d: int| self.direct().contains(d) && #[trigger] self.reaches(d, p);
                    let k = choose|k: int| 0 <= k < direct.len() && direct@[k] == d as usize;
                    assert(seeded_from[direct[k] as int]);
                    assert(self.reaches_around(None, d, p));
                    assert(self.seeded(None, seeded_from, p));
                }
                if marks[p] {
                    let s = choose|s: int|
                        0 <= s < seeded_from.len() && seeded_from[s]
                            && #[trigger] self.reaches_around(None, s, p);
                    assert(self.reaches(s, p));
                }
            }
            assert forall|p: int| self.scope().contains(p) implies 0 <= p < n by {
                let d = choose|d: int| self.direct().contains(d) && #[trigger] self.reaches(d, p);
                self.lemma_reach_in_range(None, d, p);
            }
            assert(Set::new(|p: int| 0 <= p < marks.len() && marks[p]) =~= self.scope());
        }
        found
    }
}

} // verus!
