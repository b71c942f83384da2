//! The analyzer: its two caches, the roll-up of a set of packages and the
//! report of each direct dependency.

use crate::geiger::all_records;
use crate::geiger::first_record;
use crate::geiger::lemma_first_record_concat;
use crate::geiger::GeigerPackageInfo;
use crate::geiger::GeigerReport;
use crate::graph::ids;
use crate::graph::lemma_lists_ids;
use crate::graph::DependencyGraph;
use crate::graph::GraphError;
use crate::graph::PackageInfo;
use crate::graph::enumerate;
use crate::report::CodeReport;
use crate::report::DepReport;
use crate::report::DepTally;
use crate::report::LOCReport;
use crate::report::UnsafeReport;
use vstd::hash_map::StringHashMap;
use vstd::prelude::*;

verus! {

/// Why an analysis failed.
#[derive(Debug, Clone, Copy, PartialEq, Eq, Structural)]
pub enum AnalysisError {
    /// A package id names no package of the graph.
    NotFound,
    /// The path of a package manifest has no parent directory.
    NoParentDirectory,
    /// The lines of code of a package were asked for before they were
    /// recorded.
    LocNotCached,
    /// A sum does not fit its counter.
    Overflow,
}

impl AnalysisError {
    /// What the error says, as a text.
    pub open spec fn text(self) -> Seq<char> {
        match self {
            AnalysisError::NotFound => "package not found in the dependency graph"@,
            AnalysisError::NoParentDirectory => "Cannot find parent directory of Cargo.toml"@,
            AnalysisError::LocNotCached => "Caching error"@,
            AnalysisError::Overflow => "a sum does not fit its counter"@,
        }
    }

    /// What the error says, as a text.
    pub fn message(&self) -> (message: &'static str)
        ensures
            message@ == self.text(),
    {
        match self {
            AnalysisError::NotFound => "package not found in the dependency graph",
            AnalysisError::NoParentDirectory => "Cannot find parent directory of Cargo.toml",
            AnalysisError::LocNotCached => "Caching error",
            AnalysisError::Overflow => "a sum does not fit its counter",
        }
    }
}

/// What the report of one direct dependency holds, with unbounded
/// counters in its two roll-ups.
pub struct CodeSummary {
    pub loc: LOCReport,
    pub unsafe_report: Option<UnsafeReport>,
    pub deps: DepTally,
    pub exclusive_deps: DepTally,
}

/// Whether `report` is the report of the package with the attributes
/// `info` and the metrics `summary`.
pub open spec fn describes(report: CodeReport, info: PackageInfo, summary: CodeSummary) -> bool {
    &&& report.name@ == info.name@
    &&& report.version@ == info.version@
    &&& report.is_direct
    &&& report.has_build_script == info.has_build_script
    &&& report.loc_report == Some(summary.loc)
    &&& report.unsafe_report == summary.unsafe_report
    &&& report.dep_report is Some
    &&& report.dep_report->0@ == summary.deps
    &&& report.exclusive_dep_report is Some
    &&& report.exclusive_dep_report->0@ == summary.exclusive_deps
}

/// The parent directory of a path, as `camino::Utf8Path::parent` gives it;
/// `None` where the path has none.
pub uninterp spec fn parent_of(path: Seq<char>) -> Option<Seq<char>>;

/// Calls `camino::Utf8Path::parent` on `path`. The contract names the
/// result [`parent_of`] and claims nothing more of it: the path without
/// its last component is computed from the text of the path alone, by the
/// path syntax of the platform that the crate is built for.
#[verifier::external_body]
fn parent_directory(path: &str) -> (dir: Option<String>)
    ensures
        match dir {
            Some(d) => parent_of(path@) == Some(d@),
            None => parent_of(path@) is None,
        },
{
    match camino::Utf8Path::new(path).parent() {
        Some(parent) => Some(parent.as_str().to_string()),
        None => None,
    }
}

/// The source directory of package `p` of `graph`: the parent directory of
/// its manifest.
pub open spec fn package_dir(graph: &DependencyGraph, p: int) -> Option<Seq<char>> {
    parent_of(graph.info(p).manifest_path@)
}

/// Whether some package of `set` has `dir` as its source directory.
pub open spec fn houses(graph: &DependencyGraph, set: Set<int>, dir: Seq<char>) -> bool {
    exists|p: int| set.contains(p) && #[trigger] package_dir(graph, p) == Some(dir)
}

/// Whether `dir` is among `dirs`.
pub open spec fn names(dirs: Seq<String>, dir: Seq<char>) -> bool {
    exists|i: int| 0 <= i < dirs.len() && (#[trigger] dirs[i])@ == dir
}

/// Computes the code metrics of the direct dependencies of a workspace.
///
/// The analyzer holds two caches. Both are write-once: what was recorded
/// first for a key stays.
pub struct CodeAnalyzer {
    loc_cache: StringHashMap<LOCReport>,
    geiger_cache: Vec<GeigerPackageInfo>,
}

impl CodeAnalyzer {
    /// The lines of code recorded so far, by source directory.
    pub closed spec fn loc_reports(&self) -> Map<Seq<char>, LOCReport> {
        self.loc_cache@
    }

    /// The scanner record kept for the package `name` in version
    /// `version`, if the scanner reported that package.
    pub closed spec fn unsafe_record(&self, name: Seq<char>, version: Seq<char>) -> Option<
        GeigerPackageInfo,
    > {
        first_record(self.geiger_cache@, name, version)
    }

    /// The lines of code of the package whose manifest is at
    /// `manifest_path`.
    pub open spec fn loc_of(&self, manifest_path: Seq<char>) -> Result<LOCReport, AnalysisError> {
        match parent_of(manifest_path) {
            None => Err(AnalysisError::NoParentDirectory),
            Some(dir) => if self.loc_reports().contains_key(dir) {
                Ok(self.loc_reports()[dir])
            } else {
                Err(AnalysisError::LocNotCached)
            },
        }
    }

    /// The unsafe report of the package `name` in version `version`; `None`
    /// where the scanner did not report the package.
    pub open spec fn unsafe_of(&self, name: Seq<char>, version: Seq<char>) -> Option<
        UnsafeReport,
    > {
        match self.unsafe_record(name, version) {
            Some(record) => Some(record.unsafety.report()),
            None => None,
        }
    }

    /// The lines of code of package `p` of `graph`.
    pub open spec fn package_loc(&self, graph: &DependencyGraph, p: int) -> Result<
        LOCReport,
        AnalysisError,
    > {
        self.loc_of(graph.info(p).manifest_path@)
    }

    /// What package `p` of `graph` adds to a roll-up.
    pub open spec fn package_tally(&self, graph: &DependencyGraph, p: int) -> DepTally {
        DepTally::single(
            match self.package_loc(graph, p) {
                Ok(loc) => loc,
                Err(_) => LOCReport::zero(),
            },
            self.unsafe_of(graph.info(p).name@, graph.info(p).version@),
            graph.info(p).has_build_script,
        )
    }

    /// The roll-up of the packages of `set` whose id is below `bound`.
    pub open spec fn tally_upto(&self, graph: &DependencyGraph, set: Set<int>, bound: nat) -> DepTally
        decreases bound,
    {
        if bound == 0 {
            DepTally::zero()
        } else if set.contains(bound - 1) {
            self.tally_upto(graph, set, (bound - 1) as nat).plus(
                self.package_tally(graph, bound - 1),
            )
        } else {
            self.tally_upto(graph, set, (bound - 1) as nat)
        }
    }

    /// The roll-up of the packages of `set`: each package counts once.
    pub open spec fn tally(&self, graph: &DependencyGraph, set: Set<int>) -> DepTally {
        self.tally_upto(graph, set, graph.size())
    }

    /// Whether the lines of code of some package of `set` fail with `error`.
    pub open spec fn loc_fails(
        &self,
        graph: &DependencyGraph,
        set: Set<int>,
        error: AnalysisError,
    ) -> bool {
        exists|p: int|
            0 <= p < graph.size() && set.contains(p) && #[trigger] self.package_loc(graph, p)
                == Err::<LOCReport, AnalysisError>(error)
    }

    /// What the roll-up of `set` comes to: the tally, or the reason why
    /// there is none. A manifest without a parent directory is reported
    /// before a directory that was not recorded, and that before a sum that
    /// does not fit.
    pub open spec fn set_outcome(&self, graph: &DependencyGraph, set: Set<int>) -> Result<
        DepTally,
        AnalysisError,
    > {
        if self.loc_fails(graph, set, AnalysisError::NoParentDirectory) {
            Err(AnalysisError::NoParentDirectory)
        } else if self.loc_fails(graph, set, AnalysisError::LocNotCached) {
            Err(AnalysisError::LocNotCached)
        } else if !self.tally(graph, set).fits() {
            Err(AnalysisError::Overflow)
        } else {
            Ok(self.tally(graph, set))
        }
    }

    /// What the roll-up of a list of packages comes to. A package that
    /// occurs twice counts once. An id that the graph does not have is
    /// reported before anything else.
    pub open spec fn dep_report_outcome(&self, graph: &DependencyGraph, deps: Seq<usize>) -> Result<
        DepTally,
        AnalysisError,
    > {
        if exists|i: int| 0 <= i < deps.len() && deps[i] >= graph.size() {
            Err(AnalysisError::NotFound)
        } else {
            self.set_outcome(graph, ids(deps))
        }
    }

    /// What the report of package `p` comes to: its metrics, or the reason
    /// why there are none. The package's own lines of code are looked up
    /// first, then all its dependencies are rolled up, then those that only
    /// it pulls in.
    pub open spec fn package_outcome(&self, graph: &DependencyGraph, p: int) -> Result<
        CodeSummary,
        AnalysisError,
    > {
        if !(0 <= p < graph.size()) {
            Err(AnalysisError::NotFound)
        } else {
            match self.package_loc(graph, p) {
                Err(error) => Err(error),
                Ok(loc) => match self.set_outcome(graph, graph.transitive(p)) {
                    Err(error) => Err(error),
                    Ok(deps) => match self.set_outcome(
                        graph,
                        graph.exclusive(p, graph.transitive(p)),
                    ) {
                        Err(error) => Err(error),
                        Ok(exclusive_deps) => Ok(
                            CodeSummary {
                                loc,
                                unsafe_report: self.unsafe_of(
                                    graph.info(p).name@,
                                    graph.info(p).version@,
                                ),
                                deps,
                                exclusive_deps,
                            },
                        ),
                    },
                },
            }
        }
    }

    /// A roll-up grows with the bound.
    proof fn lemma_tally_grows(&self, graph: &DependencyGraph, set: Set<int>, low: nat, high: nat)
        requires
            low <= high,
        ensures
            self.tally_upto(graph, set, low).le(self.tally_upto(graph, set, high)),
        decreases high - low,
    {
        if low < high {
            self.lemma_tally_grows(graph, set, low, (high - 1) as nat);
        }
    }

    /// An analyzer with empty caches.
    pub fn new() -> (analyzer: CodeAnalyzer)
        ensures
            analyzer.loc_reports() == Map::<Seq<char>, LOCReport>::empty(),
            forall|name: Seq<char>, version: Seq<char>|
                analyzer.unsafe_record(name, version) is None,
    {
        CodeAnalyzer { loc_cache: StringHashMap::new(), geiger_cache: Vec::new() }
    }

    fn find_record(&self, name: &String, version: &String) -> (at: Option<usize>)
        ensures
            match at {
                Some(i) => i < self.geiger_cache.len() && self.unsafe_record(name@, version@)
                    == Some(self.geiger_cache[i as int]),
                None => self.unsafe_record(name@, version@) is None,
            },
    {
        let mut i: usize = 0;
        assert(self.geiger_cache@.skip(0) =~= self.geiger_cache@);
        while i < self.geiger_cache.len()
            invariant
                i <= self.geiger_cache.len(),
                first_record(self.geiger_cache@, name@, version@) == first_record(
                    self.geiger_cache@.skip(i as int),
                    name@,
                    version@,
                ),
            decreases self.geiger_cache.len() - i,
        {
            let ghost rest = self.geiger_cache@.skip(i as int);
            assert(rest[0] == self.geiger_cache[i as int]);
            assert(rest.skip(1) =~= self.geiger_cache@.skip(i + 1));
            if self.geiger_cache[i].describes(name, version) {
                return Some(i);
            }
            i += 1;
        }
        assert(self.geiger_cache@.skip(i as int).len() == 0);
        None
    }

    /// The scanner record kept for a package, by name and version.
    pub fn get_cargo_geiger_report_from_cache(&self, key: &(String, String)) -> (record: Option<
        GeigerPackageInfo,
    >)
        ensures
            record == self.unsafe_record(key.0@, key.1@),
    {
        match self.find_record(&key.0, &key.1) {
            Some(i) => Some(self.geiger_cache[i].clone()),
            None => None,
        }
    }

    /// The unsafe report of a package; `None` where the scanner did not
    /// report the package. No scan is started.
    pub fn get_unsafe_report(&self, name: String, version: String) -> (report: Option<
        UnsafeReport,
    >)
        ensures
            report == self.unsafe_of(name@, version@),
    {
        match self.find_record(&name, &version) {
            Some(i) => Some(self.geiger_cache[i].unsafety.unsafe_report()),
            None => None,
        }
    }

    /// Takes the records of one scanner run into the cache. A package of
    /// which the cache holds a record keeps it.
    pub fn merge_geiger_report(&mut self, report: &GeigerReport)
        ensures
            final(self).loc_reports() == old(self).loc_reports(),
            forall|name: Seq<char>, version: Seq<char>|
                final(self).unsafe_record(name, version) == (match old(self).unsafe_record(
                    name,
                    version,
                ) {
                    Some(kept) => Some(kept),
                    None => first_record(report.packages@, name, version),
                }),
    {
        let mut j: usize = 0;
        assert(report.packages@.skip(0) =~= report.packages@);
        while j < report.packages.len()
            invariant
                j <= report.packages.len(),
                self.loc_cache == old(self).loc_cache,
                forall|name: Seq<char>, version: Seq<char>|
                    first_record(
                        self.geiger_cache@ + report.packages@.skip(j as int),
                        name,
                        version,
                    ) == first_record(old(self).geiger_cache@ + report.packages@, name, version),
            decreases report.packages.len() - j,
        {
            let record = &report.packages[j];
            let ghost cache_before = self.geiger_cache@;
            let ghost rest = report.packages@.skip(j as int);
            let ghost rest_after = report.packages@.skip(j + 1);
            assert(rest[0] == *record);
            assert(rest.skip(1) =~= rest_after);
            let known = self.find_record(&record.package.id.name, &record.package.id.version);
            if known.is_none() {
                self.geiger_cache.push(record.clone());
                assert(self.geiger_cache@ + rest_after =~= cache_before + rest);
            } else {
                assert forall|name: Seq<char>, version: Seq<char>|
                    first_record(cache_before + rest_after, name, version) == first_record(
                        cache_before + rest,
                        name,
                        version,
                    ) by {
                    lemma_first_record_concat(cache_before, rest_after, name, version);
                    lemma_first_record_concat(cache_before, rest, name, version);
                }
            }
            j += 1;
        }
        proof {
            assert(report.packages@.skip(j as int) =~= Seq::empty());
            assert(self.geiger_cache@ + report.packages@.skip(j as int) =~= self.geiger_cache@);
            assert forall|name: Seq<char>, version: Seq<char>|
                self.unsafe_record(name, version) == (match old(self).unsafe_record(name, version) {
                    Some(kept) => Some(kept),
                    None => first_record(report.packages@, name, version),
                }) by {
                lemma_first_record_concat(old(self).geiger_cache@, report.packages@, name, version);
            }
        }
    }

    /// Takes the records of the scanner runs, one run per workspace member,
    /// into the cache. Where several runs report a package, and where the
    /// cache holds a record of it already, the first record stays.
    pub fn get_cargo_geiger_report_for_workspace(&mut self, reports: &Vec<GeigerReport>)
        ensures
            final(self).loc_reports() == old(self).loc_reports(),
            forall|name: Seq<char>, version: Seq<char>|
                final(self).unsafe_record(name, version) == (match old(self).unsafe_record(
                    name,
                    version,
                ) {
                    Some(kept) => Some(kept),
                    None => first_record(all_records(reports@), name, version),
                }),
    {
        let mut i: usize = 0;
        assert(reports@.take(0) =~= Seq::empty());
        while i < reports.len()
            invariant
                i <= reports.len(),
                self.loc_reports() == old(self).loc_reports(),
                forall|name: Seq<char>, version: Seq<char>|
                    self.unsafe_record(name, version) == (match old(self).unsafe_record(
                        name,
                        version,
                    ) {
                        Some(kept) => Some(kept),
                        None => first_record(all_records(reports@.take(i as int)), name, version),
                    }),
            decreases reports.len() - i,
        {
            let ghost done = all_records(reports@.take(i as int));
            self.merge_geiger_report(&reports[i]);
            proof {
                let next = reports@.take(i + 1);
                assert(next.drop_last() =~= reports@.take(i as int));
                assert(next.last() == reports[i as int]);
                assert forall|name: Seq<char>, version: Seq<char>|
                    first_record(all_records(next), name, version) == (match first_record(
                        done,
                        name,
                        version,
                    ) {
                        Some(r) => Some(r),
                        None => first_record(reports[i as int].packages@, name, version),
                    }) by {
                    lemma_first_record_concat(done, reports[i as int].packages@, name, version);
                }
            }
            i += 1;
        }
        assert(reports@.take(i as int) =~= reports@);
    }

    /// The lines of code of the package whose manifest is at
    /// `manifest_path`, as recorded for its source directory. Nothing is
    /// counted here: a directory that was not recorded is an error.
    pub fn get_loc_report(&self, manifest_path: &str) -> (report: Result<
        LOCReport,
        AnalysisError,
    >)
        ensures
            report == self.loc_of(manifest_path@),
    {
        match parent_directory(manifest_path) {
            None => Err(AnalysisError::NoParentDirectory),
            Some(dir) => match self.loc_cache.get(dir.as_str()) {
                Some(found) => Ok(*found),
                None => Err(AnalysisError::LocNotCached),
            },
        }
    }

    /// Records the lines of code counted in `directory` and returns what
    /// the cache holds for it afterwards. A directory that was recorded
    /// before keeps its first report.
    pub fn record_loc_report(&mut self, directory: String, report: LOCReport) -> (kept: LOCReport)
        ensures
            final(self).loc_reports() == (if old(self).loc_reports().contains_key(directory@) {
                old(self).loc_reports()
            } else {
                old(self).loc_reports().insert(directory@, report)
            }),
            final(self).loc_reports().contains_key(directory@),
            kept == final(self).loc_reports()[directory@],
            forall|name: Seq<char>, version: Seq<char>|
                final(self).unsafe_record(name, version) == old(self).unsafe_record(name, version),
    {
        let known = match self.loc_cache.get(directory.as_str()) {
            Some(found) => Some(*found),
            None => None,
        };
        match known {
            Some(found) => found,
            None => {
                self.loc_cache.insert(directory, report);
                report
            },
        }
    }

    /// The packages that `package` depends on, directly or through others,
    /// in ascending order.
    pub fn get_package_dependencies(&self, graph: &DependencyGraph, package: usize) -> (found:
        Result<Vec<usize>, AnalysisError>)
        ensures
            found is Ok <==> package < graph.size(),
            found is Err ==> found == Err::<Vec<usize>, AnalysisError>(AnalysisError::NotFound),
            found is Ok ==> crate::graph::lists(found->Ok_0@, graph.transitive(package as int)),
            found is Ok ==> found->Ok_0@ == enumerate(
                graph.transitive(package as int),
                graph.size(),
            ),
            found is Ok ==> forall|i: int|
                0 <= i < found->Ok_0.len() ==> found->Ok_0[i] < graph.size(),
    {
        match graph.transitive_dependencies(package) {
            Ok(found) => Ok(found),
            Err(GraphError::NotFound) => Err(AnalysisError::NotFound),
        }
    }

    /// The members of `package_dependencies` that only `package` pulls in,
    /// in ascending order, whatever the order of the list.
    ///
    /// A dependency is shared, and left out, when a package that is neither
    /// `package` nor on the list depends on it, directly or through other
    /// dependencies of the list.
    pub fn filter_exclusive_deps(
        &self,
        graph: &DependencyGraph,
        package: usize,
        package_dependencies: &Vec<usize>,
    ) -> (found: Result<Vec<usize>, AnalysisError>)
        ensures
            found is Ok <==> package < graph.size() && forall|i: int|
                0 <= i < package_dependencies.len() ==> package_dependencies[i] < graph.size(),
            found is Err ==> found == Err::<Vec<usize>, AnalysisError>(AnalysisError::NotFound),
            found is Ok ==> crate::graph::lists(
                found->Ok_0@,
                graph.exclusive(package as int, ids(package_dependencies@)),
            ),
            found is Ok ==> found->Ok_0@ == enumerate(
                graph.exclusive(package as int, ids(package_dependencies@)),
                graph.size(),
            ),
            found is Ok ==> forall|i: int|
                0 <= i < found->Ok_0.len() ==> found->Ok_0[i] < graph.size(),
    {
        match graph.exclusive_dependencies(package, package_dependencies) {
            Ok(found) => Ok(found),
            Err(GraphError::NotFound) => Err(AnalysisError::NotFound),
        }
    }

    /// The roll-up of a list of packages. A package that occurs twice
    /// counts once.
    pub fn get_dep_report(&self, graph: &DependencyGraph, dependencies: &Vec<usize>) -> (report:
        Result<DepReport, AnalysisError>)
        ensures
            match report {
                Ok(sum) => self.dep_report_outcome(graph, dependencies@) == Ok::<
                    DepTally,
                    AnalysisError,
                >(sum@),
                Err(error) => self.dep_report_outcome(graph, dependencies@) == Err::<
                    DepTally,
                    AnalysisError,
                >(error),
            },
    {
        let n = graph.len();
        let ghost set = ids(dependencies@);
        let mut member: Vec<bool> = Vec::new();
        while member.len() < n
            invariant
                member.len() <= n,
                forall|p: int| 0 <= p < member.len() ==> !member[p],
            decreases n - member.len(),
        {
            member.push(false);
        }
        let mut i: usize = 0;
        while i < dependencies.len()
            invariant
                i <= dependencies.len(),
                n == graph.size(),
                member.len() == n,
                forall|k: int| 0 <= k < i ==> dependencies[k] < n,
                forall|k: int| 0 <= k < i ==> member[#[trigger] dependencies[k] as int],
                forall|p: int|
                    0 <= p < n && #[trigger] member[p] ==> exists|k: int|
                        0 <= k < i && dependencies[k] == p,
            decreases dependencies.len() - i,
        {
            let d = dependencies[i];
            if d >= n {
                return Err(AnalysisError::NotFound);
            }
            member.set(d, true);
            i += 1;
        }
        proof {
            assert forall|p: int| 0 <= p < n implies member[p] == set.contains(p) by {
                if member[p] {
                    let k = choose|k: int| 0 <= k < dependencies.len() && dependencies[k] == p;
                    assert(dependencies@[k] == p as usize);
                }
                if set.contains(p) {
                    let k = choose|k: int|
                        0 <= k < dependencies.len() && dependencies@[k] == p as usize;
                    assert(member[dependencies[k] as int]);
                }
            }
        }
        let mut locs: Vec<LOCReport> = Vec::new();
        let mut no_parent = false;
        let mut not_cached = false;
        let mut p: usize = 0;
        while p < n
            invariant
                p <= n,
                n == graph.size(),
                member.len() == n,
                locs.len() == p,
                forall|q: int| 0 <= q < n ==> member[q] == set.contains(q),
                no_parent <==> exists|q: int|
                    0 <= q < p && set.contains(q) && #[trigger] self.package_loc(graph, q) == Err::<
                        LOCReport,
                        AnalysisError,
                    >(AnalysisError::NoParentDirectory),
                not_cached <==> exists|q: int|
                    0 <= q < p && set.contains(q) && #[trigger] self.package_loc(graph, q) == Err::<
                        LOCReport,
                        AnalysisError,
                    >(AnalysisError::LocNotCached),
                forall|q: int|
                    0 <= q < p && set.contains(q) && self.package_loc(graph, q) is Ok ==> locs[q]
                        == self.package_loc(graph, q)->Ok_0,
            decreases n - p,
        {
            let mut loc = LOCReport::default();
            let ghost no_parent_before = no_parent;
            let ghost not_cached_before = not_cached;
            if member[p] {
                let looked_up = self.get_loc_report(graph.info_at(p).manifest_path.as_str());
                assert(looked_up == self.package_loc(graph, p as int));
                match looked_up {
                    Ok(found) => {
                        loc = found;
                    },
                    Err(AnalysisError::NoParentDirectory) => {
                        no_parent = true;
                    },
                    Err(_) => {
                        not_cached = true;
                    },
                }
            }
            locs.push(loc);
            proof {
                let bad = Err::<LOCReport, AnalysisError>(AnalysisError::NoParentDirectory);
                let cold = Err::<LOCReport, AnalysisError>(AnalysisError::LocNotCached);
                if no_parent_before {
                    let q = choose|q: int|
                        0 <= q < p && set.contains(q) && #[trigger] self.package_loc(graph, q) == bad;
                    assert(0 <= q < p + 1 && set.contains(q) && self.package_loc(graph, q) == bad);
                }
                if not_cached_before {
                    let q = choose|q: int|
                        0 <= q < p && set.contains(q) && #[trigger] self.package_loc(graph, q)
                            == cold;
                    assert(0 <= q < p + 1 && set.contains(q) && self.package_loc(graph, q) == cold);
                }
                if set.contains(p as int) {
                    assert(self.loc_of(graph.info(p as int).manifest_path@) is Err ==> (
                    self.package_loc(graph, p as int) == bad || self.package_loc(graph, p as int)
                        == cold));
                }
            }
            p += 1;
        }
        if no_parent {
            return Err(AnalysisError::NoParentDirectory);
        }
        if not_cached {
            return Err(AnalysisError::LocNotCached);
        }
        assert(!self.loc_fails(graph, set, AnalysisError::NoParentDirectory));
        assert(!self.loc_fails(graph, set, AnalysisError::LocNotCached));
        let mut total = DepReport::default();
        let mut p: usize = 0;
        while p < n
            invariant
                p <= n,
                n == graph.size(),
                member.len() == n,
                locs.len() == n,
                forall|q: int| 0 <= q < n ==> member[q] == set.contains(q),
                forall|q: int|
                    0 <= q < n && set.contains(q) ==> self.package_loc(graph, q) == Ok::<
                        LOCReport,
                        AnalysisError,
                    >(locs[q]),
                total@ == self.tally_upto(graph, set, p as nat),
                set == ids(dependencies@),
                forall|k: int| 0 <= k < dependencies.len() ==> dependencies[k] < n,
                !self.loc_fails(graph, set, AnalysisError::NoParentDirectory),
                !self.loc_fails(graph, set, AnalysisError::LocNotCached),
            decreases n - p,
        {
            if member[p] {
                let info = graph.info_at(p);
                let unsafe_report = self.get_unsafe_report(info.name.clone(), info.version.clone());
                let one = DepReport::of_package(locs[p], unsafe_report, info.has_build_script);
                assert(set.contains(p as int));
                assert(self.package_loc(graph, p as int) == Ok::<LOCReport, AnalysisError>(
                    locs[p as int],
                ));
                assert(one@ == self.package_tally(graph, p as int));
                match total.checked_add(one) {
                    Some(sum) => {
                        total = sum;
                    },
                    None => {
                        proof {
                            self.lemma_tally_grows(graph, set, (p + 1) as nat, n as nat);
                            assert(self.tally_upto(graph, set, (p + 1) as nat) == total@.plus(one@));
                            assert(!self.tally(graph, set).fits());
                        }
                        return Err(AnalysisError::Overflow);
                    },
                }
            }
            p += 1;
        }
        Ok(total)
    }

    /// The report of one package: its own metrics, the roll-up of all its
    /// dependencies and the roll-up of those that only it pulls in.
    pub fn analyze_package(&self, graph: &DependencyGraph, package: usize) -> (report: Result<
        CodeReport,
        AnalysisError,
    >)
        ensures
            match report {
                Ok(built) => self.package_outcome(graph, package as int) is Ok && describes(
                    built,
                    graph.info(package as int),
                    self.package_outcome(graph, package as int)->Ok_0,
                ),
                Err(error) => self.package_outcome(graph, package as int) == Err::<
                    CodeSummary,
                    AnalysisError,
                >(error),
            },
    {
        if package >= graph.len() {
            return Err(AnalysisError::NotFound);
        }
        let info = graph.info_at(package);
        let loc_report = match self.get_loc_report(info.manifest_path.as_str()) {
            Ok(found) => found,
            Err(error) => { return Err(error); },
        };
        let unsafe_report = self.get_unsafe_report(info.name.clone(), info.version.clone());
        let dependencies = match self.get_package_dependencies(graph, package) {
            Ok(found) => found,
            Err(error) => { return Err(error); },
        };
        proof {
            lemma_lists_ids(dependencies@, graph.transitive(package as int));
            assert forall|i: int| 0 <= i < dependencies.len() implies dependencies[i]
                < graph.size() by {
                assert(graph.transitive(package as int).contains(dependencies@[i] as int));
                graph.lemma_reach_in_range(None, package as int, dependencies[i] as int);
            }
        }
        let dep_report = match self.get_dep_report(graph, &dependencies) {
            Ok(sum) => sum,
            Err(error) => { return Err(error); },
        };
        let exclusive_dependencies = match self.filter_exclusive_deps(
            graph,
            package,
            &dependencies,
        ) {
            Ok(found) => found,
            Err(error) => { return Err(error); },
        };
        proof {
            let exclusive = graph.exclusive(package as int, graph.transitive(package as int));
            lemma_lists_ids(exclusive_dependencies@, exclusive);
            assert forall|i: int|
                0 <= i < exclusive_dependencies.len() implies exclusive_dependencies[i]
                < graph.size() by {
                assert(exclusive.contains(exclusive_dependencies@[i] as int));
                graph.lemma_reach_in_range(
                    None,
                    package as int,
                    exclusive_dependencies[i] as int,
                );
            }
        }
        let exclusive_dep_report = match self.get_dep_report(graph, &exclusive_dependencies) {
            Ok(sum) => sum,
            Err(error) => { return Err(error); },
        };
        Ok(
            CodeReport {
                name: info.name.clone(),
                version: info.version.clone(),
                is_direct: true,
                has_build_script: info.has_build_script,
                loc_report: Some(loc_report),
                unsafe_report,
                dep_report: Some(dep_report),
                exclusive_dep_report: Some(exclusive_dep_report),
            },
        )
    }

    /// The reports of the direct dependencies of the workspace, in
    /// ascending order of their ids. The first report that fails fails the
    /// whole analysis.
    pub fn analyze_code(self, graph: &DependencyGraph) -> (reports: Result<
        Vec<CodeReport>,
        AnalysisError,
    >)
        ensures
            match reports {
                Ok(built) => {
                    let direct = enumerate(graph.direct(), graph.size());
                    &&& built.len() == direct.len()
                    &&& forall|i: int|
                        0 <= i < direct.len() ==> (#[trigger] self.package_outcome(
                            graph,
                            direct[i] as int,
                        )) is Ok && describes(
                            built[i],
                            graph.info(direct[i] as int),
                            self.package_outcome(graph, direct[i] as int)->Ok_0,
                        )
                },
                Err(error) => {
                    let direct = enumerate(graph.direct(), graph.size());
                    exists|i: int|
                        0 <= i < direct.len() && (#[trigger] self.package_outcome(
                            graph,
                            direct[i] as int,
                        )) == Err::<CodeSummary, AnalysisError>(error) && forall|j: int|
                            0 <= j < i ==> (#[trigger] self.package_outcome(
                                graph,
                                direct[j] as int,
                            )) is Ok
                },
            },
    {
        let direct = graph.direct_dependencies();
        let mut code_reports: Vec<CodeReport> = Vec::new();
        let mut i: usize = 0;
        while i < direct.len()
            invariant
                i <= direct.len(),
                direct@ == enumerate(graph.direct(), graph.size()),
                code_reports.len() == i,
                forall|k: int|
                    0 <= k < i ==> (#[trigger] self.package_outcome(graph, direct[k] as int)) is Ok
                        && describes(
                        code_reports[k],
                        graph.info(direct[k] as int),
                        self.package_outcome(graph, direct[k] as int)->Ok_0,
                    ),
            decreases direct.len() - i,
        {
            let report = match self.analyze_package(graph, direct[i]) {
                Ok(built) => built,
                Err(error) => { return Err(error); },
            };
            code_reports.push(report);
            i += 1;
        }
        Ok(code_reports)
    }

    /// The source directories whose lines of code an analysis of the
    /// workspace needs and the cache does not hold yet: each directory
    /// once, whatever the number of packages that live in it or depend on
    /// them.
    pub fn pending_loc_scans(&self, graph: &DependencyGraph) -> (dirs: Vec<String>)
        ensures
            forall|i: int, j: int| 0 <= i < j < dirs.len() ==> dirs[i]@ != dirs[j]@,
            forall|i: int|
                0 <= i < dirs.len() ==> !self.loc_reports().contains_key((#[trigger] dirs[i])@)
                    && houses(graph, graph.scope(), dirs[i]@),
            forall|p: int|
                graph.scope().contains(p) && #[trigger] self.package_loc(graph, p) == Err::<
                    LOCReport,
                    AnalysisError,
                >(AnalysisError::LocNotCached) ==> names(dirs@, package_dir(graph, p)->0),
    {
        let scope = graph.analysis_scope();
        let mut seen: StringHashMap<bool> = StringHashMap::new();
        let mut dirs: Vec<String> = Vec::new();
        let mut k: usize = 0;
        while k < scope.len()
            invariant
                k <= scope.len(),
                crate::graph::lists(scope@, graph.scope()),
                forall|s: Seq<char>| #[trigger] seen@.contains_key(s) <==> names(dirs@, s),
                forall|i: int, j: int| 0 <= i < j < dirs.len() ==> dirs[i]@ != dirs[j]@,
                forall|i: int|
                    0 <= i < dirs.len() ==> !self.loc_reports().contains_key((#[trigger] dirs[i])@)
                        && houses(graph, graph.scope(), dirs[i]@),
                forall|j: int|
                    0 <= j < k && #[trigger] self.package_loc(graph, scope[j] as int) == Err::<
                        LOCReport,
                        AnalysisError,
                    >(AnalysisError::LocNotCached) ==> names(
                        dirs@,
                        package_dir(graph, scope[j] as int)->0,
                    ),
            decreases scope.len() - k,
        {
            let p = scope[k];
            assert(graph.scope().contains(scope@[k as int] as int));
            proof {
                let d = choose|d: int|
                    graph.direct().contains(d) && #[trigger] graph.reaches(d, p as int);
                graph.lemma_reach_in_range(None, d, p as int);
            }
            let info = graph.info_at(p);
            let ghost dirs_before = dirs@;
            match parent_directory(info.manifest_path.as_str()) {
                Some(dir) => {
                    assert(package_dir(graph, p as int) == Some(dir@));
                    if !self.loc_cache.contains_key(dir.as_str()) && !seen.contains_key(
                        dir.as_str(),
                    ) {
                        seen.insert(dir.clone(), true);
                        dirs.push(dir);
                        proof {
                            let last = dirs.len() - 1;
                            assert(dirs[last]@ == dir@);
                            assert(dirs@ == dirs_before.push(dir));
                            assert forall|s: Seq<char>| names(dirs_before, s) implies names(
                                dirs@,
                                s,
                            ) by {
                                let i = choose|i: int|
                                    0 <= i < dirs_before.len() && (#[trigger] dirs_before[i])@ == s;
                                assert(dirs@[i]@ == s);
                            }
                            assert forall|s: Seq<char>| names(dirs@, s) implies names(
                                dirs_before,
                                s,
                            ) || s == dir@ by {
                                let i = choose|i: int|
                                    0 <= i < dirs.len() && (#[trigger] dirs@[i])@ == s;
                                if i < last {
                                    assert(dirs_before[i]@ == s);
                                }
                            }
                            assert(names(dirs@, dir@));
                            assert forall|i: int, j: int|
                                0 <= i < j < dirs.len() implies dirs[i]@ != dirs[j]@ by {
                                if j == last {
                                    assert(dirs_before[i]@ == dirs[i]@);
                                    if dirs[i]@ == dir@ {
                                        assert(names(dirs_before, dir@));
                                    }
                                } else {
                                    assert(dirs_before[i] == dirs[i]);
                                    assert(dirs_before[j] == dirs[j]);
                                }
                            }
                            assert forall|i: int| 0 <= i < dirs.len() implies !self.loc_reports().contains_key(
                                (#[trigger] dirs[i])@,
                            ) && houses(graph, graph.scope(), dirs[i]@) by {
                                if i < last {
                                    assert(dirs[i] == dirs_before[i]);
                                }
                            }
                        }
                    } else {
                        proof {
                            if self.package_loc(graph, p as int) == Err::<LOCReport, AnalysisError>(
                                AnalysisError::LocNotCached,
                            ) {
                                assert(seen@.contains_key(dir@));
                            }
                        }
                    }
                },
                None => {},
            }
            k += 1;
        }
        proof {
            assert forall|p: int|
                graph.scope().contains(p) && #[trigger] self.package_loc(graph, p) == Err::<
                    LOCReport,
                    AnalysisError,
                >(AnalysisError::LocNotCached) implies names(dirs@, package_dir(graph, p)->0) by {
                let j = choose|j: int| 0 <= j < scope.len() && scope@[j] == p as usize;
                assert(self.package_loc(graph, scope[j] as int) == Err::<LOCReport, AnalysisError>(
                    AnalysisError::LocNotCached,
                ));
            }
        }
        dirs
    }
}

} // verus!
