//! The report types and their additive structure.

use vstd::prelude::*;
use vstd::std_specs::ops::AddSpecImpl;

verus! {

/// Lines of code of one package or of a set of packages, without comments
/// and blank lines.
#[derive(Debug, Clone, Copy, PartialEq, Eq, Structural)]
pub struct LOCReport {
    pub total_loc: u64,
    pub rust_loc: u64,
}

impl LOCReport {
    /// The report that counts nothing.
    pub open spec fn zero() -> LOCReport {
        LOCReport { total_loc: 0, rust_loc: 0 }
    }

    /// Whether the field-wise sum of two reports fits the counters.
    pub open spec fn can_add(self, rhs: LOCReport) -> bool {
        &&& self.total_loc + rhs.total_loc <= u64::MAX
        &&& self.rust_loc + rhs.rust_loc <= u64::MAX
    }

    /// The field-wise sum of two reports.
    pub open spec fn plus(self, rhs: LOCReport) -> LOCReport {
        LOCReport {
            total_loc: (self.total_loc + rhs.total_loc) as u64,
            rust_loc: (self.rust_loc + rhs.rust_loc) as u64,
        }
    }

    /// The field-wise sum, or `None` when a counter would overflow.
    pub fn checked_add(self, rhs: LOCReport) -> (sum: Option<LOCReport>)
        ensures
            sum == (if self.can_add(rhs) { Some(self.plus(rhs)) } else { None::<LOCReport> }),
    {
        let total_loc = match self.total_loc.checked_add(rhs.total_loc) {
            Some(v) => v,
            None => { return None; },
        };
        let rust_loc = match self.rust_loc.checked_add(rhs.rust_loc) {
            Some(v) => v,
            None => { return None; },
        };
        Some(LOCReport { total_loc, rust_loc })
    }
}

impl core::ops::Add<LOCReport> for LOCReport {
    type Output = LOCReport;

    fn add(self, rhs: LOCReport) -> (sum: LOCReport) {
        LOCReport {
            total_loc: self.total_loc + rhs.total_loc,
            rust_loc: self.rust_loc + rhs.rust_loc,
        }
    }
}

impl AddSpecImpl<LOCReport> for LOCReport {
    open spec fn obeys_add_spec() -> bool {
        true
    }

    open spec fn add_req(self, rhs: LOCReport) -> bool {
        self.can_add(rhs)
    }

    open spec fn add_spec(self, rhs: LOCReport) -> LOCReport {
        self.plus(rhs)
    }
}

impl Default for LOCReport {
    fn default() -> (report: LOCReport)
        ensures
            report == LOCReport::zero(),
    {
        LOCReport { total_loc: 0, rust_loc: 0 }
    }
}

/// Counts of unsafe items of one package or of a set of packages.
#[derive(Debug, Clone, Copy, PartialEq, Eq, Structural)]
pub struct UnsafeDetails {
    pub functions: u64,
    pub expressions: u64,
    pub impls: u64,
    pub traits: u64,
    pub methods: u64,
}

impl UnsafeDetails {
    /// The counts that are all zero.
    pub open spec fn zero() -> UnsafeDetails {
        UnsafeDetails { functions: 0, expressions: 0, impls: 0, traits: 0, methods: 0 }
    }

    /// Whether the field-wise sum of two counts fits the counters.
    pub open spec fn can_add(self, rhs: UnsafeDetails) -> bool {
        &&& self.functions + rhs.functions <= u64::MAX
        &&& self.expressions + rhs.expressions <= u64::MAX
        &&& self.impls + rhs.impls <= u64::MAX
        &&& self.traits + rhs.traits <= u64::MAX
        &&& self.methods + rhs.methods <= u64::MAX
    }

    /// The field-wise sum of two counts.
    pub open spec fn plus(self, rhs: UnsafeDetails) -> UnsafeDetails {
        UnsafeDetails {
            functions: (self.functions + rhs.functions) as u64,
            expressions: (self.expressions + rhs.expressions) as u64,
            impls: (self.impls + rhs.impls) as u64,
            traits: (self.traits + rhs.traits) as u64,
            methods: (self.methods + rhs.methods) as u64,
        }
    }

    /// The field-wise sum, or `None` when a counter would overflow.
    pub fn checked_add(self, rhs: UnsafeDetails) -> (sum: Option<UnsafeDetails>)
        ensures
            sum == (if self.can_add(rhs) { Some(self.plus(rhs)) } else { None::<UnsafeDetails> }),
    {
        let functions = match self.functions.checked_add(rhs.functions) {
            Some(v) => v,
            None => { return None; },
        };
        let expressions = match self.expressions.checked_add(rhs.expressions) {
            Some(v) => v,
            None => { return None; },
        };
        let impls = match self.impls.checked_add(rhs.impls) {
            Some(v) => v,
            None => { return None; },
        };
        let traits = match self.traits.checked_add(rhs.traits) {
            Some(v) => v,
            None => { return None; },
        };
        let methods = match self.methods.checked_add(rhs.methods) {
            Some(v) => v,
            None => { return None; },
        };
        Some(UnsafeDetails { functions, expressions, impls, traits, methods })
    }
}

impl core::ops::Add<UnsafeDetails> for UnsafeDetails {
    type Output = UnsafeDetails;

    fn add(self, rhs: UnsafeDetails) -> (sum: UnsafeDetails) {
        UnsafeDetails {
            functions: self.functions + rhs.functions,
            expressions: self.expressions + rhs.expressions,
            impls: self.impls + rhs.impls,
            traits: self.traits + rhs.traits,
            methods: self.methods + rhs.methods,
        }
    }
}

impl AddSpecImpl<UnsafeDetails> for UnsafeDetails {
    open spec fn obeys_add_spec() -> bool {
        true
    }

    open spec fn add_req(self, rhs: UnsafeDetails) -> bool {
        self.can_add(rhs)
    }

    open spec fn add_spec(self, rhs: UnsafeDetails) -> UnsafeDetails {
        self.plus(rhs)
    }
}

impl Default for UnsafeDetails {
    fn default() -> (details: UnsafeDetails)
        ensures
            details == UnsafeDetails::zero(),
    {
        UnsafeDetails { functions: 0, expressions: 0, impls: 0, traits: 0, methods: 0 }
    }
}

/// What the unsafe-code scanner found in one package.
///
/// A package that the scanner did not report has no `UnsafeReport` at all,
/// which is not the same as a report whose counts are zero.
#[derive(Debug, Clone, Copy, PartialEq, Eq, Structural)]
pub struct UnsafeReport {
    pub forbids_unsafe: bool,
    pub used_unsafe_count: UnsafeDetails,
    pub unused_unsafe_count: UnsafeDetails,
}

impl Default for UnsafeReport {
    fn default() -> (report: UnsafeReport)
        ensures
            report == (UnsafeReport {
                forbids_unsafe: false,
                used_unsafe_count: UnsafeDetails::zero(),
                unused_unsafe_count: UnsafeDetails::zero(),
            }),
    {
        UnsafeReport {
            forbids_unsafe: false,
            used_unsafe_count: UnsafeDetails::default(),
            unused_unsafe_count: UnsafeDetails::default(),
        }
    }
}

/// The roll-up of a set of packages, with unbounded counters.
///
/// This is the mathematical value that a [`DepReport`] stands for: sums are
/// taken here, where they cannot overflow, and a `DepReport` exists for a
/// tally only when every counter fits `u64`.
pub struct DepTally {
    pub total_deps: nat,
    pub total_loc: nat,
    pub rust_loc: nat,
    pub with_build_script: nat,
    pub analyzed_for_unsafe: nat,
    pub forbidding_unsafe: nat,
    pub using_unsafe: nat,
    pub functions: nat,
    pub expressions: nat,
    pub impls: nat,
    pub traits: nat,
    pub methods: nat,
}

impl DepTally {
    /// The tally of no package.
    pub open spec fn zero() -> DepTally {
        DepTally {
            total_deps: 0,
            total_loc: 0,
            rust_loc: 0,
            with_build_script: 0,
            analyzed_for_unsafe: 0,
            forbidding_unsafe: 0,
            using_unsafe: 0,
            functions: 0,
            expressions: 0,
            impls: 0,
            traits: 0,
            methods: 0,
        }
    }

    /// The tally of a single package.
    ///
    /// A package without an unsafe report counts towards the number of
    /// packages and the lines of code, and towards nothing else. One with a
    /// report counts as using unsafe code when it does not forbid it and has
    /// at least one used unsafe expression; its used counts are added
    /// whether it forbids unsafe code or not.
    pub open spec fn single(
        loc: LOCReport,
        unsafe_report: Option<UnsafeReport>,
        has_build_script: bool,
    ) -> DepTally {
        DepTally {
            total_deps: 1,
            total_loc: loc.total_loc as nat,
            rust_loc: loc.rust_loc as nat,
            with_build_script: if has_build_script { 1 } else { 0 },
            analyzed_for_unsafe: if unsafe_report is Some { 1 } else { 0 },
            forbidding_unsafe: match unsafe_report {
                Some(r) => if r.forbids_unsafe { 1 } else { 0 },
                None => 0,
            },
            using_unsafe: match unsafe_report {
                Some(r) => if !r.forbids_unsafe && r.used_unsafe_count.expressions > 0 { 1 } else { 0 },
                None => 0,
            },
            functions: match unsafe_report {
                Some(r) => r.used_unsafe_count.functions as nat,
                None => 0,
            },
            expressions: match unsafe_report {
                Some(r) => r.used_unsafe_count.expressions as nat,
                None => 0,
            },
            impls: match unsafe_report {
                Some(r) => r.used_unsafe_count.impls as nat,
                None => 0,
            },
            traits: match unsafe_report {
                Some(r) => r.used_unsafe_count.traits as nat,
                None => 0,
            },
            methods: match unsafe_report {
                Some(r) => r.used_unsafe_count.methods as nat,
                None => 0,
            },
        }
    }

    /// The field-wise sum of two tallies.
    pub open spec fn plus(self, rhs: DepTally) -> DepTally {
        DepTally {
            total_deps: self.total_deps + rhs.total_deps,
            total_loc: self.total_loc + rhs.total_loc,
            rust_loc: self.rust_loc + rhs.rust_loc,
            with_build_script: self.with_build_script + rhs.with_build_script,
            analyzed_for_unsafe: self.analyzed_for_unsafe + rhs.analyzed_for_unsafe,
            forbidding_unsafe: self.forbidding_unsafe + rhs.forbidding_unsafe,
            using_unsafe: self.using_unsafe + rhs.using_unsafe,
            functions: self.functions + rhs.functions,
            expressions: self.expressions + rhs.expressions,
            impls: self.impls + rhs.impls,
            traits: self.traits + rhs.traits,
            methods: self.methods + rhs.methods,
        }
    }

    /// Whether every counter of `self` is at most that of `rhs`.
    pub open spec fn le(self, rhs: DepTally) -> bool {
        &&& self.total_deps <= rhs.total_deps
        &&& self.total_loc <= rhs.total_loc
        &&& self.rust_loc <= rhs.rust_loc
        &&& self.with_build_script <= rhs.with_build_script
        &&& self.analyzed_for_unsafe <= rhs.analyzed_for_unsafe
        &&& self.forbidding_unsafe <= rhs.forbidding_unsafe
        &&& self.using_unsafe <= rhs.using_unsafe
        &&& self.functions <= rhs.functions
        &&& self.expressions <= rhs.expressions
        &&& self.impls <= rhs.impls
        &&& self.traits <= rhs.traits
        &&& self.methods <= rhs.methods
    }

    /// Whether every counter fits `u64`, so that a [`DepReport`] can hold
    /// the tally.
    pub open spec fn fits(self) -> bool {
        &&& self.total_deps <= u64::MAX
        &&& self.total_loc <= u64::MAX
        &&& self.rust_loc <= u64::MAX
        &&& self.with_build_script <= u64::MAX
        &&& self.analyzed_for_unsafe <= u64::MAX
        &&& self.forbidding_unsafe <= u64::MAX
        &&& self.using_unsafe <= u64::MAX
        &&& self.functions <= u64::MAX
        &&& self.expressions <= u64::MAX
        &&& self.impls <= u64::MAX
        &&& self.traits <= u64::MAX
        &&& self.methods <= u64::MAX
    }
}

/// The roll-up of a set of packages.
#[derive(Debug, Clone, Copy, PartialEq, Eq, Structural)]
pub struct DepReport {
    pub total_deps: u64,
    pub deps_total_loc_report: LOCReport,
    pub deps_with_build_script: u64,
    pub deps_analyzed_for_unsafe: u64,
    pub deps_forbidding_unsafe: u64,
    pub deps_using_unsafe: u64,
    pub deps_total_used_unsafe_details: UnsafeDetails,
}

impl View for DepReport {
    type V = DepTally;

    /// The tally that the report holds.
    open spec fn view(&self) -> DepTally {
        DepTally {
            total_deps: self.total_deps as nat,
            total_loc: self.deps_total_loc_report.total_loc as nat,
            rust_loc: self.deps_total_loc_report.rust_loc as nat,
            with_build_script: self.deps_with_build_script as nat,
            analyzed_for_unsafe: self.deps_analyzed_for_unsafe as nat,
            forbidding_unsafe: self.deps_forbidding_unsafe as nat,
            using_unsafe: self.deps_using_unsafe as nat,
            functions: self.deps_total_used_unsafe_details.functions as nat,
            expressions: self.deps_total_used_unsafe_details.expressions as nat,
            impls: self.deps_total_used_unsafe_details.impls as nat,
            traits: self.deps_total_used_unsafe_details.traits as nat,
            methods: self.deps_total_used_unsafe_details.methods as nat,
        }
    }
}

impl DepReport {
    /// The report of a single package.
    pub fn of_package(
        loc: LOCReport,
        unsafe_report: Option<UnsafeReport>,
        has_build_script: bool,
    ) -> (report: DepReport)
        ensures
            report@ == DepTally::single(loc, unsafe_report, has_build_script),
    {
        let mut report = DepReport::default();
        report.total_deps = 1;
        report.deps_total_loc_report = loc;
        if has_build_script {
            report.deps_with_build_script = 1;
        }
        if let Some(found) = unsafe_report {
            report.deps_analyzed_for_unsafe = 1;
            if found.forbids_unsafe {
                report.deps_forbidding_unsafe = 1;
            } else if found.used_unsafe_count.expressions > 0 {
                report.deps_using_unsafe = 1;
            }
            report.deps_total_used_unsafe_details = found.used_unsafe_count;
        }
        report
    }

    /// The field-wise sum of two reports, or `None` when a counter would
    /// overflow.
    pub fn checked_add(self, rhs: DepReport) -> (sum: Option<DepReport>)
        ensures
            sum is Some <==> self@.plus(rhs@).fits(),
            sum is Some ==> sum->0@ == self@.plus(rhs@),
    {
        let total_deps = match self.total_deps.checked_add(rhs.total_deps) {
            Some(v) => v,
            None => { return None; },
        };
        let deps_total_loc_report = match self.deps_total_loc_report.checked_add(
            rhs.deps_total_loc_report,
        ) {
            Some(v) => v,
            None => { return None; },
        };
        let deps_with_build_script = match self.deps_with_build_script.checked_add(
            rhs.deps_with_build_script,
        ) {
            Some(v) => v,
            None => { return None; },
        };
        let deps_analyzed_for_unsafe = match self.deps_analyzed_for_unsafe.checked_add(
            rhs.deps_analyzed_for_unsafe,
        ) {
            Some(v) => v,
            None => { return None; },
        };
        let deps_forbidding_unsafe = match self.deps_forbidding_unsafe.checked_add(
            rhs.deps_forbidding_unsafe,
        ) {
            Some(v) => v,
            None => { return None; },
        };
        let deps_using_unsafe = match self.deps_using_unsafe.checked_add(rhs.deps_using_unsafe) {
            Some(v) => v,
            None => { return None; },
        };
        let deps_total_used_unsafe_details = match self.deps_total_used_unsafe_details.checked_add(
            rhs.deps_total_used_unsafe_details,
        ) {
            Some(v) => v,
            None => { return None; },
        };
        Some(
            DepReport {
                total_deps,
                deps_total_loc_report,
                deps_with_build_script,
                deps_analyzed_for_unsafe,
                deps_forbidding_unsafe,
                deps_using_unsafe,
                deps_total_used_unsafe_details,
            },
        )
    }
}

impl Default for DepReport {
    fn default() -> (report: DepReport)
        ensures
            report@ == DepTally::zero(),
    {
        DepReport {
            total_deps: 0,
            deps_total_loc_report: LOCReport::default(),
            deps_with_build_script: 0,
            deps_analyzed_for_unsafe: 0,
            deps_forbidding_unsafe: 0,
            deps_using_unsafe: 0,
            deps_total_used_unsafe_details: UnsafeDetails::default(),
        }
    }
}

/// The metrics of one direct dependency.
#[derive(Debug, Clone)]
pub struct CodeReport {
    pub name: String,
    pub version: String,
    pub is_direct: bool,
    pub has_build_script: bool,
    pub loc_report: Option<LOCReport>,
    pub unsafe_report: Option<UnsafeReport>,
    pub dep_report: Option<DepReport>,
    pub exclusive_dep_report: Option<DepReport>,
}

} // verus!
