//! The records of the unsafe-code scanner.

use crate::report::UnsafeDetails;
use crate::report::UnsafeReport;
use vstd::prelude::*;

verus! {

/// How many items of one kind are safe and how many are unsafe.
#[derive(Debug, Clone, Copy, PartialEq, Eq, Structural)]
pub struct UnsafeCount {
    pub safe: u64,
    pub unsafe_: u64,
}

/// The counts of one package, by kind of item.
#[derive(Debug, Clone, Copy, PartialEq, Eq, Structural)]
pub struct UnsafeInfo {
    pub functions: UnsafeCount,
    pub exprs: UnsafeCount,
    pub item_impls: UnsafeCount,
    pub item_traits: UnsafeCount,
    pub methods: UnsafeCount,
}

impl UnsafeInfo {
    /// The unsafe counts, by kind of item.
    pub open spec fn details(self) -> UnsafeDetails {
        UnsafeDetails {
            functions: self.functions.unsafe_,
            expressions: self.exprs.unsafe_,
            impls: self.item_impls.unsafe_,
            traits: self.item_traits.unsafe_,
            methods: self.methods.unsafe_,
        }
    }

    /// The unsafe counts, by kind of item.
    pub fn unsafe_details(&self) -> (details: UnsafeDetails)
        ensures
            details == self.details(),
    {
        UnsafeDetails {
            functions: self.functions.unsafe_,
            expressions: self.exprs.unsafe_,
            impls: self.item_impls.unsafe_,
            traits: self.item_traits.unsafe_,
            methods: self.methods.unsafe_,
        }
    }
}

/// What the scanner says of the code of one package: the code that the
/// build uses, the code that it does not use, and whether the package
/// forbids unsafe code.
#[derive(Debug, Clone, Copy, PartialEq, Eq, Structural)]
pub struct Unsafety {
    pub used: UnsafeInfo,
    pub unused: UnsafeInfo,
    pub forbids_unsafe: bool,
}

impl Unsafety {
    /// The unsafe report that the record stands for.
    pub open spec fn report(self) -> UnsafeReport {
        UnsafeReport {
            forbids_unsafe: self.forbids_unsafe,
            used_unsafe_count: self.used.details(),
            unused_unsafe_count: self.unused.details(),
        }
    }

    /// The unsafe report that the record stands for.
    pub fn unsafe_report(&self) -> (report: UnsafeReport)
        ensures
            report == self.report(),
    {
        UnsafeReport {
            forbids_unsafe: self.forbids_unsafe,
            used_unsafe_count: self.used.unsafe_details(),
            unused_unsafe_count: self.unused.unsafe_details(),
        }
    }
}

/// The name and version by which the scanner identifies a package.
#[derive(Debug)]
pub struct GeigerPackageId {
    pub name: String,
    pub version: String,
}

impl Clone for GeigerPackageId {
    fn clone(&self) -> (copy: GeigerPackageId)
        ensures
            copy == *self,
    {
        GeigerPackageId { name: self.name.clone(), version: self.version.clone() }
    }
}

/// The package that a scanner record is about.
#[derive(Debug)]
pub struct GeigerPackage {
    pub id: GeigerPackageId,
}

impl Clone for GeigerPackage {
    fn clone(&self) -> (copy: GeigerPackage)
        ensures
            copy == *self,
    {
        GeigerPackage { id: self.id.clone() }
    }
}

/// One scanner record: a package and what was found in it.
#[derive(Debug)]
pub struct GeigerPackageInfo {
    pub package: GeigerPackage,
    pub unsafety: Unsafety,
}

impl Clone for GeigerPackageInfo {
    fn clone(&self) -> (copy: GeigerPackageInfo)
        ensures
            copy == *self,
    {
        GeigerPackageInfo { package: self.package.clone(), unsafety: self.unsafety }
    }
}

impl GeigerPackageInfo {
    /// Whether the record is about the package `name` in version `version`.
    pub open spec fn is_about(self, name: Seq<char>, version: Seq<char>) -> bool {
        self.package.id.name@ == name && self.package.id.version@ == version
    }

    /// Whether the record is about the package `name` in version `version`.
    pub fn describes(&self, name: &String, version: &String) -> (hit: bool)
        ensures
            hit == self.is_about(name@, version@),
    {
        self.package.id.name == *name && self.package.id.version == *version
    }
}

/// The output of one scanner run.
#[derive(Debug)]
pub struct GeigerReport {
    pub packages: Vec<GeigerPackageInfo>,
    pub used_but_not_scanned_files: Vec<String>,
}

/// The first record of `records` about the package `name` in version
/// `version`.
pub open spec fn first_record(
    records: Seq<GeigerPackageInfo>,
    name: Seq<char>,
    version: Seq<char>,
) -> Option<GeigerPackageInfo>
    decreases records.len(),
{
    if records.len() == 0 {
        None
    } else if records[0].is_about(name, version) {
        Some(records[0])
    } else {
        first_record(records.skip(1), name, version)
    }
}

/// The records of all the runs, in the order of the runs.
pub open spec fn all_records(reports: Seq<GeigerReport>) -> Seq<GeigerPackageInfo>
    decreases reports.len(),
{
    if reports.len() == 0 {
        Seq::empty()
    } else {
        all_records(reports.drop_last()) + reports.last().packages@
    }
}

/// Looking a package up in two lists, one after the other, finds what the
/// first list holds of it, and else what the second holds.
pub proof fn lemma_first_record_concat(
    front: Seq<GeigerPackageInfo>,
    back: Seq<GeigerPackageInfo>,
    name: Seq<char>,
    version: Seq<char>,
)
    ensures
        first_record(front + back, name, version) == (match first_record(front, name, version) {
            Some(r) => Some(r),
            None => first_record(back, name, version),
        }),
    decreases front.len(),
{
    if front.len() == 0 {
        assert(front + back =~= back);
    } else {
        assert((front + back)[0] == front[0]);
        assert((front + back).skip(1) =~= front.skip(1) + back);
        lemma_first_record_concat(front.skip(1), back, name, version);
    }
}

} // verus!
