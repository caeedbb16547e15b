//! A package as the cache holds it: its records in order of publication.

use vstd::prelude::*;

verus! {

/// One declared dependency of a record: a package and the versions accepted.
#[derive(Debug, Clone, PartialEq, Eq)]
pub struct Dependency {
    pub name: String,
    pub requirement: String,
}

/// One feature flag of a record, with what it switches on.
#[derive(Debug, Clone, PartialEq, Eq)]
pub struct Feature {
    pub name: String,
    pub enables: Vec<String>,
}

/// One published version of a package.
#[derive(Debug, Clone, PartialEq, Eq)]
pub struct VersionRecord {
    pub name: String,
    pub version: String,
    pub dependencies: Vec<Dependency>,
    pub features: Vec<Feature>,
    pub rust_version: Option<String>,
}

/// A package with every record the cache has of it, oldest first.
#[derive(Debug, Clone, PartialEq, Eq)]
pub struct Package {
    pub name: String,
    pub versions: Vec<VersionRecord>,
}

/// A package together with the one record of it that a request means.
#[derive(Debug, PartialEq, Eq)]
pub struct Resolved {
    package: Package,
    selected: usize,
}

impl Package {
    /// The version strings of the records, in order of publication.
    pub open spec fn texts(&self) -> Seq<Seq<char>> {
        Seq::new(self.versions@.len(), |i: int| self.versions@[i].version@)
    }
}

impl Resolved {
    #[verifier::type_invariant]
    spec fn inv(&self) -> bool {
        self.selected < self.package.versions@.len()
    }

    /// The package.
    pub closed spec fn spec_package(&self) -> Package {
        self.package
    }

    /// Where the record stands among the package's records.
    pub closed spec fn spec_index(&self) -> int {
        self.selected as int
    }

    /// The record.
    pub open spec fn spec_record(&self) -> VersionRecord {
        self.spec_package().versions@[self.spec_index()]
    }

    /// Pairs a package with one of its records.
    pub fn new(package: Package, index: usize) -> (r: Option<Resolved>)
        ensures
            r is Some <==> index < package.versions@.len(),
            r matches Some(res) ==> res.spec_package() == package && res.spec_index() == index,
    {
        if index < package.versions.len() {
            Some(Resolved { package, selected: index })
        } else {
            None
        }
    }

    pub fn package(&self) -> (p: &Package)
        ensures
            *p == self.spec_package(),
    {
        &self.package
    }

    pub fn index(&self) -> (i: usize)
        ensures
            i == self.spec_index(),
            0 <= self.spec_index() < self.spec_package().versions@.len(),
    {
        proof {
            use_type_invariant(self);
        }
        self.selected
    }

    /// The record that was selected: it is one of the package's own.
    pub fn record(&self) -> (r: &VersionRecord)
        ensures
            0 <= self.spec_index() < self.spec_package().versions@.len(),
            *r == self.spec_record(),
    {
        proof {
            use_type_invariant(self);
        }
        &self.package.versions[self.selected]
    }
}

} // verus!
