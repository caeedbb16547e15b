//! The request: a package, an optional exact version, and the view asked for.

use vstd::prelude::*;

verus! {

/// The view of a package that a request asks for.
#[derive(Debug, Clone, Copy, PartialEq, Eq, Structural)]
pub enum Commands {
    Dependencies,
    RustVersion,
    Features,
    Versions,
}

/// The package a request is about, and the exact version if one is wanted.
#[derive(Debug, Clone, PartialEq, Eq)]
pub struct Crate {
    pub name: String,
    pub ver: Option<String>,
}

/// A whole request.
#[derive(Debug, Clone, PartialEq, Eq)]
pub struct Cli {
    pub command: Commands,
    pub krate: Crate,
}

/// Whether the cache is refreshed before it is first read.
#[derive(Debug, Clone, Copy, PartialEq, Eq, Structural)]
pub enum RefreshPolicy {
    /// The cache cannot be trusted for this request: refresh, then read.
    RefreshFirst,
    /// Read the cache as it is, and refresh only if the record is missing.
    CacheFirst,
}

/// A stale cache may lack the newest publication, so a request for the full
/// listing, or for whatever version is highest, needs a refresh first.
pub open spec fn must_refresh_first(command: Commands, exact: bool) -> bool {
    command == Commands::Versions || !exact
}

pub open spec fn policy_for(command: Commands, exact: bool) -> RefreshPolicy {
    if must_refresh_first(command, exact) {
        RefreshPolicy::RefreshFirst
    } else {
        RefreshPolicy::CacheFirst
    }
}

impl Cli {
    pub open spec fn policy(&self) -> RefreshPolicy {
        policy_for(self.command, self.krate.ver is Some)
    }

    /// Decides, before anything is read, whether the cache must be refreshed.
    pub fn refresh_policy(&self) -> (policy: RefreshPolicy)
        ensures
            policy == self.policy(),
            policy == RefreshPolicy::RefreshFirst <==> (self.command == Commands::Versions
                || self.krate.ver is None),
    {
        if self.command == Commands::Versions || self.krate.ver.is_none() {
            RefreshPolicy::RefreshFirst
        } else {
            RefreshPolicy::CacheFirst
        }
    }
}

} // verus!
