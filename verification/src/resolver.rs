//! The course of a resolution: when the cache is read, when it is refreshed,
//! and when the request is given up.
//!
//! Reading and refreshing the cache are the caller's work. The resolver names
//! the next thing to do, the caller does it and reports back what came of it.

use vstd::prelude::*;
use crate::cli::{policy_for, Commands, RefreshPolicy};
use crate::lookup::{answers, is_first_match, Missing};
use crate::package::{Package, Resolved};

verus! {

/// Why a resolution ended without a record.
#[derive(Debug, Clone, Copy, PartialEq, Eq, Structural)]
pub enum ResolveError {
    /// The refresh itself could not be carried out.
    Refresh,
    /// The cache, refreshed, still lacks what the request means.
    NotFound(Missing),
    /// An event was reported that answers nothing the resolver asked for.
    OutOfTurn,
}

/// What the resolver waits for.
#[derive(Debug, Clone, Copy, PartialEq, Eq, Structural)]
pub enum Phase {
    /// A lookup in a cache that has not been refreshed.
    AwaitingFirstLookup,
    /// The refresh.
    AwaitingRefresh,
    /// A lookup in the refreshed cache.
    AwaitingFinalLookup,
    /// Nothing: the resolution has ended.
    Finished,
}

/// What the caller reports back.
#[derive(Debug, PartialEq, Eq)]
pub enum Event {
    /// The refresh was carried out.
    Refreshed,
    /// The refresh could not be carried out.
    RefreshFailed,
    /// The cache was read, and this is what the request found in it.
    Looked(Result<Resolved, Missing>),
}

/// What the caller is to do next, or how the resolution ended.
#[derive(Debug, PartialEq, Eq)]
pub enum Action {
    /// Refresh the cache for the package, then report `Refreshed` or
    /// `RefreshFailed`.
    Refresh,
    /// Read the cache and look the request up in it, then report `Looked`.
    Lookup,
    /// The request is resolved.
    Done(Resolved),
    /// The request is given up.
    Fail(ResolveError),
}

/// The state of one resolution.
#[derive(Debug, PartialEq, Eq)]
pub struct Resolver {
    phase: Phase,
}

impl Phase {
    /// How far a resolution has come; every step takes it further.
    pub open spec fn rank(self) -> nat {
        match self {
            Phase::AwaitingFirstLookup => 0,
            Phase::AwaitingRefresh => 1,
            Phase::AwaitingFinalLookup => 2,
            Phase::Finished => 3,
        }
    }
}

impl Action {
    /// The resolution has ended.
    pub open spec fn is_final(self) -> bool {
        self is Done || self is Fail
    }
}

/// How a resolution begins under a policy.
pub open spec fn first(policy: RefreshPolicy) -> (Phase, Action) {
    match policy {
        RefreshPolicy::RefreshFirst => (Phase::AwaitingRefresh, Action::Refresh),
        RefreshPolicy::CacheFirst => (Phase::AwaitingFirstLookup, Action::Lookup),
    }
}

/// How a resolution goes on when an event is reported.
///
/// A record found ends it. A miss in a cache that was not refreshed asks for
/// the one refresh; a miss after it is final. A refresh that failed ends it
/// at once.
pub open spec fn next(phase: Phase, event: Event) -> (Phase, Action) {
    match (phase, event) {
        (Phase::AwaitingFirstLookup, Event::Looked(Ok(found))) => (
            Phase::Finished,
            Action::Done(found),
        ),
        (Phase::AwaitingFirstLookup, Event::Looked(Err(_))) => (
            Phase::AwaitingRefresh,
            Action::Refresh,
        ),
        (Phase::AwaitingRefresh, Event::Refreshed) => (Phase::AwaitingFinalLookup, Action::Lookup),
        (Phase::AwaitingRefresh, Event::RefreshFailed) => (
            Phase::Finished,
            Action::Fail(ResolveError::Refresh),
        ),
        (Phase::AwaitingFinalLookup, Event::Looked(Ok(found))) => (
            Phase::Finished,
            Action::Done(found),
        ),
        (Phase::AwaitingFinalLookup, Event::Looked(Err(missing))) => (
            Phase::Finished,
            Action::Fail(ResolveError::NotFound(missing)),
        ),
        _ => (Phase::Finished, Action::Fail(ResolveError::OutOfTurn)),
    }
}

impl Resolver {
    pub closed spec fn spec_phase(&self) -> Phase {
        self.phase
    }

    /// Begins a resolution and names the first thing to do.
    pub fn begin(policy: RefreshPolicy) -> (r: (Resolver, Action))
        ensures
            (r.0.spec_phase(), r.1) == first(policy),
    {
        match policy {
            RefreshPolicy::RefreshFirst => (
                Resolver { phase: Phase::AwaitingRefresh },
                Action::Refresh,
            ),
            RefreshPolicy::CacheFirst => (
                Resolver { phase: Phase::AwaitingFirstLookup },
                Action::Lookup,
            ),
        }
    }

    pub fn phase(&self) -> (p: Phase)
        ensures
            p == self.spec_phase(),
    {
        self.phase
    }

    /// Takes the caller's report and names the next thing to do.
    pub fn step(&mut self, event: Event) -> (action: Action)
        ensures
            (final(self).spec_phase(), action) == next(old(self).spec_phase(), event),
            final(self).spec_phase() == Phase::Finished
                || final(self).spec_phase().rank() > old(self).spec_phase().rank(),
            action is Refresh ==> old(self).spec_phase() == Phase::AwaitingFirstLookup,
            action.is_final() <==> final(self).spec_phase() == Phase::Finished,
    {
        let phase = self.phase;
        match (phase, event) {
            (Phase::AwaitingFirstLookup, Event::Looked(Ok(found))) => {
                self.phase = Phase::Finished;
                Action::Done(found)
            },
            (Phase::AwaitingFirstLookup, Event::Looked(Err(_))) => {
                self.phase = Phase::AwaitingRefresh;
                Action::Refresh
            },
            (Phase::AwaitingRefresh, Event::Refreshed) => {
                self.phase = Phase::AwaitingFinalLookup;
                Action::Lookup
            },
            (Phase::AwaitingRefresh, Event::RefreshFailed) => {
                self.phase = Phase::Finished;
                Action::Fail(ResolveError::Refresh)
            },
            (Phase::AwaitingFinalLookup, Event::Looked(Ok(found))) => {
                self.phase = Phase::Finished;
                Action::Done(found)
            },
            (Phase::AwaitingFinalLookup, Event::Looked(Err(missing))) => {
                self.phase = Phase::Finished;
                Action::Fail(ResolveError::NotFound(missing))
            },
            _ => {
                self.phase = Phase::Finished;
                Action::Fail(ResolveError::OutOfTurn)
            },
        }
    }
}

/// The cache as one resolution meets it.
pub struct World {
    /// What the request finds in the cache as long as it is not refreshed.
    pub before: Result<Resolved, Missing>,
    /// What the request finds in the cache once it is refreshed.
    pub after: Result<Resolved, Missing>,
    /// Whether the refresh can be carried out.
    pub refresh_works: bool,
}

/// A resolution under way: where it stands, what it asks for next, and how
/// often it has asked for a refresh and for a lookup so far.
pub struct Course {
    pub phase: Phase,
    pub action: Action,
    pub refreshes: nat,
    pub lookups: nat,
}

impl World {
    /// What the caller reports when it has done what the course asks for.
    pub open spec fn report(self, course: Course) -> Event {
        match course.action {
            Action::Refresh => if self.refresh_works {
                Event::Refreshed
            } else {
                Event::RefreshFailed
            },
            _ => Event::Looked(
                if course.refreshes == 0 {
                    self.before
                } else {
                    self.after
                },
            ),
        }
    }

    /// One turn: the caller does what is asked and the resolver answers. A
    /// course that has ended stays as it is.
    pub open spec fn advance(self, course: Course) -> Course {
        if course.action.is_final() {
            course
        } else {
            let (phase, action) = next(course.phase, self.report(course));
            Course {
                phase,
                action,
                refreshes: if course.action is Refresh {
                    course.refreshes + 1
                } else {
                    course.refreshes
                },
                lookups: if course.action is Lookup {
                    course.lookups + 1
                } else {
                    course.lookups
                },
            }
        }
    }

    /// The whole resolution under a policy, to its end.
    pub open spec fn run(self, policy: RefreshPolicy) -> Course {
        let (phase, action) = first(policy);
        self.advance(self.advance(self.advance(Course { phase, action, refreshes: 0, lookups: 0 })))
    }
}

/// Every resolution ends, after at most one refresh and two lookups.
pub proof fn law_resolution_ends(world: World, policy: RefreshPolicy)
    ensures
        world.run(policy).action.is_final(),
        world.run(policy).phase == Phase::Finished,
        world.run(policy).refreshes <= 1,
        world.run(policy).lookups <= 2,
        !(world.run(policy).action matches Action::Fail(e) && e == ResolveError::OutOfTurn),
{
}

/// A request for the full listing, or one without an exact version, always
/// refreshes the cache before it reads it, and reads it once if the refresh
/// could be carried out.
pub proof fn law_refresh_comes_first(world: World, command: Commands, exact: bool)
    requires
        command == Commands::Versions || !exact,
    ensures
        world.run(policy_for(command, exact)).refreshes == 1,
        world.refresh_works ==> world.run(policy_for(command, exact)).lookups == 1,
        !world.refresh_works ==> world.run(policy_for(command, exact)).lookups == 0
            && world.run(policy_for(command, exact)).action == Action::Fail(ResolveError::Refresh),
        world.refresh_works ==> (match world.after {
            Ok(found) => world.run(policy_for(command, exact)).action == Action::Done(found),
            Err(missing) => world.run(policy_for(command, exact)).action == Action::Fail(
                ResolveError::NotFound(missing),
            ),
        }),
{
}

/// A request for an exact version that the cache holds is answered from the
/// cache as it is: no refresh is asked for.
pub proof fn law_cache_hit_needs_no_refresh(
    world: World,
    command: Commands,
    version: Seq<char>,
    package: Package,
)
    requires
        command != Commands::Versions,
        package.texts().contains(version),
        answers(Some(package), Some(version), world.before),
    ensures
        world.run(policy_for(command, true)).refreshes == 0,
        world.run(policy_for(command, true)).lookups == 1,
        world.run(policy_for(command, true)).action matches Action::Done(found)
            && found.spec_package() == package && is_first_match(
            package.texts(),
            version,
            found.spec_index(),
        ),
{
}

/// A request for an exact version that the cache lacks until it is refreshed
/// and holds afterwards succeeds after exactly one refresh.
pub proof fn law_miss_then_hit_takes_one_refresh(
    world: World,
    command: Commands,
    version: Seq<char>,
    stale: Option<Package>,
    fresh: Package,
)
    requires
        command != Commands::Versions,
        stale matches Some(p) ==> !p.texts().contains(version),
        fresh.texts().contains(version),
        answers(stale, Some(version), world.before),
        answers(Some(fresh), Some(version), world.after),
        world.refresh_works,
    ensures
        world.run(policy_for(command, true)).refreshes == 1,
        world.run(policy_for(command, true)).lookups == 2,
        world.run(policy_for(command, true)).action matches Action::Done(found)
            && found.spec_package() == fresh && is_first_match(
            fresh.texts(),
            version,
            found.spec_index(),
        ),
{
}

/// A request for an exact version that the cache lacks, refreshed or not,
/// ends in an error after exactly one refresh, and no record comes of it.
pub proof fn law_unknown_version_fails(
    world: World,
    command: Commands,
    version: Seq<char>,
    stale: Option<Package>,
    fresh: Option<Package>,
)
    requires
        stale matches Some(p) ==> !p.texts().contains(version),
        fresh matches Some(p) ==> !p.texts().contains(version),
        answers(stale, Some(version), world.before),
        answers(fresh, Some(version), world.after),
    ensures
        world.run(policy_for(command, true)).refreshes == 1,
        !(world.run(policy_for(command, true)).action is Done),
        world.refresh_works ==> world.run(policy_for(command, true)).action == Action::Fail(
            ResolveError::NotFound(
                if fresh is Some {
                    Missing::Version
                } else {
                    Missing::Package
                },
            ),
        ),
        !world.refresh_works ==> world.run(policy_for(command, true)).action == Action::Fail(
            ResolveError::Refresh,
        ),
{
}

} // verus!
