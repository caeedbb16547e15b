//! Which record of a package a request means.

use vstd::prelude::*;
use crate::package::{Package, Resolved};
use crate::version::{
    is_normal_outcome, outcomes, parsed_all, release_order, Precedence, Release, SemVer,
};

verus! {

/// What a lookup did not find.
#[derive(Debug, Clone, Copy, PartialEq, Eq, Structural)]
pub enum Missing {
    /// The cache has no entry for the package.
    Package,
    /// The package is there, but no record of it answers the request.
    Version,
}

/// `i` is the first record whose version string is `version`, letter for
/// letter.
pub open spec fn is_first_match(texts: Seq<Seq<char>>, version: Seq<char>, i: int) -> bool {
    &&& 0 <= i < texts.len()
    &&& texts[i] == version
    &&& forall|j: int| 0 <= j < i ==> texts[j] != version
}

/// `i` is the highest normal version among what was parsed: it is a version
/// without a pre-release tag, no other such entry comes after it in the order
/// of semantic versions, and of several that stand equally high it is the
/// last. Its numbers are then the highest among the normal versions.
pub open spec fn is_highest_normal(parsed: Seq<Option<Release>>, i: int) -> bool {
    &&& 0 <= i < parsed.len()
    &&& is_normal_outcome(parsed[i])
    &&& forall|j: int|
        0 <= j < parsed.len() && j != i && is_normal_outcome(#[trigger] parsed[j])
            ==> parsed[j]->0.at_most(parsed[i]->0)
    &&& forall|j: int|
        i < j < parsed.len() && is_normal_outcome(#[trigger] parsed[j]) ==> release_order(
            parsed[j]->0,
            parsed[i]->0,
        ) < 0
    &&& forall|j: int|
        0 <= j < parsed.len() && is_normal_outcome(#[trigger] parsed[j])
            ==> parsed[j]->0.numeric_order(parsed[i]->0) <= 0
}

/// Nothing that was parsed is a normal version.
pub open spec fn has_no_normal(parsed: Seq<Option<Release>>) -> bool {
    forall|j: int| 0 <= j < parsed.len() ==> !is_normal_outcome(#[trigger] parsed[j])
}

/// `pick` is the highest normal version among what was parsed, or `None`
/// where there is no normal version.
pub open spec fn picks_highest_normal(parsed: Seq<Option<Release>>, pick: Option<int>) -> bool {
    match pick {
        Some(i) => is_highest_normal(parsed, i),
        None => has_no_normal(parsed),
    }
}

/// `pick` is what a selector means among the records: the first record with
/// exactly that version string, or, without a selector, the highest normal
/// version; `None` where there is no such record.
pub open spec fn selects(
    texts: Seq<Seq<char>>,
    selector: Option<Seq<char>>,
    pick: Option<int>,
) -> bool {
    match (selector, pick) {
        (Some(v), Some(i)) => is_first_match(texts, v, i),
        (Some(v), None) => !texts.contains(v),
        (None, _) => picks_highest_normal(parsed_all(texts), pick),
    }
}

/// The selector that an optional version string stands for.
pub open spec fn selector_of(ver: Option<String>) -> Option<Seq<char>> {
    match ver {
        Some(v) => Some(v@),
        None => None,
    }
}

/// A place among the records, as a number of the mathematical kind.
pub open spec fn place_of(pick: Option<usize>) -> Option<int> {
    match pick {
        Some(i) => Some(i as int),
        None => None,
    }
}

/// Finds the first record with exactly the given version string.
pub fn find_exact(package: &Package, version: &String) -> (pick: Option<usize>)
    ensures
        selects(package.texts(), Some(version@), place_of(pick)),
{
    let ghost texts = package.texts();
    let n = package.versions.len();
    let mut i: usize = 0;
    while i < n
        invariant
            i <= n,
            n == package.versions@.len(),
            texts == package.texts(),
            forall|j: int| 0 <= j < i ==> texts[j] != version@,
        decreases n - i,
    {
        if package.versions[i].version == *version {
            assert(texts[i as int] == version@);
            return Some(i);
        }
        i += 1;
    }
    None
}

/// Parses the version string of every record; `None` stands where a string
/// is no semantic version.
pub fn parse_versions(package: &Package) -> (parsed: Vec<Option<SemVer>>)
    ensures
        outcomes(parsed@) == parsed_all(package.texts()),
        forall|i: int|
            0 <= i < parsed@.len() ==> (#[trigger] parsed@[i] matches Some(v) ==> v.text@
                == package.texts()[i]),
{
    let ghost texts = package.texts();
    let n = package.versions.len();
    let mut parsed: Vec<Option<SemVer>> = Vec::new();
    let mut i: usize = 0;
    while i < n
        invariant
            i <= n,
            n == package.versions@.len(),
            texts == package.texts(),
            parsed@.len() == i,
            forall|j: int| 0 <= j < i ==> outcomes(parsed@)[j] == parsed_all(texts)[j],
            forall|j: int|
                0 <= j < i ==> (#[trigger] parsed@[j] matches Some(v) ==> v.text@ == texts[j]),
        decreases n - i,
    {
        let outcome = match SemVer::parse(package.versions[i].version.as_str()) {
            Ok(v) => Some(v),
            Err(_) => None,
        };
        parsed.push(outcome);
        i += 1;
    }
    assert(outcomes(parsed@) =~= parsed_all(texts));
    parsed
}

/// Finds the highest normal version among what was parsed. Entries that are
/// no version, or have a pre-release tag, are passed over.
pub fn highest_normal_among(parsed: &Vec<Option<SemVer>>) -> (pick: Option<usize>)
    ensures
        picks_highest_normal(outcomes(parsed@), place_of(pick)),
{
    let ghost all = outcomes(parsed@);
    let n = parsed.len();
    let mut best: Option<usize> = None;
    let mut held: Option<&SemVer> = None;
    let mut i: usize = 0;
    while i < n
        invariant
            i <= n,
            n == parsed@.len(),
            all == outcomes(parsed@),
            picks_highest_normal(all.take(i as int), place_of(best)),
            best is Some <==> held is Some,
            best matches Some(at) ==> all[at as int] == Some(held->0@),
        decreases n - i,
    {
        let ghost seen = all.take(i as int);
        let ghost grown = all.take(i + 1);
        assert(forall|j: int| 0 <= j < i ==> seen[j] == grown[j]);
        assert(grown[i as int] == all[i as int]);
        let newcomer = match &parsed[i] {
            Some(candidate) => candidate.is_normal() && match held {
                None => true,
                Some(holder) => holder.precedence(candidate) != Precedence::Higher,
            },
            None => false,
        };
        if newcomer {
            proof {
                lemma_newcomer_is_highest(seen, grown, place_of(best), all[i as int]->0);
            }
            best = Some(i);
            held = parsed[i].as_ref();
        } else {
            proof {
                if is_normal_outcome(all[i as int]) {
                    lemma_holder_stays_highest(seen, grown, best->0 as int, all[i as int]->0);
                } else {
                    lemma_passed_over(seen, grown, place_of(best));
                }
            }
        }
        i += 1;
    }
    assert(all.take(n as int) =~= all);
    best
}

/// An entry that is no normal version changes nothing.
proof fn lemma_passed_over(
    seen: Seq<Option<Release>>,
    grown: Seq<Option<Release>>,
    pick: Option<int>,
)
    requires
        grown.len() == seen.len() + 1,
        forall|j: int| 0 <= j < seen.len() ==> seen[j] == grown[j],
        !is_normal_outcome(grown[seen.len() as int]),
        picks_highest_normal(seen, pick),
    ensures
        picks_highest_normal(grown, pick),
{
    match pick {
        Some(i) => {
            assert forall|j: int|
                0 <= j < grown.len() && is_normal_outcome(#[trigger] grown[j]) implies j
                < seen.len() && is_normal_outcome(seen[j]) by {}
        },
        None => {
            assert forall|j: int| 0 <= j < grown.len() implies !is_normal_outcome(
                #[trigger] grown[j],
            ) by {
                if j < seen.len() {
                    assert(!is_normal_outcome(seen[j]));
                }
            }
        },
    }
}

/// A normal version that the one held so far does not outrank takes its
/// place: whatever came no later than the holder comes no later than it.
proof fn lemma_newcomer_is_highest(
    seen: Seq<Option<Release>>,
    grown: Seq<Option<Release>>,
    pick: Option<int>,
    newcomer: Release,
)
    requires
        grown.len() == seen.len() + 1,
        forall|j: int| 0 <= j < seen.len() ==> seen[j] == grown[j],
        grown[seen.len() as int] == Some(newcomer),
        newcomer.is_normal(),
        picks_highest_normal(seen, pick),
        pick matches Some(at) ==> {
            let held = seen[at]->0;
            &&& held.at_most(newcomer)
            &&& held.numeric_order(newcomer) <= 0
            &&& forall|c: Release| #[trigger] c.at_most(held) ==> c.at_most(newcomer)
        },
    ensures
        is_highest_normal(grown, seen.len() as int),
{
    let i = seen.len() as int;
    assert forall|j: int| 0 <= j < grown.len() && j != i && is_normal_outcome(
        #[trigger] grown[j],
    ) implies grown[j]->0.at_most(newcomer) && grown[j]->0.numeric_order(newcomer) <= 0 by {
        assert(is_normal_outcome(seen[j]));
        let at = pick->0;
        if j != at {
            assert(seen[j]->0.at_most(seen[at]->0));
        }
        assert(seen[j]->0.numeric_order(seen[at]->0) <= 0);
    }
}

/// A normal version that the one held so far outranks leaves the holder in
/// its place.
proof fn lemma_holder_stays_highest(
    seen: Seq<Option<Release>>,
    grown: Seq<Option<Release>>,
    at: int,
    newcomer: Release,
)
    requires
        grown.len() == seen.len() + 1,
        forall|j: int| 0 <= j < seen.len() ==> seen[j] == grown[j],
        grown[seen.len() as int] == Some(newcomer),
        is_highest_normal(seen, at),
        release_order(newcomer, seen[at]->0) < 0,
        newcomer.numeric_order(seen[at]->0) <= 0,
    ensures
        is_highest_normal(grown, at),
{
    assert forall|j: int| 0 <= j < grown.len() && is_normal_outcome(#[trigger] grown[j]) implies (j
        != at ==> grown[j]->0.at_most(grown[at]->0)) && (at < j ==> release_order(
        grown[j]->0,
        grown[at]->0,
    ) < 0) && grown[j]->0.numeric_order(grown[at]->0) <= 0 by {
        if j < seen.len() {
            assert(is_normal_outcome(seen[j]));
        }
    }
}

/// Finds the highest normal version among the records of a package.
pub fn highest_normal(package: &Package) -> (pick: Option<usize>)
    ensures
        selects(package.texts(), None, place_of(pick)),
{
    let parsed = parse_versions(package);
    highest_normal_among(&parsed)
}

/// `r` is the answer to a request, given what the cache holds of the
/// package: the package with the record that the selector means, or what is
/// missing.
pub open spec fn answers(
    cached: Option<Package>,
    selector: Option<Seq<char>>,
    r: Result<Resolved, Missing>,
) -> bool {
    match cached {
        None => r == Err::<Resolved, Missing>(Missing::Package),
        Some(p) => match r {
            Ok(found) => found.spec_package() == p && selects(
                p.texts(),
                selector,
                Some(found.spec_index()),
            ),
            Err(e) => e == Missing::Version && selects(p.texts(), selector, None),
        },
    }
}

/// Resolves a request against what the cache gave for the package.
pub fn get_crate_and_version(cached: Option<Package>, ver: &Option<String>) -> (r: Result<
    Resolved,
    Missing,
>)
    ensures
        answers(cached, selector_of(*ver), r),
{
    match cached {
        None => Err(Missing::Package),
        Some(package) => {
            let pick = match ver {
                Some(v) => find_exact(&package, v),
                None => highest_normal(&package),
            };
            match pick {
                Some(i) => match Resolved::new(package, i) {
                    Some(found) => Ok(found),
                    None => Err(Missing::Version),
                },
                None => Err(Missing::Version),
            }
        },
    }
}

/// Without a selector, a package that has a normal version at all always
/// resolves, and to a normal version whose numbers no other normal version
/// exceeds: never to a pre-release, whatever its numbers.
pub proof fn law_default_is_highest_normal(package: Package, r: Result<Resolved, Missing>)
    requires
        answers(Some(package), None, r),
        exists|j: int|
            0 <= j < package.texts().len() && is_normal_outcome(
                #[trigger] parsed_all(package.texts())[j],
            ),
    ensures
        r matches Ok(found) && {
            let parsed = parsed_all(package.texts());
            let i = found.spec_index();
            &&& found.spec_package() == package
            &&& 0 <= i < parsed.len()
            &&& parsed[i] matches Some(chosen)
            &&& chosen.pre.len() == 0
            &&& forall|j: int|
                0 <= j < parsed.len() && is_normal_outcome(#[trigger] parsed[j])
                    ==> parsed[j]->0.numeric_order(chosen) <= 0
        },
{
}

} // verus!
