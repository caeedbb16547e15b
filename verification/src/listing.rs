//! The versions of a package in ascending order of semantic versions.

use vstd::prelude::*;
use vstd::seq_lib::to_multiset_build;
use vstd::seq_lib::to_multiset_contains;
use vstd::seq_lib::to_multiset_insert;
use vstd::seq_lib::to_multiset_len;
use vstd::seq_lib::to_multiset_remove;
use crate::package::Package;
use crate::version::{
    faithful, models, parsed_release, release_of, release_order, texts_of, Precedence, Release,
    SemVer,
};

verus! {

/// The version at `index` is no semantic version, and is the first such.
#[derive(Debug, Clone, Copy, PartialEq, Eq, Structural)]
pub struct NotSemantic {
    pub index: usize,
}

/// No release comes after one that follows it.
pub open spec fn ascending(releases: Seq<Release>) -> bool {
    forall|i: int, j: int| 0 <= i < j < releases.len() ==> releases[i].at_most(releases[j])
}

/// The numbers of the releases never fall from one to the next.
pub open spec fn numbers_rise(releases: Seq<Release>) -> bool {
    forall|i: int, j: int|
        0 <= i < j < releases.len() ==> releases[i].numeric_order(releases[j]) <= 0
}

/// A release put into an ascending sequence: behind the last entry that does
/// not come after it.
pub open spec fn place(sorted: Seq<Release>, release: Release) -> Seq<Release>
    decreases sorted.len(),
{
    if sorted.len() == 0 || sorted.last().at_most(release) {
        sorted.push(release)
    } else {
        place(sorted.drop_last(), release).push(sorted.last())
    }
}

/// The releases in ascending order: each put in its place, in the order
/// given.
pub open spec fn arranged(releases: Seq<Release>) -> Seq<Release>
    decreases releases.len(),
{
    if releases.len() == 0 {
        Seq::empty()
    } else {
        place(arranged(releases.drop_last()), releases.last())
    }
}

/// The release that each text denotes.
pub open spec fn releases_of(texts: Seq<Seq<char>>) -> Seq<Release> {
    Seq::new(texts.len(), |i: int| release_of(texts[i]))
}

/// `i` is the first text that is no semantic version.
pub open spec fn is_first_unparsed(texts: Seq<Seq<char>>, i: int) -> bool {
    &&& 0 <= i < texts.len()
    &&& parsed_release(texts[i]) is None
    &&& forall|j: int| 0 <= j < i ==> parsed_release(#[trigger] texts[j]) is Some
}

/// `r` is the listing of the texts: the releases they denote in ascending
/// order where each is a semantic version, else the place of the first that
/// is none.
pub open spec fn lists(texts: Seq<Seq<char>>, r: Result<Seq<Release>, int>) -> bool {
    match r {
        Ok(sorted) => {
            &&& forall|j: int| 0 <= j < texts.len() ==> parsed_release(#[trigger] texts[j]) is Some
            &&& sorted == arranged(releases_of(texts))
        },
        Err(i) => is_first_unparsed(texts, i),
    }
}

/// Putting a release in its place inserts it before the entries that come
/// after it.
proof fn lemma_place_inserts(sorted: Seq<Release>, release: Release, k: int)
    requires
        0 <= k <= sorted.len(),
        k == 0 || sorted[k - 1].at_most(release),
        forall|j: int| k <= j < sorted.len() ==> !(#[trigger] sorted[j]).at_most(release),
    ensures
        place(sorted, release) == sorted.insert(k, release),
    decreases sorted.len(),
{
    if k < sorted.len() {
        let rest = sorted.drop_last();
        assert(!sorted[sorted.len() - 1].at_most(release));
        assert forall|j: int| k <= j < rest.len() implies !(#[trigger] rest[j]).at_most(
            release,
        ) by {
            assert(rest[j] == sorted[j]);
        }
        lemma_place_inserts(rest, release, k);
        assert(rest.insert(k, release).push(sorted.last()) =~= sorted.insert(k, release));
    } else {
        assert(sorted.insert(k, release) =~= sorted.push(release));
    }
}

/// A sequence in order stays in order when a release goes in behind the
/// entries that do not come after it and before those that it does not come
/// after; and so for the numbers.
proof fn lemma_insert_keeps_order(sorted: Seq<Release>, release: Release, k: int)
    requires
        0 <= k <= sorted.len(),
        ascending(sorted),
        numbers_rise(sorted),
        forall|j: int|
            0 <= j < k ==> (#[trigger] sorted[j]).at_most(release) && sorted[j].numeric_order(
                release,
            ) <= 0,
        forall|j: int|
            k <= j < sorted.len() ==> release.at_most(#[trigger] sorted[j])
                && release.numeric_order(sorted[j]) <= 0,
    ensures
        ascending(sorted.insert(k, release)),
        numbers_rise(sorted.insert(k, release)),
{
    let grown = sorted.insert(k, release);
    assert forall|a: int, b: int| 0 <= a < b < grown.len() implies grown[a].at_most(grown[b])
        && grown[a].numeric_order(grown[b]) <= 0 by {
        let from_a = if a < k { a } else { a - 1 };
        let from_b = if b < k { b } else { b - 1 };
        if a != k {
            assert(grown[a] == sorted[from_a]);
        }
        if b != k {
            assert(grown[b] == sorted[from_b]);
        }
    }
}

/// Versions rearranged keep their texts, rearranged the same way.
proof fn lemma_rearranged_texts(a: Seq<SemVer>, b: Seq<SemVer>)
    requires
        a.to_multiset() == b.to_multiset(),
    ensures
        texts_of(a).to_multiset() == texts_of(b).to_multiset(),
    decreases a.len(),
{
    to_multiset_len(a);
    to_multiset_len(b);
    if a.len() == 0 {
        assert(texts_of(a) =~= texts_of(b));
    } else {
        let x = a.last();
        let rest_a = a.drop_last();
        assert(a =~= rest_a.push(x));
        to_multiset_build(rest_a, x);
        assert(a.to_multiset().count(x) > 0);
        to_multiset_contains(b, x);
        let k = choose|k: int| 0 <= k < b.len() && b[k] == x;
        let rest_b = b.remove(k);
        to_multiset_remove(b, k);
        assert(rest_a.to_multiset() =~= rest_b.to_multiset());
        lemma_rearranged_texts(rest_a, rest_b);
        assert(texts_of(a) =~= texts_of(rest_a).push(x.text@));
        to_multiset_build(texts_of(rest_a), x.text@);
        assert(texts_of(b) =~= texts_of(rest_b).insert(k, x.text@));
        to_multiset_insert(texts_of(rest_b), k, x.text@);
    }
}

/// Sorts parsed versions into ascending order. Versions that stand equally
/// high keep the order they came in.
pub fn sort_versions(versions: Vec<SemVer>) -> (sorted: Vec<SemVer>)
    ensures
        models(sorted@) == arranged(models(versions@)),
        ascending(models(sorted@)),
        numbers_rise(models(sorted@)),
        sorted@.to_multiset() == versions@.to_multiset(),
{
    let ghost given = versions@;
    let mut rest = versions;
    let mut sorted: Vec<SemVer> = Vec::new();
    assert(given.take(0) =~= Seq::<SemVer>::empty());
    assert(models(sorted@) =~= Seq::<Release>::empty());
    assert(models(given.take(0)) =~= Seq::<Release>::empty());
    while rest.len() > 0
        invariant
            sorted@.len() + rest@.len() == given.len(),
            rest@ == given.skip(sorted@.len() as int),
            models(sorted@) == arranged(models(given.take(sorted@.len() as int))),
            ascending(models(sorted@)),
            numbers_rise(models(sorted@)),
            sorted@.to_multiset() == given.take(sorted@.len() as int).to_multiset(),
        decreases rest@.len(),
    {
        let ghost done = sorted@.len() as int;
        let ghost before = sorted@;
        let candidate = rest.remove(0);
        assert(candidate == given[done]);
        assert(rest@ =~= given.skip(done + 1));
        let mut k: usize = sorted.len();
        let mut placed = false;
        while k > 0 && !placed
            invariant
                k <= sorted@.len(),
                sorted@ == before,
                forall|j: int|
                    k <= j < before.len() ==> {
                        &&& release_order((#[trigger] before[j])@, candidate@) > 0
                        &&& release_order(candidate@, before[j]@) < 0
                        &&& candidate@.numeric_order(before[j]@) <= 0
                    },
                placed ==> {
                    &&& k > 0
                    &&& before[k - 1]@.at_most(candidate@)
                    &&& before[k - 1]@.numeric_order(candidate@) <= 0
                    &&& forall|c: Release| #[trigger]
                        c.at_most(before[k - 1]@) ==> c.at_most(candidate@)
                },
            decreases k + (if placed { 0int } else { 1int }),
        {
            let p = sorted[k - 1].precedence(&candidate);
            if p == Precedence::Higher {
                k -= 1;
            } else {
                placed = true;
            }
        }
        let ghost release = candidate@;
        sorted.insert(k, candidate);
        proof {
            let old_models = models(before);
            assert(models(sorted@) =~= old_models.insert(k as int, release));
            // Whatever stands before the candidate's place does not come after it.
            assert forall|j: int| 0 <= j < k implies (#[trigger] old_models[j]).at_most(release)
                && old_models[j].numeric_order(release) <= 0 by {
                assert(old_models[k - 1] == before[k - 1]@);
                if j < k - 1 {
                    assert(old_models[j].at_most(old_models[k - 1]));
                    assert(old_models[j].numeric_order(old_models[k - 1]) <= 0);
                }
            }
            // Whatever stands behind it comes after it.
            assert forall|j: int| k <= j < old_models.len() implies {
                &&& !(#[trigger] old_models[j]).at_most(release)
                &&& release.at_most(old_models[j])
                &&& release.numeric_order(old_models[j]) <= 0
            } by {
                assert(old_models[j] == before[j]@);
            }
            lemma_place_inserts(old_models, release, k as int);
            lemma_insert_keeps_order(old_models, release, k as int);
            assert(given.take(done + 1) =~= given.take(done).push(given[done]));
            assert(models(given.take(done + 1)).drop_last() =~= models(given.take(done)));
            assert(models(given.take(done + 1)).last() == release);
            to_multiset_insert(before, k as int, given[done]);
            to_multiset_build(given.take(done), given[done]);
        }
    }
    assert(given.take(given.len() as int) =~= given);
    sorted
}

/// Returns the versions of a package, parsed and in ascending order.
///
/// Where a version string is no semantic version there is no listing: the
/// error names the first such record.
pub fn sorted_versions(package: &Package) -> (r: Result<Vec<SemVer>, NotSemantic>)
    ensures
        lists(
            package.texts(),
            match r {
                Ok(versions) => Ok(models(versions@)),
                Err(e) => Err(e.index as int),
            },
        ),
        r matches Ok(versions) ==> {
            &&& faithful(versions@)
            &&& ascending(models(versions@))
            &&& numbers_rise(models(versions@))
            &&& texts_of(versions@).to_multiset() == package.texts().to_multiset()
        },
{
    let ghost texts = package.texts();
    let n = package.versions.len();
    let mut parsed: Vec<SemVer> = Vec::new();
    let mut i: usize = 0;
    while i < n
        invariant
            i <= n,
            n == package.versions@.len(),
            texts == package.texts(),
            parsed@.len() == i,
            forall|j: int| 0 <= j < i ==> (#[trigger] parsed@[j]).text@ == texts[j],
            forall|j: int| 0 <= j < i ==> parsed_release(#[trigger] texts[j]) is Some,
            faithful(parsed@),
        decreases n - i,
    {
        assert(texts[i as int] == package.versions@[i as int].version@);
        match SemVer::parse(package.versions[i].version.as_str()) {
            Ok(v) => {
                parsed.push(v);
            },
            Err(_) => {
                return Err(NotSemantic { index: i });
            },
        }
        i += 1;
    }
    let ghost unsorted = parsed@;
    assert(texts_of(unsorted) =~= texts);
    assert(models(unsorted) =~= releases_of(texts));
    let sorted = sort_versions(parsed);
    proof {
        lemma_rearranged_texts(sorted@, unsorted);
        assert forall|j: int| 0 <= j < sorted@.len() implies parsed_release(
            #[trigger] sorted@[j].text@,
        ) == Some(sorted@[j]@) by {
            to_multiset_contains(sorted@, sorted@[j]);
            to_multiset_contains(unsorted, sorted@[j]);
            assert(sorted@.contains(sorted@[j]));
        }
    }
    Ok(sorted)
}

/// The listing is settled by the version strings alone: whatever lists the
/// same records gives the same answer, however often it is asked.
pub proof fn law_listing_is_settled(
    texts: Seq<Seq<char>>,
    one: Result<Seq<Release>, int>,
    other: Result<Seq<Release>, int>,
)
    requires
        lists(texts, one),
        lists(texts, other),
    ensures
        one == other,
{
    if let (Err(i), Err(j)) = (one, other) {
        assert(i == j) by {
            if i < j {
                assert(parsed_release(texts[i]) is Some);
            } else if j < i {
                assert(parsed_release(texts[j]) is Some);
            }
        }
    }
}

} // verus!
