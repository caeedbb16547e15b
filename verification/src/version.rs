//! Semantic versions: parsed and ordered by the `semver` crate, held here as
//! plain values.

use core::cmp::Ordering;
use semver::{BuildMetadata, Prerelease, Version};
use vstd::prelude::*;

verus! {

/// What a semantic version holds: three numbers, the pre-release tag and the
/// build metadata (each empty where the version has none).
pub struct Release {
    pub major: nat,
    pub minor: nat,
    pub patch: nat,
    pub pre: Seq<char>,
    pub build: Seq<char>,
}

/// A parsed semantic version, with the text it was parsed from.
#[derive(Debug, Clone, PartialEq, Eq)]
pub struct SemVer {
    pub text: String,
    pub major: u64,
    pub minor: u64,
    pub patch: u64,
    pub pre: String,
    pub build: String,
}

/// How one version stands to another in the order of semantic versions.
#[derive(Debug, Clone, Copy, PartialEq, Eq, Structural)]
pub enum Precedence {
    Lower,
    Equal,
    Higher,
}

/// `semver::Error`: why a text is no semantic version. It is only passed on;
/// nothing is read from it.
#[verifier::external_type_specification]
#[verifier::external_body]
pub struct ExSemverError(semver::Error);

/// What `semver::Version::parse` makes of a text: the release it denotes, or
/// `None` where the text is no semantic version.
pub uninterp spec fn parsed_release(text: Seq<char>) -> Option<Release>;

/// What `semver::Version::cmp` says of two releases: negative where the first
/// comes before the second, zero where neither comes first, positive where the
/// first comes after.
pub uninterp spec fn release_order(a: Release, b: Release) -> int;

impl Precedence {
    pub open spec fn sign(self) -> int {
        match self {
            Precedence::Lower => -1,
            Precedence::Equal => 0,
            Precedence::Higher => 1,
        }
    }
}

impl Release {
    /// A normal version is one without a pre-release tag.
    pub open spec fn is_normal(self) -> bool {
        self.pre.len() == 0
    }

    /// The sign of comparing the numbers of two releases from left to right.
    pub open spec fn numeric_order(self, other: Release) -> int {
        if self.major != other.major {
            if self.major < other.major { -1 } else { 1 }
        } else if self.minor != other.minor {
            if self.minor < other.minor { -1 } else { 1 }
        } else if self.patch != other.patch {
            if self.patch < other.patch { -1 } else { 1 }
        } else {
            0
        }
    }

    /// `self` does not come after `other`.
    pub open spec fn at_most(self, other: Release) -> bool {
        release_order(self, other) <= 0
    }
}

impl View for SemVer {
    type V = Release;

    open spec fn view(&self) -> Release {
        Release {
            major: self.major as nat,
            minor: self.minor as nat,
            patch: self.patch as nat,
            pre: self.pre@,
            build: self.build@,
        }
    }
}

/// The releases that parsed versions hold.
pub open spec fn models(versions: Seq<SemVer>) -> Seq<Release> {
    Seq::new(versions.len(), |i: int| versions[i]@)
}

/// The texts that parsed versions came from.
pub open spec fn texts_of(versions: Seq<SemVer>) -> Seq<Seq<char>> {
    Seq::new(versions.len(), |i: int| versions[i].text@)
}

/// Each version holds the release that its text denotes.
pub open spec fn faithful(versions: Seq<SemVer>) -> bool {
    forall|i: int|
        0 <= i < versions.len() ==> parsed_release(#[trigger] versions[i].text@) == Some(
            versions[i]@,
        )
}

/// What came of parsing each of several texts: a release, or nothing.
pub open spec fn outcomes(parsed: Seq<Option<SemVer>>) -> Seq<Option<Release>> {
    Seq::new(
        parsed.len(),
        |i: int|
            match parsed[i] {
                Some(v) => Some(v@),
                None => None,
            },
    )
}

/// What parsing makes of each text.
pub open spec fn parsed_all(texts: Seq<Seq<char>>) -> Seq<Option<Release>> {
    Seq::new(texts.len(), |i: int| parsed_release(texts[i]))
}

/// The release that a text denotes; meaningful where the text parses.
pub open spec fn release_of(text: Seq<char>) -> Release {
    parsed_release(text)->0
}

/// The outcome of parsing is a version without a pre-release tag.
pub open spec fn is_normal_outcome(outcome: Option<Release>) -> bool {
    outcome matches Some(r) && r.is_normal()
}

/// Calls `semver::Version::parse`. Trusted: the outcome is a function of the
/// text alone, and a version that comes back holds that text and the release
/// that the text denotes.
#[verifier::external_body]
fn parse_outside(text: &str) -> (r: Result<SemVer, semver::Error>)
    ensures
        r matches Ok(v) ==> v.text@ == text@ && parsed_release(text@) == Some(v@),
        r is Err ==> parsed_release(text@) is None,
{
    let v = Version::parse(text)?;
    Ok(SemVer {
        text: text.to_string(),
        major: v.major,
        minor: v.minor,
        patch: v.patch,
        pre: v.pre.as_str().to_string(),
        build: v.build.as_str().to_string(),
    })
}

/// Calls `semver::Version::cmp` on the two versions, rebuilt from their parts
/// (a tag that is no valid tag counts as empty). Trusted: the outcome is a
/// function of the parts alone; swapping the arguments swaps the outcome;
/// where the numbers differ they decide, compared from left to right; and
/// the order is transitive: if `a` does not come after `b`, nothing that
/// comes no later than `a` comes after `b`.
#[verifier::external_body]
fn order_outside(a: &SemVer, b: &SemVer) -> (r: Precedence)
    ensures
        r.sign() == release_order(a@, b@),
        release_order(b@, a@) == -r.sign(),
        a@.numeric_order(b@) != 0 ==> r.sign() == a@.numeric_order(b@),
        r.sign() <= 0 ==> forall|c: Release| #[trigger] c.at_most(a@) ==> c.at_most(b@),
{
    let pre_a = Prerelease::new(&a.pre).unwrap_or_default();
    let pre_b = Prerelease::new(&b.pre).unwrap_or_default();
    let build_a = BuildMetadata::new(&a.build).unwrap_or_default();
    let build_b = BuildMetadata::new(&b.build).unwrap_or_default();
    let x = Version { major: a.major, minor: a.minor, patch: a.patch, pre: pre_a, build: build_a };
    let y = Version { major: b.major, minor: b.minor, patch: b.patch, pre: pre_b, build: build_b };
    match x.cmp(&y) {
        Ordering::Less => Precedence::Lower,
        Ordering::Equal => Precedence::Equal,
        Ordering::Greater => Precedence::Higher,
    }
}

/// A text is no semantic version.
#[derive(Debug, Clone, Copy, PartialEq, Eq, Structural)]
pub struct NotAVersion;

impl SemVer {
    /// Parses a semantic version.
    pub fn parse(text: &str) -> (r: Result<SemVer, NotAVersion>)
        ensures
            r matches Ok(v) ==> v.text@ == text@ && parsed_release(text@) == Some(v@),
            r is Err <==> parsed_release(text@) is None,
    {
        match parse_outside(text) {
            Ok(v) => Ok(v),
            Err(_) => Err(NotAVersion),
        }
    }

    /// Whether the version has no pre-release tag.
    pub fn is_normal(&self) -> (r: bool)
        ensures
            r == self@.is_normal(),
    {
        self.pre.as_str().unicode_len() == 0
    }

    /// Compares two versions in the order of semantic versions.
    pub fn precedence(&self, other: &SemVer) -> (r: Precedence)
        ensures
            r.sign() == release_order(self@, other@),
            release_order(other@, self@) == -r.sign(),
            self@.numeric_order(other@) != 0 ==> r.sign() == self@.numeric_order(other@),
            r.sign() <= 0 ==> forall|c: Release| #[trigger] c.at_most(self@) ==> c.at_most(other@),
    {
        order_outside(self, other)
    }
}

} // verus!
