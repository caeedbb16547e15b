//! What a caller can ask of a resolved request.

use vstd::prelude::*;
use crate::cli::Commands;
use crate::listing::{ascending, lists, numbers_rise, sorted_versions, NotSemantic};
use crate::package::{Resolved, VersionRecord};
use crate::version::{faithful, models, texts_of, Release, SemVer};

verus! {

/// One view of a resolved request.
#[derive(Debug, Clone, PartialEq, Eq)]
pub enum Answer {
    /// The record's dependencies as declared: package and requirement.
    Dependencies(Vec<(String, String)>),
    /// The names of the record's features, in the order stored.
    Features(Vec<String>),
    /// The record's minimum toolchain version; `None` where none is declared.
    RustVersion(Option<String>),
    /// Every version of the package, in ascending order.
    Versions(Vec<SemVer>),
}

/// An answer as plain sequences of characters.
pub enum AnswerModel {
    Dependencies(Seq<(Seq<char>, Seq<char>)>),
    Features(Seq<Seq<char>>),
    RustVersion(Option<Seq<char>>),
    Versions(Seq<Release>),
}

pub open spec fn pairs_of(pairs: Seq<(String, String)>) -> Seq<(Seq<char>, Seq<char>)> {
    Seq::new(pairs.len(), |i: int| (pairs[i].0@, pairs[i].1@))
}

pub open spec fn strings_of(strings: Seq<String>) -> Seq<Seq<char>> {
    Seq::new(strings.len(), |i: int| strings[i]@)
}

impl View for Answer {
    type V = AnswerModel;

    open spec fn view(&self) -> AnswerModel {
        match self {
            Answer::Dependencies(pairs) => AnswerModel::Dependencies(pairs_of(pairs@)),
            Answer::Features(names) => AnswerModel::Features(strings_of(names@)),
            Answer::RustVersion(Some(v)) => AnswerModel::RustVersion(Some(v@)),
            Answer::RustVersion(None) => AnswerModel::RustVersion(None),
            Answer::Versions(versions) => AnswerModel::Versions(models(versions@)),
        }
    }
}

impl VersionRecord {
    /// The dependencies in the order declared, each as package and
    /// requirement.
    pub open spec fn dependency_pairs(&self) -> Seq<(Seq<char>, Seq<char>)> {
        Seq::new(
            self.dependencies@.len(),
            |i: int| (self.dependencies@[i].name@, self.dependencies@[i].requirement@),
        )
    }

    /// The names of the features in the order stored.
    pub open spec fn feature_names(&self) -> Seq<Seq<char>> {
        Seq::new(self.features@.len(), |i: int| self.features@[i].name@)
    }

    /// The minimum toolchain version, if one is declared.
    pub open spec fn minimum_toolchain(&self) -> Option<Seq<char>> {
        match self.rust_version {
            Some(v) => Some(v@),
            None => None,
        }
    }

    /// Returns the dependencies in the order declared.
    pub fn dependencies_view(&self) -> (pairs: Vec<(String, String)>)
        ensures
            pairs_of(pairs@) == self.dependency_pairs(),
    {
        let n = self.dependencies.len();
        let mut pairs: Vec<(String, String)> = Vec::new();
        let mut i: usize = 0;
        while i < n
            invariant
                i <= n,
                n == self.dependencies@.len(),
                pairs@.len() == i,
                forall|j: int|
                    0 <= j < i ==> (#[trigger] pairs@[j]).0@ == self.dependencies@[j].name@
                        && pairs@[j].1@ == self.dependencies@[j].requirement@,
            decreases n - i,
        {
            let name = self.dependencies[i].name.clone();
            let requirement = self.dependencies[i].requirement.clone();
            pairs.push((name, requirement));
            i += 1;
        }
        assert(pairs_of(pairs@) =~= self.dependency_pairs());
        pairs
    }

    /// Returns the names of the features in the order stored.
    pub fn features_view(&self) -> (names: Vec<String>)
        ensures
            strings_of(names@) == self.feature_names(),
    {
        let n = self.features.len();
        let mut names: Vec<String> = Vec::new();
        let mut i: usize = 0;
        while i < n
            invariant
                i <= n,
                n == self.features@.len(),
                names@.len() == i,
                forall|j: int| 0 <= j < i ==> (#[trigger] names@[j])@ == self.features@[j].name@,
            decreases n - i,
        {
            names.push(self.features[i].name.clone());
            i += 1;
        }
        assert(strings_of(names@) =~= self.feature_names());
        names
    }

    /// Returns the minimum toolchain version, if one is declared.
    pub fn rust_version_view(&self) -> (version: Option<String>)
        ensures
            version is Some <==> self.rust_version is Some,
            version matches Some(v) ==> self.minimum_toolchain() == Some(v@),
    {
        match &self.rust_version {
            Some(v) => Some(v.clone()),
            None => None,
        }
    }
}

/// `r` is the view that `command` asks of a resolved request: a view of the
/// selected record, or the listing of the whole package, which fails where a
/// version string is no semantic version.
pub open spec fn shows(found: Resolved, command: Commands, r: Result<AnswerModel, int>) -> bool {
    match command {
        Commands::Dependencies => r == Ok::<AnswerModel, int>(
            AnswerModel::Dependencies(found.spec_record().dependency_pairs()),
        ),
        Commands::Features => r == Ok::<AnswerModel, int>(
            AnswerModel::Features(found.spec_record().feature_names()),
        ),
        Commands::RustVersion => r == Ok::<AnswerModel, int>(
            AnswerModel::RustVersion(found.spec_record().minimum_toolchain()),
        ),
        Commands::Versions => match r {
            Ok(AnswerModel::Versions(sorted)) => lists(found.spec_package().texts(), Ok(sorted)),
            Ok(_) => false,
            Err(i) => lists(found.spec_package().texts(), Err(i)),
        },
    }
}

/// Extracts the view that `command` asks for.
pub fn extract(found: &Resolved, command: Commands) -> (r: Result<Answer, NotSemantic>)
    ensures
        shows(
            *found,
            command,
            match r {
                Ok(answer) => Ok(answer@),
                Err(e) => Err(e.index as int),
            },
        ),
        r matches Ok(Answer::Versions(versions)) ==> {
            &&& faithful(versions@)
            &&& ascending(models(versions@))
            &&& numbers_rise(models(versions@))
            &&& texts_of(versions@).to_multiset() == found.spec_package().texts().to_multiset()
        },
{
    match command {
        Commands::Dependencies => Ok(Answer::Dependencies(found.record().dependencies_view())),
        Commands::Features => Ok(Answer::Features(found.record().features_view())),
        Commands::RustVersion => Ok(Answer::RustVersion(found.record().rust_version_view())),
        Commands::Versions => match sorted_versions(found.package()) {
            Ok(versions) => Ok(Answer::Versions(versions)),
            Err(e) => Err(e),
        },
    }
}

} // verus!
