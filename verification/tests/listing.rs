use crates_query::listing::{sorted_versions, NotSemantic};
use crates_query::package::{Package, VersionRecord};

fn entry(version: &str) -> VersionRecord {
    VersionRecord {
        name: String::from("left-pad"),
        version: String::from(version),
        dependencies: Vec::new(),
        features: Vec::new(),
        rust_version: None,
    }
}

fn holding(versions: &[&str]) -> Package {
    Package {
        name: String::from("left-pad"),
        versions: versions.iter().map(|v| entry(v)).collect(),
    }
}

fn listed(versions: &[&str]) -> Vec<String> {
    sorted_versions(&holding(versions)).unwrap().into_iter().map(|v| v.text).collect()
}

#[test]
fn listing_is_ascending() {
    assert_eq!(
        listed(&["1.0.0", "1.3.0", "2.0.0-beta.1", "2.0.0"]),
        ["1.0.0", "1.3.0", "2.0.0-beta.1", "2.0.0"]
    );
}

#[test]
fn listing_does_not_go_by_publication() {
    assert_eq!(
        listed(&["2.0.0", "1.3.0", "2.0.0-beta.1", "1.0.0"]),
        ["1.0.0", "1.3.0", "2.0.0-beta.1", "2.0.0"]
    );
}

#[test]
fn listing_goes_by_numbers_not_by_letters() {
    assert_eq!(listed(&["1.19.0", "1.5.0", "10.0.0", "9.0.0"]), ["1.5.0", "1.19.0", "9.0.0", "10.0.0"]);
}

#[test]
fn listing_orders_prerelease_tags() {
    assert_eq!(
        listed(&["1.0.0", "1.0.0-rc.1", "1.0.0-beta.11", "1.0.0-beta.2", "1.0.0-beta",
            "1.0.0-alpha.beta", "1.0.0-alpha.1", "1.0.0-alpha"]),
        ["1.0.0-alpha", "1.0.0-alpha.1", "1.0.0-alpha.beta", "1.0.0-beta", "1.0.0-beta.2",
            "1.0.0-beta.11", "1.0.0-rc.1", "1.0.0"]
    );
}

#[test]
fn listing_orders_build_metadata() {
    assert_eq!(
        listed(&["1.20.0+c144a98", "1.20.0", "1.0.0", "1.0.0-alpha", "1.20.0+bc17664"]),
        ["1.0.0-alpha", "1.0.0", "1.20.0", "1.20.0+bc17664", "1.20.0+c144a98"]
    );
}

#[test]
fn listing_keeps_duplicates() {
    assert_eq!(listed(&["1.0.0", "0.1.0", "1.0.0"]), ["0.1.0", "1.0.0", "1.0.0"]);
}

#[test]
fn listing_of_nothing_is_empty() {
    assert_eq!(sorted_versions(&holding(&[])), Ok(Vec::new()));
}

#[test]
fn listing_holds_the_parsed_versions() {
    let versions = sorted_versions(&holding(&["1.2.3-rc.1+b5", "0.4.0"])).unwrap();
    assert_eq!(versions.len(), 2);
    assert_eq!(versions[0].text, "0.4.0");
    assert_eq!((versions[0].major, versions[0].minor, versions[0].patch), (0, 4, 0));
    assert_eq!(versions[1].text, "1.2.3-rc.1+b5");
    assert_eq!((versions[1].major, versions[1].minor, versions[1].patch), (1, 2, 3));
    assert_eq!(versions[1].pre, "rc.1");
    assert_eq!(versions[1].build, "b5");
}

#[test]
fn listing_fails_on_the_first_bad_version() {
    assert_eq!(
        sorted_versions(&holding(&["1.0.0", "1.0", "2.0.0", "latest"])),
        Err(NotSemantic { index: 1 })
    );
    assert_eq!(sorted_versions(&holding(&["01.0.0"])), Err(NotSemantic { index: 0 }));
    assert_eq!(sorted_versions(&holding(&["1.0.0", "2.0.0", ""])), Err(NotSemantic { index: 2 }));
}

#[test]
fn listing_twice_gives_the_same() {
    let package = holding(&["0.3.0", "1.0.0-rc.1", "0.2.9", "1.0.0", "0.10.0"]);
    let first = sorted_versions(&package);
    let second = sorted_versions(&package);
    assert_eq!(first, second);
    let texts: Vec<String> = first.unwrap().into_iter().map(|v| v.text).collect();
    assert_eq!(texts, ["0.2.9", "0.3.0", "0.10.0", "1.0.0-rc.1", "1.0.0"]);
}

#[test]
fn listing_is_a_rearrangement() {
    let given = ["3.0.0", "1.0.0", "2.0.0+x", "2.0.0", "1.0.0", "0.0.1-a"];
    let mut out = listed(&given);
    let mut expected: Vec<String> = given.iter().map(|v| String::from(*v)).collect();
    out.sort();
    expected.sort();
    assert_eq!(out, expected);
}

#[test]
fn sort_versions_sorts_what_it_is_given() {
    let given: Vec<crates_query::version::SemVer> = ["1.0.0", "0.9.0-rc.1", "0.9.0", "0.10.0"]
        .iter()
        .map(|text| crates_query::version::SemVer::parse(text).unwrap())
        .collect();
    let sorted = crates_query::listing::sort_versions(given.clone());
    let texts: Vec<&str> = sorted.iter().map(|v| v.text.as_str()).collect();
    assert_eq!(texts, ["0.9.0-rc.1", "0.9.0", "0.10.0", "1.0.0"]);
    assert_eq!(sorted[0], given[1]);
    assert_eq!(crates_query::listing::sort_versions(Vec::new()), Vec::new());
}

#[test]
fn sort_versions_keeps_equals_in_the_order_given() {
    let mut first = crates_query::version::SemVer::parse("1.0.0").unwrap();
    let mut second = first.clone();
    first.text = String::from("first");
    second.text = String::from("second");
    let low = crates_query::version::SemVer::parse("0.1.0").unwrap();
    let sorted = crates_query::listing::sort_versions(vec![first.clone(), low.clone(), second.clone()]);
    assert_eq!(sorted, vec![low, first, second]);
}
