use crates_query::lookup::{find_exact, get_crate_and_version, highest_normal, Missing};
use crates_query::package::{Package, VersionRecord};

fn plain_record(name: &str, version: &str) -> VersionRecord {
    VersionRecord {
        name: String::from(name),
        version: String::from(version),
        dependencies: Vec::new(),
        features: Vec::new(),
        rust_version: None,
    }
}

fn package_of(name: &str, versions: &[&str]) -> Package {
    Package {
        name: String::from(name),
        versions: versions.iter().map(|v| plain_record(name, v)).collect(),
    }
}

fn left_pad() -> Package {
    package_of("left-pad", &["1.0.0", "1.3.0", "2.0.0-beta.1", "2.0.0"])
}

#[test]
fn default_selector_takes_the_highest_normal_version() {
    let found = get_crate_and_version(Some(left_pad()), &None).unwrap();
    assert_eq!(found.record().version, "2.0.0");
    assert_eq!(found.index(), 3);
    assert_eq!(found.package(), &left_pad());
}

#[test]
fn default_selector_never_takes_a_prerelease() {
    let package = package_of("p", &["1.0.0", "1.3.0", "3.0.0-alpha", "2.0.0-beta.1"]);
    assert_eq!(highest_normal(&package), Some(1));
}

#[test]
fn highest_normal_goes_by_numbers_not_by_letters() {
    let package = package_of("p", &["1.5.0", "1.19.0", "1.9.9"]);
    assert_eq!(highest_normal(&package), Some(1));
}

#[test]
fn highest_normal_does_not_go_by_publication() {
    let package = package_of("p", &["2.0.0", "1.0.0", "1.0.1"]);
    assert_eq!(highest_normal(&package), Some(0));
}

#[test]
fn highest_normal_takes_the_last_of_equals() {
    let package = package_of("p", &["1.0.0", "0.9.0", "1.0.0", "0.1.0"]);
    assert_eq!(highest_normal(&package), Some(2));
}

#[test]
fn highest_normal_counts_build_metadata() {
    let package = package_of("p", &["1.20.0+c144a98", "1.20.0", "1.20.0+bc17664"]);
    assert_eq!(highest_normal(&package), Some(0));
}

#[test]
fn highest_normal_passes_over_what_is_no_version() {
    let package = package_of("p", &["9.9", "1.0.0", "latest", "0.9.0", "99"]);
    assert_eq!(highest_normal(&package), Some(1));
}

#[test]
fn only_prereleases_leave_nothing_to_select() {
    let package = package_of("p", &["1.0.0-alpha", "1.0.0-rc.1"]);
    assert_eq!(highest_normal(&package), None);
    assert_eq!(get_crate_and_version(Some(package), &None), Err(Missing::Version));
}

#[test]
fn a_package_without_records_has_no_version() {
    let package = package_of("p", &[]);
    assert_eq!(highest_normal(&package), None);
    assert_eq!(find_exact(&package, &String::from("1.0.0")), None);
    assert_eq!(get_crate_and_version(Some(package), &None), Err(Missing::Version));
}

#[test]
fn exact_selector_finds_its_record() {
    let found = get_crate_and_version(Some(left_pad()), &Some(String::from("1.3.0"))).unwrap();
    assert_eq!(found.record().version, "1.3.0");
    assert_eq!(found.index(), 1);
}

#[test]
fn exact_selector_may_name_a_prerelease() {
    let found =
        get_crate_and_version(Some(left_pad()), &Some(String::from("2.0.0-beta.1"))).unwrap();
    assert_eq!(found.index(), 2);
}

#[test]
fn exact_selector_matches_letter_for_letter() {
    let package = package_of("p", &["1.0.0+a", "1.0.0"]);
    assert_eq!(find_exact(&package, &String::from("1.0.0")), Some(1));
    assert_eq!(find_exact(&package, &String::from("1.0")), None);
    assert_eq!(find_exact(&package, &String::from("1.0.0 ")), None);
    assert_eq!(find_exact(&package, &String::from("1.0.0+a")), Some(0));
    assert_eq!(find_exact(&package, &String::from("1.0.0+A")), None);
}

#[test]
fn exact_selector_takes_the_first_of_duplicates() {
    let package = package_of("p", &["0.1.0", "1.0.0", "1.0.0"]);
    assert_eq!(find_exact(&package, &String::from("1.0.0")), Some(1));
}

#[test]
fn exact_selector_need_not_be_a_version() {
    let package = package_of("p", &["1.0.0", "nightly"]);
    assert_eq!(find_exact(&package, &String::from("nightly")), Some(1));
}

#[test]
fn unknown_version_is_missing() {
    assert_eq!(
        get_crate_and_version(Some(left_pad()), &Some(String::from("9.9.9"))),
        Err(Missing::Version)
    );
}

#[test]
fn unknown_package_is_missing() {
    assert_eq!(get_crate_and_version(None, &None), Err(Missing::Package));
    assert_eq!(get_crate_and_version(None, &Some(String::from("1.0.0"))), Err(Missing::Package));
}

#[test]
fn the_record_belongs_to_the_package() {
    let package = left_pad();
    for (i, record) in package.versions.iter().enumerate() {
        let found =
            get_crate_and_version(Some(package.clone()), &Some(record.version.clone())).unwrap();
        assert_eq!(found.package(), &package);
        assert_eq!(found.index(), i);
        assert_eq!(found.record(), &package.versions[i]);
    }
}

#[test]
fn parse_versions_keeps_a_place_for_every_record() {
    let parsed = crates_query::lookup::parse_versions(&package_of("p", &["1.0.0", "1.0", "2.0.0-rc.1"]));
    assert_eq!(parsed.len(), 3);
    assert_eq!(parsed[0].as_ref().map(|v| (v.major, v.minor, v.patch)), Some((1, 0, 0)));
    assert_eq!(parsed[0].as_ref().map(|v| v.text.as_str()), Some("1.0.0"));
    assert_eq!(parsed[1], None);
    assert_eq!(parsed[2].as_ref().map(|v| v.pre.as_str()), Some("rc.1"));
    assert_eq!(parsed[2].as_ref().map(|v| v.text.as_str()), Some("2.0.0-rc.1"));
}

#[test]
fn highest_normal_among_parsed_versions() {
    let parsed = crates_query::lookup::parse_versions(&left_pad());
    assert_eq!(crates_query::lookup::highest_normal_among(&parsed), Some(3));
    assert_eq!(crates_query::lookup::highest_normal_among(&Vec::new()), None);
    assert_eq!(crates_query::lookup::highest_normal_among(&vec![None, None]), None);
}

#[test]
fn highest_normal_among_goes_by_the_parts() {
    let version = |major: u64, pre: &str| {
        Some(crates_query::version::SemVer {
            text: String::new(),
            major,
            minor: 0,
            patch: 0,
            pre: String::from(pre),
            build: String::new(),
        })
    };
    let parsed = vec![version(1, ""), version(3, "alpha"), None, version(2, ""), version(0, "")];
    assert_eq!(crates_query::lookup::highest_normal_among(&parsed), Some(3));
}
