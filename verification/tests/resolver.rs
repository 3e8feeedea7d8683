use clenzy::browser_profile::BrowserProfile;
use clenzy::profiles::record::{DiscoveryError, RawProfileRecord};
use clenzy::profiles::resolver::{order_by_hint, position_named, resolve_profiles};

fn record(name: &str, path: &str, is_default: bool) -> RawProfileRecord {
    RawProfileRecord::new(name.to_string(), path.to_string(), is_default)
}

fn profile(name: &str, path: &str) -> BrowserProfile {
    BrowserProfile::new(name.to_string(), path.to_string())
}

fn names(profiles: &[BrowserProfile]) -> Vec<String> {
    profiles.iter().map(|p| p.name.clone()).collect()
}

fn paths(profiles: &[BrowserProfile]) -> Vec<String> {
    profiles.iter().map(|p| p.path.clone()).collect()
}

#[test]
fn order_hint_moves_named_profiles_to_the_front() {
    let records = vec![record("A", "a", false), record("B", "b", false), record("C", "c", false)];
    let hint = vec!["B".to_string(), "A".to_string()];
    let resolved = resolve_profiles(&records, "/data", &hint).unwrap();
    assert_eq!(names(&resolved), vec!["B", "A", "C"]);
    assert_eq!(paths(&resolved), vec!["/data/b", "/data/a", "/data/c"]);
}

#[test]
fn defaults_come_first_in_discovery_order() {
    let records = vec![record("A", "a", true), record("B", "b", false), record("C", "c", true)];
    let resolved = resolve_profiles(&records, "/data", &Vec::new()).unwrap();
    assert_eq!(names(&resolved), vec!["A", "C", "B"]);
}

#[test]
fn no_record_is_no_profiles_found() {
    let outcome = resolve_profiles(&Vec::new(), "/data", &Vec::new());
    assert_eq!(outcome.err(), Some(DiscoveryError::NoProfilesFound));
}

#[test]
fn one_path_gives_one_profile_the_first() {
    let records = vec![
        record("First", "shared", false),
        record("Other", "own", false),
        record("Second", "shared", true),
    ];
    let resolved = resolve_profiles(&records, "/data", &Vec::new()).unwrap();
    assert_eq!(names(&resolved), vec!["First", "Other"]);
    assert_eq!(paths(&resolved), vec!["/data/shared", "/data/own"]);
}

#[test]
fn repeats_next_to_each_other_are_dropped() {
    let records = vec![record("A", "p", false), record("B", "p", false), record("C", "q", false)];
    let resolved = resolve_profiles(&records, "/d/", &Vec::new()).unwrap();
    assert_eq!(names(&resolved), vec!["A", "C"]);
    assert_eq!(paths(&resolved), vec!["/d/p", "/d/q"]);
}

#[test]
fn hint_names_without_a_profile_are_passed_over() {
    let records = vec![record("A", "a", false), record("B", "b", false)];
    let hint = vec!["Ghost".to_string(), "B".to_string(), "B".to_string()];
    let resolved = resolve_profiles(&records, "/data", &hint).unwrap();
    assert_eq!(names(&resolved), vec!["B", "A"]);
}

#[test]
fn hint_reorders_defaults_too() {
    let records = vec![record("A", "a", true), record("B", "b", false), record("C", "c", true)];
    let hint = vec!["B".to_string()];
    let resolved = resolve_profiles(&records, "/data", &hint).unwrap();
    assert_eq!(names(&resolved), vec!["B", "A", "C"]);
}

#[test]
fn hint_takes_the_first_of_two_profiles_with_one_name() {
    let profiles = vec![profile("Same", "/1"), profile("Other", "/2"), profile("Same", "/3")];
    let ordered = order_by_hint(profiles, &vec!["Other".to_string(), "Same".to_string()]);
    assert_eq!(paths(&ordered), vec!["/2", "/1", "/3"]);
}

#[test]
fn position_named_finds_the_first_match() {
    let profiles = vec![profile("A", "/1"), profile("B", "/2"), profile("B", "/3")];
    assert_eq!(position_named(&profiles, "B"), Some(1));
    assert_eq!(position_named(&profiles, "Z"), None);
}

#[test]
fn absolute_record_path_replaces_the_data_folder() {
    let records = vec![record("A", "/elsewhere/a", false)];
    let resolved = resolve_profiles(&records, "/data", &Vec::new()).unwrap();
    assert_eq!(paths(&resolved), vec!["/elsewhere/a"]);
}
