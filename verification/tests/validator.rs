use clenzy::browser_profile::BrowserProfile;
use clenzy::profiles::validator::{
    retain_valid, validate_profile_dir, DirectoryProbe, MIN_PROFILE_ENTRIES,
};

fn profile(name: &str) -> BrowserProfile {
    BrowserProfile::new(name.to_string(), format!("/data/{name}"))
}

#[test]
fn threshold_is_four_entries() {
    assert_eq!(MIN_PROFILE_ENTRIES, 4);
}

#[test]
fn directory_with_no_or_one_entry_is_left_out() {
    assert!(!validate_profile_dir(DirectoryProbe::Listed(0)));
    assert!(!validate_profile_dir(DirectoryProbe::Listed(1)));
}

#[test]
fn directory_below_the_threshold_is_left_out() {
    assert!(!validate_profile_dir(DirectoryProbe::Listed(3)));
}

#[test]
fn directory_at_the_threshold_is_kept() {
    assert!(validate_profile_dir(DirectoryProbe::Listed(4)));
    assert!(validate_profile_dir(DirectoryProbe::Listed(5000)));
}

#[test]
fn missing_or_unreadable_directory_is_left_out() {
    assert!(!validate_profile_dir(DirectoryProbe::Missing));
    assert!(!validate_profile_dir(DirectoryProbe::Unreadable));
}

#[test]
fn retain_valid_keeps_the_usable_in_order() {
    let profiles = vec![profile("A"), profile("B"), profile("C"), profile("D")];
    let probes = vec![
        DirectoryProbe::Listed(10),
        DirectoryProbe::Missing,
        DirectoryProbe::Listed(4),
        DirectoryProbe::Listed(1),
    ];
    let kept = retain_valid(profiles, &probes);
    let names: Vec<&str> = kept.iter().map(|p| p.name.as_str()).collect();
    assert_eq!(names, vec!["A", "C"]);
}

#[test]
fn profile_without_a_probe_is_left_out() {
    let profiles = vec![profile("A"), profile("B")];
    let kept = retain_valid(profiles, &vec![DirectoryProbe::Listed(9)]);
    assert_eq!(kept.len(), 1);
    assert_eq!(kept[0].name, "A");
}

#[test]
fn nothing_usable_leaves_nothing() {
    let kept = retain_valid(vec![profile("A")], &vec![DirectoryProbe::Unreadable]);
    assert!(kept.is_empty());
}
