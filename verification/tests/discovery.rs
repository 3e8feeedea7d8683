use clenzy::metadata::chromium::get_local_state;
use clenzy::profiles::discovery::{
    default_profile, get_profiles, mutation_allowed, needs_prompt, offer_profiles, or_default,
    select_profiles, try_to_get_profiles,
};
use clenzy::profiles::record::DiscoveryError;
use clenzy::profiles::validator::DirectoryProbe;

const LOCAL_STATE: &str = r#"{"profile": {
    "info_cache": {"P1": {"name": "Alice"}, "P2": {"name": "Bob"}},
    "profile_order": ["Bob", "Alice"],
    "last_active_profiles": ["Alice"]
}}"#;

#[test]
fn store_to_offer_end_to_end() {
    let state = get_local_state(LOCAL_STATE).unwrap();
    let candidates = try_to_get_profiles("/home/u/.config/Brave", &state).unwrap();
    let names: Vec<&str> = candidates.profiles.iter().map(|p| p.name.as_str()).collect();
    assert_eq!(names, vec!["Bob", "Alice"]);
    assert_eq!(candidates.profiles[0].path, "/home/u/.config/Brave/P2");
    assert_eq!(candidates.profiles[1].path, "/home/u/.config/Brave/P1");
    let probes = vec![DirectoryProbe::Listed(12), DirectoryProbe::Listed(40)];
    let discovery = offer_profiles(candidates, &probes).unwrap();
    let names: Vec<&str> = discovery.profiles.iter().map(|p| p.name.as_str()).collect();
    assert_eq!(names, vec!["Bob", "Alice"]);
    assert_eq!(discovery.preselected, vec![1]);
}

#[test]
fn store_without_profiles_is_no_profiles_found() {
    let state = get_local_state(r#"{"profile": {"info_cache": {}}}"#).unwrap();
    assert_eq!(
        try_to_get_profiles("/data", &state).err(),
        Some(DiscoveryError::NoProfilesFound)
    );
}

#[test]
fn store_without_cache_is_missing_key() {
    let state = get_local_state(r#"{"profile": {}}"#).unwrap();
    assert_eq!(try_to_get_profiles("/data", &state).err(), Some(DiscoveryError::MissingKey));
}

#[test]
fn gecko_store_resolves_defaults_first() {
    let text = "[Profile0]\nName=work\nPath=Profiles/w\n\n[Profile1]\nName=home\nPath=Profiles/h\nDefault=1\n";
    let candidates = get_profiles("/home/u/.mozilla/firefox", text).unwrap();
    let found: Vec<(&str, &str)> =
        candidates.profiles.iter().map(|p| (p.name.as_str(), p.path.as_str())).collect();
    assert_eq!(
        found,
        vec![
            ("home", "/home/u/.mozilla/firefox/Profiles/h"),
            ("work", "/home/u/.mozilla/firefox/Profiles/w"),
        ]
    );
    assert!(candidates.active_hint.is_empty());
}

#[test]
fn gecko_store_errors() {
    assert_eq!(get_profiles("/d", "[oops").err(), Some(DiscoveryError::Parse));
    assert_eq!(
        get_profiles("/d", "[General]\nVersion=2\n").err(),
        Some(DiscoveryError::NoProfilesFound)
    );
}

#[test]
fn nothing_usable_is_no_profiles_found() {
    let state = get_local_state(LOCAL_STATE).unwrap();
    let candidates = try_to_get_profiles("/d", &state).unwrap();
    let probes = vec![DirectoryProbe::Listed(1), DirectoryProbe::Missing];
    assert_eq!(offer_profiles(candidates, &probes).err(), Some(DiscoveryError::NoProfilesFound));
}

#[test]
fn offer_ticks_all_when_the_active_profile_is_unusable() {
    let state = get_local_state(LOCAL_STATE).unwrap();
    let candidates = try_to_get_profiles("/d", &state).unwrap();
    let probes = vec![DirectoryProbe::Listed(8), DirectoryProbe::Unreadable];
    let discovery = offer_profiles(candidates, &probes).unwrap();
    assert_eq!(discovery.profiles.len(), 1);
    assert_eq!(discovery.profiles[0].name, "Bob");
    assert_eq!(discovery.preselected, vec![0]);
}

#[test]
fn failure_falls_back_to_the_default_profile() {
    for error in [DiscoveryError::Parse, DiscoveryError::MissingKey, DiscoveryError::NoProfilesFound] {
        let discovery = or_default(Err(error), "/data/Brave");
        assert_eq!(discovery.profiles.len(), 1);
        assert_eq!(discovery.profiles[0].name, "Default");
        assert_eq!(discovery.profiles[0].path, "/data/Brave/Default");
        assert_eq!(discovery.preselected, vec![0]);
    }
}

#[test]
fn success_is_passed_through() {
    let state = get_local_state(LOCAL_STATE).unwrap();
    let candidates = try_to_get_profiles("/d", &state).unwrap();
    let probes = vec![DirectoryProbe::Listed(8), DirectoryProbe::Listed(8)];
    let discovery = or_default(offer_profiles(candidates, &probes), "/d");
    assert_eq!(discovery.profiles.len(), 2);
    assert_eq!(discovery.preselected, vec![1]);
}

#[test]
fn default_profile_lies_in_the_data_folder() {
    let profile = default_profile("/x/");
    assert_eq!(profile.name, "Default");
    assert_eq!(profile.path, "/x/Default");
}

#[test]
fn prompt_is_needed_for_several_profiles_only() {
    assert!(!needs_prompt(true, 3));
    assert!(!needs_prompt(false, 1));
    assert!(needs_prompt(false, 2));
    assert!(needs_prompt(false, 0));
}

#[test]
fn selection_takes_the_chosen_profiles() {
    let state = get_local_state(LOCAL_STATE).unwrap();
    let profiles = try_to_get_profiles("/d", &state).unwrap().profiles;
    let chosen = select_profiles(profiles, false, &vec![1, 7]);
    assert_eq!(chosen.len(), 1);
    assert_eq!(chosen[0].name, "Alice");
}

#[test]
fn selection_may_be_empty() {
    let state = get_local_state(LOCAL_STATE).unwrap();
    let profiles = try_to_get_profiles("/d", &state).unwrap().profiles;
    assert!(select_profiles(profiles, false, &Vec::new()).is_empty());
}

#[test]
fn selection_is_everything_without_a_prompt() {
    let state = get_local_state(LOCAL_STATE).unwrap();
    let profiles = try_to_get_profiles("/d", &state).unwrap().profiles;
    let chosen = select_profiles(profiles, true, &Vec::new());
    assert_eq!(chosen.len(), 2);
    let single = select_profiles(vec![default_profile("/d")], false, &Vec::new());
    assert_eq!(single.len(), 1);
}

#[test]
fn failed_backup_forbids_the_change() {
    assert!(!mutation_allowed(true, false));
    assert!(mutation_allowed(true, true));
    assert!(mutation_allowed(false, false));
    assert!(mutation_allowed(false, true));
}
