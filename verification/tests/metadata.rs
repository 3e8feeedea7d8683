use clenzy::json::tree::{parse_json, Json};
use clenzy::metadata::chromium::{get_local_state, read_chromium_metadata};
use clenzy::metadata::gecko::{parse_u8, read_gecko_metadata};
use clenzy::metadata::ini::parse_ini;
use clenzy::profiles::record::DiscoveryError;

const LOCAL_STATE: &str = r#"{
  "profile": {
    "info_cache": {"Default": {"name": "Alice"}, "Profile 1": {"name": "Bob"}},
    "profile_order": ["Bob", "Alice"],
    "last_active_profiles": ["Alice"]
  }
}"#;

#[test]
fn local_state_must_be_json() {
    assert_eq!(get_local_state("{ not json").err(), Some(DiscoveryError::Parse));
    assert_eq!(get_local_state("").err(), Some(DiscoveryError::Parse));
}

#[test]
fn local_state_must_be_an_object() {
    assert_eq!(get_local_state("[1, 2]").err(), Some(DiscoveryError::Parse));
    assert_eq!(get_local_state("\"text\"").err(), Some(DiscoveryError::Parse));
    assert!(get_local_state("{}").is_ok());
}

#[test]
fn chromium_store_gives_records_and_hints() {
    let state = get_local_state(LOCAL_STATE).unwrap();
    let metadata = read_chromium_metadata(&state).unwrap();
    let records: Vec<(&str, &str, bool)> = metadata
        .records
        .iter()
        .map(|r| (r.name.as_str(), r.relative_path.as_str(), r.is_default))
        .collect();
    assert_eq!(records, vec![("Alice", "Default", false), ("Bob", "Profile 1", false)]);
    assert_eq!(metadata.order_hint, vec!["Bob", "Alice"]);
    assert_eq!(metadata.active_hint, vec!["Alice"]);
}

#[test]
fn chromium_store_without_profile_lacks_a_key() {
    let state = get_local_state(r#"{"browser": {}}"#).unwrap();
    assert_eq!(read_chromium_metadata(&state).err(), Some(DiscoveryError::MissingKey));
}

#[test]
fn chromium_store_without_cache_lacks_a_key() {
    let state = get_local_state(r#"{"profile": {"profile_order": []}}"#).unwrap();
    assert_eq!(read_chromium_metadata(&state).err(), Some(DiscoveryError::MissingKey));
    let state = get_local_state(r#"{"profile": {"info_cache": 3}}"#).unwrap();
    assert_eq!(read_chromium_metadata(&state).err(), Some(DiscoveryError::MissingKey));
}

#[test]
fn chromium_entries_that_are_no_profile_are_passed_over() {
    let text = r#"{"profile": {"info_cache": {
        "A": {"name": "Anna"}, "B": 7, "C": {"title": "x"}, "D": {"name": 5}, "E": {"name": "Eve"}
    }, "profile_order": ["Eve", 3, null], "last_active_profiles": "Eve"}}"#;
    let state = get_local_state(text).unwrap();
    let metadata = read_chromium_metadata(&state).unwrap();
    let names: Vec<&str> = metadata.records.iter().map(|r| r.name.as_str()).collect();
    assert_eq!(names, vec!["Anna", "Eve"]);
    assert_eq!(metadata.order_hint, vec!["Eve"]);
    assert!(metadata.active_hint.is_empty());
}

#[test]
fn parse_json_reads_the_tree() {
    let document = parse_json(r#"{"a": [true, null, "x"]}"#).unwrap();
    let items = document.member("a").unwrap().items().unwrap();
    assert_eq!(items.len(), 3);
    assert!(matches!(items[0], Json::Bool(true)));
    assert!(matches!(items[1], Json::Null));
    assert_eq!(items[2].text().map(|s| s.as_str()), Some("x"));
    assert!(document.member("b").is_none());
    assert!(parse_json("nope").is_none());
}

const PROFILES_INI: &str = "[Install4F96D1932A9F858E]\nDefault=Profiles/abc.default-release\nLocked=1\n\n[Profile1]\nName=default\nIsRelative=1\nPath=Profiles/xyz.default\nDefault=1\n\n[Profile0]\nName=default-release\nIsRelative=1\nPath=Profiles/abc.default-release\n\n[General]\nStartWithLastProfile=1\nVersion=2\n";

#[test]
fn gecko_store_gives_a_record_per_profile_section() {
    let metadata = read_gecko_metadata(PROFILES_INI).unwrap();
    let records: Vec<(&str, &str, bool)> = metadata
        .records
        .iter()
        .map(|r| (r.name.as_str(), r.relative_path.as_str(), r.is_default))
        .collect();
    assert_eq!(
        records,
        vec![
            ("default", "Profiles/xyz.default", true),
            ("default-release", "Profiles/abc.default-release", false),
        ]
    );
    assert!(metadata.order_hint.is_empty());
    assert!(metadata.active_hint.is_empty());
}

#[test]
fn gecko_store_that_is_no_ini_is_a_parse_error() {
    assert_eq!(read_gecko_metadata("[broken\nName=x").err(), Some(DiscoveryError::Parse));
}

#[test]
fn parse_ini_keeps_sections_and_lines_in_order() {
    let sections = parse_ini("top=1\n[b]\nk=v\nk=w\n[a]\nx=y\n").unwrap();
    let names: Vec<Option<&str>> = sections.iter().map(|s| s.name.as_deref()).collect();
    assert_eq!(names, vec![None, Some("b"), Some("a")]);
    let lines: Vec<(&str, &str)> =
        sections[1].properties.iter().map(|p| (p.key.as_str(), p.value.as_str())).collect();
    assert_eq!(lines, vec![("k", "v"), ("k", "w")]);
}

#[test]
fn default_mark_is_the_number_one() {
    assert_eq!(parse_u8("1"), Some(1));
    assert_eq!(parse_u8("+1"), Some(1));
    assert_eq!(parse_u8("001"), Some(1));
    assert_eq!(parse_u8("0"), Some(0));
    assert_eq!(parse_u8("255"), Some(255));
    assert_eq!(parse_u8("256"), None);
    assert_eq!(parse_u8("1000"), None);
    assert_eq!(parse_u8(""), None);
    assert_eq!(parse_u8("+"), None);
    assert_eq!(parse_u8("-1"), None);
    assert_eq!(parse_u8(" 1"), None);
    assert_eq!(parse_u8("1a"), None);
}

#[test]
fn parse_u8_agrees_with_std() {
    for text in ["7", "+7", "07", "99", "+255", "300", "++1", "1+", "٣", "1 ", "two"] {
        assert_eq!(parse_u8(text), text.parse::<u8>().ok(), "{text}");
    }
}
