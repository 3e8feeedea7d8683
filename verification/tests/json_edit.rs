use clenzy::json::edit::{apply_edits, drop_listed, get_or_insert_obj, set_member, Edit};
use clenzy::json::tree::{parse_json, to_text, Json, JsonEntry};

fn path(names: &[&str]) -> Vec<String> {
    names.iter().map(|n| n.to_string()).collect()
}

fn text_after(document: &str, edits: Vec<Edit>) -> String {
    to_text(&apply_edits(parse_json(document).unwrap(), edits)).unwrap()
}

fn edit(names: &[&str], key: &str, value: Json) -> Edit {
    Edit { path: path(names), key: key.to_string(), value }
}

#[test]
fn text_is_written_with_sorted_keys() {
    let document = parse_json(r#"{"b": [1, "x", null], "a": {"z": true, "y": 2.5}}"#).unwrap();
    assert_eq!(to_text(&document).unwrap(), r#"{"a":{"y":2.5,"z":true},"b":[1,"x",null]}"#);
}

#[test]
fn value_is_set_at_the_top() {
    let out = text_after(r#"{"a": 1}"#, vec![edit(&[], "enable_do_not_track", Json::Bool(true))]);
    assert_eq!(out, r#"{"a":1,"enable_do_not_track":true}"#);
}

#[test]
fn value_replaces_what_was_there() {
    let out = text_after(r#"{"a": 1, "b": 2}"#, vec![edit(&[], "a", Json::text_of("new"))]);
    assert_eq!(out, r#"{"a":"new","b":2}"#);
}

#[test]
fn missing_objects_on_the_way_are_made() {
    let out = text_after(
        "{}",
        vec![edit(&["in_product_help", "new_badge", "ComposeNudge"], "show_count", Json::Null)],
    );
    assert_eq!(out, r#"{"in_product_help":{"new_badge":{"ComposeNudge":{"show_count":null}}}}"#);
}

#[test]
fn existing_objects_on_the_way_are_kept() {
    let out = text_after(
        r#"{"brave": {"tabs": {"x": 1}, "other": 2}}"#,
        vec![edit(&["brave", "tabs"], "vertical_tabs_enabled", Json::Bool(true))],
    );
    assert_eq!(out, r#"{"brave":{"other":2,"tabs":{"vertical_tabs_enabled":true,"x":1}}}"#);
}

#[test]
fn way_through_something_else_changes_nothing() {
    let before = r#"{"brave":{"tabs":7}}"#;
    assert_eq!(text_after(before, vec![edit(&["brave", "tabs"], "k", Json::Null)]), before);
    assert_eq!(text_after(before, vec![edit(&["brave", "tabs", "deep"], "k", Json::Null)]), before);
    assert_eq!(text_after("[1]", vec![edit(&[], "k", Json::Null)]), "[1]");
}

#[test]
fn edits_are_made_in_their_order() {
    let out = text_after(
        "{}",
        vec![
            edit(&["a"], "k", Json::Bool(false)),
            edit(&["a"], "k", Json::Bool(true)),
            edit(&["a"], "l", Json::object()),
        ],
    );
    assert_eq!(out, r#"{"a":{"k":true,"l":{}}}"#);
}

#[test]
fn get_or_insert_makes_an_empty_object() {
    let (entries, found) = get_or_insert_obj(Vec::new(), "bookmark_bar");
    assert_eq!(found, Some(0));
    assert_eq!(to_text(&Json::Object(entries)).unwrap(), r#"{"bookmark_bar":{}}"#);
}

#[test]
fn get_or_insert_finds_the_object_that_is_there() {
    let entries = vec![
        JsonEntry { key: "a".to_string(), value: Json::Null },
        JsonEntry { key: "b".to_string(), value: Json::object() },
    ];
    let (entries, found) = get_or_insert_obj(entries, "b");
    assert_eq!(found, Some(1));
    assert_eq!(entries.len(), 2);
}

#[test]
fn get_or_insert_leaves_what_is_no_object() {
    let entries = vec![JsonEntry { key: "a".to_string(), value: Json::Bool(true) }];
    let (entries, found) = get_or_insert_obj(entries, "a");
    assert_eq!(found, None);
    assert_eq!(to_text(&Json::Object(entries)).unwrap(), r#"{"a":true}"#);
}

#[test]
fn later_member_counts_for_its_key() {
    let entries = set_member(Vec::new(), "k", Json::Bool(false));
    let entries = set_member(entries, "k", Json::Bool(true));
    let document = Json::Object(entries);
    assert!(matches!(document.member("k"), Some(Json::Bool(true))));
    assert_eq!(to_text(&document).unwrap(), r#"{"k":true}"#);
}

#[test]
fn listed_strings_are_dropped_from_a_list() {
    let items = match parse_json(r#"["keep", "drop", 3, "also-drop", ["drop"]]"#).unwrap() {
        Json::Array(items) => items,
        _ => unreachable!(),
    };
    let kept = drop_listed(items, &path(&["drop", "also-drop"]));
    assert_eq!(to_text(&Json::Array(kept)).unwrap(), r#"["keep",3,["drop"]]"#);
}
