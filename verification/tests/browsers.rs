use clenzy::args::Args;
use clenzy::brave::features::{
    disable_features, enable_features, feature_list, is_removed_feature, keeps_lab_feature,
};
use clenzy::firefox::policies::{policies_wanted, should_write_policies};
use clenzy::firefox::user_js::{
    configure_user_js, find_last_heading, is_heading_line, should_write_user_js, UserJsError,
};
use clenzy::overwrite::Overwrite;
use clenzy::processes::{get_matching_running_processes, matches_lowered};

fn list(items: &[&str]) -> Vec<String> {
    items.iter().map(|i| i.to_string()).collect()
}

#[test]
fn feature_list_adds_prefetch_features_when_suggestions_are_off() {
    assert_eq!(feature_list("A\n\nB\n", "P\n", true), vec!["A", "B"]);
    assert_eq!(feature_list("A\n\nB\n", "P\n", false), vec!["A", "B", "P"]);
}

#[test]
fn wanted_features_are_added_once() {
    assert_eq!(disable_features("X,Y", &list(&["Y", "Z", "Z"])), "X,Y,Z");
    assert_eq!(disable_features("", &list(&["A"])), ",A");
    assert_eq!(disable_features("A", &Vec::new()), "A");
}

#[test]
fn feature_in_braves_spelling_counts_as_there() {
    assert_eq!(disable_features("Foo\\u003CBar", &list(&["Foo>Bar", "Baz"])), "Foo\\u003CBar,Baz");
}

#[test]
fn removed_features_are_taken_out() {
    assert_eq!(enable_features("A,B,C", &list(&["B"])), "A,C");
    assert_eq!(enable_features("A>x,B", &list(&["A>x"])), "B");
    assert_eq!(enable_features("A\\u003Cx,B", &list(&["A>x"])), "B");
    assert_eq!(enable_features("A,B", &list(&["C"])), "A,B");
    assert_eq!(enable_features("A", &list(&["A"])), "");
}

#[test]
fn removed_feature_matches_in_either_spelling() {
    assert!(is_removed_feature("A>x", &list(&["A>x"])));
    assert!(is_removed_feature("A\\u003Cx", &list(&["A>x"])));
    assert!(!is_removed_feature("A", &list(&["A>x"])));
}

#[test]
fn lab_feature_stays_unless_listed() {
    assert!(keeps_lab_feature("x@1", &list(&["y@2"])));
    assert!(!keeps_lab_feature("y@2", &list(&["y@2"])));
}

const USER_JS: &str = "// top\n/****\n * START: MY OVERRIDES\n ****/\n// a\n// b\n// c\n// d\n\n/** end */\nlast";

#[test]
fn heading_line_may_be_indented() {
    assert!(is_heading_line(" * START: MY OVERRIDES"));
    assert!(is_heading_line("\t \u{a0}* START: MY OVERRIDE"));
    assert!(is_heading_line("* START: MY OVERRIDES  "));
    assert!(!is_heading_line("// * START: MY OVERRIDES"));
    assert!(!is_heading_line("* START: MY"));
    assert!(!is_heading_line(""));
}

#[test]
fn last_heading_is_found() {
    let lines: Vec<String> = USER_JS.lines().map(|l| l.to_string()).collect();
    assert_eq!(find_last_heading(&lines), Some(2));
    let twice = list(&["* START: MY OVERRIDE", "x", "  * START: MY OVERRIDE 2", "y"]);
    assert_eq!(find_last_heading(&twice), Some(2));
    assert_eq!(find_last_heading(&list(&["a", "b"])), None);
}

#[test]
fn settings_go_six_lines_below_the_heading() {
    let out = configure_user_js(USER_JS, "user_pref(\"x\", 1);").unwrap();
    assert_eq!(
        out,
        "// top\n/****\n * START: MY OVERRIDES\n ****/\n// a\n// b\n// c\n// d\nuser_pref(\"x\", 1);\n\n/** end */\nlast"
    );
}

#[test]
fn without_settings_the_lines_stay() {
    assert_eq!(configure_user_js("a\r\n * START: MY OVERRIDE\r\n", "").unwrap(), "a\n * START: MY OVERRIDE");
}

#[test]
fn user_js_without_heading_is_refused() {
    assert_eq!(configure_user_js("user_pref(1);\n", "x").err(), Some(UserJsError::NoHeading));
    assert_eq!(configure_user_js("", "").err(), Some(UserJsError::NoHeading));
}

#[test]
fn user_js_that_ends_too_early_is_refused() {
    assert_eq!(
        configure_user_js("* START: MY OVERRIDE\n1\n2\n3\n4", "x").err(),
        Some(UserJsError::TooShort)
    );
    assert_eq!(
        configure_user_js("* START: MY OVERRIDE\n1\n2\n3\n4\n5", "x").unwrap(),
        "* START: MY OVERRIDE\n1\n2\n3\n4\n5\nx"
    );
}

#[test]
fn user_js_overwrite_choice() {
    assert_eq!(should_write_user_js(false, false, "", "new"), Overwrite::Write);
    assert_eq!(should_write_user_js(true, true, "old", "new"), Overwrite::Write);
    assert_eq!(should_write_user_js(true, false, "same", "same"), Overwrite::Keep);
    assert_eq!(should_write_user_js(true, false, "", "new"), Overwrite::Write);
    assert_eq!(should_write_user_js(true, false, "old", "new"), Overwrite::Ask);
}

#[test]
fn policies_overwrite_choice() {
    assert_eq!(should_write_policies(false, false, "", "p"), Overwrite::Write);
    assert_eq!(should_write_policies(true, true, "old", "p"), Overwrite::Write);
    assert_eq!(should_write_policies(true, false, "p", "p"), Overwrite::Keep);
    assert_eq!(should_write_policies(true, false, "old", ""), Overwrite::Write);
    assert_eq!(should_write_policies(true, false, "old", "p"), Overwrite::Ask);
}

#[test]
fn policies_are_wanted_when_asked_for() {
    let mut args = Args::default();
    assert!(!policies_wanted(&args));
    args.policies = true;
    assert!(policies_wanted(&args));
    args.policies = false;
    args.windows_brave_policies = true;
    assert!(policies_wanted(&args));
}

#[test]
fn running_instances_are_matched_whatever_the_case() {
    let running = list(&["systemd", "Firefox", "firefox-bin", "Firefox", "bash", "FIREFOX.exe"]);
    assert_eq!(
        get_matching_running_processes(&running, "Firefox"),
        "Firefox, firefox-bin, FIREFOX.exe"
    );
    assert_eq!(get_matching_running_processes(&running, "Brave"), "");
    assert_eq!(get_matching_running_processes(&Vec::new(), "Zen"), "");
}

#[test]
fn lowered_names_match_by_occurrence() {
    assert!(matches_lowered("firefox-bin", "firefox"));
    assert!(!matches_lowered("fire", "firefox"));
}
