use clenzy::paths::join_path;
use clenzy::text::{
    chars_of, append, contains, is_listed, join_with, lines, non_empty_lines, split_on,
    starts_with, str_eq, string_of,
};

fn list(items: &[&str]) -> Vec<String> {
    items.iter().map(|i| i.to_string()).collect()
}

#[test]
fn contains_finds_a_run_of_characters() {
    assert!(contains("hello world", "lo w"));
    assert!(contains("hello", "hello"));
    assert!(contains("hello", ""));
    assert!(contains("", ""));
    assert!(!contains("hello", "world"));
    assert!(!contains("hi", "hip"));
    assert!(contains("naïve café", "é"));
    assert!(!contains("aab", "abb"));
    assert!(contains("aaab", "aab"));
}

#[test]
fn starts_with_looks_at_the_beginning() {
    assert!(starts_with("* START: MY OVERRIDES", "* START"));
    assert!(starts_with("abc", ""));
    assert!(!starts_with("abc", "bc"));
    assert!(!starts_with("ab", "abc"));
}

#[test]
fn strings_are_equal_by_their_characters() {
    assert!(str_eq("abc", "abc"));
    assert!(!str_eq("abc", "abd"));
    assert!(!str_eq("abc", "ab"));
    assert!(str_eq("", ""));
}

#[test]
fn characters_and_back() {
    assert_eq!(chars_of("añb"), vec!['a', 'ñ', 'b']);
    assert_eq!(string_of(&vec!['x', 'ÿ', 'z']), "xÿz");
    assert_eq!(string_of(&Vec::new()), "");
}

#[test]
fn append_puts_one_after_the_other() {
    assert_eq!(append("ab", "cd"), "abcd");
    assert_eq!(append("", "cd"), "cd");
}

#[test]
fn lines_are_split_as_std_splits_them() {
    for text in ["", "a", "a\n", "a\nb", "a\r\nb\r\n", "\n", "\n\n", "a\rb\n", "a\r", "\r\n", "x\n\ny\n"] {
        let expected: Vec<String> = text.lines().map(|l| l.to_string()).collect();
        assert_eq!(lines(text), expected, "{text:?}");
    }
}

#[test]
fn lines_exact() {
    assert_eq!(lines("one\r\ntwo\n\nfour"), vec!["one", "two", "", "four"]);
}

#[test]
fn empty_lines_are_dropped() {
    assert_eq!(non_empty_lines("a\n\nb\r\n\r\nc"), vec!["a", "b", "c"]);
}

#[test]
fn split_is_as_std_splits() {
    for text in ["", "a", "a,b", "a,", ",a", ",", "a,,b", "x,y,z"] {
        let expected: Vec<String> = text.split(',').map(|l| l.to_string()).collect();
        assert_eq!(split_on(text, ','), expected, "{text:?}");
    }
}

#[test]
fn join_puts_the_separator_between() {
    assert_eq!(join_with(&list(&["a", "b", "c"]), ", "), "a, b, c");
    assert_eq!(join_with(&list(&["a"]), ", "), "a");
    assert_eq!(join_with(&list(&["", ""]), ","), ",");
    assert_eq!(join_with(&Vec::new(), ", "), "");
}

#[test]
fn listed_items_are_found() {
    assert!(is_listed(&list(&["a", "b"]), "b"));
    assert!(!is_listed(&list(&["a", "b"]), "c"));
    assert!(!is_listed(&Vec::new(), ""));
}

#[test]
fn join_path_puts_a_separator_where_needed() {
    assert_eq!(join_path("/a", "b"), "/a/b");
    assert_eq!(join_path("/a/", "b"), "/a/b");
    assert_eq!(join_path("", "b"), "b");
    assert_eq!(join_path("/a", "/b"), "/b");
    assert_eq!(join_path("/a", ""), "/a/");
    assert_eq!(join_path("/a", "b/c"), "/a/b/c");
}

#[test]
fn join_path_agrees_with_std_on_unix_paths() {
    for (base, part) in [("/a", "b"), ("/a/", "b"), ("", "b"), ("/a", "/b"), ("a", "b/c"), ("/", "x")] {
        let expected = std::path::Path::new(base).join(part);
        assert_eq!(join_path(base, part), expected.to_str().unwrap(), "{base:?} {part:?}");
    }
}
