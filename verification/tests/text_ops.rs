use useless_bot::string_map::StringMap;
use useless_bot::text::{contains, decimal_string, replace, replace_prefix, split, str_eq, trim};

#[test]
fn trim_removes_unicode_whitespace_at_both_ends() {
    assert_eq!(trim("  \t hello world \n"), "hello world");
    assert_eq!(trim("\u{3000}x\u{a0}"), "x");
    assert_eq!(trim("   "), "");
    assert_eq!(trim(""), "");
    assert_eq!(trim("a b"), "a b");
}

#[test]
fn replace_replaces_every_occurrence_left_to_right() {
    assert_eq!(replace("curl-8-11", "-", "/"), "curl/8/11");
    assert_eq!(replace("aaa", "aa", "b"), "ba");
    assert_eq!(replace("nothing here", "xyz", "q"), "nothing here");
    assert_eq!(replace("", "a", "b"), "");
}

#[test]
fn split_yields_the_pieces_between_separators() {
    assert_eq!(split("a,b,,c", ","), vec!["a", "b", "", "c"]);
    assert_eq!(split("", ","), vec![""]);
    assert_eq!(split("a--b", "--"), vec!["a", "b"]);
    assert_eq!(split("rust", ""), vec!["", "r", "u", "s", "t", ""]);
    assert_eq!(split("", ""), vec!["", ""]);
    assert_eq!(split("line1\nline2\n", "\n"), vec!["line1", "line2", ""]);
}

#[test]
fn contains_finds_substrings() {
    assert!(contains("hello world", "lo w"));
    assert!(contains("abc", ""));
    assert!(!contains("abc", "abcd"));
    assert!(!contains("abc", "ac"));
}

#[test]
fn decimal_string_renders_numbers() {
    assert_eq!(decimal_string(0), "0");
    assert_eq!(decimal_string(10), "10");
    assert_eq!(decimal_string(255), "255");
    assert_eq!(decimal_string(u64::MAX), "18446744073709551615");
}

#[test]
fn str_eq_compares_text() {
    assert!(str_eq("true", "true"));
    assert!(!str_eq("true", "True"));
}

#[test]
fn string_map_reads_back_what_was_written() {
    let mut m: StringMap<String> = StringMap::new();
    assert!(m.get("k").is_none());
    m.insert("k".to_string(), "v1".to_string());
    assert_eq!(m.get("k"), Some(&"v1".to_string()));
    m.insert("k".to_string(), "v2".to_string());
    assert_eq!(m.get("k"), Some(&"v2".to_string()));
    assert_eq!(m.keys(), vec!["k".to_string()]);
    assert!(m.contains_key("k"));
    assert!(!m.contains_key("other"));
}

#[test]
fn string_map_extend_prefers_the_new_values() {
    let mut a: StringMap<String> = StringMap::new();
    a.insert("x".to_string(), "1".to_string());
    a.insert("y".to_string(), "2".to_string());
    let mut b: StringMap<String> = StringMap::new();
    b.insert("y".to_string(), "3".to_string());
    b.insert("z".to_string(), "4".to_string());
    a.extend(b);
    assert_eq!(a.get("x"), Some(&"1".to_string()));
    assert_eq!(a.get("y"), Some(&"3".to_string()));
    assert_eq!(a.get("z"), Some(&"4".to_string()));
    let mut keys = a.keys();
    keys.sort();
    assert_eq!(keys, vec!["x", "y", "z"]);
}

#[test]
fn replace_prefix_replaces_only_a_leading_occurrence() {
    assert_eq!(replace_prefix("abcab", "ab", "X"), "Xcab");
    assert_eq!(replace_prefix("cab", "ab", "X"), "cab");
    assert_eq!(replace_prefix("ab", "abc", "X"), "ab");
    assert_eq!(replace_prefix("abc", "", "X"), "Xabc");
}
