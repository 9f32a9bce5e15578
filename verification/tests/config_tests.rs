use antispam::config::{initial_fragments, load_store, render_export_line, rewrite_env_lines};
use antispam::text::{dec_string, join_colon, split_colon, trim};

#[test]
fn fragments_come_from_the_colon_delimited_value() {
    let r = initial_fragments(Some(String::from("aaa:bb:cccc")));
    assert_eq!(r, vec!["aaa", "bb", "cccc"]);
}

#[test]
fn missing_value_yields_the_placeholder_singleton() {
    let r = initial_fragments(None);
    assert_eq!(r, vec!["placeholder"]);
}

#[test]
fn empty_value_yields_one_empty_fragment() {
    let r = initial_fragments(Some(String::from("")));
    assert_eq!(r, vec![""]);
}

#[test]
fn split_and_join_are_inverses() {
    let original = "aaa:bb::cccc d";
    let parts = split_colon(original);
    assert_eq!(parts, vec!["aaa", "bb", "", "cccc d"]);
    assert_eq!(join_colon(&parts), original);
}

#[test]
fn load_store_keeps_only_valid_trimmed_fragments() {
    let fragments: Vec<String> =
        vec!["aaa", " bb ", "cc", " valid phrase ", ""].iter().map(|s| String::from(*s)).collect();
    let store = load_store(&fragments);
    assert_eq!(store.len(), 2);
    assert!(store.contains(&String::from("aaa")));
    assert!(store.contains(&String::from("valid phrase")));
    assert!(!store.contains(&String::from("bb")));
}

#[test]
fn load_store_drops_duplicate_fragments() {
    let fragments: Vec<String> =
        vec!["aaa", "aaa ", " aaa"].iter().map(|s| String::from(*s)).collect();
    let store = load_store(&fragments);
    assert_eq!(store.len(), 1);
}

#[test]
fn rewrite_replaces_only_the_assignment_line() {
    let lines: Vec<String> = vec![
        "# settings",
        "export OTHER=\"1\"",
        "export SPAM_STR=\"old:stale\"",
        "echo done",
    ]
    .iter()
    .map(|s| String::from(*s))
    .collect();
    let out = rewrite_env_lines(&lines, "aaa:bb");
    assert_eq!(
        out,
        vec![
            "# settings",
            "export OTHER=\"1\"",
            "export SPAM_STR=\"aaa:bb\"",
            "echo done",
        ]
    );
}

#[test]
fn export_line_is_rendered_exactly() {
    assert_eq!(render_export_line("a:b"), "export SPAM_STR=\"a:b\"");
}

#[test]
fn trim_strips_unicode_whitespace() {
    assert_eq!(trim(" \t abc \u{a0}\n"), "abc");
    assert_eq!(trim("abc"), "abc");
    assert_eq!(trim("  \t "), "");
    assert_eq!(trim("a b"), "a b");
}

#[test]
fn decimal_rendering_is_exact() {
    assert_eq!(dec_string(0), "0");
    assert_eq!(dec_string(7), "7");
    assert_eq!(dec_string(10), "10");
    assert_eq!(dec_string(907), "907");
    assert_eq!(dec_string(1000), "1000");
}
