use antispam::classify::is_flagged;

fn snapshot(items: &[&str]) -> Vec<String> {
    items.iter().map(|s| String::from(*s)).collect()
}

#[test]
fn flagged_when_phrase_is_substring() {
    let snap = snapshot(&["spam"]);
    assert!(is_flagged("buy spam now", &snap));
    assert!(is_flagged("spam", &snap));
    assert!(is_flagged("spamspam", &snap));
    assert!(is_flagged("endspam", &snap));
}

#[test]
fn not_flagged_without_substring() {
    let snap = snapshot(&["spam"]);
    assert!(!is_flagged("wholesome text", &snap));
    assert!(!is_flagged("spa m", &snap));
    assert!(!is_flagged("spm", &snap));
}

#[test]
fn matching_is_case_sensitive() {
    let snap = snapshot(&["spam"]);
    assert!(!is_flagged("Spam and SPAM", &snap));
}

#[test]
fn empty_text_is_never_flagged() {
    assert!(!is_flagged("", &snapshot(&["abc", "defg"])));
}

#[test]
fn empty_snapshot_flags_nothing() {
    assert!(!is_flagged("anything at all", &snapshot(&[])));
}

#[test]
fn any_phrase_of_the_snapshot_counts() {
    let snap = snapshot(&["abc", "defg", "hij"]);
    assert!(is_flagged("xx hij yy", &snap));
    assert!(is_flagged("defg", &snap));
    assert!(!is_flagged("ab de hi", &snap));
}

#[test]
fn non_ascii_phrases_match_exactly() {
    let snap = snapshot(&["привет"]);
    assert!(is_flagged("скажи привет миру", &snap));
    assert!(!is_flagged("привЕт", &snap));
}
