use antispam::store::PhraseStore;

fn views(snap: &Vec<String>) -> Vec<&str> {
    snap.iter().map(|s| s.as_str()).collect()
}

#[test]
fn add_then_snapshot_contains() {
    let mut store = PhraseStore::new();
    assert!(store.add(String::from("abc")));
    let snap = store.snapshot();
    assert!(snap.iter().any(|p| p == "abc"));
}

#[test]
fn add_is_idempotent() {
    let mut store = PhraseStore::new();
    assert!(store.add(String::from("abc")));
    let before = store.snapshot();
    assert!(!store.add(String::from("abc")));
    let after = store.snapshot();
    assert_eq!(views(&before), views(&after));
    assert_eq!(store.len(), 1);
}

#[test]
fn remove_absent_leaves_store_unchanged() {
    let mut store = PhraseStore::new();
    store.add(String::from("abc"));
    store.add(String::from("defg"));
    let before = store.snapshot();
    assert!(!store.remove(&String::from("zzz")));
    let after = store.snapshot();
    assert_eq!(views(&before), views(&after));
}

#[test]
fn remove_present_phrase() {
    let mut store = PhraseStore::new();
    store.add(String::from("abc"));
    store.add(String::from("defg"));
    assert!(store.remove(&String::from("abc")));
    let snap = store.snapshot();
    assert_eq!(views(&snap), vec!["defg"]);
    assert!(!store.contains(&String::from("abc")));
}

#[test]
fn snapshot_is_point_in_time() {
    let mut store = PhraseStore::new();
    store.add(String::from("abc"));
    let snap = store.snapshot();
    store.add(String::from("defg"));
    assert_eq!(views(&snap), vec!["abc"]);
    assert_eq!(store.len(), 2);
}

#[test]
fn contains_reports_membership() {
    let mut store = PhraseStore::new();
    assert!(!store.contains(&String::from("abc")));
    store.add(String::from("abc"));
    assert!(store.contains(&String::from("abc")));
    assert!(!store.contains(&String::from("ab")));
}
