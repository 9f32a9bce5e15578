use antispam::moderation::{moderation_plan, IncomingMessage};

fn snapshot(items: &[&str]) -> Vec<String> {
    items.iter().map(|s| String::from(*s)).collect()
}

fn message(author: Option<u64>, text: Option<&str>) -> IncomingMessage {
    IncomingMessage {
        message_id: 7,
        chat_id: 42,
        author,
        text: text.map(String::from),
        edited: false,
    }
}

#[test]
fn flagged_message_with_author_is_deleted_and_author_kicked() {
    let snap = snapshot(&["spam"]);
    let plan = moderation_plan(&message(Some(99), Some("hot spam offer")), &snap);
    assert!(plan.delete_message);
    assert_eq!(plan.kick_author, Some(99));
}

#[test]
fn flagged_message_without_author_is_deleted_only() {
    let snap = snapshot(&["spam"]);
    let plan = moderation_plan(&message(None, Some("hot spam offer")), &snap);
    assert!(plan.delete_message);
    assert_eq!(plan.kick_author, None);
}

#[test]
fn clean_message_is_left_alone() {
    let snap = snapshot(&["spam"]);
    let plan = moderation_plan(&message(Some(99), Some("a friendly hello")), &snap);
    assert!(!plan.delete_message);
    assert_eq!(plan.kick_author, None);
}

#[test]
fn non_text_message_is_never_classified() {
    let snap = snapshot(&["spam"]);
    let plan = moderation_plan(&message(Some(99), None), &snap);
    assert!(!plan.delete_message);
    assert_eq!(plan.kick_author, None);
}
