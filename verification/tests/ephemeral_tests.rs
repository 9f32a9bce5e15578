use antispam::ephemeral::{
    cleanup_after_send, EphemeralReply, SentReply, CLEANUP_DELAY_SECS,
};

#[test]
fn successful_send_schedules_cleanup_after_the_fixed_delay() {
    let sent = Some(SentReply { chat_id: 42, message_id: 7 });
    let c = cleanup_after_send(&sent, 1000).expect("a cleanup task is owed");
    assert_eq!(c.chat_id, 42);
    assert_eq!(c.message_id, 7);
    assert_eq!(c.due_at, 1000 + CLEANUP_DELAY_SECS);
}

#[test]
fn failed_send_schedules_nothing() {
    assert!(cleanup_after_send(&None, 1000).is_none());
}

#[test]
fn reply_is_visible_after_send_and_gone_after_cleanup_succeeds() {
    let sent = SentReply { chat_id: 42, message_id: 7 };
    let mut reply = EphemeralReply::after_send(&sent, 1000);
    assert!(!reply.deleted);
    assert_eq!(reply.cleanup.due_at, 1000 + CLEANUP_DELAY_SECS);
    reply.fire_cleanup(1000 + CLEANUP_DELAY_SECS, true);
    assert!(reply.deleted);
}

#[test]
fn failed_cleanup_leaves_the_reply_visible() {
    let sent = SentReply { chat_id: 42, message_id: 7 };
    let mut reply = EphemeralReply::after_send(&sent, 1000);
    reply.fire_cleanup(2000, false);
    assert!(!reply.deleted);
}
