//! The ephemeral reply mechanism's verified core. The mechanism first
//! deletes the operator's command message (best effort), then sends the
//! response, and only a successfully sent reply earns a cleanup task:
//! an asynchronous deletion due a fixed delay after the send, detached
//! from the command-processing path so that it never blocks the caller.
use vstd::prelude::*;

verus! {

/// The fixed visibility window of a command response, in seconds.
pub const CLEANUP_DELAY_SECS: u64 = 30;

/// A message the transport accepted: enough to delete it later.
pub struct SentReply {
    /// The chat the reply was sent to.
    pub chat_id: i64,
    /// The identifier the transport assigned to the reply.
    pub message_id: i64,
}

/// A pending self-cleaning task: which message to delete, and when it
/// falls due. Not persisted: a process restart loses it, and at worst a
/// stray reply stays visible.
pub struct PendingCleanup {
    /// The chat holding the message to delete.
    pub chat_id: i64,
    /// The message to delete.
    pub message_id: i64,
    /// The moment the deletion falls due, in seconds.
    pub due_at: u64,
}

/// Decide the cleanup task after the send step: a successfully sent
/// reply schedules its own deletion exactly one delay later; a failed
/// send schedules nothing.
pub fn cleanup_after_send(sent: &Option<SentReply>, now: u64) -> (r: Option<PendingCleanup>)
    requires
        now + CLEANUP_DELAY_SECS <= u64::MAX,
    ensures
        *sent matches Some(m) ==> (r matches Some(c) && c.chat_id == m.chat_id
            && c.message_id == m.message_id && c.due_at == now + CLEANUP_DELAY_SECS),
        *sent is None ==> r is None,
{
    match sent {
        Option::Some(m) => Option::Some(
            PendingCleanup {
                chat_id: m.chat_id,
                message_id: m.message_id,
                due_at: now + CLEANUP_DELAY_SECS,
            },
        ),
        Option::None => Option::None,
    }
}

/// The bot-visible lifecycle of one ephemeral reply: retrievable from
/// the moment it was sent until its scheduled deletion succeeds, and
/// not retrievable afterwards.
pub struct EphemeralReply {
    /// The scheduled deletion of this reply.
    pub cleanup: PendingCleanup,
    /// Whether the scheduled deletion has succeeded.
    pub deleted: bool,
}

impl EphemeralReply {
    /// The reply is still retrievable.
    pub open spec fn visible(&self) -> bool {
        !self.deleted
    }

    /// The state immediately after a successful send at `now`: the reply
    /// is visible, and its deletion falls due one delay later.
    pub fn after_send(sent: &SentReply, now: u64) -> (r: EphemeralReply)
        requires
            now + CLEANUP_DELAY_SECS <= u64::MAX,
        ensures
            r.visible(),
            r.cleanup.chat_id == sent.chat_id,
            r.cleanup.message_id == sent.message_id,
            r.cleanup.due_at == now + CLEANUP_DELAY_SECS,
    {
        EphemeralReply {
            cleanup: PendingCleanup {
                chat_id: sent.chat_id,
                message_id: sent.message_id,
                due_at: now + CLEANUP_DELAY_SECS,
            },
            deleted: false,
        }
    }

    /// Fire the scheduled deletion. It can fire only once its due time
    /// has passed; the transport's verdict decides whether the reply is
    /// gone, and a failed deletion is terminal for the task but leaves
    /// the reply as it was.
    pub fn fire_cleanup(&mut self, now: u64, delete_succeeded: bool)
        requires
            now >= old(self).cleanup.due_at,
        ensures
            final(self).cleanup == old(self).cleanup,
            delete_succeeded ==> !final(self).visible(),
            !delete_succeeded ==> final(self).visible() == old(self).visible(),
    {
        if delete_succeeded {
            self.deleted = true;
        }
    }
}

} // verus!
