//! The moderation action executor's decision core: which transport
//! actions one flagged message earns. The actions themselves (deleting
//! the message, removing its author) are transport calls made outside
//! the library, each independently fallible, never retried; this module
//! decides, the caller performs.
use vstd::prelude::*;

use crate::classify::{flagged, is_flagged};

verus! {

/// An inbound message as the library sees it: plain values only. A
/// service message may lack an author; a non-text message carries no
/// content and is never classified.
pub struct IncomingMessage {
    /// The message's identifier within its chat.
    pub message_id: i64,
    /// The chat the message arrived in.
    pub chat_id: i64,
    /// The author, when the transport resolves one.
    pub author: Option<u64>,
    /// The text content, absent for non-text media.
    pub text: Option<String>,
    /// Whether this update is an edit of an earlier message.
    pub edited: bool,
}

/// A message's content is flagged by a snapshot; a message without text
/// never is.
pub open spec fn message_flagged(m: IncomingMessage, snapshot: Seq<Seq<char>>) -> bool {
    match m.text {
        Option::Some(t) => flagged(t@, snapshot),
        Option::None => false,
    }
}

/// The transport actions owed for one message.
pub struct ModerationPlan {
    /// Delete the message from its chat.
    pub delete_message: bool,
    /// Remove this author from the chat, revoking recent messages.
    pub kick_author: Option<u64>,
}

/// Decide the moderation actions for one inbound message against a
/// snapshot: a flagged message is deleted, and its author, where the
/// transport resolved one, is removed as well; an unflagged message and
/// a message without text are left alone.
pub fn moderation_plan(m: &IncomingMessage, snapshot: &Vec<String>) -> (r: ModerationPlan)
    ensures
        r.delete_message == message_flagged(*m, snapshot.deep_view()),
        r.kick_author == if message_flagged(*m, snapshot.deep_view()) {
            m.author
        } else {
            Option::<u64>::None
        },
{
    match &m.text {
        Option::Some(t) => {
            if is_flagged(t.as_str(), snapshot) {
                ModerationPlan { delete_message: true, kick_author: m.author }
            } else {
                ModerationPlan { delete_message: false, kick_author: Option::None }
            }
        },
        Option::None => ModerationPlan { delete_message: false, kick_author: Option::None },
    }
}

} // verus!
