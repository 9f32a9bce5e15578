//! A moderation engine for group chats: messages are screened against a
//! mutable set of blocked phrases, matches are removed and their authors
//! sanctioned, and privileged operators manage the phrase set through
//! in-chat commands.
//!
//! This crate holds the verified core: the phrase store, the substring
//! classifier, the command parser and dispatcher, the moderation planner,
//! the ephemeral-reply scheduling rules, and the configuration codec.
//! All transport and process I/O lives outside the library and hands it
//! plain values.
use vstd::prelude::*;

pub mod admin;
pub mod classify;
pub mod command;
pub mod config;
pub mod ephemeral;
pub mod moderation;
pub mod router;
pub mod store;
pub mod text;

verus! {

/// The length of a character sequence's UTF-8 encoding, in bytes.
pub open spec fn byte_len(s: Seq<char>) -> nat {
    vstd::utf8::encode_utf8(s).len()
}

/// A phrase is acceptable for the store when it carries no leading or
/// trailing whitespace and its UTF-8 encoding is at least three bytes long.
pub open spec fn valid_phrase(p: Seq<char>) -> bool {
    p == crate::text::trimmed(p) && byte_len(p) >= 3
}

} // verus!
