//! The update router: each inbound update goes to the admin command
//! path, to the classification path, or nowhere. An edited message is
//! re-screened in full, exactly like a new one, since an edit can
//! introduce a blocked phrase the original lacked.
use vstd::prelude::*;

use crate::command::{parse_command, parse_spec};
use crate::moderation::IncomingMessage;

verus! {

/// One inbound update from the transport.
pub enum InboundUpdate {
    /// A new or edited message.
    Message(IncomingMessage),
    /// Anything else the transport may deliver; dropped without effect.
    Other,
}

/// Where the router sends an update.
pub enum Route {
    /// A command-shaped new text message: the admin command processor.
    Command,
    /// Any other message: the classifier and the action executor.
    Screen,
    /// Nothing to do.
    Drop,
}

/// The routing rule. Only a newly posted text that parses as a command
/// takes the admin path; an edited message is always re-screened, so
/// that no one can smuggle a phrase in by editing a command-shaped
/// message.
pub open spec fn route_spec(u: InboundUpdate) -> Route {
    match u {
        InboundUpdate::Message(m) => {
            if m.edited {
                Route::Screen
            } else {
                match m.text {
                    Option::Some(t) => if parse_spec(t@) is Some {
                        Route::Command
                    } else {
                        Route::Screen
                    },
                    Option::None => Route::Screen,
                }
            }
        },
        InboundUpdate::Other => Route::Drop,
    }
}

/// Route one inbound update.
pub fn route_update(u: &InboundUpdate) -> (r: Route)
    ensures
        r == route_spec(*u),
{
    match u {
        InboundUpdate::Message(m) => {
            if m.edited {
                Route::Screen
            } else {
                match &m.text {
                    Option::Some(t) => {
                        match parse_command(t.as_str()) {
                            Option::Some(_) => Route::Command,
                            Option::None => Route::Screen,
                        }
                    },
                    Option::None => Route::Screen,
                }
            }
        },
        InboundUpdate::Other => Route::Drop,
    }
}

} // verus!
