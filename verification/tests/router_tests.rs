use antispam::moderation::IncomingMessage;
use antispam::router::{route_update, InboundUpdate, Route};

fn message(text: Option<&str>, edited: bool) -> IncomingMessage {
    IncomingMessage {
        message_id: 1,
        chat_id: 2,
        author: Some(3),
        text: text.map(String::from),
        edited,
    }
}

#[test]
fn command_shaped_new_message_takes_the_admin_path() {
    let u = InboundUpdate::Message(message(Some("/add@modbot junk"), false));
    assert!(matches!(route_update(&u), Route::Command));
}

#[test]
fn plain_text_is_screened() {
    let u = InboundUpdate::Message(message(Some("a plain message"), false));
    assert!(matches!(route_update(&u), Route::Screen));
}

#[test]
fn edited_message_is_screened_even_when_command_shaped() {
    let u = InboundUpdate::Message(message(Some("/add@modbot junk"), true));
    assert!(matches!(route_update(&u), Route::Screen));
}

#[test]
fn non_text_message_is_screened_and_later_ignored() {
    let u = InboundUpdate::Message(message(None, false));
    assert!(matches!(route_update(&u), Route::Screen));
}

#[test]
fn other_updates_are_dropped() {
    assert!(matches!(route_update(&InboundUpdate::Other), Route::Drop));
}
