use antispam::admin::{apply_command, process_command};
use antispam::command::AdminCommand;
use antispam::store::PhraseStore;

#[test]
fn add_of_two_bytes_is_rejected_with_minimum_length_message() {
    let mut store = PhraseStore::new();
    let r = apply_command(&mut store, AdminCommand::Add(String::from("ab")));
    assert_eq!(r, "SPAM phrase needs to be at least 3 bytes long");
    assert_eq!(store.len(), 0);
}

#[test]
fn add_of_empty_input_is_rejected_with_empty_message() {
    let mut store = PhraseStore::new();
    let r = apply_command(&mut store, AdminCommand::Add(String::from("")));
    assert_eq!(r, "Input is empty");
    let r = apply_command(&mut store, AdminCommand::Add(String::from("   ")));
    assert_eq!(r, "Input is empty");
    assert_eq!(store.len(), 0);
}

#[test]
fn minimum_length_counts_utf8_bytes_not_characters() {
    let mut store = PhraseStore::new();
    let r = apply_command(&mut store, AdminCommand::Add(String::from("\u{20ac}")));
    assert_eq!(r, "SPAM phrase \"\u{20ac}\" added to the database.");
    let r = apply_command(&mut store, AdminCommand::Add(String::from("\u{df}")));
    assert_eq!(r, "SPAM phrase needs to be at least 3 bytes long");
    assert_eq!(store.len(), 1);
}

#[test]
fn accepted_add_is_reported_in_a_subsequent_list() {
    let mut store = PhraseStore::new();
    let r = apply_command(&mut store, AdminCommand::Add(String::from("abc")));
    assert_eq!(r, "SPAM phrase \"abc\" added to the database.");
    let listing = apply_command(&mut store, AdminCommand::Print);
    assert_eq!(listing, "The list of spam phrases are:\n1 \"abc\"\n");
}

#[test]
fn add_trims_whitespace_at_insertion() {
    let mut store = PhraseStore::new();
    let r = apply_command(&mut store, AdminCommand::Add(String::from("  crypto deal \n")));
    assert_eq!(r, "SPAM phrase \"crypto deal\" added to the database.");
    assert!(store.contains(&String::from("crypto deal")));
}

#[test]
fn listing_is_one_indexed_in_insertion_order() {
    let mut store = PhraseStore::new();
    apply_command(&mut store, AdminCommand::Add(String::from("aaa")));
    apply_command(&mut store, AdminCommand::Add(String::from("bbbb")));
    apply_command(&mut store, AdminCommand::Add(String::from("ccccc")));
    let listing = apply_command(&mut store, AdminCommand::Print);
    assert_eq!(
        listing,
        "The list of spam phrases are:\n1 \"aaa\"\n2 \"bbbb\"\n3 \"ccccc\"\n"
    );
}

#[test]
fn remove_of_present_phrase_confirms() {
    let mut store = PhraseStore::new();
    apply_command(&mut store, AdminCommand::Add(String::from("abc")));
    let r = apply_command(&mut store, AdminCommand::Remove(String::from("abc")));
    assert_eq!(r, "SPAM phrase \"abc\" removed from the database");
    assert_eq!(store.len(), 0);
}

#[test]
fn remove_of_absent_phrase_hints_at_print() {
    let mut store = PhraseStore::new();
    apply_command(&mut store, AdminCommand::Add(String::from("abc")));
    let r = apply_command(&mut store, AdminCommand::Remove(String::from("zzz")));
    assert_eq!(
        r,
        "SPAM phrase \"zzz\" not found in the database. Use \"/print\" to show a list of spam phrases"
    );
    assert_eq!(store.len(), 1);
}

#[test]
fn help_lists_all_four_commands() {
    let mut store = PhraseStore::new();
    let r = apply_command(&mut store, AdminCommand::Help);
    assert!(r.contains("/add"));
    assert!(r.contains("/remove"));
    assert!(r.contains("/print"));
    assert!(r.contains("/help"));
}

#[test]
fn unprivileged_command_gets_no_response_and_no_mutation() {
    let mut store = PhraseStore::new();
    let r = process_command(&mut store, "/add@modbot crypto", "modbot", false);
    assert!(r.is_none());
    assert_eq!(store.len(), 0);
}

#[test]
fn command_not_addressed_to_the_bot_is_ignored() {
    let mut store = PhraseStore::new();
    let r = process_command(&mut store, "/add@otherbot crypto", "modbot", true);
    assert!(r.is_none());
    assert_eq!(store.len(), 0);
}

#[test]
fn addressed_privileged_command_is_dispatched() {
    let mut store = PhraseStore::new();
    let r = process_command(&mut store, "/add@modbot crypto", "modbot", true);
    assert_eq!(r.as_deref(), Some("SPAM phrase \"crypto\" added to the database."));
    assert!(store.contains(&String::from("crypto")));
}

#[test]
fn unrecognized_text_is_ignored_even_for_operators() {
    let mut store = PhraseStore::new();
    let r = process_command(&mut store, "hello @modbot", "modbot", true);
    assert!(r.is_none());
    assert_eq!(store.len(), 0);
}
