//! The admin command processor: the authorization gate, the addressing
//! gate, and the dispatch that is the sole mutator of the phrase store.
//! Every response string is pinned exactly, and the store's value after
//! a dispatch is a function of its value before and the command.
use vstd::prelude::*;

use crate::byte_len;
use crate::command::{parse_command, parse_spec, AdminCommand, SpecCommand};
use crate::store::PhraseStore;
use crate::text::{
    contains_str, dec_rep, dec_string, is_substring, lemma_trimmed_idempotent, trim, trimmed,
};
use crate::valid_phrase;

verus! {

/// Response to an `add` whose phrase is empty after trimming.
pub open spec fn empty_input_msg() -> Seq<char> {
    "Input is empty"@
}

/// Response to an `add` whose phrase is shorter than three bytes.
pub open spec fn too_short_msg() -> Seq<char> {
    "SPAM phrase needs to be at least 3 bytes long"@
}

/// Confirmation of an accepted `add`, naming the phrase.
pub open spec fn added_msg(p: Seq<char>) -> Seq<char> {
    "SPAM phrase \""@ + p + "\" added to the database."@
}

/// Confirmation of a `remove` that found its phrase.
pub open spec fn removed_msg(p: Seq<char>) -> Seq<char> {
    "SPAM phrase \""@ + p + "\" removed from the database"@
}

/// Response to a `remove` whose phrase is not stored, hinting at the
/// listing command.
pub open spec fn not_found_msg(p: Seq<char>) -> Seq<char> {
    "SPAM phrase \""@ + p + "\" not found in the database. Use \"/print\" to show a list of spam phrases"@
}

/// The static command reference.
pub open spec fn help_msg() -> Seq<char> {
    "Admin commands:\n/add <phrase> - add a new blocked phrase\n/remove <phrase> - remove an existing blocked phrase\n/print - print current blocked phrases\n/help - show this help"@
}

/// The heading of the phrase listing.
pub open spec fn listing_header() -> Seq<char> {
    "The list of spam phrases are:\n"@
}

/// One line of the listing: the 1-based index, then the quoted phrase.
pub open spec fn listing_line(i: nat, p: Seq<char>) -> Seq<char> {
    dec_rep(i) + " \""@ + p + "\"\n"@
}

/// The lines of the listing from index `start` on, one per phrase.
pub open spec fn listing_lines(ps: Seq<Seq<char>>, start: nat) -> Seq<char>
    decreases ps.len(),
{
    if ps.len() == 0 {
        Seq::empty()
    } else {
        listing_line(start, ps[0]) + listing_lines(ps.drop_first(), (start + 1) as nat)
    }
}

/// The complete listing response: heading, then one numbered line per
/// phrase, in the snapshot's order.
pub open spec fn listing_msg(ps: Seq<Seq<char>>) -> Seq<char> {
    listing_header() + listing_lines(ps, 1)
}

/// Listing one more phrase appends one more line, numbered past the
/// existing ones.
proof fn lemma_listing_push(ps: Seq<Seq<char>>, start: nat, last: Seq<char>)
    ensures
        listing_lines(ps.push(last), start) == listing_lines(ps, start) + listing_line(
            (start + ps.len()) as nat,
            last,
        ),
    decreases ps.len(),
{
    if ps.len() == 0 {
        assert(ps.push(last)[0] == last);
        assert(ps.push(last).drop_first() =~= ps);
        assert(listing_lines(ps, start) == Seq::<char>::empty());
        assert(listing_lines(ps, (start + 1) as nat) == Seq::<char>::empty());
        assert(listing_lines(ps.push(last), start) == listing_line(start, last)
            + listing_lines(ps, (start + 1) as nat));
        assert(listing_line(start, last) + Seq::<char>::empty() =~= listing_line(
            start,
            last,
        ));
        assert(Seq::<char>::empty() + listing_line(start, last) =~= listing_line(
            start,
            last,
        ));
    } else {
        lemma_listing_push(ps.drop_first(), (start + 1) as nat, last);
        assert(ps.push(last)[0] == ps[0]);
        assert(ps.push(last).drop_first() =~= ps.drop_first().push(last));
        assert(listing_line(start, ps[0]) + (listing_lines(ps.drop_first(), (start + 1) as nat)
            + listing_line((start + ps.len()) as nat, last)) =~= (listing_line(start, ps[0])
            + listing_lines(ps.drop_first(), (start + 1) as nat)) + listing_line(
            (start + ps.len()) as nat,
            last,
        ));
    }
}

/// The store's value after dispatching one command on it.
pub open spec fn store_after(pre: Seq<Seq<char>>, c: SpecCommand) -> Seq<Seq<char>> {
    match c {
        SpecCommand::Add(raw) => {
            let t = trimmed(raw);
            if byte_len(t) >= 3 && !pre.contains(t) {
                pre.push(t)
            } else {
                pre
            }
        },
        SpecCommand::Remove(raw) => pre.remove_value(raw),
        SpecCommand::Print => pre,
        SpecCommand::Help => pre,
    }
}

/// The response to one command, over the store's value before dispatch.
pub open spec fn response_for(pre: Seq<Seq<char>>, c: SpecCommand) -> Seq<char> {
    match c {
        SpecCommand::Add(raw) => {
            let t = trimmed(raw);
            if t.len() == 0 {
                empty_input_msg()
            } else if byte_len(t) < 3 {
                too_short_msg()
            } else {
                added_msg(t)
            }
        },
        SpecCommand::Remove(raw) => if pre.contains(raw) {
            removed_msg(raw)
        } else {
            not_found_msg(raw)
        },
        SpecCommand::Print => listing_msg(pre),
        SpecCommand::Help => help_msg(),
    }
}

/// Law: an `add` whose phrase trims to at least three bytes stores the
/// trimmed phrase, and dispatching the same `add` again changes nothing.
pub proof fn lemma_add_then_listed(pre: Seq<Seq<char>>, raw: Seq<char>)
    requires
        byte_len(trimmed(raw)) >= 3,
    ensures
        store_after(pre, SpecCommand::Add(raw)).contains(trimmed(raw)),
        store_after(store_after(pre, SpecCommand::Add(raw)), SpecCommand::Add(raw))
            == store_after(pre, SpecCommand::Add(raw)),
{
    let t = trimmed(raw);
    if !pre.contains(t) {
        assert(pre.push(t)[pre.len() as int] == t);
    }
}

/// Law: a `remove` of a phrase that is not stored leaves the store
/// unchanged and answers with the not-found response.
pub proof fn lemma_remove_not_found(pre: Seq<Seq<char>>, raw: Seq<char>)
    requires
        !pre.contains(raw),
    ensures
        store_after(pre, SpecCommand::Remove(raw)) == pre,
        response_for(pre, SpecCommand::Remove(raw)) == not_found_msg(raw),
{
    crate::store::lemma_remove_absent(pre, raw);
}

/// Render the listing of a snapshot.
fn render_listing(snap: &Vec<String>) -> (r: String)
    ensures
        r@ == listing_msg(snap.deep_view()),
{
    let mut r = String::from_str("The list of spam phrases are:\n");
    let n = snap.len();
    let mut i: usize = 0;
    while i < n
        invariant
            0 <= i <= n,
            n == snap@.len(),
            snap.deep_view().len() == snap@.len(),
            r@ == listing_header() + listing_lines(snap.deep_view().subrange(0, i as int), 1),
        decreases n - i,
    {
        let ghost ps = snap.deep_view().subrange(0, i as int);
        let ghost pv = snap.deep_view()[i as int];
        let num = dec_string(i + 1);
        r.append(num.as_str());
        r.append(" \"");
        r.append(snap[i].as_str());
        r.append("\"\n");
        proof {
            lemma_listing_push(ps, 1, pv);
            assert(snap.deep_view().subrange(0, i + 1) =~= ps.push(pv));
            assert(listing_line((1 + ps.len()) as nat, pv) == dec_rep((i + 1) as nat) + " \""@
                + pv + "\"\n"@);
            assert(r@ =~= listing_header() + listing_lines(
                snap.deep_view().subrange(0, i + 1),
                1,
            ));
        }
        i = i + 1;
    }
    proof {
        assert(snap.deep_view().subrange(0, snap.deep_view().len() as int)
            =~= snap.deep_view());
    }
    r
}

/// Dispatch one parsed command against the store. The sole mutator of
/// the phrase store; the store mutation is the only effect, and the
/// returned response is handed to the reply mechanism by the caller.
pub fn apply_command(store: &mut PhraseStore, cmd: AdminCommand) -> (r: String)
    requires
        old(store).wf(),
    ensures
        final(store).wf(),
        final(store)@ == store_after(old(store)@, cmd@),
        r@ == response_for(old(store)@, cmd@),
{
    match cmd {
        AdminCommand::Add(raw) => {
            proof {
                lemma_trimmed_idempotent(raw@);
            }
            let t = trim(raw.as_str());
            if t.as_str().is_empty() {
                proof {
                    assert(vstd::utf8::encode_utf8(t@) =~= Seq::<u8>::empty());
                }
                String::from_str("Input is empty")
            } else if crate::text::utf8_len(t.as_str()) < 3 {
                String::from_str("SPAM phrase needs to be at least 3 bytes long")
            } else {
                assert(valid_phrase(t@));
                let mut r = String::from_str("SPAM phrase \"");
                r.append(t.as_str());
                r.append("\" added to the database.");
                store.add(t);
                r
            }
        },
        AdminCommand::Remove(raw) => {
            let present = store.remove(&raw);
            if present {
                let mut r = String::from_str("SPAM phrase \"");
                r.append(raw.as_str());
                r.append("\" removed from the database");
                r
            } else {
                proof {
                    old(store)@.index_of_first_ensures(raw@);
                }
                let mut r = String::from_str("SPAM phrase \"");
                r.append(raw.as_str());
                r.append(
                    "\" not found in the database. Use \"/print\" to show a list of spam phrases",
                );
                r
            }
        },
        AdminCommand::Print => {
            let snap = store.snapshot();
            render_listing(&snap)
        },
        AdminCommand::Help => {
            String::from_str(
                "Admin commands:\n/add <phrase> - add a new blocked phrase\n/remove <phrase> - remove an existing blocked phrase\n/print - print current blocked phrases\n/help - show this help",
            )
        },
    }
}

/// The text names the bot: it holds `@` followed by the bot's handle.
pub open spec fn mentions(t: Seq<char>, handle: Seq<char>) -> bool {
    is_substring(seq!['@'] + handle, t)
}

/// The full admin path for one inbound text. The caller supplies the
/// transport's verdict on the sender's standing at call time; nothing is
/// cached across calls. An unauthorized, unaddressed or unrecognized
/// text is ignored: no response comes back and the store is untouched,
/// so a command's existence is never revealed to a non-operator.
pub fn process_command(
    store: &mut PhraseStore,
    text: &str,
    bot_handle: &str,
    caller_privileged: bool,
) -> (r: Option<String>)
    requires
        old(store).wf(),
    ensures
        final(store).wf(),
        !caller_privileged ==> r is None && final(store)@ == old(store)@,
        !mentions(text@, bot_handle@) ==> r is None && final(store)@ == old(store)@,
        parse_spec(text@) is None ==> r is None && final(store)@ == old(store)@,
        caller_privileged && mentions(text@, bot_handle@) ==> (parse_spec(text@) matches Some(
            c,
        ) ==> (final(store)@ == store_after(old(store)@, c) && (r matches Some(resp)
            && resp@ == response_for(old(store)@, c)))),
{
    if !caller_privileged {
        return None;
    }
    let mut needle = String::from_str("@");
    needle.append(bot_handle);
    proof {
        reveal_strlit("@");
        assert(needle@ =~= seq!['@'] + bot_handle@);
    }
    if !contains_str(text, needle.as_str()) {
        return None;
    }
    match parse_command(text) {
        Option::None => None,
        Option::Some(cmd) => Some(apply_command(store, cmd)),
    }
}

} // verus!
