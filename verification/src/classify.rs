//! The classifier: a pure decision over a message text and a snapshot of
//! the phrase store. No tokenization, case folding or other
//! normalization is applied; a text is flagged exactly when some phrase
//! of the snapshot occurs in it character for character.
use vstd::prelude::*;

use crate::text::{contains_str, is_substring, matches_at};
use crate::valid_phrase;

verus! {

/// `t` is flagged by `snapshot` when some phrase of the snapshot is a
/// contiguous substring of `t`.
pub open spec fn flagged(t: Seq<char>, snapshot: Seq<Seq<char>>) -> bool {
    exists|k: int| 0 <= k < snapshot.len() && is_substring(snapshot[k], t)
}

/// The classification pass. Deterministic and side-effect free, and
/// sound against an arbitrarily stale snapshot: the result speaks only
/// of the snapshot it was given.
pub fn is_flagged(text: &str, snapshot: &Vec<String>) -> (r: bool)
    ensures
        r == flagged(text@, snapshot.deep_view()),
{
    let n = snapshot.len();
    let mut i: usize = 0;
    while i < n
        invariant
            0 <= i <= n,
            n == snapshot@.len(),
            snapshot.deep_view().len() == snapshot@.len(),
            forall|k: int|
                0 <= k < i ==> !is_substring(#[trigger] snapshot.deep_view()[k], text@),
        decreases n - i,
    {
        if contains_str(text, snapshot[i].as_str()) {
            assert(snapshot.deep_view()[i as int] == snapshot@[i as int]@);
            return true;
        }
        assert(snapshot.deep_view()[i as int] == snapshot@[i as int]@);
        i = i + 1;
    }
    false
}

/// Empty text is never flagged by a snapshot of valid phrases: a valid
/// phrase encodes to at least three bytes, so it is not empty, and a
/// non-empty needle occurs in no empty text.
pub proof fn lemma_empty_text_not_flagged(snapshot: Seq<Seq<char>>)
    requires
        forall|k: int| 0 <= k < snapshot.len() ==> valid_phrase(#[trigger] snapshot[k]),
    ensures
        !flagged(Seq::<char>::empty(), snapshot),
{
    assert forall|k: int| 0 <= k < snapshot.len() implies !is_substring(
        snapshot[k],
        Seq::<char>::empty(),
    ) by {
        let p = snapshot[k];
        assert(valid_phrase(p));
        if p.len() == 0 {
            assert(vstd::utf8::encode_utf8(p) =~= Seq::<u8>::empty());
        }
        assert(p.len() > 0);
        assert(forall|i: int| !matches_at(Seq::<char>::empty(), p, i));
    }
}

} // verus!
