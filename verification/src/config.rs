//! The configuration codec. The initial phrase list arrives as one
//! colon-delimited value from the environment; an absent value is
//! tolerated and yields a single placeholder entry. On shutdown the
//! current snapshot may be written back: the one line of a shell-style
//! file holding the phrase-list assignment is rewritten, every other
//! line preserved verbatim. Reading the environment and the file is the
//! caller's work; this module only computes.
use vstd::prelude::*;

use crate::store::PhraseStore;
use crate::text::{
    is_prefix, join_with, lemma_trimmed_idempotent, split_colon, starts_with_str, trim, trimmed,
    utf8_len,
};
use crate::valid_phrase;

verus! {

/// The placeholder phrase installed when no configuration is given, so
/// that the store starts as a singleton rather than empty.
pub open spec fn placeholder_phrase() -> Seq<char> {
    "placeholder"@
}

/// The colon-separated fragments of the configured value, or the
/// placeholder alone when no value is set.
pub fn initial_fragments(raw: Option<String>) -> (r: Vec<String>)
    ensures
        raw matches Some(s) ==> (r.deep_view().len() >= 1 && join_with(r.deep_view(), ':')
            == s@ && (forall|q: int, k: int|
            0 <= q < r.deep_view().len() && 0 <= k < r.deep_view()[q].len()
                ==> r.deep_view()[q][k] != ':')),
        raw is None ==> r.deep_view() == seq![placeholder_phrase()],
{
    match raw {
        Option::Some(s) => split_colon(s.as_str()),
        Option::None => {
            let mut r: Vec<String> = Vec::new();
            r.push(String::from_str("placeholder"));
            proof {
                assert(r.deep_view() =~= seq![placeholder_phrase()]);
            }
            r
        },
    }
}

/// Build the store from configuration fragments: each fragment is
/// trimmed at insertion and kept when it makes a valid phrase; any
/// other fragment is dropped, preserving the store's invariant. The
/// store holds a phrase exactly when some fragment trims to it.
pub fn load_store(fragments: &Vec<String>) -> (r: PhraseStore)
    ensures
        r.wf(),
        forall|p: Seq<char>|
            r@.contains(p) <==> exists|k: int|
                0 <= k < fragments.deep_view().len() && trimmed(
                    #[trigger] fragments.deep_view()[k],
                ) == p && valid_phrase(p),
{
    let ghost dv = fragments.deep_view();
    let n = fragments.len();
    let mut store = PhraseStore::new();
    let mut i: usize = 0;
    while i < n
        invariant
            0 <= i <= n,
            n == fragments@.len(),
            dv == fragments.deep_view(),
            dv.len() == n,
            store.wf(),
            forall|p: Seq<char>|
                store@.contains(p) <==> exists|k: int|
                    0 <= k < i && trimmed(#[trigger] dv[k]) == p && valid_phrase(p),
        decreases n - i,
    {
        let ghost pre = store@;
        let t = trim(fragments[i].as_str());
        proof {
            lemma_trimmed_idempotent(fragments@[i as int]@);
            assert(dv[i as int] == fragments@[i as int]@);
        }
        if utf8_len(t.as_str()) >= 3 {
            let ghost tv = t@;
            store.add(t);
            proof {
                assert(valid_phrase(tv));
                assert forall|p: Seq<char>| store@.contains(p) implies (exists|k: int|
                    0 <= k < i + 1 && trimmed(#[trigger] dv[k]) == p && valid_phrase(p)) by {
                    if p == tv {
                        assert(trimmed(dv[i as int]) == p && valid_phrase(p));
                    } else {
                        assert(pre.contains(p));
                    }
                }
                assert forall|p: Seq<char>| (exists|k: int|
                    0 <= k < i + 1 && trimmed(#[trigger] dv[k]) == p && valid_phrase(p))
                    implies store@.contains(p) by {
                    let k = choose|k: int|
                        0 <= k < i + 1 && trimmed(#[trigger] dv[k]) == p && valid_phrase(p);
                    if p != tv {
                        assert(k < i);
                        assert(pre.contains(p));
                    }
                }
            }
        } else {
            proof {
                assert(!valid_phrase(trimmed(dv[i as int])));
                assert forall|p: Seq<char>| (exists|k: int|
                    0 <= k < i + 1 && trimmed(#[trigger] dv[k]) == p && valid_phrase(p))
                    implies store@.contains(p) by {
                    let k = choose|k: int|
                        0 <= k < i + 1 && trimmed(#[trigger] dv[k]) == p && valid_phrase(p);
                    assert(k < i);
                }
            }
        }
        i = i + 1;
    }
    store
}

/// The line prefix that marks the phrase-list assignment.
pub open spec fn export_prefix() -> Seq<char> {
    "export SPAM_STR="@
}

/// The full assignment line carrying the joined phrase list.
pub open spec fn export_line(v: Seq<char>) -> Seq<char> {
    "export SPAM_STR=\""@ + v + "\""@
}

/// Render the assignment line for the given joined phrase list.
pub fn render_export_line(value: &str) -> (r: String)
    ensures
        r@ == export_line(value@),
{
    let mut r = String::from_str("export SPAM_STR=\"");
    r.append(value);
    r.append("\"");
    r
}

/// Rewrite a configuration file's lines: each line carrying the
/// phrase-list assignment is replaced by the assignment of `value`;
/// every other line is preserved verbatim.
pub fn rewrite_env_lines(lines: &Vec<String>, value: &str) -> (r: Vec<String>)
    ensures
        r.deep_view().len() == lines.deep_view().len(),
        forall|k: int|
            0 <= k < lines.deep_view().len() ==> #[trigger] r.deep_view()[k] == (
            if is_prefix(export_prefix(), lines.deep_view()[k]) {
                export_line(value@)
            } else {
                lines.deep_view()[k]
            }),
{
    let ghost dv = lines.deep_view();
    let n = lines.len();
    let mut r: Vec<String> = Vec::new();
    let mut i: usize = 0;
    while i < n
        invariant
            0 <= i <= n,
            n == lines@.len(),
            dv == lines.deep_view(),
            dv.len() == n,
            r.deep_view().len() == i,
            forall|k: int|
                0 <= k < i ==> #[trigger] r.deep_view()[k] == (if is_prefix(
                    export_prefix(),
                    dv[k],
                ) {
                    export_line(value@)
                } else {
                    dv[k]
                }),
        decreases n - i,
    {
        let ghost prev = r.deep_view();
        proof {
            assert(dv[i as int] == lines@[i as int]@);
        }
        if starts_with_str(lines[i].as_str(), "export SPAM_STR=") {
            let line = render_export_line(value);
            r.push(line);
        } else {
            r.push(lines[i].clone());
        }
        proof {
            assert(r.deep_view() =~= prev.push(r.deep_view()[i as int]));
            assert(r.deep_view().len() == i + 1);
        }
        i = i + 1;
    }
    r
}

} // verus!
