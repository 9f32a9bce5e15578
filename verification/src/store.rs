//! The phrase store: the mutable database of blocked phrases.
//!
//! The store's abstract value is the sequence of phrase views in listing
//! order; well-formedness asks that every entry be a valid phrase and
//! that no entry repeat. Mutation happens only through `add` and
//! `remove`, each of which pins the whole new value, so an observer of
//! the store's value sees either the state before a mutation or the
//! state after it, never anything in between.
use vstd::prelude::*;

use crate::valid_phrase;

verus! {

/// The store's value after inserting a phrase: unchanged when the
/// phrase is already present, extended by it at the end otherwise.
pub open spec fn inserted(pre: Seq<Seq<char>>, p: Seq<char>) -> Seq<Seq<char>> {
    if pre.contains(p) {
        pre
    } else {
        pre.push(p)
    }
}

/// Law: an inserted phrase is contained in the store's value, and
/// inserting it a second time leaves that value unchanged.
pub proof fn lemma_add_idempotent(pre: Seq<Seq<char>>, p: Seq<char>)
    requires
        crate::valid_phrase(p),
    ensures
        inserted(pre, p).contains(p),
        inserted(inserted(pre, p), p) == inserted(pre, p),
{
    if !pre.contains(p) {
        assert(pre.push(p)[pre.len() as int] == p);
    }
}

/// Law: removing a phrase that is not stored leaves the store's value
/// unchanged.
pub proof fn lemma_remove_absent(pre: Seq<Seq<char>>, p: Seq<char>)
    requires
        !pre.contains(p),
    ensures
        pre.remove_value(p) == pre,
{
    pre.index_of_first_ensures(p);
}

/// The mutable database of blocked phrases.
pub struct PhraseStore {
    phrases: Vec<String>,
}

impl View for PhraseStore {
    type V = Seq<Seq<char>>;

    /// The phrases in listing order.
    closed spec fn view(&self) -> Seq<Seq<char>> {
        self.phrases.deep_view()
    }
}

impl PhraseStore {
    /// Every entry is a valid phrase and no entry repeats.
    pub open spec fn wf(&self) -> bool {
        (forall|k: int| 0 <= k < self@.len() ==> valid_phrase(#[trigger] self@[k]))
            && self@.no_duplicates()
    }

    /// An empty store.
    pub fn new() -> (r: PhraseStore)
        ensures
            r.wf(),
            r@.len() == 0,
    {
        PhraseStore { phrases: Vec::new() }
    }

    /// The number of stored phrases.
    pub fn len(&self) -> (n: usize)
        ensures
            n == self@.len(),
    {
        self.phrases.len()
    }

    /// Membership test.
    pub fn contains(&self, p: &String) -> (r: bool)
        ensures
            r == self@.contains(p@),
    {
        let n = self.phrases.len();
        let mut i: usize = 0;
        while i < n
            invariant
                0 <= i <= n,
                n == self@.len(),
                self@.len() == self.phrases@.len(),
                forall|k: int| 0 <= k < i ==> self@[k] != p@,
            decreases n - i,
        {
            if self.phrases[i] == *p {
                assert(self@[i as int] == p@);
                return true;
            }
            i = i + 1;
        }
        false
    }

    /// Insert a valid phrase. Idempotent: a phrase already present leaves
    /// the store unchanged and reports `false`; a new phrase is appended
    /// and reported with `true`. No other entry is touched either way.
    pub fn add(&mut self, p: String) -> (added: bool)
        requires
            old(self).wf(),
            valid_phrase(p@),
        ensures
            final(self).wf(),
            added == !old(self)@.contains(p@),
            final(self)@ == inserted(old(self)@, p@),
            final(self)@.contains(p@),
            added ==> final(self)@ == old(self)@.push(p@),
            !added ==> final(self)@ == old(self)@,
            forall|q: Seq<char>|
                q != p@ ==> (final(self)@.contains(q) <==> old(self)@.contains(q)),
    {
        if self.contains(&p) {
            return false;
        }
        let ghost pre = self@;
        let ghost pv = p@;
        self.phrases.push(p);
        proof {
            assert(self@ =~= pre.push(pv));
            assert(self@[pre.len() as int] == pv);
            assert forall|q: Seq<char>| q != pv && self@.contains(q) implies pre.contains(
                q,
            ) by {
                let k = choose|k: int| 0 <= k < self@.len() && self@[k] == q;
                assert(pre[k] == q);
            }
            assert forall|q: Seq<char>| pre.contains(q) implies self@.contains(q) by {
                let k = choose|k: int| 0 <= k < pre.len() && pre[k] == q;
                assert(self@[k] == q);
            }
        }
        true
    }

    /// Remove a phrase. A phrase not present leaves the store unchanged
    /// and reports `false`; a present one is removed from its position,
    /// the entries around it keeping their order.
    pub fn remove(&mut self, p: &String) -> (removed: bool)
        requires
            old(self).wf(),
        ensures
            final(self).wf(),
            removed == old(self)@.contains(p@),
            !final(self)@.contains(p@),
            !removed ==> final(self)@ == old(self)@,
            removed ==> final(self)@ == old(self)@.remove_value(p@),
            forall|q: Seq<char>|
                q != p@ ==> (final(self)@.contains(q) <==> old(self)@.contains(q)),
    {
        let n = self.phrases.len();
        let mut i: usize = 0;
        while i < n
            invariant
                0 <= i <= n,
                n == self@.len(),
                self@.len() == self.phrases@.len(),
                self@ == old(self)@,
                self.wf(),
                forall|k: int| 0 <= k < i ==> self@[k] != p@,
            decreases n - i,
        {
            if self.phrases[i] == *p {
                let ghost pre = self@;
                let ghost ki = i as int;
                proof {
                    assert(pre[ki] == p@);
                }
                self.phrases.remove(i);
                proof {
                    assert(self@ =~= pre.remove(ki));
                    pre.remove_ensures(ki);
                    assert(pre.contains(p@));
                    pre.index_of_first_ensures(p@);
                    assert(pre.index_of_first(p@) == Some(ki));
                    assert forall|q: Seq<char>| self@.contains(q) implies q != p@
                        && pre.contains(q) by {
                        let k = choose|k: int| 0 <= k < self@.len() && self@[k] == q;
                        if k < ki {
                            assert(pre[k] == q);
                            assert(pre[k] != pre[ki]);
                        } else {
                            assert(pre[k + 1] == q);
                            assert(pre[k + 1] != pre[ki]);
                        }
                    }
                    assert forall|q: Seq<char>| q != p@ && pre.contains(q) implies
                        self@.contains(q) by {
                        let k = choose|k: int| 0 <= k < pre.len() && pre[k] == q;
                        if k < ki {
                            assert(self@[k] == q);
                        } else {
                            assert(k != ki);
                            assert(self@[k - 1] == q);
                        }
                    }
                    assert forall|k: int| 0 <= k < self@.len() implies valid_phrase(
                        #[trigger] self@[k],
                    ) by {
                        if k < ki {
                            assert(self@[k] == pre[k]);
                        } else {
                            assert(self@[k] == pre[k + 1]);
                        }
                    }
                    assert forall|a: int, b: int|
                        0 <= a < self@.len() && 0 <= b < self@.len() && a != b implies
                        self@[a] != self@[b] by {
                        let pa: int = if a < ki {
                            a
                        } else {
                            a + 1
                        };
                        let pb: int = if b < ki {
                            b
                        } else {
                            b + 1
                        };
                        assert(self@[a] == pre[pa]);
                        assert(self@[b] == pre[pb]);
                        assert(pre[pa] != pre[pb]);
                    }
                }
                return true;
            }
            i = i + 1;
        }
        false
    }

    /// A point-in-time copy of the whole store, in listing order. The
    /// copy is the store's complete current value: handing it to readers
    /// lets a later mutation proceed without the readers ever seeing a
    /// half-applied change.
    pub fn snapshot(&self) -> (r: Vec<String>)
        ensures
            r.deep_view() == self@,
    {
        let n = self.phrases.len();
        let mut r: Vec<String> = Vec::new();
        let mut i: usize = 0;
        while i < n
            invariant
                0 <= i <= n,
                n == self@.len(),
                self@.len() == self.phrases@.len(),
                r.deep_view() =~= self@.subrange(0, i as int),
            decreases n - i,
        {
            let ghost prev = r.deep_view();
            r.push(self.phrases[i].clone());
            proof {
                assert(r.deep_view() =~= prev.push(self@[i as int]));
                assert(r.deep_view() =~= self@.subrange(0, i + 1));
            }
            i = i + 1;
        }
        proof {
            assert(self@.subrange(0, self@.len() as int) =~= self@);
        }
        r
    }
}

} // verus!
