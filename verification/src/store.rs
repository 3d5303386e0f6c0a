//! Keyed record stores.
//!
//! Every record the engine owns is addressed by a deterministic key derived
//! from the record's own fields, and each kind of record lives in one flat
//! store with pairwise-distinct keys.  This module gives the spec-level view
//! of such a store — membership, lookup, key uniqueness — and the lemmas
//! describing how the view moves under insertion, in-place update, and
//! removal.

use vstd::prelude::*;

verus! {

/// A record addressed by a deterministic key derived from its own fields.
pub trait Keyed: Sized {
    /// The key type.
    type Key;

    /// The record's storage key.
    spec fn key(self) -> Self::Key;
}

/// Whether some record in `s` has key `k`.
pub open spec fn seq_has<R: Keyed>(s: Seq<R>, k: R::Key) -> bool {
    exists|i: int| 0 <= i < s.len() && (#[trigger] s[i]).key() == k
}

/// Index of the record with key `k`; meaningful only when `seq_has(s, k)`.
pub open spec fn seq_index_of<R: Keyed>(s: Seq<R>, k: R::Key) -> int {
    choose|i: int| 0 <= i < s.len() && (#[trigger] s[i]).key() == k
}

/// The record with key `k`; meaningful only when `seq_has(s, k)`.
pub open spec fn seq_get<R: Keyed>(s: Seq<R>, k: R::Key) -> R {
    s[seq_index_of(s, k)]
}

/// No two records of `s` share a key.
pub open spec fn keys_unique<R: Keyed>(s: Seq<R>) -> bool {
    forall|i: int, j: int|
        0 <= i < j < s.len() ==> (#[trigger] s[i]).key() != (#[trigger] s[j]).key()
}

/// With distinct keys, any position holding key `k` is the position that
/// lookup resolves to.
pub proof fn lemma_index_of<R: Keyed>(s: Seq<R>, k: R::Key, i: int)
    requires
        keys_unique(s),
        0 <= i < s.len(),
        s[i].key() == k,
    ensures
        seq_has(s, k),
        seq_index_of(s, k) == i,
        seq_get(s, k) == s[i],
{
    assert(seq_has(s, k));
    let j = seq_index_of(s, k);
    assert(0 <= j < s.len() && s[j].key() == k);
    if i < j {
        assert(s[i].key() != s[j].key());
    } else if j < i {
        assert(s[j].key() != s[i].key());
    }
}

/// Appending a record with a fresh key: the new key resolves to the new
/// record and every other key is untouched.
pub proof fn lemma_store_push<R: Keyed>(s: Seq<R>, e: R)
    requires
        keys_unique(s),
        !seq_has(s, e.key()),
    ensures
        keys_unique(s.push(e)),
        seq_has(s.push(e), e.key()),
        seq_get(s.push(e), e.key()) == e,
        forall|k: R::Key| k != e.key() ==> #[trigger] seq_has(s.push(e), k) == seq_has(s, k),
        forall|k: R::Key|
            k != e.key() && seq_has(s, k) ==> #[trigger] seq_get(s.push(e), k) == seq_get(s, k),
{
    let t = s.push(e);
    assert(t[s.len() as int] == e);
    assert forall|i: int, j: int| 0 <= i < j < t.len() implies t[i].key() != t[j].key() by {
        if j < s.len() {
            assert(s[i].key() != s[j].key());
        } else {
            assert(t[j] == e);
            assert(t[i] == s[i]);
            if s[i].key() == e.key() {
                assert(seq_has(s, e.key()));
            }
        }
    }
    lemma_index_of(t, e.key(), s.len() as int);
    assert forall|k: R::Key| k != e.key() implies #[trigger] seq_has(t, k) == seq_has(s, k) by {
        if seq_has(s, k) {
            let i = seq_index_of(s, k);
            assert(0 <= i < s.len() && s[i].key() == k);
            assert(t[i] == s[i]);
            assert(seq_has(t, k));
        }
        if seq_has(t, k) {
            let i = seq_index_of(t, k);
            assert(0 <= i < t.len() && t[i].key() == k);
            assert(i != s.len());
            assert(t[i] == s[i]);
            assert(seq_has(s, k));
        }
    }
    assert forall|k: R::Key| k != e.key() && seq_has(s, k) implies #[trigger] seq_get(t, k)
        == seq_get(s, k) by {
        let i = seq_index_of(s, k);
        assert(0 <= i < s.len() && s[i].key() == k);
        lemma_index_of(s, k, i);
        assert(t[i] == s[i]);
        lemma_index_of(t, k, i);
    }
}

/// Replacing the record at position `i` by one with the same key: that key
/// now resolves to the new record, membership is unchanged everywhere, and
/// every other key still resolves as before.
pub proof fn lemma_store_update<R: Keyed>(s: Seq<R>, i: int, e: R)
    requires
        keys_unique(s),
        0 <= i < s.len(),
        e.key() == s[i].key(),
    ensures
        keys_unique(s.update(i, e)),
        seq_index_of(s.update(i, e), e.key()) == i,
        seq_get(s.update(i, e), e.key()) == e,
        forall|k: R::Key| #[trigger] seq_has(s.update(i, e), k) == seq_has(s, k),
        forall|k: R::Key|
            k != e.key() && seq_has(s, k) ==> #[trigger] seq_get(s.update(i, e), k) == seq_get(
                s,
                k,
            ),
{
    let t = s.update(i, e);
    assert(t[i] == e);
    assert forall|p: int, q: int| 0 <= p < q < t.len() implies t[p].key() != t[q].key() by {
        assert(s[p].key() != s[q].key());
        if p == i {
            assert(t[q] == s[q]);
        } else if q == i {
            assert(t[p] == s[p]);
        }
    }
    lemma_index_of(t, e.key(), i);
    assert forall|k: R::Key| #[trigger] seq_has(t, k) == seq_has(s, k) by {
        if seq_has(s, k) {
            let p = seq_index_of(s, k);
            assert(0 <= p < s.len() && s[p].key() == k);
            if p == i {
                assert(t[i].key() == e.key());
                lemma_index_of(s, e.key(), i);
                assert(seq_has(t, k));
            } else {
                assert(t[p] == s[p]);
                assert(seq_has(t, k));
            }
        }
        if seq_has(t, k) {
            let p = seq_index_of(t, k);
            assert(0 <= p < t.len() && t[p].key() == k);
            if p == i {
                lemma_index_of(s, s[i].key(), i);
                assert(seq_has(s, k));
            } else {
                assert(t[p] == s[p]);
                assert(seq_has(s, k));
            }
        }
    }
    assert forall|k: R::Key| k != e.key() && seq_has(s, k) implies #[trigger] seq_get(t, k)
        == seq_get(s, k) by {
        let p = seq_index_of(s, k);
        assert(0 <= p < s.len() && s[p].key() == k);
        lemma_index_of(s, k, p);
        assert(p != i);
        assert(t[p] == s[p]);
        lemma_index_of(t, k, p);
    }
}

/// Removing the record at position `i`: its key no longer resolves, and
/// every other key resolves as before.
pub proof fn lemma_store_remove<R: Keyed>(s: Seq<R>, i: int)
    requires
        keys_unique(s),
        0 <= i < s.len(),
    ensures
        keys_unique(s.remove(i)),
        !seq_has(s.remove(i), s[i].key()),
        forall|p: int|
            0 <= p < s.len() - 1 ==> #[trigger] s.remove(i)[p] == (if p < i {
                s[p]
            } else {
                s[p + 1]
            }),
        forall|k: R::Key|
            k != s[i].key() ==> #[trigger] seq_has(s.remove(i), k) == seq_has(s, k),
        forall|k: R::Key|
            k != s[i].key() && seq_has(s, k) ==> #[trigger] seq_get(s.remove(i), k) == seq_get(
                s,
                k,
            ),
{
    let t = s.remove(i);
    // index mapping: t[p] == s[p] for p < i, t[p] == s[p + 1] for p >= i
    assert forall|p: int| 0 <= p < t.len() implies t[p] == if p < i {
        s[p]
    } else {
        s[p + 1]
    } by {}
    assert forall|p: int, q: int| 0 <= p < q < t.len() implies t[p].key() != t[q].key() by {
        let sp: int = if p < i { p } else { p + 1 };
        let sq: int = if q < i { q } else { q + 1 };
        assert(s[sp].key() != s[sq].key());
    }
    if seq_has(t, s[i].key()) {
        let p = seq_index_of(t, s[i].key());
        assert(0 <= p < t.len() && t[p].key() == s[i].key());
        let sp: int = if p < i { p } else { p + 1 };
        assert(s[sp].key() == s[i].key());
        assert(sp != i);
        if sp < i {
            assert(s[sp].key() != s[i].key());
        } else {
            assert(s[i].key() != s[sp].key());
        }
    }
    assert forall|k: R::Key| k != s[i].key() implies #[trigger] seq_has(t, k) == seq_has(s, k) by {
        if seq_has(s, k) {
            let p = seq_index_of(s, k);
            assert(0 <= p < s.len() && s[p].key() == k);
            assert(p != i);
            let tp: int = if p < i { p } else { p - 1 };
            assert(t[tp] == s[p]);
            assert(seq_has(t, k));
        }
        if seq_has(t, k) {
            let p = seq_index_of(t, k);
            assert(0 <= p < t.len() && t[p].key() == k);
            let sp: int = if p < i { p } else { p + 1 };
            assert(s[sp].key() == k);
            assert(seq_has(s, k));
        }
    }
    assert forall|k: R::Key| k != s[i].key() && seq_has(s, k) implies #[trigger] seq_get(t, k)
        == seq_get(s, k) by {
        let p = seq_index_of(s, k);
        assert(0 <= p < s.len() && s[p].key() == k);
        lemma_index_of(s, k, p);
        assert(p != i);
        let tp: int = if p < i { p } else { p - 1 };
        assert(t[tp] == s[p]);
        lemma_index_of(t, k, tp);
    }
}

} // verus!
