//! Sequences addressed by a unique byte-string key.
//!
//! The ledger's account table, the payment balances and the escrow store are
//! all vectors whose entries carry a distinct key (an address or an
//! identity).  This module gives the spec-level lookup function over such a
//! sequence and the lemmas that say how a lookup behaves under an update, a
//! push and a removal.

use vstd::prelude::*;

verus! {

/// An entry addressed by a byte-string key.
pub trait Keyed {
    spec fn key(self) -> Seq<u8>;
}

/// All entries carry pairwise distinct keys.
pub open spec fn distinct_keys<T: Keyed>(s: Seq<T>) -> bool {
    forall|i: int, j: int| 0 <= i < j < s.len() ==> #[trigger] s[i].key() != #[trigger] s[j].key()
}

/// Some entry carries the key `a`.
pub open spec fn has_key<T: Keyed>(s: Seq<T>, a: Seq<u8>) -> bool {
    exists|i: int| 0 <= i < s.len() && #[trigger] s[i].key() == a
}

/// The index of the entry that carries the key `a`.
pub open spec fn key_index<T: Keyed>(s: Seq<T>, a: Seq<u8>) -> int {
    choose|i: int| 0 <= i < s.len() && #[trigger] s[i].key() == a
}

/// The entry that carries the key `a`, if any.
pub open spec fn value_at<T: Keyed>(s: Seq<T>, a: Seq<u8>) -> Option<T> {
    if has_key(s, a) {
        Some(s[key_index(s, a)])
    } else {
        None
    }
}

/// With distinct keys, the entry at index `i` is the one `value_at` finds
/// under its key.
pub proof fn lemma_key_index<T: Keyed>(s: Seq<T>, i: int)
    requires
        distinct_keys(s),
        0 <= i < s.len(),
    ensures
        has_key(s, s[i].key()),
        key_index(s, s[i].key()) == i,
        value_at(s, s[i].key()) == Some(s[i]),
{
    assert(has_key(s, s[i].key()));
    let j = key_index(s, s[i].key());
    assert(0 <= j < s.len() && s[j].key() == s[i].key());
    if i < j {
        assert(s[i].key() != s[j].key());
    }
    if j < i {
        assert(s[j].key() != s[i].key());
    }
}

/// Replacing the entry at index `i` by one with the same key changes exactly
/// that key's lookup.
pub proof fn lemma_value_at_update<T: Keyed>(s: Seq<T>, i: int, x: T)
    requires
        distinct_keys(s),
        0 <= i < s.len(),
        x.key() == s[i].key(),
    ensures
        distinct_keys(s.update(i, x)),
        value_at(s.update(i, x), x.key()) == Some(x),
        forall|b: Seq<u8>| b != x.key() ==> value_at(s.update(i, x), b) == value_at(s, b),
{
    let s2 = s.update(i, x);
    assert(forall|k: int| 0 <= k < s.len() ==> #[trigger] s2[k].key() == s[k].key());
    assert(distinct_keys(s2));
    lemma_key_index(s2, i);
    assert forall|b: Seq<u8>| b != x.key() implies value_at(s2, b) == value_at(s, b) by {
        if has_key(s2, b) {
            let k = key_index(s2, b);
            assert(0 <= k < s2.len() && s2[k].key() == b);
            assert(k != i);
            lemma_key_index(s2, k);
            lemma_key_index(s, k);
        } else {
            if has_key(s, b) {
                let k = key_index(s, b);
                assert(0 <= k < s.len() && s[k].key() == b);
                assert(s2[k].key() == b);
                assert(false);
            }
        }
    }
}

/// Appending an entry with a fresh key changes exactly that key's lookup.
pub proof fn lemma_value_at_push<T: Keyed>(s: Seq<T>, x: T)
    requires
        distinct_keys(s),
        !has_key(s, x.key()),
    ensures
        distinct_keys(s.push(x)),
        value_at(s.push(x), x.key()) == Some(x),
        forall|b: Seq<u8>| b != x.key() ==> value_at(s.push(x), b) == value_at(s, b),
{
    let s2 = s.push(x);
    assert(forall|k: int| 0 <= k < s.len() ==> #[trigger] s2[k].key() == s[k].key());
    assert(s2[s.len() as int].key() == x.key());
    assert forall|i: int, j: int| 0 <= i < j < s2.len() implies #[trigger] s2[i].key()
        != #[trigger] s2[j].key() by {
        if j < s.len() {
            assert(s[i].key() != s[j].key());
        } else {
            assert(s2[i].key() == s[i].key());
            if s2[i].key() == x.key() {
                assert(has_key(s, x.key()));
            }
        }
    }
    lemma_key_index(s2, s.len() as int);
    assert forall|b: Seq<u8>| b != x.key() implies value_at(s2, b) == value_at(s, b) by {
        if has_key(s2, b) {
            let k = key_index(s2, b);
            assert(0 <= k < s2.len() && s2[k].key() == b);
            assert(k != s.len());
            assert(s[k].key() == b);
            lemma_key_index(s2, k);
            lemma_key_index(s, k);
        } else {
            if has_key(s, b) {
                let k = key_index(s, b);
                assert(s2[k].key() == b);
                assert(false);
            }
        }
    }
}

/// Removing the entry at index `i` retires exactly its key's lookup.
pub proof fn lemma_value_at_remove<T: Keyed>(s: Seq<T>, i: int)
    requires
        distinct_keys(s),
        0 <= i < s.len(),
    ensures
        distinct_keys(s.remove(i)),
        value_at(s.remove(i), s[i].key()) == None::<T>,
        forall|b: Seq<u8>| b != s[i].key() ==> value_at(s.remove(i), b) == value_at(s, b),
{
    let s2 = s.remove(i);
    assert(forall|k: int| 0 <= k < i ==> #[trigger] s2[k].key() == s[k].key());
    assert(forall|k: int| i <= k < s2.len() ==> #[trigger] s2[k].key() == s[k + 1].key());
    assert forall|p: int, q: int| 0 <= p < q < s2.len() implies #[trigger] s2[p].key()
        != #[trigger] s2[q].key() by {
        let p0 = if p < i { p } else { p + 1 };
        let q0 = if q < i { q } else { q + 1 };
        assert(s2[p].key() == s[p0].key());
        assert(s2[q].key() == s[q0].key());
        assert(s[p0].key() != s[q0].key());
    }
    if has_key(s2, s[i].key()) {
        let k = key_index(s2, s[i].key());
        let k0 = if k < i { k } else { k + 1 };
        assert(s[k0].key() == s[i].key());
        assert(k0 != i);
        if k0 < i {
            assert(s[k0].key() != s[i].key());
        } else {
            assert(s[i].key() != s[k0].key());
        }
        assert(false);
    }
    assert forall|b: Seq<u8>| b != s[i].key() implies value_at(s2, b) == value_at(s, b) by {
        if has_key(s2, b) {
            let k = key_index(s2, b);
            assert(0 <= k < s2.len() && s2[k].key() == b);
            let k0 = if k < i { k } else { k + 1 };
            assert(s[k0].key() == b);
            lemma_key_index(s2, k);
            lemma_key_index(s, k0);
        } else {
            if has_key(s, b) {
                let k0 = key_index(s, b);
                assert(0 <= k0 < s.len() && s[k0].key() == b);
                assert(k0 != i);
                let k = if k0 < i { k0 } else { k0 - 1 };
                assert(s2[k].key() == b);
                assert(has_key(s2, b));
                assert(false);
            }
        }
    }
}

} // verus!
