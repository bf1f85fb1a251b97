//! Ordered association sequences: the mathematical model shared by the
//! binding registry and the strength snapshots.

use vstd::prelude::*;

verus! {

/// Some entry of `s` has key `k`.
pub open spec fn has_key<K, V>(s: Seq<(K, V)>, k: K) -> bool {
    exists|i: int| 0 <= i < s.len() && (#[trigger] s[i]).0 == k
}

/// The position of an entry with key `k`, where there is one.
pub open spec fn index_of<K, V>(s: Seq<(K, V)>, k: K) -> int {
    choose|i: int| 0 <= i < s.len() && (#[trigger] s[i]).0 == k
}

/// The value stored under `k`, if any.
pub open spec fn lookup<K, V>(s: Seq<(K, V)>, k: K) -> Option<V> {
    if has_key(s, k) {
        Some(s[index_of(s, k)].1)
    } else {
        None
    }
}

/// No key occurs twice.
pub open spec fn distinct_keys<K, V>(s: Seq<(K, V)>) -> bool {
    forall|i: int, j: int| 0 <= i < j < s.len() ==> (#[trigger] s[i]).0 != (#[trigger] s[j]).0
}

/// `s` with `k` mapped to `v`: an existing entry is overwritten where it
/// stands, a new one is appended.
pub open spec fn put<K, V>(s: Seq<(K, V)>, k: K, v: V) -> Seq<(K, V)> {
    if has_key(s, k) {
        s.update(index_of(s, k), (k, v))
    } else {
        s.push((k, v))
    }
}

/// `s` without the entry for `k`; the others keep their order.
pub open spec fn without<K, V>(s: Seq<(K, V)>, k: K) -> Seq<(K, V)> {
    if has_key(s, k) {
        s.remove(index_of(s, k))
    } else {
        s
    }
}

/// With distinct keys, the entry for a key is found at exactly one place.
pub proof fn lemma_index_unique<K, V>(s: Seq<(K, V)>, k: K, i: int)
    requires
        distinct_keys(s),
        0 <= i < s.len(),
        s[i].0 == k,
    ensures
        has_key(s, k),
        index_of(s, k) == i,
        lookup(s, k) == Some(s[i].1),
{
    let j = index_of(s, k);
    assert(0 <= j < s.len() && s[j].0 == k);
    if j != i {
        if j < i {
            assert(s[j].0 != s[i].0);
        } else {
            assert(s[i].0 != s[j].0);
        }
    }
}

/// `put` keeps keys distinct and changes the value of `k` alone.
pub proof fn lemma_put<K, V>(s: Seq<(K, V)>, k: K, v: V)
    requires
        distinct_keys(s),
    ensures
        distinct_keys(put(s, k, v)),
        lookup(put(s, k, v), k) == Some(v),
        forall|other: K| other != k ==> lookup(put(s, k, v), other) == lookup(s, other),
        forall|other: K| has_key(put(s, k, v), other) <==> (other == k || has_key(s, other)),
{
    let t = put(s, k, v);
    if has_key(s, k) {
        let p = index_of(s, k);
        assert(0 <= p < s.len() && s[p].0 == k);
        assert forall|i: int| 0 <= i < t.len() implies (#[trigger] t[i]).0 == s[i].0 by {}
        assert forall|i: int, j: int| 0 <= i < j < t.len() implies (#[trigger] t[i]).0 != (
        #[trigger] t[j]).0 by {
            assert(s[i].0 != s[j].0);
        }
        assert(t[p].0 == k);
        lemma_index_unique(t, k, p);
        assert forall|other: K| has_key(t, other) <==> (other == k || has_key(s, other)) by {
            if has_key(t, other) {
                let i = index_of(t, other);
                assert(s[i].0 == other);
            }
            if has_key(s, other) {
                let i = index_of(s, other);
                assert(t[i].0 == other);
            }
        }
        assert forall|other: K| other != k implies lookup(t, other) == lookup(s, other) by {
            if has_key(s, other) {
                let i = index_of(s, other);
                assert(t[i].0 == other);
                lemma_index_unique(t, other, i);
            }
        }
    } else {
        let p = s.len() as int;
        assert forall|i: int, j: int| 0 <= i < j < t.len() implies (#[trigger] t[i]).0 != (
        #[trigger] t[j]).0 by {
            if j == p {
                assert(t[i] == s[i]);
            } else {
                assert(t[i] == s[i]);
                assert(t[j] == s[j]);
                assert(s[i].0 != s[j].0);
            }
        }
        assert(t[p].0 == k);
        lemma_index_unique(t, k, p);
        assert forall|other: K| has_key(t, other) <==> (other == k || has_key(s, other)) by {
            if has_key(t, other) {
                let i = index_of(t, other);
                if i < p {
                    assert(s[i].0 == other);
                }
            }
            if has_key(s, other) {
                let i = index_of(s, other);
                assert(t[i].0 == other);
            }
        }
        assert forall|other: K| other != k implies lookup(t, other) == lookup(s, other) by {
            if has_key(s, other) {
                let i = index_of(s, other);
                assert(t[i] == s[i]);
                lemma_index_unique(t, other, i);
            }
        }
    }
}

/// Of two writes to one key, the later one is what a lookup finds.
pub proof fn lemma_last_write_wins<K, V>(s: Seq<(K, V)>, k: K, first: V, second: V)
    requires
        distinct_keys(s),
    ensures
        lookup(put(put(s, k, first), k, second), k) == Some(second),
        forall|other: K|
            has_key(put(put(s, k, first), k, second), other) <==> has_key(put(s, k, first), other),
{
    lemma_put(s, k, first);
    lemma_put(put(s, k, first), k, second);
}

/// `without` keeps keys distinct, forgets `k` and leaves every other key
/// as it was.
pub proof fn lemma_without<K, V>(s: Seq<(K, V)>, k: K)
    requires
        distinct_keys(s),
    ensures
        distinct_keys(without(s, k)),
        !has_key(without(s, k), k),
        forall|other: K| other != k ==> lookup(without(s, k), other) == lookup(s, other),
{
    let t = without(s, k);
    if has_key(s, k) {
        let p = index_of(s, k);
        assert(0 <= p < s.len() && s[p].0 == k);
        assert forall|i: int| 0 <= i < t.len() implies #[trigger] t[i] == s[if i < p {
            i
        } else {
            i + 1
        }] by {}
        assert forall|i: int, j: int| 0 <= i < j < t.len() implies (#[trigger] t[i]).0 != (
        #[trigger] t[j]).0 by {
            let a = if i < p { i } else { i + 1 };
            let b = if j < p { j } else { j + 1 };
            assert(t[i] == s[a]);
            assert(t[j] == s[b]);
            assert(s[a].0 != s[b].0);
        }
        if has_key(t, k) {
            let i = index_of(t, k);
            let a = if i < p { i } else { i + 1 };
            assert(t[i] == s[a]);
            lemma_index_unique(s, k, a);
        }
        assert forall|other: K| other != k implies lookup(t, other) == lookup(s, other) by {
            if has_key(s, other) {
                let i = index_of(s, other);
                let a = if i < p { i } else { i - 1 };
                assert(t[a] == s[i]);
                lemma_index_unique(t, other, a);
            }
            if has_key(t, other) {
                let i = index_of(t, other);
                let a = if i < p { i } else { i + 1 };
                assert(t[i] == s[a]);
                lemma_index_unique(s, other, a);
            }
        }
    }
}

} // verus!
