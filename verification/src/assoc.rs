//! Association sequences: rows of `(key, value)` pairs in which no key occurs
//! twice, and the map that such a sequence stands for.
//!
//! The tables of this crate keep their rows in a `Vec`; their contracts speak
//! of the map. The lemmas here carry each change of the sequence over to the
//! map.

use vstd::prelude::*;

verus! {

/// Some row of `s` has the key `k`.
pub open spec fn has_key<K, V>(s: Seq<(K, V)>, k: K) -> bool {
    exists|i: int| 0 <= i < s.len() && (#[trigger] s[i]).0 == k
}

/// The position of a row with the key `k` (meaningful when there is one).
pub open spec fn index_of<K, V>(s: Seq<(K, V)>, k: K) -> int {
    choose|i: int| 0 <= i < s.len() && (#[trigger] s[i]).0 == k
}

/// No key occurs in two rows.
pub open spec fn keys_distinct<K, V>(s: Seq<(K, V)>) -> bool {
    forall|i: int, j: int|
        0 <= i < s.len() && 0 <= j < s.len() && i != j ==> (#[trigger] s[i]).0 != (#[trigger] s[j]).0
}

/// The map from each key of `s` to the value of its row.
pub open spec fn to_map<K, V>(s: Seq<(K, V)>) -> Map<K, V> {
    Map::new(|k: K| has_key(s, k), |k: K| s[index_of(s, k)].1)
}

/// Row `i` is what the map holds under that row's key.
pub proof fn lemma_lookup<K, V>(s: Seq<(K, V)>, i: int)
    requires
        keys_distinct(s),
        0 <= i < s.len(),
    ensures
        to_map(s).contains_key(s[i].0),
        to_map(s)[s[i].0] == s[i].1,
{
    let k = s[i].0;
    assert(has_key(s, k));
    let j = index_of(s, k);
    assert(0 <= j < s.len() && s[j].0 == k);
    assert(j == i);
}

/// A key that the map holds sits in some row.
pub proof fn lemma_find<K, V>(s: Seq<(K, V)>, k: K) -> (i: int)
    requires
        keys_distinct(s),
        to_map(s).contains_key(k),
    ensures
        0 <= i < s.len(),
        s[i].0 == k,
        s[i].1 == to_map(s)[k],
{
    let i = index_of(s, k);
    assert(has_key(s, k));
    i
}

/// The empty sequence stands for the empty map.
pub proof fn lemma_empty<K, V>()
    ensures
        keys_distinct(Seq::<(K, V)>::empty()),
        to_map(Seq::<(K, V)>::empty()) == Map::<K, V>::empty(),
{
    assert(to_map(Seq::<(K, V)>::empty()) =~= Map::<K, V>::empty());
}

/// Appending a row under a new key inserts it into the map.
pub proof fn lemma_push<K, V>(s: Seq<(K, V)>, k: K, v: V)
    requires
        keys_distinct(s),
        !to_map(s).contains_key(k),
    ensures
        keys_distinct(s.push((k, v))),
        to_map(s.push((k, v))) == to_map(s).insert(k, v),
{
    let t = s.push((k, v));
    assert forall|i: int, j: int| 0 <= i < t.len() && 0 <= j < t.len() && i != j implies (#[trigger] t[i]).0
        != (#[trigger] t[j]).0 by {
        if i < s.len() && j < s.len() {
            assert(s[i].0 != s[j].0);
        } else if i < s.len() {
            assert(has_key(s, s[i].0));
        } else {
            assert(has_key(s, s[j].0));
        }
    }
    assert forall|q: K| #[trigger] to_map(t).contains_key(q) <==> to_map(s).insert(k, v).contains_key(q) by {
        if to_map(t).contains_key(q) {
            let i = lemma_find(t, q);
            if i < s.len() {
                assert(s[i].0 == q);
                assert(has_key(s, q));
            }
        }
        if to_map(s).contains_key(q) {
            let i = lemma_find(s, q);
            assert(t[i].0 == q);
            assert(has_key(t, q));
        }
        if q == k {
            assert(t[s.len() as int].0 == k);
            assert(has_key(t, q));
        }
    }
    assert forall|q: K| to_map(t).contains_key(q) implies #[trigger] to_map(t)[q] == to_map(s).insert(k, v)[q] by {
        let i = lemma_find(t, q);
        if i < s.len() {
            assert(s[i] == t[i]);
            lemma_lookup(s, i);
        }
    }
    assert(to_map(t) =~= to_map(s).insert(k, v));
}

/// Replacing the value of row `i` replaces it in the map.
pub proof fn lemma_update<K, V>(s: Seq<(K, V)>, i: int, v: V)
    requires
        keys_distinct(s),
        0 <= i < s.len(),
    ensures
        keys_distinct(s.update(i, (s[i].0, v))),
        to_map(s.update(i, (s[i].0, v))) == to_map(s).insert(s[i].0, v),
{
    let k = s[i].0;
    let t = s.update(i, (k, v));
    assert forall|a: int, b: int| 0 <= a < t.len() && 0 <= b < t.len() && a != b implies (#[trigger] t[a]).0
        != (#[trigger] t[b]).0 by {
        assert(t[a].0 == s[a].0);
        assert(t[b].0 == s[b].0);
    }
    assert forall|q: K| #[trigger] to_map(t).contains_key(q) <==> to_map(s).insert(k, v).contains_key(q) by {
        if to_map(t).contains_key(q) {
            let a = lemma_find(t, q);
            assert(s[a].0 == q);
            assert(has_key(s, q));
        }
        if to_map(s).contains_key(q) {
            let a = lemma_find(s, q);
            assert(t[a].0 == q);
            assert(has_key(t, q));
        }
        if q == k {
            assert(t[i].0 == k);
            assert(has_key(t, q));
        }
    }
    assert forall|q: K| to_map(t).contains_key(q) implies #[trigger] to_map(t)[q] == to_map(s).insert(k, v)[q] by {
        let a = lemma_find(t, q);
        if a != i {
            assert(s[a] == t[a]);
            lemma_lookup(s, a);
        }
    }
    assert(to_map(t) =~= to_map(s).insert(k, v));
}

/// Dropping row `i` removes its key from the map.
pub proof fn lemma_remove<K, V>(s: Seq<(K, V)>, i: int)
    requires
        keys_distinct(s),
        0 <= i < s.len(),
    ensures
        keys_distinct(s.remove(i)),
        to_map(s.remove(i)) == to_map(s).remove(s[i].0),
{
    let k = s[i].0;
    let t = s.remove(i);
    assert forall|a: int| 0 <= a < t.len() implies #[trigger] t[a] == s[if a < i { a } else { a + 1 }] by {}
    assert forall|a: int, b: int| 0 <= a < t.len() && 0 <= b < t.len() && a != b implies (#[trigger] t[a]).0
        != (#[trigger] t[b]).0 by {
        let a2 = if a < i { a } else { a + 1 };
        let b2 = if b < i { b } else { b + 1 };
        assert(t[a] == s[a2]);
        assert(t[b] == s[b2]);
    }
    assert forall|q: K| #[trigger] to_map(t).contains_key(q) <==> to_map(s).remove(k).contains_key(q) by {
        if to_map(t).contains_key(q) {
            let a = lemma_find(t, q);
            let a2 = if a < i { a } else { a + 1 };
            assert(t[a] == s[a2]);
            assert(s[a2].0 == q);
            assert(has_key(s, q));
            assert(s[a2].0 != s[i].0);
        }
        if to_map(s).remove(k).contains_key(q) {
            let a = lemma_find(s, q);
            assert(a != i);
            let a1 = if a < i { a } else { a - 1 };
            assert(t[a1] == s[a]);
            assert(has_key(t, q));
        }
    }
    assert forall|q: K| to_map(t).contains_key(q) implies #[trigger] to_map(t)[q] == to_map(s).remove(k)[q] by {
        let a = lemma_find(t, q);
        let a2 = if a < i { a } else { a + 1 };
        assert(t[a] == s[a2]);
        lemma_lookup(s, a2);
    }
    assert(to_map(t) =~= to_map(s).remove(k));
}

/// The map has as many keys as the sequence has rows.
pub proof fn lemma_len<K, V>(s: Seq<(K, V)>)
    requires
        keys_distinct(s),
    ensures
        to_map(s).dom().finite(),
        to_map(s).dom().len() == s.len(),
    decreases s.len(),
{
    if s.len() == 0 {
        lemma_empty::<K, V>();
        assert(s =~= Seq::<(K, V)>::empty());
    } else {
        let r = s.drop_last();
        let last = s.last();
        assert forall|i: int, j: int| 0 <= i < r.len() && 0 <= j < r.len() && i != j implies (#[trigger] r[i]).0
            != (#[trigger] r[j]).0 by {
            assert(r[i] == s[i]);
            assert(r[j] == s[j]);
        }
        lemma_len(r);
        if to_map(r).contains_key(last.0) {
            let i = lemma_find(r, last.0);
            assert(r[i] == s[i]);
            assert(s[i].0 == s[s.len() - 1].0);
        }
        assert(s =~= r.push((last.0, last.1)));
        lemma_push(r, last.0, last.1);
        assert(to_map(s).dom() =~= to_map(r).dom().insert(last.0));
    }
}

} // verus!
