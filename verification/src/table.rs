//! A keyed table held in memory: rows under a two-part key, an owner's
//! identifier and a name, with at most one row per key.

use crate::assoc::{keys_distinct, lemma_empty, lemma_find, lemma_len, lemma_lookup, lemma_push, lemma_remove, lemma_update, to_map};
use vstd::prelude::*;

verus! {

/// The key of a row, as contracts see it: the owner's identifier and the
/// characters of the name.
pub type Key = (u128, Seq<char>);

/// One row: its two-part key and what is stored under it.
pub struct Row<V> {
    pub id: u128,
    pub name: String,
    pub value: V,
}

impl<V> Row<V> {
    /// The row's key.
    pub open spec fn key(&self) -> Key {
        (self.id, self.name@)
    }
}

/// The rows of a table. A well-formed table holds no key twice; it stands for
/// the map from the keys to the stored values.
pub struct Table<V> {
    rows: Vec<Row<V>>,
}

impl<V> View for Table<V> {
    type V = Map<Key, V>;

    /// The map from each key to the value stored under it.
    closed spec fn view(&self) -> Map<Key, V> {
        to_map(self.entries())
    }
}

impl<V> Table<V> {
    /// The rows in the order in which the table keeps them.
    pub closed spec fn entries(&self) -> Seq<(Key, V)> {
        Seq::new(self.rows@.len(), |i: int| (self.rows@[i].key(), self.rows@[i].value))
    }

    /// No key occurs twice.
    pub closed spec fn wf(&self) -> bool {
        keys_distinct(self.entries())
    }

    /// Each row is what the map holds under its key, and each key of the map
    /// sits in a row.
    pub proof fn lemma_rows_and_map(&self)
        requires
            self.wf(),
        ensures
            self@.dom().finite(),
            self@.dom().len() == self.entries().len(),
            forall|i: int|
                0 <= i < self.entries().len() ==> self@.contains_key((#[trigger] self.entries()[i]).0)
                    && self@[self.entries()[i].0] == self.entries()[i].1,
            forall|k: Key| #[trigger]
                self@.contains_key(k) ==> exists|i: int|
                    0 <= i < self.entries().len() && #[trigger] self.entries()[i] == (k, self@[k]),
    {
        let s = self.entries();
        lemma_len(s);
        assert forall|i: int| 0 <= i < s.len() implies self@.contains_key((#[trigger] s[i]).0) && self@[s[i].0]
            == s[i].1 by {
            lemma_lookup(s, i);
        }
        assert forall|k: Key| #[trigger] self@.contains_key(k) implies exists|i: int|
            0 <= i < s.len() && #[trigger] s[i] == (k, self@[k]) by {
            let i = lemma_find(s, k);
            assert(s[i] == (k, self@[k]));
        }
    }

    /// An empty table.
    pub fn new() -> (t: Self)
        ensures
            t.wf(),
            t.entries() == Seq::<(Key, V)>::empty(),
            t@ == Map::<Key, V>::empty(),
    {
        let t = Table { rows: Vec::new() };
        proof {
            lemma_empty::<Key, V>();
            assert(t.entries() =~= Seq::<(Key, V)>::empty());
        }
        t
    }

    /// The number of rows.
    pub fn len(&self) -> (n: usize)
        requires
            self.wf(),
        ensures
            n == self.entries().len(),
            self@.dom().finite(),
            n == self@.dom().len(),
    {
        proof {
            lemma_len(self.entries());
        }
        self.rows.len()
    }

    /// The position of the row under `(id, name)`, if the table holds one.
    pub fn position(&self, id: u128, name: &String) -> (r: Option<usize>)
        requires
            self.wf(),
        ensures
            match r {
                Some(i) => i < self.entries().len() && self.entries()[i as int].0 == (id, name@)
                    && self@.contains_key((id, name@)) && self@[(id, name@)] == self.entries()[i as int].1,
                None => !self@.contains_key((id, name@)),
            },
    {
        let mut i: usize = 0;
        while i < self.rows.len()
            invariant
                i <= self.rows@.len(),
                self.wf(),
                forall|j: int| 0 <= j < i ==> (#[trigger] self.entries()[j]).0 != (id, name@),
            decreases self.rows@.len() - i,
        {
            if self.rows[i].id == id && self.rows[i].name == *name {
                proof {
                    lemma_lookup(self.entries(), i as int);
                }
                return Some(i);
            }
            i += 1;
        }
        proof {
            if self@.contains_key((id, name@)) {
                let j = lemma_find(self.entries(), (id, name@));
                assert(self.entries()[j].0 == (id, name@));
            }
        }
        None
    }

    /// The row at position `i`.
    pub fn row(&self, i: usize) -> (r: &Row<V>)
        requires
            self.wf(),
            i < self.entries().len(),
        ensures
            r.key() == self.entries()[i as int].0,
            r.value == self.entries()[i as int].1,
            self@.contains_key(r.key()),
            self@[r.key()] == r.value,
    {
        proof {
            lemma_lookup(self.entries(), i as int);
        }
        &self.rows[i]
    }

    /// Stores `value` under `(id, name)`: in a new row where the table holds
    /// no such key, else in place of what was stored there, which is handed
    /// back.
    pub fn insert(&mut self, id: u128, name: String, value: V) -> (previous: Option<V>)
        requires
            old(self).wf(),
        ensures
            final(self).wf(),
            final(self)@ == old(self)@.insert((id, name@), value),
            match previous {
                Some(v) => old(self)@.contains_key((id, name@)) && old(self)@[(id, name@)] == v,
                None => !old(self)@.contains_key((id, name@)) && final(self).entries() == old(self).entries().push(
                    ((id, name@), value),
                ),
            },
    {
        match self.position(id, &name) {
            Some(i) => Some(self.replace(i, value)),
            None => {
                let ghost before = self.entries();
                let ghost k: Key = (id, name@);
                self.rows.push(Row { id, name, value });
                proof {
                    assert(self.entries() =~= before.push((k, value)));
                    lemma_push(before, k, value);
                }
                None
            },
        }
    }

    /// Replaces what is stored in the row at position `i`, and hands back what
    /// was stored there.
    pub fn replace(&mut self, i: usize, value: V) -> (previous: V)
        requires
            old(self).wf(),
            i < old(self).entries().len(),
        ensures
            final(self).wf(),
            final(self).entries() == old(self).entries().update(
                i as int,
                (old(self).entries()[i as int].0, value),
            ),
            final(self)@ == old(self)@.insert(old(self).entries()[i as int].0, value),
            previous == old(self).entries()[i as int].1,
    {
        let ghost before = self.entries();
        let row = self.rows.remove(i);
        let Row { id, name, value: previous } = row;
        self.rows.insert(i, Row { id, name, value });
        proof {
            assert(self.entries() =~= before.update(i as int, (before[i as int].0, value)));
            lemma_update(before, i as int, value);
        }
        previous
    }

    /// Takes the row at position `i` out of the table.
    pub fn remove(&mut self, i: usize) -> (r: Row<V>)
        requires
            old(self).wf(),
            i < old(self).entries().len(),
        ensures
            final(self).wf(),
            final(self).entries() == old(self).entries().remove(i as int),
            final(self)@ == old(self)@.remove(old(self).entries()[i as int].0),
            r.key() == old(self).entries()[i as int].0,
            r.value == old(self).entries()[i as int].1,
    {
        let ghost before = self.entries();
        let row = self.rows.remove(i);
        proof {
            assert(self.entries() =~= before.remove(i as int));
            lemma_remove(before, i as int);
        }
        row
    }
}

} // verus!
