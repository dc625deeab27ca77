//! A small map from strings to values that keeps its entries in the order in
//! which their keys first came.

use crate::utils::text::same_text;
use vstd::prelude::*;

verus! {

/// The position of the first entry with key `key`.
pub open spec fn index_of_key<M>(entries: Seq<(Seq<char>, M)>, key: Seq<char>) -> Option<int>
    decreases entries.len(),
{
    if entries.len() == 0 {
        None
    } else {
        match index_of_key(entries.drop_last(), key) {
            Some(i) => Some(i),
            None => if entries.last().0 == key {
                Some(entries.len() - 1)
            } else {
                None
            },
        }
    }
}

/// The value that `entries` holds for `key`.
pub open spec fn lookup<M>(entries: Seq<(Seq<char>, M)>, key: Seq<char>) -> Option<M> {
    match index_of_key(entries, key) {
        Some(i) => Some(entries[i].1),
        None => None,
    }
}

/// `entries` after `key` has been given `value`: the entry of `key` keeps
/// its place where there is one, else a new entry is added at the end.
pub open spec fn put<M>(entries: Seq<(Seq<char>, M)>, key: Seq<char>, value: M) -> Seq<
    (Seq<char>, M),
> {
    match index_of_key(entries, key) {
        Some(i) => entries.update(i, (key, value)),
        None => entries.push((key, value)),
    }
}

/// Where `index_of_key` finds a key, it is the key of that entry and of none before it.
pub proof fn lemma_index_of_key<M>(entries: Seq<(Seq<char>, M)>, key: Seq<char>)
    ensures
        match index_of_key(entries, key) {
            Some(i) => 0 <= i < entries.len() && entries[i].0 == key && forall|j: int|
                0 <= j < i ==> entries[j].0 != key,
            None => forall|j: int| 0 <= j < entries.len() ==> entries[j].0 != key,
        },
    decreases entries.len(),
{
    if entries.len() > 0 {
        let init = entries.drop_last();
        lemma_index_of_key(init, key);
        assert(forall|j: int| 0 <= j < init.len() ==> init[j] == entries[j]);
    }
}

/// No two entries have the same key.
pub open spec fn keys_are_distinct<M>(entries: Seq<(Seq<char>, M)>) -> bool {
    forall|i: int, j: int|
        0 <= i < j < entries.len() ==> (#[trigger] entries[i]).0 != (#[trigger] entries[j]).0
}

/// Among distinct keys, the entry with a key is the one that is found for it.
pub proof fn lemma_index_is_position<M>(entries: Seq<(Seq<char>, M)>, key: Seq<char>, i: int)
    requires
        keys_are_distinct(entries),
        0 <= i < entries.len(),
        entries[i].0 == key,
    ensures
        index_of_key(entries, key) == Some(i),
{
    lemma_index_of_key(entries, key);
    match index_of_key(entries, key) {
        Some(k) => {
            if k < i {
                assert(entries[k].0 != entries[i].0);
            }
        },
        None => {
            assert(entries[i].0 != key);
        },
    }
}

/// Giving a key a value keeps the keys distinct, makes the value the one
/// that is found for the key, and changes what is found for no other key.
pub proof fn lemma_put<M>(entries: Seq<(Seq<char>, M)>, key: Seq<char>, value: M)
    requires
        keys_are_distinct(entries),
    ensures
        keys_are_distinct(put(entries, key, value)),
        lookup(put(entries, key, value), key) == Some(value),
        forall|other: Seq<char>|
            other != key ==> lookup(put(entries, key, value), other) == lookup(entries, other),
        put(entries, key, value).len() == if index_of_key(entries, key) is Some {
            entries.len()
        } else {
            entries.len() + 1
        },
{
    lemma_index_of_key(entries, key);
    let after = put(entries, key, value);
    let at = match index_of_key(entries, key) {
        Some(i) => i,
        None => entries.len() as int,
    };
    assert(after[at] == (key, value));
    assert forall|i: int, j: int| 0 <= i < j < after.len() implies (#[trigger] after[i]).0 != (
    #[trigger] after[j]).0 by {
        if i != at && i < entries.len() {
            assert(after[i] == entries[i]);
        }
        if j != at && j < entries.len() {
            assert(after[j] == entries[j]);
        }
        if i < entries.len() && j < entries.len() {
            assert(entries[i].0 != entries[j].0);
        }
    }
    lemma_index_is_position(after, key, at);
    assert forall|other: Seq<char>| other != key implies lookup(after, other) == lookup(
        entries,
        other,
    ) by {
        lemma_index_of_key(entries, other);
        match index_of_key(entries, other) {
            Some(k) => {
                assert(after[k] == entries[k]);
                lemma_index_is_position(after, other, k);
            },
            None => {
                lemma_index_of_key(after, other);
                match index_of_key(after, other) {
                    Some(k) => {
                        if k < entries.len() && k != at {
                            assert(after[k] == entries[k]);
                        }
                    },
                    None => {},
                }
            },
        }
    }
}

/// A map from strings to values.
#[derive(Debug)]
pub struct StrMap<V> {
    items: Vec<(String, V)>,
}

impl<V: DeepView> StrMap<V> {
    /// The entries of the map, in the order in which their keys first came.
    pub closed spec fn entries(&self) -> Seq<(Seq<char>, V::V)> {
        Seq::new(self.items@.len(), |i: int| (self.items@[i].0@, self.items@[i].1.deep_view()))
    }

    /// The map without entries.
    pub fn new() -> (m: Self)
        ensures
            m.entries() == Seq::<(Seq<char>, V::V)>::empty(),
    {
        let m = StrMap { items: Vec::new() };
        assert(m.entries() =~= Seq::<(Seq<char>, V::V)>::empty());
        m
    }

    /// The number of entries.
    pub fn len(&self) -> (n: usize)
        ensures
            n == self.entries().len(),
    {
        self.items.len()
    }

    /// Whether the map has no entries.
    pub fn is_empty(&self) -> (b: bool)
        ensures
            b == (self.entries().len() == 0),
    {
        self.items.len() == 0
    }

    fn find_key(&self, key: &str) -> (r: Option<usize>)
        ensures
            match r {
                Some(i) => index_of_key(self.entries(), key@) == Some(i as int) && i
                    < self.items@.len(),
                None => index_of_key(self.entries(), key@) is None,
            },
    {
        let mut i: usize = 0;
        assert(self.entries().take(0) =~= Seq::<(Seq<char>, V::V)>::empty());
        while i < self.items.len()
            invariant
                i <= self.items@.len(),
                index_of_key(self.entries().take(i as int), key@) is None,
            decreases self.items@.len() - i,
        {
            let found = same_text(self.items[i].0.as_str(), key);
            proof {
                let upto = self.entries().take(i + 1);
                assert(upto.drop_last() =~= self.entries().take(i as int));
                assert(upto.last().0 == self.items@[i as int].0@);
                if found {
                    Self::lemma_found_stays(self.entries(), key@, i as int);
                }
            }
            if found {
                return Some(i);
            }
            i += 1;
        }
        assert(self.entries().take(i as int) =~= self.entries());
        None
    }

    proof fn lemma_found_stays(entries: Seq<(Seq<char>, V::V)>, key: Seq<char>, i: int)
        requires
            0 <= i < entries.len(),
            index_of_key(entries.take(i + 1), key) == Some(i),
        ensures
            index_of_key(entries, key) == Some(i),
        decreases entries.len(),
    {
        if entries.len() > i + 1 {
            assert(entries.drop_last().take(i + 1) =~= entries.take(i + 1));
            Self::lemma_found_stays(entries.drop_last(), key, i);
        } else {
            assert(entries.take(i + 1) =~= entries);
        }
    }

    /// The value held for `key`.
    pub fn get(&self, key: &str) -> (r: Option<&V>)
        ensures
            match r {
                Some(v) => lookup(self.entries(), key@) == Some(v.deep_view()),
                None => lookup(self.entries(), key@) is None,
            },
    {
        match self.find_key(key) {
            Some(i) => Some(&self.items[i].1),
            None => None,
        }
    }

    /// Gives `key` the value `value`.
    pub fn insert(&mut self, key: String, value: V)
        ensures
            final(self).entries() == put(old(self).entries(), key@, value.deep_view()),
    {
        let ghost before = self.entries();
        let ghost k = key@;
        let ghost v = value.deep_view();
        match self.find_key(key.as_str()) {
            Some(i) => {
                self.items.set(i, (key, value));
                assert(self.entries() =~= before.update(i as int, (k, v)));
            },
            None => {
                self.items.push((key, value));
                assert(self.entries() =~= before.push((k, v)));
            },
        }
    }

    /// The key of the entry at position `i`.
    pub fn key_at(&self, i: usize) -> (k: &String)
        requires
            i < self.entries().len(),
        ensures
            k@ == self.entries()[i as int].0,
    {
        &self.items[i].0
    }

    /// The value of the entry at position `i`.
    pub fn value_at(&self, i: usize) -> (v: &V)
        requires
            i < self.entries().len(),
        ensures
            v.deep_view() == self.entries()[i as int].1,
    {
        &self.items[i].1
    }
}

impl Clone for StrMap<String> {
    fn clone(&self) -> (r: Self)
        ensures
            r.entries() == self.entries(),
    {
        let mut items: Vec<(String, String)> = Vec::new();
        let mut i: usize = 0;
        while i < self.items.len()
            invariant
                i <= self.items@.len(),
                items@.len() == i,
                forall|j: int| 0 <= j < i ==> items@[j].0@ == self.items@[j].0@,
                forall|j: int| 0 <= j < i ==> items@[j].1@ == self.items@[j].1@,
            decreases self.items@.len() - i,
        {
            items.push((self.items[i].0.clone(), self.items[i].1.clone()));
            i += 1;
        }
        let r = StrMap { items };
        assert(r.entries() =~= self.entries());
        r
    }
}

} // verus!
