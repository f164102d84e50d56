//! An insertion-ordered map from string keys to values.
//!
//! Declaration order is significant everywhere in a schema (fields,
//! models, services, methods), so every named collection in the tree is
//! one of these maps: lookup is by key, iteration follows insertion
//! order, and inserting a key that is already present replaces the value
//! but keeps the key's original position.

use crate::text::str_eq;
use vstd::prelude::*;

verus! {

/// Index of the first entry of `m` whose key is `key`.
pub open spec fn ohm_find<A>(m: Seq<(Seq<char>, A)>, key: Seq<char>) -> Option<int>
    decreases m.len(),
{
    if m.len() == 0 {
        None
    } else if m[0].0 == key {
        Some(0int)
    } else {
        match ohm_find(m.skip(1), key) {
            Some(i) => Some(i + 1),
            None => None,
        }
    }
}

pub open spec fn ohm_contains<A>(m: Seq<(Seq<char>, A)>, key: Seq<char>) -> bool {
    ohm_find(m, key) is Some
}

pub open spec fn ohm_get<A>(m: Seq<(Seq<char>, A)>, key: Seq<char>) -> Option<A> {
    match ohm_find(m, key) {
        Some(i) => Some(m[i].1),
        None => None,
    }
}

/// The entries after inserting `key -> value`: a key already present
/// keeps its first position and has its value replaced; a new key is
/// appended at the back.
pub open spec fn ohm_insert<A>(m: Seq<(Seq<char>, A)>, key: Seq<char>, value: A) -> Seq<
    (Seq<char>, A),
> {
    match ohm_find(m, key) {
        Some(i) => m.update(i, (key, value)),
        None => m.push((key, value)),
    }
}

/// What `ohm_find` returns: the index it yields holds the key, every
/// earlier entry does not, and a `None` means the key is absent.
pub proof fn lemma_ohm_find<A>(m: Seq<(Seq<char>, A)>, key: Seq<char>)
    ensures
        match ohm_find(m, key) {
            Some(i) => 0 <= i < m.len() && m[i].0 == key && (forall|j: int|
                0 <= j < i ==> m[j].0 != key),
            None => forall|j: int| 0 <= j < m.len() ==> m[j].0 != key,
        },
    decreases m.len(),
{
    if m.len() != 0 && m[0].0 != key {
        lemma_ohm_find(m.skip(1), key);
        assert(forall|j: int| 0 <= j < m.len() - 1 ==> m.skip(1)[j] == m[j + 1]);
        match ohm_find(m.skip(1), key) {
            Some(i) => {
                assert(m.skip(1)[i] == m[i + 1]);
                assert forall|j: int| 0 <= j < i + 1 implies m[j].0 != key by {
                    if j > 0 {
                        assert(m.skip(1)[j - 1] == m[j]);
                    }
                }
            },
            None => {
                assert forall|j: int| 0 <= j < m.len() implies m[j].0 != key by {
                    if j > 0 {
                        assert(m.skip(1)[j - 1] == m[j]);
                    }
                }
            },
        }
    }
}

/// The views of a sequence of owned entries.
pub open spec fn entry_views<V: View>(es: Seq<(String, V)>) -> Seq<(Seq<char>, V::V)> {
    es.map_values(|e: (String, V)| (e.0@, e.1@))
}

/// A map whose iteration order is the order in which keys were first
/// inserted.
#[derive(Debug, PartialEq, Eq)]
pub struct OrderedHashMap<V> {
    entries: Vec<(String, V)>,
}

impl<V: View> View for OrderedHashMap<V> {
    type V = Seq<(Seq<char>, V::V)>;

    closed spec fn view(&self) -> Seq<(Seq<char>, V::V)> {
        Seq::new(self.entries@.len(), |i: int| (self.entries@[i].0@, self.entries@[i].1@))
    }
}

impl<V: View> Default for OrderedHashMap<V> {
    fn default() -> (r: Self)
        ensures
            r@ == Seq::<(Seq<char>, V::V)>::empty(),
    {
        Self::new()
    }
}

impl<V: View> OrderedHashMap<V> {
    pub fn new() -> (r: Self)
        ensures
            r@ == Seq::<(Seq<char>, V::V)>::empty(),
    {
        let r = OrderedHashMap { entries: Vec::new() };
        proof {
            assert(r@ =~= Seq::<(Seq<char>, V::V)>::empty());
        }
        r
    }

    pub fn len(&self) -> (r: usize)
        ensures
            r == self@.len(),
    {
        self.entries.len()
    }

    /// Position of the first entry with this key, if any.
    fn find_index(&self, key: &str) -> (r: Option<usize>)
        ensures
            match r {
                Some(i) => i < self@.len() && ohm_find(self@, key@) == Some(i as int),
                None => ohm_find(self@, key@) is None,
            },
    {
        let n = self.entries.len();
        let mut i: usize = 0;
        while i < n
            invariant
                n == self@.len(),
                0 <= i <= n,
                forall|j: int| 0 <= j < i ==> self@[j].0 != key@,
            decreases n - i,
        {
            if str_eq(self.entries[i].0.as_str(), key) {
                proof {
                    lemma_ohm_find(self@, key@);
                    assert(self@[i as int].0 == key@);
                    assert(ohm_find(self@, key@) == Some(i as int)) by {
                        match ohm_find(self@, key@) {
                            Some(k) => {
                                if k < i as int {
                                    assert(self@[k].0 == key@);
                                } else if k > i as int {
                                    assert(self@[i as int].0 != key@);
                                }
                            },
                            None => {
                                assert(self@[i as int].0 != key@);
                            },
                        }
                    }
                }
                return Some(i);
            }
            i += 1;
        }
        proof {
            lemma_ohm_find(self@, key@);
        }
        None
    }

    /// Whether the key is present.
    pub fn contains_key(&self, key: &str) -> (r: bool)
        ensures
            r == ohm_contains(self@, key@),
    {
        self.find_index(key).is_some()
    }

    /// The value stored under this key, if any.
    pub fn get(&self, key: &str) -> (r: Option<&V>)
        ensures
            match r {
                Some(v) => ohm_get(self@, key@) == Some(v@),
                None => ohm_get(self@, key@) is None,
            },
    {
        match self.find_index(key) {
            Some(i) => Some(&self.entries[i].1),
            None => None,
        }
    }

    /// Inserts `key -> value`; a key already present keeps its first
    /// position and has its value replaced.
    pub fn insert(&mut self, key: String, value: V)
        ensures
            final(self)@ == ohm_insert(old(self)@, key@, value@),
    {
        match self.find_index(key.as_str()) {
            Some(i) => {
                self.entries.set(i, (key, value));
                proof {
                    assert(self@ =~= ohm_insert(old(self)@, key@, value@));
                }
            },
            None => {
                self.entries.push((key, value));
                proof {
                    assert(self@ =~= ohm_insert(old(self)@, key@, value@));
                }
            },
        }
    }

    /// Key of the entry at position `i` in insertion order.
    pub fn key_at(&self, i: usize) -> (r: &String)
        requires
            i < self@.len(),
        ensures
            r@ == self@[i as int].0,
    {
        &self.entries[i].0
    }

    /// Value of the entry at position `i` in insertion order.
    pub fn value_at(&self, i: usize) -> (r: &V)
        requires
            i < self@.len(),
        ensures
            r@ == self@[i as int].1,
    {
        &self.entries[i].1
    }

    /// Dissolves the map into its entries, in insertion order.
    pub fn into_entries(self) -> (r: Vec<(String, V)>)
        ensures
            entry_views(r@) == self@,
    {
        proof {
            assert(entry_views(self.entries@) =~= self@);
        }
        self.entries
    }

    /// All entries as key/value reference pairs, in insertion order.
    pub fn iter(&self) -> (r: Vec<(&String, &V)>)
        ensures
            r@.len() == self@.len(),
            forall|i: int|
                0 <= i < r@.len() ==> r@[i].0@ == self@[i].0 && r@[i].1@ == self@[i].1,
    {
        let n = self.entries.len();
        let mut r: Vec<(&String, &V)> = Vec::new();
        let mut i: usize = 0;
        while i < n
            invariant
                n == self@.len(),
                0 <= i <= n,
                r@.len() == i,
                forall|j: int|
                    0 <= j < i ==> r@[j].0@ == self@[j].0 && r@[j].1@ == self@[j].1,
            decreases n - i,
        {
            r.push((&self.entries[i].0, &self.entries[i].1));
            i += 1;
        }
        r
    }
}

} // verus!
