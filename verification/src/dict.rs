//! An insertion-ordered dictionary keyed by text.
//!
//! Every key occurs at most once; a value stored under a key that is already
//! present takes the place of the earlier one and keeps its position.

use vstd::prelude::*;

verus! {

/// No two entries share a key.
pub open spec fn distinct_keys<W>(items: Seq<(Seq<char>, W)>) -> bool {
    forall|i: int, j: int| 0 <= i < j < items.len() ==> items[i].0 != items[j].0
}

/// Some entry of `items` has the key `key`.
pub open spec fn has_key<W>(items: Seq<(Seq<char>, W)>, key: Seq<char>) -> bool {
    exists|i: int| 0 <= i < items.len() && #[trigger] items[i].0 == key
}

/// The position of an entry with the key `key`.
pub open spec fn key_index<W>(items: Seq<(Seq<char>, W)>, key: Seq<char>) -> int {
    choose|i: int| 0 <= i < items.len() && #[trigger] items[i].0 == key
}

/// `items` with `value` stored under `key`: in place where the key is
/// present, at the end where it is not.
pub open spec fn put<W>(items: Seq<(Seq<char>, W)>, key: Seq<char>, value: W) -> Seq<
    (Seq<char>, W),
> {
    if has_key(items, key) {
        items.update(key_index(items, key), (key, value))
    } else {
        items.push((key, value))
    }
}

/// `items` without the entry stored under `key`.
pub open spec fn cut<W>(items: Seq<(Seq<char>, W)>, key: Seq<char>) -> Seq<(Seq<char>, W)> {
    if has_key(items, key) {
        items.remove(key_index(items, key))
    } else {
        items
    }
}

/// The mapping that a list of entries with distinct keys stands for.
pub open spec fn as_map<W>(items: Seq<(Seq<char>, W)>) -> Map<Seq<char>, W> {
    Map::new(|k: Seq<char>| has_key(items, k), |k: Seq<char>| items[key_index(items, k)].1)
}

/// Storing a value keeps the keys distinct and acts on the mapping as
/// `Map::insert` does.
pub proof fn lemma_put<W>(items: Seq<(Seq<char>, W)>, key: Seq<char>, value: W)
    requires
        distinct_keys(items),
    ensures
        distinct_keys(put(items, key, value)),
        as_map(put(items, key, value)) == as_map(items).insert(key, value),
        has_key(items, key) ==> put(items, key, value).len() == items.len(),
        !has_key(items, key) ==> put(items, key, value).len() == items.len() + 1,
{
    let after = put(items, key, value);
    if has_key(items, key) {
        let p = key_index(items, key);
        assert forall|k: Seq<char>| has_key(after, k) == (k == key || has_key(items, k)) by {
            if has_key(after, k) {
                let i = key_index(after, k);
                if i != p {
                    assert(items[i].0 == k);
                }
            }
            if k == key {
                assert(after[p].0 == k);
            } else if has_key(items, k) {
                let i = key_index(items, k);
                assert(after[i].0 == k);
            }
        }
        assert forall|k: Seq<char>| has_key(after, k) implies #[trigger] as_map(after)[k]
            == as_map(items).insert(key, value)[k] by {
            let i = key_index(after, k);
            if k == key {
                assert(after[p].0 == k);
                assert(i == p);
            } else {
                assert(items[i].0 == k);
                let j = key_index(items, k);
                assert(i == j);
            }
        }
    } else {
        let p = items.len() as int;
        assert forall|k: Seq<char>| has_key(after, k) == (k == key || has_key(items, k)) by {
            if has_key(after, k) {
                let i = key_index(after, k);
                if i != p {
                    assert(items[i].0 == k);
                }
            }
            if k == key {
                assert(after[p].0 == k);
            } else if has_key(items, k) {
                let i = key_index(items, k);
                assert(after[i].0 == k);
            }
        }
        assert forall|k: Seq<char>| has_key(after, k) implies #[trigger] as_map(after)[k]
            == as_map(items).insert(key, value)[k] by {
            let i = key_index(after, k);
            if k == key {
                assert(after[p].0 == k);
                if i != p {
                    assert(items[i].0 == k);
                }
            } else {
                assert(items[i].0 == k);
                let j = key_index(items, k);
                assert(i == j);
            }
        }
    }
    assert(as_map(after) =~= as_map(items).insert(key, value));
}

/// Removing a key keeps the keys distinct and acts on the mapping as
/// `Map::remove` does.
pub proof fn lemma_cut<W>(items: Seq<(Seq<char>, W)>, key: Seq<char>)
    requires
        distinct_keys(items),
    ensures
        distinct_keys(cut(items, key)),
        as_map(cut(items, key)) == as_map(items).remove(key),
{
    let after = cut(items, key);
    if has_key(items, key) {
        let p = key_index(items, key);
        assert forall|k: Seq<char>| has_key(after, k) == (k != key && has_key(items, k)) by {
            if has_key(after, k) {
                let i = key_index(after, k);
                if i < p {
                    assert(items[i].0 == k);
                } else {
                    assert(items[i + 1].0 == k);
                }
            }
            if k != key && has_key(items, k) {
                let i = key_index(items, k);
                if i < p {
                    assert(after[i].0 == k);
                } else {
                    assert(after[i - 1].0 == k);
                }
            }
        }
        assert forall|k: Seq<char>| has_key(after, k) implies #[trigger] as_map(after)[k]
            == as_map(items).remove(key)[k] by {
            let i = key_index(after, k);
            let j = key_index(items, k);
            if i < p {
                assert(items[i].0 == k);
            } else {
                assert(items[i + 1].0 == k);
            }
        }
        assert(as_map(after) =~= as_map(items).remove(key));
    } else {
        assert(as_map(after) =~= as_map(items).remove(key));
    }
}

/// A dictionary from text to values of type `V`, in insertion order.
#[derive(Debug)]
pub struct Dict<V: View> {
    items: Vec<(String, V)>,
}

impl<V: View> Dict<V> {
    #[verifier::type_invariant]
    spec fn inv(self) -> bool {
        distinct_keys(self.entries())
    }

    /// The entries in order, each key and value by its view.
    pub closed spec fn entries(&self) -> Seq<(Seq<char>, V::V)> {
        self.items@.map_values(|e: (String, V)| (e.0@, e.1@))
    }

    /// An empty dictionary.
    pub fn new() -> (r: Self)
        ensures
            r.entries() == Seq::<(Seq<char>, V::V)>::empty(),
            r@ == Map::<Seq<char>, V::V>::empty(),
    {
        let r = Dict { items: Vec::new() };
        assert(r.entries() =~= Seq::<(Seq<char>, V::V)>::empty());
        assert(r@ =~= Map::<Seq<char>, V::V>::empty());
        r
    }

    /// The number of entries.
    pub fn len(&self) -> (n: usize)
        ensures
            n == self.entries().len(),
            distinct_keys(self.entries()),
    {
        proof {
            use_type_invariant(self);
        }
        self.items.len()
    }

    /// Whether there is no entry.
    pub fn is_empty(&self) -> (b: bool)
        ensures
            b == (self.entries().len() == 0),
    {
        self.items.len() == 0
    }

    /// The position of `key` among the entries, if it is present.
    fn position(&self, key: &str) -> (r: Option<usize>)
        ensures
            match r {
                Some(i) => i < self.entries().len() && self.entries()[i as int].0 == key@
                    && has_key(self.entries(), key@) && key_index(self.entries(), key@) == i,
                None => !has_key(self.entries(), key@),
            },
    {
        proof {
            use_type_invariant(self);
        }
        let wanted = key.to_owned();
        let mut i: usize = 0;
        while i < self.items.len()
            invariant
                i <= self.items.len(),
                wanted@ == key@,
                distinct_keys(self.entries()),
                forall|j: int| 0 <= j < i ==> self.entries()[j].0 != key@,
            decreases self.items.len() - i,
        {
            if self.items[i].0 == wanted {
                assert(self.entries()[i as int].0 == key@);
                let ghost k = key_index(self.entries(), key@);
                assert(self.entries()[k].0 == key@);
                assert(k == i);
                return Some(i);
            }
            i += 1;
        }
        None
    }

    /// Whether `key` is present.
    pub fn contains_key(&self, key: &str) -> (b: bool)
        ensures
            b == self@.contains_key(key@),
            b == has_key(self.entries(), key@),
    {
        self.position(key).is_some()
    }

    /// The value stored under `key`.
    pub fn get(&self, key: &str) -> (r: Option<&V>)
        ensures
            match r {
                Some(v) => self@.contains_key(key@) && v@ == self@[key@],
                None => !self@.contains_key(key@),
            },
    {
        match self.position(key) {
            Some(i) => Some(&self.items[i].1),
            None => None,
        }
    }

    /// The key of the entry at position `i`.
    pub fn key_at(&self, i: usize) -> (k: &String)
        requires
            i < self.entries().len(),
        ensures
            k@ == self.entries()[i as int].0,
    {
        &self.items[i].0
    }

    /// The value of the entry at position `i`.
    pub fn value_at(&self, i: usize) -> (v: &V)
        requires
            i < self.entries().len(),
        ensures
            v@ == self.entries()[i as int].1,
    {
        &self.items[i].1
    }

    /// Stores `value` under `key`, in place of an earlier value if there is one.
    pub fn insert(&mut self, key: String, value: V)
        ensures
            final(self).entries() == put(old(self).entries(), key@, value@),
            final(self)@ == old(self)@.insert(key@, value@),
    {
        proof {
            use_type_invariant(&*self);
            lemma_put(self.entries(), key@, value@);
        }
        let ghost before = self.entries();
        match self.position(key.as_str()) {
            Some(i) => {
                let mut items: Vec<(String, V)> = Vec::new();
                std::mem::swap(&mut items, &mut self.items);
                items.push((key, value));
                let _ = items.swap_remove(i);
                assert(items@.map_values(|e: (String, V)| (e.0@, e.1@)) =~= put(before, key@, value@));
                self.items = items;
            },
            None => {
                let mut items: Vec<(String, V)> = Vec::new();
                std::mem::swap(&mut items, &mut self.items);
                items.push((key, value));
                assert(items@.map_values(|e: (String, V)| (e.0@, e.1@)) =~= put(before, key@, value@));
                self.items = items;
            },
        }
    }

    /// Removes the entry stored under `key`, if there is one.
    pub fn remove(&mut self, key: &str)
        ensures
            final(self).entries() == cut(old(self).entries(), key@),
            final(self)@ == old(self)@.remove(key@),
    {
        proof {
            use_type_invariant(&*self);
            lemma_cut(self.entries(), key@);
        }
        let ghost before = self.entries();
        match self.position(key) {
            Some(i) => {
                let mut items: Vec<(String, V)> = Vec::new();
                std::mem::swap(&mut items, &mut self.items);
                let _ = items.remove(i);
                assert(items@.map_values(|e: (String, V)| (e.0@, e.1@)) =~= cut(before, key@));
                self.items = items;
            },
            None => {},
        }
    }
}

impl<V: View> View for Dict<V> {
    type V = Map<Seq<char>, V::V>;

    open spec fn view(&self) -> Map<Seq<char>, V::V> {
        as_map(self.entries())
    }
}

} // verus!
