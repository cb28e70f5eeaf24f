//! A map from strings to strings, kept as a list of entries with distinct
//! keys.

use vstd::prelude::*;
use crate::text::str_eq;

verus! {

/// The map that the entries describe, each later entry overriding earlier
/// entries with the same key.
pub open spec fn map_of(entries: Seq<(String, String)>) -> Map<Seq<char>, Seq<char>>
    decreases entries.len(),
{
    if entries.len() == 0 {
        Map::empty()
    } else {
        map_of(entries.drop_last()).insert(entries.last().0@, entries.last().1@)
    }
}

/// No key occurs twice among the entries.
pub open spec fn distinct_keys(entries: Seq<(String, String)>) -> bool {
    forall|i: int, j: int|
        0 <= i < j < entries.len() ==> #[trigger] entries[i].0@ != #[trigger] entries[j].0@
}

/// With distinct keys, a key is in the map exactly when some entry has it,
/// and it maps to that entry's value.
pub proof fn lemma_map_of_entry(entries: Seq<(String, String)>, k: Seq<char>)
    requires
        distinct_keys(entries),
    ensures
        map_of(entries).contains_key(k) <==> exists|i: int|
            0 <= i < entries.len() && #[trigger] entries[i].0@ == k,
        forall|i: int|
            0 <= i < entries.len() && #[trigger] entries[i].0@ == k ==> map_of(entries)[k]
                == entries[i].1@,
    decreases entries.len(),
{
    if entries.len() > 0 {
        let init = entries.drop_last();
        assert(distinct_keys(init));
        lemma_map_of_entry(init, k);
        if map_of(init).contains_key(k) {
            let i = choose|i: int| 0 <= i < init.len() && #[trigger] init[i].0@ == k;
            assert(entries[i].0@ == k);
        }
        if exists|i: int| 0 <= i < entries.len() && #[trigger] entries[i].0@ == k {
            let i = choose|i: int| 0 <= i < entries.len() && #[trigger] entries[i].0@ == k;
            if i < entries.len() - 1 {
                assert(init[i].0@ == k);
            }
        }
    }
}

/// Replacing the value of an existing key updates the map at that key.
pub proof fn lemma_map_of_update(entries: Seq<(String, String)>, i: int, e: (String, String))
    requires
        distinct_keys(entries),
        0 <= i < entries.len(),
        entries[i].0@ == e.0@,
    ensures
        map_of(entries.update(i, e)) == map_of(entries).insert(e.0@, e.1@),
    decreases entries.len(),
{
    let n = entries.len();
    if i == n - 1 {
        assert(entries.update(i, e).drop_last() =~= entries.drop_last());
        assert(!map_of(entries.drop_last()).contains_key(e.0@)) by {
            lemma_map_of_entry(entries.drop_last(), e.0@);
            if map_of(entries.drop_last()).contains_key(e.0@) {
                let j = choose|j: int|
                    0 <= j < entries.drop_last().len() && #[trigger] entries.drop_last()[j].0@ == e.0@;
                assert(entries[j].0@ == entries[i].0@);
            }
        }
        assert(map_of(entries.update(i, e)) =~= map_of(entries).insert(e.0@, e.1@));
    } else {
        assert(entries.update(i, e).drop_last() =~= entries.drop_last().update(i, e));
        lemma_map_of_update(entries.drop_last(), i, e);
        assert(entries.last().0@ != e.0@);
        assert(map_of(entries.update(i, e)) =~= map_of(entries).insert(e.0@, e.1@));
    }
}

/// Removing the entry of a key removes the key from the map.
pub proof fn lemma_map_of_remove(entries: Seq<(String, String)>, i: int)
    requires
        distinct_keys(entries),
        0 <= i < entries.len(),
    ensures
        map_of(entries.remove(i)) == map_of(entries).remove(entries[i].0@),
    decreases entries.len(),
{
    let n = entries.len();
    let k = entries[i].0@;
    if i == n - 1 {
        assert(entries.remove(i) =~= entries.drop_last());
        assert(!map_of(entries.drop_last()).contains_key(k)) by {
            lemma_map_of_entry(entries.drop_last(), k);
            if map_of(entries.drop_last()).contains_key(k) {
                let j = choose|j: int|
                    0 <= j < entries.drop_last().len() && #[trigger] entries.drop_last()[j].0@ == k;
                assert(entries[j].0@ == entries[i].0@);
            }
        }
        assert(map_of(entries.remove(i)) =~= map_of(entries).remove(k));
    } else {
        assert(entries.remove(i).drop_last() =~= entries.drop_last().remove(i));
        assert(entries.remove(i).last() == entries.last());
        lemma_map_of_remove(entries.drop_last(), i);
        assert(entries.last().0@ != k);
        assert(map_of(entries.remove(i)) =~= map_of(entries).remove(k));
    }
}

/// A map from strings to strings. It stands where a `HashMap<String,
/// String>` would: vstd specifies `HashMap` only for key types whose hashing
/// it models (integers, `bool`), and for `String` keys nothing follows from
/// its operations, not even the size after one `insert`. So this map keeps
/// its entries in a `Vec` with distinct keys and states every operation over
/// its `Map` view.
pub struct StringMap {
    entries: Vec<(String, String)>,
}

impl View for StringMap {
    type V = Map<Seq<char>, Seq<char>>;

    closed spec fn view(&self) -> Map<Seq<char>, Seq<char>> {
        map_of(self.entries@)
    }
}

impl StringMap {
    #[verifier::type_invariant]
    spec fn keys_distinct(self) -> bool {
        distinct_keys(self.entries@)
    }

    /// An empty map.
    pub fn new() -> (m: StringMap)
        ensures
            m@ == Map::<Seq<char>, Seq<char>>::empty(),
    {
        StringMap { entries: Vec::new() }
    }

    fn index_of(&self, key: &str) -> (r: Option<usize>)
        ensures
            r matches Some(i) ==> i < self.entries@.len() && self.entries@[i as int].0@ == key@,
            r is None ==> forall|i: int|
                0 <= i < self.entries@.len() ==> #[trigger] self.entries@[i].0@ != key@,
    {
        for i in 0..self.entries.len()
            invariant
                forall|j: int| 0 <= j < i ==> #[trigger] self.entries@[j].0@ != key@,
        {
            if str_eq(self.entries[i].0.as_str(), key) {
                return Some(i);
            }
        }
        None
    }

    /// Whether `key` is in the map.
    pub fn contains_key(&self, key: &str) -> (r: bool)
        ensures
            r == self@.contains_key(key@),
    {
        proof {
            use_type_invariant(self);
            lemma_map_of_entry(self.entries@, key@);
        }
        self.index_of(key).is_some()
    }

    /// The value of `key`, if it is in the map.
    pub fn get(&self, key: &str) -> (r: Option<&String>)
        ensures
            r matches Some(v) ==> self@.contains_key(key@) && self@[key@] == v@,
            r is None ==> !self@.contains_key(key@),
    {
        proof {
            use_type_invariant(self);
            lemma_map_of_entry(self.entries@, key@);
        }
        match self.index_of(key) {
            Some(i) => Some(&self.entries[i].1),
            None => None,
        }
    }

    /// Sets the value of `key`.
    pub fn insert(&mut self, key: String, value: String)
        ensures
            final(self)@ == old(self)@.insert(key@, value@),
    {
        proof {
            use_type_invariant(&*self);
        }
        match self.index_of(key.as_str()) {
            Some(i) => {
                proof {
                    lemma_map_of_update(self.entries@, i as int, (key, value));
                }
                let mut entries: Vec<(String, String)> = Vec::new();
                std::mem::swap(&mut entries, &mut self.entries);
                let ghost old_entries = entries@;
                entries.set(i, (key, value));
                assert(entries@ == old_entries.update(i as int, (key, value)));
                assert(distinct_keys(entries@));
                self.entries = entries;
            },
            None => {
                let mut entries: Vec<(String, String)> = Vec::new();
                std::mem::swap(&mut entries, &mut self.entries);
                let ghost old_entries = entries@;
                entries.push((key, value));
                assert(entries@.drop_last() == old_entries);
                self.entries = entries;
            },
        }
    }

    /// The map that the entries describe, later entries overriding earlier
    /// ones with the same key.
    pub fn from_entries(entries: &Vec<(String, String)>) -> (m: StringMap)
        ensures
            m@ == map_of(entries@),
    {
        let mut m = StringMap::new();
        for i in 0..entries.len()
            invariant
                m@ == map_of(entries@.take(i as int)),
        {
            assert(entries@.take(i + 1).drop_last() =~= entries@.take(i as int));
            m.insert(entries[i].0.clone(), entries[i].1.clone());
        }
        assert(entries@.take(entries.len() as int) =~= entries@);
        m
    }

    /// The entries of the map, each key once.
    pub fn to_entries(&self) -> (r: Vec<(String, String)>)
        ensures
            map_of(r@) == self@,
            distinct_keys(r@),
    {
        proof {
            use_type_invariant(self);
        }
        let mut r: Vec<(String, String)> = Vec::new();
        for i in 0..self.entries.len()
            invariant
                r@.len() == i,
                forall|j: int| 0 <= j < i ==> #[trigger] r@[j] == self.entries@[j],
        {
            let k = self.entries[i].0.clone();
            let v = self.entries[i].1.clone();
            r.push((k, v));
        }
        assert(r@ =~= self.entries@);
        r
    }

    /// Removes `key` from the map.
    pub fn remove(&mut self, key: &str)
        ensures
            final(self)@ == old(self)@.remove(key@),
    {
        proof {
            use_type_invariant(&*self);
            lemma_map_of_entry(self.entries@, key@);
        }
        match self.index_of(key) {
            Some(i) => {
                proof {
                    lemma_map_of_remove(self.entries@, i as int);
                }
                let mut entries: Vec<(String, String)> = Vec::new();
                std::mem::swap(&mut entries, &mut self.entries);
                let ghost old_entries = entries@;
                let _ = entries.remove(i);
                assert(entries@ == old_entries.remove(i as int));
                assert(distinct_keys(entries@));
                self.entries = entries;
            },
            None => {
                assert(self@ =~= old(self)@.remove(key@));
            },
        }
    }
}

} // verus!
