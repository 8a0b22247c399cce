//! String-keyed tables: the defines of the preprocessor and the labels of
//! the parser.
//!
//! A table keeps its entries in the order in which their keys came, with
//! no key twice. Contracts speak of a table through its view, a `Map` from
//! the characters of a key to the value.

use crate::text::str_eq;
use vstd::prelude::*;

verus! {

/// The characters of the key of each entry.
pub open spec fn keys_of<V>(entries: Seq<(String, V)>) -> Seq<Seq<char>> {
    Seq::new(entries.len(), |i: int| entries[i].0@)
}

/// The characters of the text of each entry.
pub open spec fn texts_of(entries: Seq<(String, String)>) -> Seq<Seq<char>> {
    Seq::new(entries.len(), |i: int| entries[i].1@)
}

/// The value of each entry.
pub open spec fn values_of<V>(entries: Seq<(String, V)>) -> Seq<V> {
    Seq::new(entries.len(), |i: int| entries[i].1)
}

/// No key occurs twice in `keys`.
pub open spec fn distinct(keys: Seq<Seq<char>>) -> bool {
    forall|i: int, j: int| 0 <= i < keys.len() && 0 <= j < keys.len() && keys[i] == keys[j] ==> i == j
}

/// A position of `k` in `keys`.
pub open spec fn position_of(keys: Seq<Seq<char>>, k: Seq<char>) -> int {
    choose|i: int| 0 <= i < keys.len() && keys[i] == k
}

/// The map that sends each of `keys` to the value at the same position.
pub open spec fn table_map<V>(keys: Seq<Seq<char>>, values: Seq<V>) -> Map<Seq<char>, V> {
    Map::new(|k: Seq<char>| keys.contains(k), |k: Seq<char>| values[position_of(keys, k)])
}

/// A key that `keys` holds at position `i` is found there.
pub proof fn lemma_position_of(keys: Seq<Seq<char>>, i: int)
    requires
        distinct(keys),
        0 <= i < keys.len(),
    ensures
        keys.contains(keys[i]),
        position_of(keys, keys[i]) == i,
{
}

/// A table with one more entry, under a new key, is the old map with that
/// entry inserted; its domain is one larger.
pub proof fn lemma_table_push<V>(keys: Seq<Seq<char>>, values: Seq<V>, k: Seq<char>, v: V)
    requires
        distinct(keys),
        keys.len() == values.len(),
        !keys.contains(k),
    ensures
        distinct(keys.push(k)),
        table_map(keys.push(k), values.push(v)) == table_map(keys, values).insert(k, v),
        table_map(keys, values).dom().finite() ==> table_map(keys.push(k), values.push(v)).dom().len()
            == table_map(keys, values).dom().len() + 1,
{
    let keys2 = keys.push(k);
    let values2 = values.push(v);
    assert forall|i: int, j: int|
        0 <= i < keys2.len() && 0 <= j < keys2.len() && keys2[i] == keys2[j] implies i == j by {
        if i < keys.len() {
            assert(keys.contains(keys[i]));
        }
        if j < keys.len() {
            assert(keys.contains(keys[j]));
        }
    }
    let a = table_map(keys2, values2);
    let b = table_map(keys, values).insert(k, v);
    assert forall|q: Seq<char>| a.dom().contains(q) <==> b.dom().contains(q) by {
        if keys2.contains(q) {
            let i = choose|i: int| 0 <= i < keys2.len() && keys2[i] == q;
            if i < keys.len() {
                assert(keys.contains(q));
            }
        }
        if keys.contains(q) {
            let i = choose|i: int| 0 <= i < keys.len() && keys[i] == q;
            assert(keys2[i] == q);
        }
        if q == k {
            assert(keys2[keys.len() as int] == q);
        }
    }
    assert forall|q: Seq<char>| a.dom().contains(q) implies a[q] == b[q] by {
        let i = position_of(keys2, q);
        if q == k {
            assert(keys2[keys.len() as int] == k);
        } else {
            assert(i < keys.len());
            assert(keys[i] == q);
            lemma_position_of(keys, i);
        }
    }
    assert(a =~= b);
}

/// A table with the value at position `i` replaced is the old map with the
/// new value inserted under the key at `i`; its domain is the same.
pub proof fn lemma_table_update<V>(keys: Seq<Seq<char>>, values: Seq<V>, i: int, v: V)
    requires
        distinct(keys),
        keys.len() == values.len(),
        0 <= i < keys.len(),
    ensures
        table_map(keys, values.update(i, v)) == table_map(keys, values).insert(keys[i], v),
        table_map(keys, values.update(i, v)).dom() == table_map(keys, values).dom(),
{
    let a = table_map(keys, values.update(i, v));
    let b = table_map(keys, values).insert(keys[i], v);
    assert(keys.contains(keys[i]));
    assert forall|q: Seq<char>| a.dom().contains(q) implies a[q] == b[q] by {
        let j = position_of(keys, q);
        if q == keys[i] {
            lemma_position_of(keys, i);
        }
    }
    assert(a =~= b);
    assert(a.dom() =~= table_map(keys, values).dom());
}

/// The position of `key` among the keys of `entries`.
fn find_key<V>(entries: &Vec<(String, V)>, key: &str) -> (at: Option<usize>)
    ensures
        match at {
            Some(i) => i < entries@.len() && entries@[i as int].0@ == key@,
            None => !keys_of(entries@).contains(key@),
        },
{
    let mut i: usize = 0;
    while i < entries.len()
        invariant
            i <= entries@.len(),
            forall|j: int| 0 <= j < i ==> entries@[j].0@ != key@,
        decreases entries@.len() - i,
    {
        if str_eq(entries[i].0.as_str(), key) {
            return Some(i);
        }
        i += 1;
    }
    assert forall|j: int| 0 <= j < keys_of(entries@).len() implies keys_of(entries@)[j] != key@ by {}
    None
}

/// A table from names to replacement texts.
#[derive(Debug, PartialEq, Eq)]
pub struct HashTable {
    entries: Vec<(String, String)>,
}

impl View for HashTable {
    type V = Map<Seq<char>, Seq<char>>;

    closed spec fn view(&self) -> Map<Seq<char>, Seq<char>> {
        table_map(keys_of(self.entries@), texts_of(self.entries@))
    }
}

impl HashTable {
    #[verifier::type_invariant]
    spec fn well_formed(self) -> bool {
        &&& distinct(keys_of(self.entries@))
        &&& self@.dom().finite()
        &&& self@.dom().len() == self.entries@.len()
    }

    /// The empty table.
    pub fn new() -> (table: HashTable)
        ensures
            table@ == Map::<Seq<char>, Seq<char>>::empty(),
    {
        let entries: Vec<(String, String)> = Vec::new();
        assert(table_map(keys_of(entries@), texts_of(entries@)) =~= Map::<
            Seq<char>,
            Seq<char>,
        >::empty());
        HashTable { entries }
    }

    /// The number of entries.
    pub fn len(&self) -> (n: usize)
        ensures
            self@.dom().finite(),
            n == self@.dom().len(),
    {
        proof {
            use_type_invariant(self);
        }
        self.entries.len()
    }

    /// Whether the table has no entry.
    pub fn is_empty(&self) -> (empty: bool)
        ensures
            empty == (self@ == Map::<Seq<char>, Seq<char>>::empty()),
    {
        proof {
            use_type_invariant(self);
            if self.entries@.len() == 0 {
                assert(self@ =~= Map::<Seq<char>, Seq<char>>::empty());
            } else {
                assert(keys_of(self.entries@)[0] == self.entries@[0].0@);
                assert(self@.dom().contains(self.entries@[0].0@));
            }
        }
        self.entries.len() == 0
    }

    /// The text stored under `key`, if any.
    pub fn get<'a>(&'a self, key: &str) -> (value: Option<&'a str>)
        ensures
            match value {
                Some(text) => self@.contains_key(key@) && self@[key@] == text@,
                None => !self@.contains_key(key@),
            },
    {
        proof {
            use_type_invariant(self);
        }
        match find_key(&self.entries, key) {
            Some(i) => {
                proof {
                    assert(keys_of(self.entries@)[i as int] == key@);
                    lemma_position_of(keys_of(self.entries@), i as int);
                }
                Some(self.entries[i].1.as_str())
            },
            None => None,
        }
    }

    /// Stores `value` under `key`, in place of what was stored there.
    pub fn insert(&mut self, key: &str, value: &str)
        ensures
            final(self)@ == old(self)@.insert(key@, value@),
    {
        proof {
            use_type_invariant(&*self);
        }
        let ghost keys = keys_of(self.entries@);
        let ghost texts = texts_of(self.entries@);
        let entry = (String::from_str(key), String::from_str(value));
        let found = find_key(&self.entries, key);
        let mut entries: Vec<(String, String)> = Vec::new();
        assert(table_map(keys_of(entries@), texts_of(entries@)) =~= Map::<
            Seq<char>,
            Seq<char>,
        >::empty());
        core::mem::swap(&mut entries, &mut self.entries);
        match found {
            Some(i) => {
                proof {
                    assert(keys[i as int] == key@);
                    lemma_table_update(keys, texts, i as int, value@);
                    assert(keys_of(entries@.update(i as int, entry)) =~= keys);
                    assert(texts_of(entries@.update(i as int, entry)) =~= texts.update(
                        i as int,
                        value@,
                    ));
                }
                entries.set(i, entry);
            },
            None => {
                proof {
                    lemma_table_push(keys, texts, key@, value@);
                    assert(keys_of(entries@.push(entry)) =~= keys.push(key@));
                    assert(texts_of(entries@.push(entry)) =~= texts.push(value@));
                }
                entries.push(entry);
            },
        }
        self.entries = entries;
    }
}

impl Default for HashTable {
    fn default() -> (table: HashTable)
        ensures
            table@ == Map::<Seq<char>, Seq<char>>::empty(),
    {
        HashTable::new()
    }
}

/// A table from label names to instruction indices.
#[derive(Debug, PartialEq, Eq)]
pub struct LabelTable {
    entries: Vec<(String, usize)>,
}

impl View for LabelTable {
    type V = Map<Seq<char>, usize>;

    closed spec fn view(&self) -> Map<Seq<char>, usize> {
        table_map(keys_of(self.entries@), values_of(self.entries@))
    }
}

impl LabelTable {
    #[verifier::type_invariant]
    spec fn well_formed(self) -> bool {
        &&& distinct(keys_of(self.entries@))
        &&& self@.dom().finite()
        &&& self@.dom().len() == self.entries@.len()
    }

    /// The empty table.
    pub fn new() -> (table: LabelTable)
        ensures
            table@ == Map::<Seq<char>, usize>::empty(),
    {
        let entries: Vec<(String, usize)> = Vec::new();
        assert(table_map(keys_of(entries@), values_of(entries@)) =~= Map::<
            Seq<char>,
            usize,
        >::empty());
        LabelTable { entries }
    }

    /// The number of labels.
    pub fn len(&self) -> (n: usize)
        ensures
            self@.dom().finite(),
            n == self@.dom().len(),
    {
        proof {
            use_type_invariant(self);
        }
        self.entries.len()
    }

    /// The index stored under `name`, if any.
    pub fn get(&self, name: &str) -> (index: Option<usize>)
        ensures
            match index {
                Some(i) => self@.contains_key(name@) && self@[name@] == i,
                None => !self@.contains_key(name@),
            },
    {
        proof {
            use_type_invariant(self);
        }
        match find_key(&self.entries, name) {
            Some(i) => {
                proof {
                    assert(keys_of(self.entries@)[i as int] == name@);
                    lemma_position_of(keys_of(self.entries@), i as int);
                }
                Some(self.entries[i].1)
            },
            None => None,
        }
    }

    /// Stores `index` under `name` if the table has no such label yet, and
    /// returns whether it did.
    pub fn define(&mut self, name: &str, index: usize) -> (fresh: bool)
        ensures
            fresh == !old(self)@.contains_key(name@),
            fresh ==> final(self)@ == old(self)@.insert(name@, index),
            !fresh ==> final(self)@ == old(self)@,
    {
        proof {
            use_type_invariant(&*self);
        }
        let ghost keys = keys_of(self.entries@);
        let ghost values = values_of(self.entries@);
        match find_key(&self.entries, name) {
            Some(i) => {
                proof {
                    assert(keys[i as int] == name@);
                }
                false
            },
            None => {
                let entry = (String::from_str(name), index);
                let mut entries: Vec<(String, usize)> = Vec::new();
                assert(table_map(keys_of(entries@), values_of(entries@)) =~= Map::<
                    Seq<char>,
                    usize,
                >::empty());
                core::mem::swap(&mut entries, &mut self.entries);
                proof {
                    lemma_table_push(keys, values, name@, index);
                    assert(keys_of(entries@.push(entry)) =~= keys.push(name@));
                    assert(values_of(entries@.push(entry)) =~= values.push(index));
                }
                entries.push(entry);
                self.entries = entries;
                true
            },
        }
    }
}

} // verus!
