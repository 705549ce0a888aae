//! A table keyed by paths: a finite map from texts to values, kept as two
//! vectors in which no key occurs twice.

use crate::text::same_text;
use vstd::prelude::*;
use vstd::string::*;

verus! {

/// A finite map from path texts to values of type `V`.
#[derive(Debug)]
pub struct PathTable<V> {
    keys: Vec<String>,
    values: Vec<V>,
}

/// Whether `key` is one of `keys`.
pub open spec fn occurs(keys: Seq<Seq<char>>, key: Seq<char>) -> bool {
    exists|i: int| 0 <= i < keys.len() && #[trigger] keys[i] == key
}

/// An index at which `key` stands in `keys`, if it occurs there.
pub open spec fn index_in(keys: Seq<Seq<char>>, key: Seq<char>) -> int {
    choose|i: int| 0 <= i < keys.len() && #[trigger] keys[i] == key
}

/// No key occurs twice.
pub open spec fn distinct(keys: Seq<Seq<char>>) -> bool {
    forall|i: int, j: int| 0 <= i < j < keys.len() ==> #[trigger] keys[i] != #[trigger] keys[j]
}

/// The map that keys and values of equal number stand for.
pub open spec fn table_map<V>(keys: Seq<Seq<char>>, values: Seq<V>) -> Map<Seq<char>, V> {
    Map::new(|key: Seq<char>| occurs(keys, key), |key: Seq<char>| values[index_in(keys, key)])
}

proof fn lemma_table_entry<V>(keys: Seq<Seq<char>>, values: Seq<V>, i: int)
    requires
        distinct(keys),
        keys.len() == values.len(),
        0 <= i < keys.len(),
    ensures
        table_map(keys, values).contains_key(keys[i]),
        table_map(keys, values)[keys[i]] == values[i],
        index_in(keys, keys[i]) == i,
{
    let j = index_in(keys, keys[i]);
    assert(0 <= j < keys.len() && keys[j] == keys[i]);
    if j < i {
        assert(keys[j] != keys[i]);
    } else if i < j {
        assert(keys[i] != keys[j]);
    }
}

proof fn lemma_table_update<V>(keys: Seq<Seq<char>>, values: Seq<V>, i: int, value: V)
    requires
        distinct(keys),
        keys.len() == values.len(),
        0 <= i < keys.len(),
    ensures
        table_map(keys, values.update(i, value)) == table_map(keys, values).insert(keys[i], value),
{
    let before = table_map(keys, values);
    let after = table_map(keys, values.update(i, value));
    lemma_table_entry(keys, values, i);
    assert forall|key: Seq<char>| after.contains_key(key) implies #[trigger] after[key]
        == before.insert(keys[i], value)[key] by {
        let j = index_in(keys, key);
        assert(0 <= j < keys.len() && keys[j] == key);
        if key == keys[i] {
            lemma_table_entry(keys, values, i);
        }
    }
    assert(after =~= before.insert(keys[i], value));
}

proof fn lemma_table_push<V>(keys: Seq<Seq<char>>, values: Seq<V>, key: Seq<char>, value: V)
    requires
        distinct(keys),
        keys.len() == values.len(),
        !occurs(keys, key),
    ensures
        distinct(keys.push(key)),
        table_map(keys.push(key), values.push(value)) == table_map(keys, values).insert(key, value),
{
    let before = table_map(keys, values);
    let more = keys.push(key);
    let after = table_map(more, values.push(value));
    assert forall|i: int, j: int| 0 <= i < j < more.len() implies #[trigger] more[i]
        != #[trigger] more[j] by {
        if j == keys.len() {
            assert(keys[i] == more[i]);
        } else {
            assert(keys[i] == more[i] && keys[j] == more[j]);
        }
    }
    assert(more[keys.len() as int] == key);
    assert forall|k: Seq<char>| after.contains_key(k) <==> before.insert(key, value).contains_key(
        k,
    ) by {
        if occurs(more, k) {
            let j = index_in(more, k);
            assert(0 <= j < more.len() && more[j] == k);
            if j < keys.len() {
                assert(keys[j] == k);
            }
        }
        if occurs(keys, k) {
            let j = index_in(keys, k);
            assert(more[j] == k);
        }
    }
    assert forall|k: Seq<char>| after.contains_key(k) implies #[trigger] after[k] == before.insert(
        key,
        value,
    )[k] by {
        let j = index_in(more, k);
        assert(0 <= j < more.len() && more[j] == k);
        lemma_table_entry(more, values.push(value), j);
        if j < keys.len() {
            assert(keys[j] == k);
            lemma_table_entry(keys, values, j);
        }
    }
    assert(after =~= before.insert(key, value));
}

impl<V> View for PathTable<V> {
    type V = Map<Seq<char>, V>;

    closed spec fn view(&self) -> Map<Seq<char>, V> {
        table_map(self.keys.deep_view(), self.values@)
    }
}

impl<V> PathTable<V> {
    #[verifier::type_invariant]
    spec fn well_formed(self) -> bool {
        self.keys.len() == self.values.len() && distinct(self.keys.deep_view())
    }

    /// A table without entries.
    pub fn new() -> (table: Self)
        ensures
            table@ == Map::<Seq<char>, V>::empty(),
    {
        let keys: Vec<String> = Vec::new();
        let values: Vec<V> = Vec::new();
        assert(keys.deep_view() =~= Seq::<Seq<char>>::empty());
        assert(table_map(keys.deep_view(), values@) =~= Map::<Seq<char>, V>::empty());
        PathTable { keys, values }
    }

    /// The index at which `key` stands, if it has an entry.
    fn find(&self, key: &str) -> (r: Option<usize>)
        ensures
            match r {
                Some(i) => i < self.keys.len() && self.keys.deep_view()[i as int] == key@,
                None => !occurs(self.keys.deep_view(), key@),
            },
    {
        let mut i: usize = 0;
        while i < self.keys.len()
            invariant
                i <= self.keys.len(),
                forall|j: int| 0 <= j < i ==> self.keys.deep_view()[j] != key@,
            decreases self.keys.len() - i,
        {
            if same_text(self.keys[i].as_str(), key) {
                return Some(i);
            }
            i += 1;
        }
        None
    }

    /// The value that `key` has, if it has an entry.
    pub fn get(&self, key: &str) -> (r: Option<&V>)
        ensures
            match r {
                Some(value) => self@.contains_key(key@) && *value == self@[key@],
                None => !self@.contains_key(key@),
            },
    {
        proof {
            use_type_invariant(self);
        }
        match self.find(key) {
            Some(i) => {
                proof {
                    lemma_table_entry(self.keys.deep_view(), self.values@, i as int);
                }
                Some(&self.values[i])
            },
            None => None,
        }
    }

    /// This table with `key` given the value `value`, in place of the one
    /// it had, if any.
    pub fn with(self, key: String, value: V) -> (table: Self)
        ensures
            table@ == self@.insert(key@, value),
    {
        proof {
            use_type_invariant(&self);
        }
        let found = self.find(key.as_str());
        let PathTable { keys, values } = self;
        let mut keys = keys;
        let mut values = values;
        let ghost before = keys.deep_view();
        match found {
            Some(i) => {
                proof {
                    lemma_table_update(before, values@, i as int, value);
                }
                values.set(i, value);
            },
            None => {
                proof {
                    lemma_table_push(before, values@, key@, value);
                }
                keys.push(key);
                values.push(value);
                assert(keys.deep_view() =~= before.push(key@));
            },
        }
        PathTable { keys, values }
    }
}

} // verus!
