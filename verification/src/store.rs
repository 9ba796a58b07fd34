//! An insertion-ordered store of values under unique text keys.

use crate::text::str_eq;
use vstd::prelude::*;

verus! {

/// The map that a sequence of keys and the sequence of their values stand
/// for: each key leads to the value at the key's position.
pub open spec fn map_of<V>(keys: Seq<Seq<char>>, values: Seq<V>) -> Map<Seq<char>, V> {
    Map::new(|k: Seq<char>| keys.contains(k), |k: Seq<char>| values[keys.index_of(k)])
}

/// Where `key` stands among `keys`, if it does.
pub open spec fn position_of(keys: Seq<Seq<char>>, key: Seq<char>) -> Option<int> {
    if keys.contains(key) {
        Some(keys.index_of(key))
    } else {
        None
    }
}

/// In a sequence without duplicates, an element is found at its own index.
pub proof fn lemma_position_is_unique(keys: Seq<Seq<char>>, i: int)
    requires
        keys.no_duplicates(),
        0 <= i < keys.len(),
    ensures
        keys.contains(keys[i]),
        keys.index_of(keys[i]) == i,
        position_of(keys, keys[i]) == Some(i),
{
    let j = keys.index_of(keys[i]);
    assert(0 <= j < keys.len() && keys[j] == keys[i]);
}

/// Adding an absent key at the end adds one mapping.
pub proof fn lemma_map_of_push<V>(keys: Seq<Seq<char>>, values: Seq<V>, key: Seq<char>, value: V)
    requires
        keys.no_duplicates(),
        keys.len() == values.len(),
        !keys.contains(key),
    ensures
        keys.push(key).no_duplicates(),
        map_of(keys.push(key), values.push(value)) == map_of(keys, values).insert(key, value),
{
    let longer = keys.push(key);
    assert(longer.no_duplicates()) by {
        assert forall|i: int, j: int|
            0 <= i < longer.len() && 0 <= j < longer.len() && i != j implies longer[i]
            != longer[j] by {
            if i < keys.len() {
                assert(keys[i] == longer[i]);
            }
            if j < keys.len() {
                assert(keys[j] == longer[j]);
            }
        }
    }
    assert forall|k: Seq<char>| longer.contains(k) <==> (keys.contains(k) || k == key) by {
        if keys.contains(k) {
            let i = keys.index_of(k);
            assert(longer[i] == k);
        }
        if k == key {
            assert(longer[keys.len() as int] == k);
        }
    }
    assert forall|k: Seq<char>| longer.contains(k) implies #[trigger] values.push(
        value,
    )[longer.index_of(k)] == map_of(keys, values).insert(key, value)[k] by {
        let i = longer.index_of(k);
        lemma_position_is_unique(longer, i);
        if i < keys.len() {
            lemma_position_is_unique(keys, i);
        }
    }
    assert(map_of(longer, values.push(value)) =~= map_of(keys, values).insert(key, value));
}

/// Replacing the value at a key's position replaces that key's mapping.
pub proof fn lemma_map_of_update<V>(keys: Seq<Seq<char>>, values: Seq<V>, i: int, value: V)
    requires
        keys.no_duplicates(),
        keys.len() == values.len(),
        0 <= i < keys.len(),
    ensures
        map_of(keys, values.update(i, value)) == map_of(keys, values).insert(keys[i], value),
{
    lemma_position_is_unique(keys, i);
    assert forall|k: Seq<char>| keys.contains(k) implies #[trigger] values.update(
        i,
        value,
    )[keys.index_of(k)] == map_of(keys, values).insert(keys[i], value)[k] by {
        let j = keys.index_of(k);
        lemma_position_is_unique(keys, j);
    }
    assert(map_of(keys, values.update(i, value)) =~= map_of(keys, values).insert(keys[i], value));
}

/// Taking out the entry at a position takes out that key's mapping.
pub proof fn lemma_map_of_remove<V>(keys: Seq<Seq<char>>, values: Seq<V>, i: int)
    requires
        keys.no_duplicates(),
        keys.len() == values.len(),
        0 <= i < keys.len(),
    ensures
        keys.remove(i).no_duplicates(),
        !keys.remove(i).contains(keys[i]),
        map_of(keys.remove(i), values.remove(i)) == map_of(keys, values).remove(keys[i]),
{
    let shorter = keys.remove(i);
    let shifted = |j: int| if j < i { j } else { j + 1 };
    assert forall|j: int| 0 <= j < shorter.len() implies shorter[j] == keys[shifted(j)] by {}
    assert(shorter.no_duplicates()) by {
        assert forall|a: int, b: int|
            0 <= a < shorter.len() && 0 <= b < shorter.len() && a != b implies shorter[a]
            != shorter[b] by {
            assert(shorter[a] == keys[shifted(a)]);
            assert(shorter[b] == keys[shifted(b)]);
        }
    }
    assert forall|k: Seq<char>| shorter.contains(k) <==> (keys.contains(k) && k != keys[i]) by {
        if shorter.contains(k) {
            let j = shorter.index_of(k);
            assert(keys[shifted(j)] == k);
        }
        if keys.contains(k) && k != keys[i] {
            let j = keys.index_of(k);
            if j < i {
                assert(shorter[j] == k);
            } else {
                assert(shorter[j - 1] == k);
            }
        }
    }
    assert forall|k: Seq<char>| shorter.contains(k) implies #[trigger] values.remove(
        i,
    )[shorter.index_of(k)] == map_of(keys, values)[k] by {
        let j = shorter.index_of(k);
        lemma_position_is_unique(shorter, j);
        lemma_position_is_unique(keys, shifted(j));
    }
    assert(map_of(shorter, values.remove(i)) =~= map_of(keys, values).remove(keys[i]));
}

/// A map of distinct keys has as many mappings as there are keys.
pub proof fn lemma_map_of_len<V>(keys: Seq<Seq<char>>, values: Seq<V>)
    requires
        keys.no_duplicates(),
    ensures
        map_of(keys, values).dom().finite(),
        map_of(keys, values).len() == keys.len(),
{
    keys.unique_seq_to_set();
    vstd::seq_lib::seq_to_set_is_finite(keys);
    assert(map_of(keys, values).dom() =~= keys.to_set());
}

/// What an insertion does to keys and values: the value of a present key is
/// replaced in place, an absent key is added at the end with its value.
pub open spec fn is_insertion<V>(
    keys: Seq<Seq<char>>,
    values: Seq<V>,
    key: Seq<char>,
    value: V,
    new_keys: Seq<Seq<char>>,
    new_values: Seq<V>,
) -> bool {
    match position_of(keys, key) {
        Some(i) => new_keys == keys && new_values == values.update(i, value),
        None => new_keys == keys.push(key) && new_values == values.push(value),
    }
}

/// What a removal does to keys and values: the entry of a present key is
/// taken out, an absent key changes nothing.
pub open spec fn is_removal<V>(
    keys: Seq<Seq<char>>,
    values: Seq<V>,
    key: Seq<char>,
    new_keys: Seq<Seq<char>>,
    new_values: Seq<V>,
) -> bool {
    match position_of(keys, key) {
        Some(i) => new_keys == keys.remove(i) && new_values == values.remove(i),
        None => new_keys == keys && new_values == values,
    }
}

/// An insertion, seen through a function on the values, is an insertion
/// into the map.
pub proof fn lemma_mapped_insert<V, W>(
    keys: Seq<Seq<char>>,
    values: Seq<V>,
    key: Seq<char>,
    value: V,
    new_keys: Seq<Seq<char>>,
    new_values: Seq<V>,
    f: spec_fn(V) -> W,
)
    requires
        keys.no_duplicates(),
        keys.len() == values.len(),
        is_insertion(keys, values, key, value, new_keys, new_values),
    ensures
        map_of(new_keys, new_values.map_values(f)) == map_of(keys, values.map_values(f)).insert(
            key,
            f(value),
        ),
{
    let mapped = values.map_values(f);
    match position_of(keys, key) {
        Some(i) => {
            lemma_map_of_update(keys, mapped, i, f(value));
            assert(new_values.map_values(f) =~= mapped.update(i, f(value)));
        },
        None => {
            lemma_map_of_push(keys, mapped, key, f(value));
            assert(new_values.map_values(f) =~= mapped.push(f(value)));
        },
    }
}

/// A removal, seen through a function on the values, is a removal from the
/// map.
pub proof fn lemma_mapped_remove<V, W>(
    keys: Seq<Seq<char>>,
    values: Seq<V>,
    key: Seq<char>,
    new_keys: Seq<Seq<char>>,
    new_values: Seq<V>,
    f: spec_fn(V) -> W,
)
    requires
        keys.no_duplicates(),
        keys.len() == values.len(),
        is_removal(keys, values, key, new_keys, new_values),
    ensures
        map_of(new_keys, new_values.map_values(f)) == map_of(keys, values.map_values(f)).remove(
            key,
        ),
{
    let mapped = values.map_values(f);
    match position_of(keys, key) {
        Some(i) => {
            lemma_map_of_remove(keys, mapped, i);
            assert(new_values.map_values(f) =~= mapped.remove(i));
        },
        None => {
            assert(map_of(keys, mapped) =~= map_of(keys, mapped).remove(key));
        },
    }
}

/// A key's mapping, seen through a function on the values, is the function
/// of the value at the key's position.
pub proof fn lemma_mapped_lookup<V, W>(
    keys: Seq<Seq<char>>,
    values: Seq<V>,
    key: Seq<char>,
    f: spec_fn(V) -> W,
)
    requires
        keys.no_duplicates(),
        keys.len() == values.len(),
    ensures
        match position_of(keys, key) {
            Some(i) => map_of(keys, values.map_values(f)).contains_key(key) && map_of(
                keys,
                values.map_values(f),
            )[key] == f(values[i]) && 0 <= i < keys.len() && keys[i] == key,
            None => !map_of(keys, values.map_values(f)).contains_key(key),
        },
{
}

/// A store of values, each under a key of its own. Entries keep the order in
/// which their keys first came in; no key occurs twice.
#[derive(Debug)]
pub struct KeyedStore<V> {
    keys: Vec<String>,
    values: Vec<V>,
}

impl<V: Clone> Clone for KeyedStore<V> {
    /// A store with the same keys in the same order, each with a clone of
    /// its value.
    fn clone(&self) -> (copy: Self)
        ensures
            copy.keys() == self.keys(),
            copy.values().len() == self.values().len(),
            forall|i: int|
                0 <= i < self.values().len() ==> cloned::<V>(
                    #[trigger] self.values()[i],
                    copy.values()[i],
                ),
    {
        proof {
            use_type_invariant(self);
        }
        let keys = self.keys.clone();
        let values = self.values.clone();
        proof {
            assert forall|i: int| 0 <= i < keys@.len() implies keys@[i]@ == self.keys@[i]@ by {
                assert(cloned::<String>(self.keys@[i], keys@[i]));
            }
            assert(Seq::new(keys@.len(), |i: int| keys@[i]@) =~= self.keys());
        }
        KeyedStore { keys, values }
    }
}

impl<V> View for KeyedStore<V> {
    type V = Map<Seq<char>, V>;

    /// The store as a map from key to value.
    open spec fn view(&self) -> Map<Seq<char>, V> {
        map_of(self.keys(), self.values())
    }
}

impl<V> KeyedStore<V> {
    /// The keys, oldest first.
    pub closed spec fn keys(&self) -> Seq<Seq<char>> {
        Seq::new(self.keys@.len(), |i: int| self.keys@[i]@)
    }

    /// The values, in the order of their keys.
    pub closed spec fn values(&self) -> Seq<V> {
        self.values@
    }

    #[verifier::type_invariant]
    spec fn well_formed(&self) -> bool {
        &&& self.keys@.len() == self.values@.len()
        &&& self.keys().no_duplicates()
    }

    /// Where `key` stands among the keys, if it does.
    pub open spec fn position(&self, key: Seq<char>) -> Option<int> {
        position_of(self.keys(), key)
    }

    /// Keys and values are as many, and no key occurs twice. This holds of
    /// every store.
    pub open spec fn is_keyed(&self) -> bool {
        &&& self.keys().len() == self.values().len()
        &&& self.keys().no_duplicates()
    }

    /// An empty store.
    pub fn new() -> (store: Self)
        ensures
            store.keys() == Seq::<Seq<char>>::empty(),
            store.values() == Seq::<V>::empty(),
            store@ == Map::<Seq<char>, V>::empty(),
            store.is_keyed(),
    {
        let store = KeyedStore { keys: Vec::new(), values: Vec::new() };
        assert(store.keys() =~= Seq::<Seq<char>>::empty());
        assert(store@ =~= Map::<Seq<char>, V>::empty());
        store
    }

    /// The number of entries. Keys and values are as many, and no key occurs
    /// twice.
    pub fn len(&self) -> (n: usize)
        ensures
            n == self.keys().len(),
            n == self@.len(),
            self.is_keyed(),
    {
        proof {
            use_type_invariant(self);
            lemma_map_of_len(self.keys(), self.values());
        }
        self.keys.len()
    }

    /// Whether the store holds nothing.
    pub fn is_empty(&self) -> (empty: bool)
        ensures
            empty == (self.keys().len() == 0),
            self.is_keyed(),
    {
        proof {
            use_type_invariant(self);
        }
        self.keys.len() == 0
    }

    /// The position of `key` among the keys.
    pub fn find(&self, key: &str) -> (found: Option<usize>)
        ensures
            self.is_keyed(),
            match found {
                Some(i) => self.position(key@) == Some(i as int) && i < self.keys().len()
                    && self.keys()[i as int] == key@,
                None => self.position(key@) is None,
            },
    {
        proof {
            use_type_invariant(self);
        }
        let mut i: usize = 0;
        while i < self.keys.len()
            invariant
                self.keys().no_duplicates(),
                self.keys@.len() == self.values@.len(),
                i <= self.keys@.len(),
                forall|j: int| 0 <= j < i ==> self.keys()[j] != key@,
            decreases self.keys@.len() - i,
        {
            if str_eq(self.keys[i].as_str(), key) {
                proof {
                    lemma_position_is_unique(self.keys(), i as int);
                }
                return Some(i);
            }
            i += 1;
        }
        None
    }

    /// Whether `key` is present.
    pub fn contains_key(&self, key: &str) -> (present: bool)
        ensures
            present == self.keys().contains(key@),
            present == self@.contains_key(key@),
            self.is_keyed(),
    {
        self.find(key).is_some()
    }

    /// The value under `key`, if the key is present.
    pub fn get(&self, key: &str) -> (value: Option<&V>)
        ensures
            self.is_keyed(),
            match self.position(key@) {
                Some(i) => value == Some(&self.values()[i]),
                None => value is None,
            },
            match value {
                Some(v) => self@.contains_key(key@) && *v == self@[key@],
                None => !self@.contains_key(key@),
            },
    {
        match self.find(key) {
            Some(i) => Some(&self.values[i]),
            None => None,
        }
    }

    /// The value under `key`, for writing, if the key is present. The keys
    /// stay as they are; only that one value can change.
    pub fn get_mut(&mut self, key: &str) -> (value: Option<&mut V>)
        ensures
            old(self).is_keyed(),
            final(self).keys() == old(self).keys(),
            match old(self).position(key@) {
                Some(i) => {
                    &&& value matches Some(v)
                    &&& *v == old(self).values()[i]
                    &&& final(self).values() == old(self).values().update(i, *final(v))
                },
                None => value is None && final(self).values() == old(self).values(),
            },
    {
        match self.find(key) {
            Some(i) => Some(&mut self.values[i]),
            None => None,
        }
    }

    /// Puts `value` under `key`. Where the key is present its value is
    /// replaced and handed back, and the key keeps its place; otherwise the
    /// entry is added at the end.
    pub fn insert(&mut self, key: String, value: V) -> (previous: Option<V>)
        ensures
            old(self).is_keyed(),
            final(self).is_keyed(),
            match old(self).position(key@) {
                Some(i) => {
                    &&& previous == Some(old(self).values()[i])
                    &&& final(self).keys() == old(self).keys()
                    &&& final(self).values() == old(self).values().update(i, value)
                },
                None => {
                    &&& previous is None
                    &&& final(self).keys() == old(self).keys().push(key@)
                    &&& final(self).values() == old(self).values().push(value)
                },
            },
            final(self)@ == old(self)@.insert(key@, value),
    {
        match self.find(key.as_str()) {
            Some(i) => {
                proof {
                    lemma_map_of_update(self.keys(), self.values(), i as int, value);
                }
                let mut value = value;
                std::mem::swap(&mut self.values[i], &mut value);
                Some(value)
            },
            None => {
                proof {
                    lemma_map_of_push(self.keys(), self.values(), key@, value);
                }
                let mut taken = KeyedStore::new();
                std::mem::swap(self, &mut taken);
                let KeyedStore { mut keys, mut values } = taken;
                keys.push(key);
                values.push(value);
                assert(Seq::new(keys@.len(), |i: int| keys@[i]@) =~= old(self).keys().push(key@));
                *self = KeyedStore { keys, values };
                None
            },
        }
    }

    /// Takes out the entry under `key` and hands back its value. The other
    /// entries keep their order. An absent key leaves the store as it is.
    pub fn remove(&mut self, key: &str) -> (removed: Option<V>)
        ensures
            old(self).is_keyed(),
            final(self).is_keyed(),
            match old(self).position(key@) {
                Some(i) => {
                    &&& removed == Some(old(self).values()[i])
                    &&& final(self).keys() == old(self).keys().remove(i)
                    &&& final(self).values() == old(self).values().remove(i)
                },
                None => removed is None && *final(self) == *old(self),
            },
            final(self)@ == old(self)@.remove(key@),
    {
        match self.find(key) {
            Some(i) => {
                proof {
                    lemma_map_of_remove(self.keys(), self.values(), i as int);
                }
                let mut taken = KeyedStore::new();
                std::mem::swap(self, &mut taken);
                let KeyedStore { mut keys, mut values } = taken;
                keys.remove(i);
                let value = values.remove(i);
                assert(Seq::new(keys@.len(), |j: int| keys@[j]@) =~= old(self).keys().remove(
                    i as int,
                ));
                *self = KeyedStore { keys, values };
                Some(value)
            },
            None => {
                assert(self@ =~= self@.remove(key@));
                None
            },
        }
    }

    /// Takes out every entry.
    pub fn clear(&mut self)
        ensures
            final(self).keys() == Seq::<Seq<char>>::empty(),
            final(self).values() == Seq::<V>::empty(),
            final(self)@ == Map::<Seq<char>, V>::empty(),
            final(self).is_keyed(),
    {
        *self = KeyedStore::new();
    }

    /// The key at position `i`.
    pub fn key_at(&self, i: usize) -> (key: &String)
        requires
            i < self.keys().len(),
        ensures
            key@ == self.keys()[i as int],
    {
        proof {
            use_type_invariant(self);
        }
        &self.keys[i]
    }

    /// The value at position `i`.
    pub fn value_at(&self, i: usize) -> (value: &V)
        requires
            i < self.values().len(),
        ensures
            *value == self.values()[i as int],
    {
        &self.values[i]
    }

    /// The value at position `i`, for writing.
    pub fn value_at_mut(&mut self, i: usize) -> (value: &mut V)
        requires
            i < old(self).values().len(),
        ensures
            *value == old(self).values()[i as int],
            final(self).keys() == old(self).keys(),
            final(self).values() == old(self).values().update(i as int, *final(value)),
    {
        proof {
            use_type_invariant(&*self);
        }
        &mut self.values[i]
    }
}

} // verus!
