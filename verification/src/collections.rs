//! Maps and sets for the few entries that the gateway keeps at a time.
use vstd::prelude::*;

use crate::text::same_text;

verus! {

/// Keys that can be told apart.
pub trait SameKey: View + Sized {
    /// Whether two keys are the same.
    fn same_key(&self, other: &Self) -> (same: bool)
        ensures
            same == (self@ == other@),
    ;
}

impl SameKey for String {
    fn same_key(&self, other: &Self) -> (same: bool) {
        same_text(self.as_str(), other.as_str())
    }
}

/// Whether `key` is one of the keys of `entries`.
spec fn holds_key<K: View, V>(entries: Seq<(K, V)>, key: K::V) -> bool {
    exists|i: int| 0 <= i < entries.len() && (#[trigger] entries[i]).0@ == key
}

/// The position of `key` in `entries`.
spec fn key_index<K: View, V>(entries: Seq<(K, V)>, key: K::V) -> int {
    choose|i: int| 0 <= i < entries.len() && (#[trigger] entries[i]).0@ == key
}

/// The entries as a map.
spec fn entries_map<K: View, V>(entries: Seq<(K, V)>) -> Map<K::V, V> {
    Map::new(
        |key: K::V| holds_key(entries, key),
        |key: K::V| entries[key_index(entries, key)].1,
    )
}

/// No key occurs twice.
spec fn distinct_keys<K: View, V>(entries: Seq<(K, V)>) -> bool {
    forall|i: int, j: int|
        0 <= i < j < entries.len() ==> (#[trigger] entries[i]).0@ != (#[trigger] entries[j]).0@
}

/// An entry is found under its key.
proof fn lemma_entry<K: View, V>(entries: Seq<(K, V)>, i: int)
    requires
        distinct_keys(entries),
        0 <= i < entries.len(),
    ensures
        entries_map(entries).contains_key(entries[i].0@),
        entries_map(entries)[entries[i].0@] == entries[i].1,
{
    let key = entries[i].0@;
    assert(holds_key(entries, key));
    let j = key_index(entries, key);
    assert(0 <= j < entries.len() && entries[j].0@ == key);
    assert(i == j) by {
        if i < j {
            assert(entries[i].0@ != entries[j].0@);
        } else if j < i {
            assert(entries[j].0@ != entries[i].0@);
        }
    }
}

/// Whether `keys` are the keys of `map`, each once.
pub open spec fn lists_keys<K, V>(map: Map<K, V>, keys: Seq<K>) -> bool {
    &&& keys.no_duplicates()
    &&& forall|i: int| 0 <= i < keys.len() ==> map.contains_key(#[trigger] keys[i])
    &&& forall|key: K| map.contains_key(key) ==> #[trigger] keys.contains(key)
}

/// Whether `values` are the values of `map`, one for each key, in some order.
pub open spec fn lists_values<K, V>(map: Map<K, V>, values: Seq<V>) -> bool {
    exists|keys: Seq<K>| #[trigger]
        lists_keys(map, keys) && keys.len() == values.len() && forall|i: int|
            0 <= i < keys.len() ==> map[keys[i]] == #[trigger] values[i]
}

/// A map, kept as a list of entries.
pub struct KeyedMap<K: SameKey, V> {
    entries: Vec<(K, V)>,
}

impl<K: SameKey, V> View for KeyedMap<K, V> {
    type V = Map<K::V, V>;

    closed spec fn view(&self) -> Map<K::V, V> {
        entries_map(self.entries@)
    }
}

impl<K: SameKey, V> KeyedMap<K, V> {
    #[verifier::type_invariant]
    spec fn keys_are_distinct(self) -> bool {
        distinct_keys(self.entries@)
    }

    /// An empty map.
    pub fn new() -> (map: Self)
        ensures
            map@ == Map::<K::V, V>::empty(),
    {
        let map = KeyedMap { entries: Vec::new() };
        assert(map@ =~= Map::<K::V, V>::empty());
        map
    }

    /// The position of `key`.
    fn position(&self, key: &K) -> (found: Option<usize>)
        ensures
            match found {
                Some(i) => i < self.entries@.len() && self.entries@[i as int].0@ == key@,
                None => !holds_key(self.entries@, key@),
            },
    {
        let mut i: usize = 0;
        while i < self.entries.len()
            invariant
                i <= self.entries.len(),
                forall|k: int| 0 <= k < i ==> (#[trigger] self.entries@[k]).0@ != key@,
            decreases self.entries.len() - i,
        {
            if self.entries[i].0.same_key(key) {
                return Some(i);
            }
            i += 1;
        }
        None
    }

    /// The value under `key`.
    pub fn get(&self, key: &K) -> (found: Option<&V>)
        ensures
            match found {
                Some(value) => self@.contains_key(key@) && *value == self@[key@],
                None => !self@.contains_key(key@),
            },
    {
        proof {
            use_type_invariant(self);
        }
        match self.position(key) {
            Some(i) => {
                proof {
                    lemma_entry(self.entries@, i as int);
                }
                Some(&self.entries[i].1)
            },
            None => None,
        }
    }

    /// Puts `value` under `key`, in place of what was there.
    pub fn insert(&mut self, key: K, value: V)
        ensures
            final(self)@ == old(self)@.insert(key@, value),
    {
        let found = self.position(&key);
        proof {
            use_type_invariant(&*self);
        }
        let ghost before = self.entries@;
        let ghost name = key@;
        let mut entries: Vec<(K, V)> = Vec::new();
        std::mem::swap(&mut entries, &mut self.entries);
        match found {
            Some(i) => {
                entries.set(i, (key, value));
            },
            None => {
                entries.push((key, value));
            },
        }
        proof {
            let after = entries@;
            let at = match found {
                Some(i) => i as int,
                None => before.len() as int,
            };
            assert(after[at].0@ == name && after[at].1 == value);
            assert forall|i: int, j: int| 0 <= i < j < after.len() implies (#[trigger] after[i]).0@
                != (#[trigger] after[j]).0@ by {
                if i != at && j != at {
                    assert(before[i].0@ != before[j].0@);
                } else if found is Some {
                    let o = if i == at {
                        j
                    } else {
                        i
                    };
                    assert(before[o].0@ != before[at].0@);
                } else {
                    assert(before[i].0@ != name);
                }
            }
            lemma_entry(after, at);
            assert forall|k: K::V| entries_map(after).contains_key(k) == entries_map(
                before,
            ).insert(name, value).contains_key(k) by {
                if holds_key(after, k) {
                    let i = key_index(after, k);
                    if i != at {
                        assert(before[i].0@ == k);
                    }
                }
                if holds_key(before, k) && k != name {
                    let i = key_index(before, k);
                    assert(after[i].0@ == k);
                }
            }
            assert forall|k: K::V| #[trigger]
                entries_map(after).contains_key(k) implies entries_map(after)[k] == entries_map(
                before,
            ).insert(name, value)[k] by {
                let i = key_index(after, k);
                assert(0 <= i < after.len() && after[i].0@ == k);
                lemma_entry(after, i);
                if i != at {
                    assert(after[i] == before[i]);
                    lemma_entry(before, i);
                }
            }
            assert(entries_map(after) =~= entries_map(before).insert(name, value));
        }
        self.entries = entries;
    }

    /// Takes the value under `key` out.
    pub fn remove(&mut self, key: &K) -> (taken: Option<V>)
        ensures
            final(self)@ == old(self)@.remove(key@),
            match taken {
                Some(value) => old(self)@.contains_key(key@) && value == old(self)@[key@],
                None => !old(self)@.contains_key(key@),
            },
    {
        let found = self.position(key);
        proof {
            use_type_invariant(&*self);
        }
        let ghost before = self.entries@;
        match found {
            None => {
                assert(entries_map(before) =~= entries_map(before).remove(key@));
                None
            },
            Some(at) => {
                let mut entries: Vec<(K, V)> = Vec::new();
                std::mem::swap(&mut entries, &mut self.entries);
                let (_, value) = entries.remove(at);
                proof {
                    let after = entries@;
                    lemma_entry(before, at as int);
                    assert forall|i: int| 0 <= i < after.len() implies #[trigger] after[i]
                        == before[if i < at {
                        i
                    } else {
                        i + 1
                    }] by {}
                    assert forall|i: int, j: int| 0 <= i < j < after.len() implies (
                    #[trigger] after[i]).0@ != (#[trigger] after[j]).0@ by {
                        let a = if i < at {
                            i
                        } else {
                            i + 1
                        };
                        let b = if j < at {
                            j
                        } else {
                            j + 1
                        };
                        assert(before[a].0@ != before[b].0@);
                    }
                    assert forall|k: K::V| entries_map(after).contains_key(k) == entries_map(
                        before,
                    ).remove(key@).contains_key(k) by {
                        if holds_key(after, k) {
                            let i = key_index(after, k);
                            let a = if i < at {
                                i
                            } else {
                                i + 1
                            };
                            assert(before[a].0@ == k);
                            if a < at {
                                assert(before[a].0@ != before[at as int].0@);
                            } else {
                                assert(before[at as int].0@ != before[a].0@);
                            }
                        }
                        if holds_key(before, k) && k != key@ {
                            let a = key_index(before, k);
                            let i = if a < at {
                                a
                            } else {
                                a - 1
                            };
                            assert(after[i].0@ == k);
                        }
                    }
                    assert forall|k: K::V| #[trigger]
                        entries_map(after).contains_key(k) implies entries_map(after)[k]
                        == entries_map(before).remove(key@)[k] by {
                        let i = key_index(after, k);
                        assert(0 <= i < after.len() && after[i].0@ == k);
                        lemma_entry(after, i);
                        let a = if i < at {
                            i
                        } else {
                            i + 1
                        };
                        assert(before[a] == after[i]);
                        lemma_entry(before, a);
                    }
                    assert(entries_map(after) =~= entries_map(before).remove(key@));
                }
                self.entries = entries;
                Some(value)
            },
        }
    }

    /// Takes all values out.
    pub fn take_values(&mut self) -> (values: Vec<V>)
        ensures
            final(self)@ == Map::<K::V, V>::empty(),
            lists_values(old(self)@, values@),
    {
        proof {
            use_type_invariant(&*self);
        }
        let ghost before = self.entries@;
        let mut entries: Vec<(K, V)> = Vec::new();
        std::mem::swap(&mut entries, &mut self.entries);
        assert(self@ =~= Map::<K::V, V>::empty());
        let mut values: Vec<V> = Vec::new();
        while entries.len() > 0
            invariant
                distinct_keys(before),
                entries@.len() + values@.len() == before.len(),
                entries@ == before.take(entries@.len() as int),
                forall|i: int|
                    0 <= i < values@.len() ==> #[trigger] values@[i] == before[before.len() - 1
                        - i].1,
            decreases entries.len(),
        {
            let ghost size = entries@.len() as int;
            match entries.pop() {
                Some((_, value)) => {
                    values.push(value);
                    assert(entries@ =~= before.take(size - 1));
                },
                None => {},
            }
        }
        proof {
            let keys = Seq::new(before.len(), |i: int| before[before.len() - 1 - i].0@);
            assert forall|i: int| 0 <= i < keys.len() implies old(self)@.contains_key(
                #[trigger] keys[i],
            ) && old(self)@[keys[i]] == values@[i] by {
                lemma_entry(before, before.len() - 1 - i);
            }
            assert forall|key: K::V| old(self)@.contains_key(key) implies #[trigger] keys.contains(
                key,
            ) by {
                let i = key_index(before, key);
                assert(0 <= i < before.len() && before[i].0@ == key);
                assert(keys[before.len() - 1 - i] == key);
            }
            assert(lists_keys(old(self)@, keys));
        }
        values
    }
}

/// A map from text to values.
pub struct TextMap<V> {
    map: KeyedMap<String, V>,
}

impl<V> View for TextMap<V> {
    type V = Map<Seq<char>, V>;

    closed spec fn view(&self) -> Map<Seq<char>, V> {
        self.map@
    }
}

impl<V> TextMap<V> {
    /// An empty map.
    pub fn new() -> (map: Self)
        ensures
            map@ == Map::<Seq<char>, V>::empty(),
    {
        TextMap { map: KeyedMap::new() }
    }

    /// The value under `key`.
    pub fn get(&self, key: &str) -> (found: Option<&V>)
        ensures
            match found {
                Some(value) => self@.contains_key(key@) && *value == self@[key@],
                None => !self@.contains_key(key@),
            },
    {
        self.map.get(&key.to_string())
    }

    /// Whether there is a value under `key`.
    pub fn contains_key(&self, key: &str) -> (yes: bool)
        ensures
            yes == self@.contains_key(key@),
    {
        self.get(key).is_some()
    }

    /// Puts `value` under `key`, in place of what was there.
    pub fn insert(&mut self, key: String, value: V)
        ensures
            final(self)@ == old(self)@.insert(key@, value),
    {
        self.map.insert(key, value);
    }

    /// Takes the value under `key` out.
    pub fn remove(&mut self, key: &str) -> (taken: Option<V>)
        ensures
            final(self)@ == old(self)@.remove(key@),
            match taken {
                Some(value) => old(self)@.contains_key(key@) && value == old(self)@[key@],
                None => !old(self)@.contains_key(key@),
            },
    {
        self.map.remove(&key.to_string())
    }

    /// Takes all values out.
    pub fn take_values(&mut self) -> (values: Vec<V>)
        ensures
            final(self)@ == Map::<Seq<char>, V>::empty(),
            lists_values(old(self)@, values@),
    {
        self.map.take_values()
    }
}

/// A set of texts.
pub struct TextSet {
    map: TextMap<()>,
}

impl View for TextSet {
    type V = Set<Seq<char>>;

    closed spec fn view(&self) -> Set<Seq<char>> {
        self.map@.dom()
    }
}

impl TextSet {
    /// An empty set.
    pub fn new() -> (set: Self)
        ensures
            set@ == Set::<Seq<char>>::empty(),
    {
        let set = TextSet { map: TextMap::new() };
        assert(set@ =~= Set::<Seq<char>>::empty());
        set
    }

    /// Whether `text` is in the set.
    pub fn contains(&self, text: &str) -> (yes: bool)
        ensures
            yes == self@.contains(text@),
    {
        self.map.contains_key(text)
    }

    /// Adds `text`, and says whether it is new.
    pub fn insert(&mut self, text: String) -> (new: bool)
        ensures
            final(self)@ == old(self)@.insert(text@),
            new == !old(self)@.contains(text@),
    {
        let known = self.map.contains_key(text.as_str());
        let ghost before = self@;
        let ghost name = text@;
        self.map.insert(text, ());
        assert(self@ =~= before.insert(name));
        !known
    }
}

} // verus!
