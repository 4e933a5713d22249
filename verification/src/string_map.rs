//! A map from names to values that keeps its entries in the order of their arrival.

use vstd::prelude::*;
use vstd::string::*;

use crate::text::same_text;

verus! {

/// A map with string keys.
#[derive(Debug)]
pub struct StringMap<V> {
    entries: Vec<(String, V)>,
}

/// A list of keys with one key left out.
pub open spec fn without(keys: Seq<Seq<char>>, key: Seq<char>) -> Seq<Seq<char>> {
    keys.filter(|k: Seq<char>| k != key)
}

/// Whether no key occurs twice.
spec fn unique_keys<V>(entries: Seq<(String, V)>) -> bool {
    forall|i: int, j: int|
        0 <= i < j < entries.len() ==> (#[trigger] entries[i]).0@ != (#[trigger] entries[j]).0@
}

/// Whether an entry has a key.
spec fn key_at<V>(entries: Seq<(String, V)>, key: Seq<char>, i: int) -> bool {
    0 <= i < entries.len() && entries[i].0@ == key
}

/// The map that a list of entries stands for.
spec fn as_map<V>(entries: Seq<(String, V)>) -> Map<Seq<char>, V> {
    Map::new(
        |key: Seq<char>| exists|i: int| key_at(entries, key, i),
        |key: Seq<char>| entries[choose|i: int| key_at(entries, key, i)].1,
    )
}

/// The keys of a list of entries.
spec fn key_list<V>(entries: Seq<(String, V)>) -> Seq<Seq<char>> {
    entries.map_values(|e: (String, V)| e.0@)
}

/// An entry is found under its key.
proof fn entry_is_found<V>(entries: Seq<(String, V)>, i: int)
    requires
        unique_keys(entries),
        0 <= i < entries.len(),
    ensures
        as_map(entries).contains_key(entries[i].0@),
        as_map(entries)[entries[i].0@] == entries[i].1,
{
    let key = entries[i].0@;
    assert(key_at(entries, key, i));
    let j = choose|j: int| key_at(entries, key, j);
    if j < i {
        assert(entries[j].0@ != entries[i].0@);
    } else if i < j {
        assert(entries[i].0@ != entries[j].0@);
    }
}

/// Two lists whose entries agree under every key stand for the same map.
proof fn same_entries_same_map<V>(entries: Seq<(String, V)>, map: Map<Seq<char>, V>)
    requires
        unique_keys(entries),
        forall|i: int|
            0 <= i < entries.len() ==> map.contains_key((#[trigger] entries[i]).0@)
                && map[entries[i].0@] == entries[i].1,
        forall|key: Seq<char>| #[trigger]
            map.contains_key(key) ==> exists|i: int| key_at(entries, key, i),
    ensures
        as_map(entries) == map,
{
    let found = as_map(entries);
    assert forall|key: Seq<char>| found.contains_key(key) <==> map.contains_key(key) by {
        if found.contains_key(key) {
            let i = choose|i: int| key_at(entries, key, i);
            assert(map.contains_key(entries[i].0@));
        }
    }
    assert forall|key: Seq<char>| #[trigger] found.contains_key(key) implies found[key]
        == map[key] by {
        let i = choose|i: int| key_at(entries, key, i);
        assert(map[entries[i].0@] == entries[i].1);
    }
    assert(found =~= map);
}

/// Leaving out a key that is not in a list changes nothing.
proof fn filter_of_absent(keys: Seq<Seq<char>>, key: Seq<char>)
    requires
        forall|i: int| 0 <= i < keys.len() ==> #[trigger] keys[i] != key,
    ensures
        without(keys, key) == keys,
    decreases keys.len(),
{
    reveal(Seq::filter);
    if keys.len() > 0 {
        assert(keys.last() != key);
        filter_of_absent(keys.drop_last(), key);
        assert(keys.drop_last().push(keys.last()) =~= keys);
    }
}

/// Leaving out a key that occurs once takes out that occurrence.
proof fn filter_of_single(keys: Seq<Seq<char>>, key: Seq<char>, at: int)
    requires
        0 <= at < keys.len(),
        keys[at] == key,
        forall|i: int| 0 <= i < keys.len() && i != at ==> #[trigger] keys[i] != key,
    ensures
        without(keys, key) == keys.remove(at),
    decreases keys.len(),
{
    reveal(Seq::filter);
    let rest = keys.drop_last();
    if at == rest.len() {
        filter_of_absent(rest, key);
        assert(keys.remove(at) =~= rest);
    } else {
        assert(keys.last() != key);
        filter_of_single(rest, key, at);
        assert(rest.remove(at).push(keys.last()) =~= keys.remove(at));
    }
}

impl<V> View for StringMap<V> {
    type V = Map<Seq<char>, V>;

    closed spec fn view(&self) -> Map<Seq<char>, V> {
        as_map(self.entries@)
    }
}

impl<V> StringMap<V> {
    #[verifier::type_invariant]
    spec fn wf(self) -> bool {
        unique_keys(self.entries@)
    }

    /// The keys in the order of their arrival.
    pub closed spec fn keys(&self) -> Seq<Seq<char>> {
        key_list(self.entries@)
    }

    /// The empty map.
    pub fn new() -> (r: Self)
        ensures
            r@ == Map::<Seq<char>, V>::empty(),
            r.keys() == Seq::<Seq<char>>::empty(),
    {
        let r = StringMap { entries: Vec::new() };
        proof {
            same_entries_same_map(r.entries@, Map::<Seq<char>, V>::empty());
            assert(r.keys() =~= Seq::<Seq<char>>::empty());
        }
        r
    }

    /// The index of the entry of a key.
    fn position(entries: &Vec<(String, V)>, key: &str) -> (r: Option<usize>)
        requires
            unique_keys(entries@),
        ensures
            match r {
                Some(i) => key_at(entries@, key@, i as int) && as_map(entries@).contains_key(key@)
                    && as_map(entries@)[key@] == entries@[i as int].1,
                None => !as_map(entries@).contains_key(key@) && forall|i: int|
                    !key_at(entries@, key@, i),
            },
    {
        let mut i: usize = 0;
        while i < entries.len()
            invariant
                unique_keys(entries@),
                i <= entries@.len(),
                forall|j: int| 0 <= j < i ==> !key_at(entries@, key@, j),
            decreases entries@.len() - i,
        {
            if same_text(entries[i].0.as_str(), key) {
                proof {
                    entry_is_found(entries@, i as int);
                }
                return Some(i);
            }
            i = i + 1;
        }
        None
    }

    /// How many keys there are. No key is listed twice, and the keys listed are those of the map.
    pub fn len(&self) -> (r: usize)
        ensures
            r == self.keys().len(),
            self.keys().no_duplicates(),
            forall|key: Seq<char>| self@.contains_key(key) <==> #[trigger] self.keys().contains(key),
    {
        proof {
            use_type_invariant(self);
            let entries = self.entries@;
            assert forall|i: int, j: int|
                0 <= i < self.keys().len() && 0 <= j < self.keys().len() && i
                    != j implies self.keys()[i] != self.keys()[j] by {
                if i < j {
                    assert(entries[i].0@ != entries[j].0@);
                } else {
                    assert(entries[j].0@ != entries[i].0@);
                }
            }
            assert forall|key: Seq<char>|
                self@.contains_key(key) <==> #[trigger] self.keys().contains(key) by {
                if self@.contains_key(key) {
                    let i = choose|i: int| key_at(entries, key, i);
                    assert(self.keys()[i] == key);
                }
                if self.keys().contains(key) {
                    let i = choose|i: int| 0 <= i < self.keys().len() && self.keys()[i] == key;
                    assert(key_at(entries, key, i));
                }
            }
        }
        self.entries.len()
    }

    /// Whether a key is in the map.
    pub fn contains_key(&self, key: &str) -> (r: bool)
        ensures
            r == self@.contains_key(key@),
    {
        proof {
            use_type_invariant(self);
        }
        Self::position(&self.entries, key).is_some()
    }

    /// The value of a key.
    pub fn get(&self, key: &str) -> (r: Option<&V>)
        ensures
            match r {
                Some(v) => self@.contains_key(key@) && self@[key@] == *v,
                None => !self@.contains_key(key@),
            },
    {
        proof {
            use_type_invariant(self);
        }
        match Self::position(&self.entries, key) {
            Some(i) => Some(&self.entries[i].1),
            None => None,
        }
    }

    /// The key that arrived as the given one.
    pub fn key(&self, index: usize) -> (r: &str)
        requires
            index < self.keys().len(),
        ensures
            r@ == self.keys()[index as int],
            self@.contains_key(r@),
    {
        proof {
            use_type_invariant(self);
            entry_is_found(self.entries@, index as int);
        }
        self.entries[index].0.as_str()
    }

    /// The value whose key arrived as the given one.
    pub fn value(&self, index: usize) -> (r: &V)
        requires
            index < self.keys().len(),
        ensures
            self@.contains_key(self.keys()[index as int]),
            *r == self@[self.keys()[index as int]],
    {
        proof {
            use_type_invariant(self);
            entry_is_found(self.entries@, index as int);
        }
        &self.entries[index].1
    }

    /// Puts a value under a key, in place of an earlier one.
    pub fn insert(&mut self, key: String, value: V)
        ensures
            final(self)@ == old(self)@.insert(key@, value),
            final(self).keys() == (if old(self)@.contains_key(key@) {
                old(self).keys()
            } else {
                old(self).keys().push(key@)
            }),
    {
        proof {
            use_type_invariant(&*self);
        }
        let ghost before = self.entries@;
        let mut entries: Vec<(String, V)> = Vec::new();
        std::mem::swap(&mut entries, &mut self.entries);
        let found = Self::position(&entries, key.as_str());
        let ghost map = as_map(before).insert(key@, value);
        match found {
            Some(i) => {
                let ghost name = key@;
                entries.set(i, (key, value));
                proof {
                    assert(key_list(entries@) =~= key_list(before));
                    assert forall|a: int, b: int| 0 <= a < b < entries@.len() implies (
                    #[trigger] entries@[a]).0@ != (#[trigger] entries@[b]).0@ by {
                        assert(before[a].0@ != before[b].0@);
                    }
                    assert forall|j: int| 0 <= j < entries@.len() implies map.contains_key(
                        (#[trigger] entries@[j]).0@,
                    ) && map[entries@[j].0@] == entries@[j].1 by {
                        entry_is_found(before, j);
                        if j != i {
                            assert(before[j].0@ != before[i as int].0@);
                        }
                    }
                    assert forall|k: Seq<char>| #[trigger] map.contains_key(k) implies exists|
                        j: int,
                    | key_at(entries@, k, j) by {
                        if k == name {
                            assert(key_at(entries@, k, i as int));
                        } else {
                            let j = choose|j: int| key_at(before, k, j);
                            assert(key_at(entries@, k, j));
                        }
                    }
                    same_entries_same_map(entries@, map);
                }
            },
            None => {
                let ghost name = key@;
                entries.push((key, value));
                proof {
                    assert(key_list(entries@) =~= key_list(before).push(name));
                    assert forall|a: int, b: int| 0 <= a < b < entries@.len() implies (
                    #[trigger] entries@[a]).0@ != (#[trigger] entries@[b]).0@ by {
                        if b < before.len() {
                            assert(before[a].0@ != before[b].0@);
                        } else {
                            assert(!key_at(before, name, a));
                        }
                    }
                    assert forall|j: int| 0 <= j < entries@.len() implies map.contains_key(
                        (#[trigger] entries@[j]).0@,
                    ) && map[entries@[j].0@] == entries@[j].1 by {
                        if j < before.len() {
                            entry_is_found(before, j);
                            assert(!key_at(before, name, j));
                        }
                    }
                    assert forall|k: Seq<char>| #[trigger] map.contains_key(k) implies exists|
                        j: int,
                    | key_at(entries@, k, j) by {
                        if k == name {
                            assert(key_at(entries@, k, before.len() as int));
                        } else {
                            let j = choose|j: int| key_at(before, k, j);
                            assert(key_at(entries@, k, j));
                        }
                    }
                    same_entries_same_map(entries@, map);
                }
            },
        }
        self.entries = entries;
    }

    /// Takes the value of a key out of the map.
    pub fn remove(&mut self, key: &str) -> (r: Option<V>)
        ensures
            final(self)@ == old(self)@.remove(key@),
            final(self).keys() == without(old(self).keys(), key@),
            match r {
                Some(v) => old(self)@.contains_key(key@) && v == old(self)@[key@],
                None => !old(self)@.contains_key(key@),
            },
    {
        proof {
            use_type_invariant(&*self);
        }
        let ghost before = self.entries@;
        let mut entries: Vec<(String, V)> = Vec::new();
        std::mem::swap(&mut entries, &mut self.entries);
        let found = Self::position(&entries, key);
        let ghost map = as_map(before).remove(key@);
        let removed = match found {
            Some(i) => {
                let (_, value) = entries.remove(i);
                proof {
                    assert(key_list(entries@) =~= key_list(before).remove(i as int));
                    assert forall|j: int| 0 <= j < before.len() && j != i implies #[trigger] key_list(
                        before,
                    )[j] != key@ by {
                        assert(before[j].0@ != before[i as int].0@);
                    }
                    filter_of_single(key_list(before), key@, i as int);
                    assert forall|a: int, b: int| 0 <= a < b < entries@.len() implies (
                    #[trigger] entries@[a]).0@ != (#[trigger] entries@[b]).0@ by {
                        let x = if a < i { a } else { a + 1 };
                        let y = if b < i { b } else { b + 1 };
                        assert(before[x].0@ != before[y].0@);
                    }
                    assert forall|j: int| 0 <= j < entries@.len() implies map.contains_key(
                        (#[trigger] entries@[j]).0@,
                    ) && map[entries@[j].0@] == entries@[j].1 by {
                        let x = if j < i { j } else { j + 1 };
                        entry_is_found(before, x);
                        assert(key_list(before)[x] != key@);
                    }
                    assert forall|k: Seq<char>| #[trigger] map.contains_key(k) implies exists|
                        j: int,
                    | key_at(entries@, k, j) by {
                        let x = choose|x: int| key_at(before, k, x);
                        assert(key_at(entries@, k, if x < i { x } else { x - 1 }));
                    }
                    same_entries_same_map(entries@, map);
                }
                Some(value)
            },
            None => {
                proof {
                    assert forall|j: int| 0 <= j < before.len() implies #[trigger] key_list(before)[j]
                        != key@ by {
                        assert(!key_at(before, key@, j));
                    }
                    filter_of_absent(key_list(before), key@);
                    assert(map =~= as_map(before));
                }
                None
            },
        };
        self.entries = entries;
        removed
    }

    /// Takes every entry out of the map.
    pub fn clear(&mut self)
        ensures
            final(self)@ == Map::<Seq<char>, V>::empty(),
            final(self).keys() == Seq::<Seq<char>>::empty(),
    {
        *self = StringMap::new();
    }
}

} // verus!
