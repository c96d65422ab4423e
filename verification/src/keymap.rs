//! A map from keys to values, in which no key occurs twice.

use vstd::prelude::*;

verus! {

/// A key that can be told from another one.
pub trait MapKey: View + Sized {
    /// Whether two keys are the same.
    fn same(&self, other: &Self) -> (res: bool)
        ensures
            res == (self@ == other@),
    ;
}

impl MapKey for String {
    fn same(&self, other: &Self) -> (res: bool) {
        self.eq(other)
    }
}

/// Whether no key occurs twice among the entries.
pub open spec fn distinct_keys<K: MapKey, T>(entries: Seq<(K, T)>) -> bool {
    forall|i: int, j: int|
        0 <= i < entries.len() && 0 <= j < entries.len() && #[trigger] entries[i].0@
            == #[trigger] entries[j].0@ ==> i == j
}

/// Whether `key` stands at place `i` among the entries.
pub open spec fn key_at<K: MapKey, T>(entries: Seq<(K, T)>, key: K::V, i: int) -> bool {
    0 <= i < entries.len() && entries[i].0@ == key
}

/// The map that a list of entries stands for.
pub open spec fn map_of<K: MapKey, T>(entries: Seq<(K, T)>) -> Map<K::V, T> {
    Map::new(
        |key: K::V| exists|i: int| key_at(entries, key, i),
        |key: K::V| entries[choose|i: int| key_at(entries, key, i)].1,
    )
}

/// A map with keys of type `K`.
#[derive(Debug, PartialEq, Eq)]
pub struct KeyMap<K: MapKey, T> {
    entries: Vec<(K, T)>,
}

impl<K: MapKey, T> View for KeyMap<K, T> {
    type V = Map<K::V, T>;

    closed spec fn view(&self) -> Map<K::V, T> {
        map_of(self.entries@)
    }
}

/// In a list of distinct keys, the map has at each key what stands beside it.
pub proof fn lemma_map_of_entry<K: MapKey, T>(entries: Seq<(K, T)>, i: int)
    requires
        distinct_keys(entries),
        0 <= i < entries.len(),
    ensures
        map_of(entries).contains_key(entries[i].0@),
        map_of(entries)[entries[i].0@] == entries[i].1,
{
    let key = entries[i].0@;
    assert(key_at(entries, key, i));
    let j = choose|j: int| key_at(entries, key, j);
    assert(key_at(entries, key, j));
    assert(entries[i].0@ == entries[j].0@);
}

/// A map has finitely many keys.
pub proof fn lemma_keys_are_finite<K: MapKey, T>(map: KeyMap<K, T>)
    ensures
        map@.dom().finite(),
{
    let keys = map.entries@.map_values(|e: (K, T)| e.0@);
    vstd::seq_lib::seq_to_set_is_finite(keys);
    assert forall|key: K::V| map@.dom().contains(key) <==> keys.to_set().contains(key) by {
        if map@.dom().contains(key) {
            let i = choose|i: int| key_at(map.entries@, key, i);
            assert(keys[i] == key);
        }
        if keys.to_set().contains(key) {
            let i = choose|i: int| 0 <= i < keys.len() && keys[i] == key;
            assert(key_at(map.entries@, key, i));
        }
    }
    assert(map@.dom() =~= keys.to_set());
}

impl<K: MapKey, T> KeyMap<K, T> {
    #[verifier::type_invariant]
    spec fn distinct(&self) -> bool {
        distinct_keys(self.entries@)
    }

    /// A map with no entries.
    pub fn new() -> (res: Self)
        ensures
            res@ == Map::<K::V, T>::empty(),
    {
        let entries: Vec<(K, T)> = Vec::new();
        assert(map_of(entries@) =~= Map::<K::V, T>::empty()) by {
            assert forall|key: K::V| !map_of(entries@).contains_key(key) by {
                assert(forall|i: int| !key_at(entries@, key, i));
            }
        }
        KeyMap { entries }
    }

    /// The place of `key` among the entries, if it is there.
    fn place(&self, key: &K) -> (res: Option<usize>)
        ensures
            match res {
                Some(i) => i < self.entries@.len() && self.entries@[i as int].0@ == key@
                    && self@.contains_key(key@) && self@[key@] == self.entries@[i as int].1,
                None => !self@.contains_key(key@),
            },
    {
        proof {
            use_type_invariant(self);
        }
        let mut i: usize = 0;
        while i < self.entries.len()
            invariant
                i <= self.entries.len(),
                distinct_keys(self.entries@),
                forall|j: int| 0 <= j < i ==> (#[trigger] self.entries@[j]).0@ != key@,
            decreases self.entries.len() - i,
        {
            if self.entries[i].0.same(key) {
                proof {
                    lemma_map_of_entry(self.entries@, i as int);
                }
                return Some(i);
            }
            i += 1;
        }
        assert(!self@.contains_key(key@)) by {
            assert(forall|j: int| !key_at(self.entries@, key@, j));
        }
        None
    }

    /// The value at `key`, if the map has it.
    pub fn get(&self, key: &K) -> (res: Option<&T>)
        ensures
            match res {
                Some(v) => self@.contains_key(key@) && *v == self@[key@],
                None => !self@.contains_key(key@),
            },
    {
        match self.place(key) {
            Some(i) => Some(&self.entries[i].1),
            None => None,
        }
    }

    /// Sets the value at `key`, in place of what was there.
    pub fn insert(&mut self, key: K, value: T)
        ensures
            final(self)@ == old(self)@.insert(key@, value),
    {
        let found = self.place(&key);
        proof {
            use_type_invariant(&*self);
        }
        let ghost before = self.entries@;
        let mut entries: Vec<(K, T)> = Vec::new();
        std::mem::swap(&mut entries, &mut self.entries);
        match found {
            Some(i) => {
                entries[i] = (key, value);
                assert(forall|j: int|
                    0 <= j < before.len() ==> (#[trigger] entries@[j]).0@ == before[j].0@);
                proof {
                    lemma_map_of_update(before, i as int, (key, value));
                }
            },
            None => {
                entries.push((key, value));
                proof {
                    lemma_map_of_push(before, (key, value));
                }
            },
        }
        self.entries = entries;
    }

    /// Takes `key` out of the map and gives back its value, if the map had it.
    pub fn remove(&mut self, key: &K) -> (res: Option<T>)
        ensures
            final(self)@ == old(self)@.remove(key@),
            match res {
                Some(v) => old(self)@.contains_key(key@) && v == old(self)@[key@],
                None => !old(self)@.contains_key(key@),
            },
    {
        let found = self.place(key);
        proof {
            use_type_invariant(&*self);
        }
        match found {
            Some(i) => {
                let ghost before = self.entries@;
                let mut entries: Vec<(K, T)> = Vec::new();
                std::mem::swap(&mut entries, &mut self.entries);
                let entry = entries.remove(i);
                proof {
                    lemma_map_of_remove(before, i as int);
                }
                self.entries = entries;
                Some(entry.1)
            },
            None => {
                assert(old(self)@.remove(key@) =~= old(self)@);
                None
            },
        }
    }

    /// The entries of the map, each key once.
    pub fn entries(&self) -> (res: &Vec<(K, T)>)
        ensures
            distinct_keys(res@),
            map_of(res@) == self@,
    {
        proof {
            use_type_invariant(self);
        }
        &self.entries
    }
}

proof fn lemma_map_of_update<K: MapKey, T>(before: Seq<(K, T)>, i: int, entry: (K, T))
    requires
        distinct_keys(before),
        0 <= i < before.len(),
        entry.0@ == before[i].0@,
    ensures
        distinct_keys(before.update(i, entry)),
        map_of(before.update(i, entry)) == map_of(before).insert(entry.0@, entry.1),
{
    let after = before.update(i, entry);
    assert(forall|j: int| 0 <= j < before.len() ==> (#[trigger] after[j]).0@ == before[j].0@);
    assert(distinct_keys(after)) by {
        assert forall|a: int, b: int|
            0 <= a < after.len() && 0 <= b < after.len() && #[trigger] after[a].0@
                == #[trigger] after[b].0@ implies a == b by {
            assert(before[a].0@ == before[b].0@);
        }
    }
    lemma_same_map(after, map_of(before).insert(entry.0@, entry.1), before, i);
}

/// A list whose keys are those of `before`, and whose values differ from it only at `i`.
proof fn lemma_same_map<K: MapKey, T>(
    after: Seq<(K, T)>,
    target: Map<K::V, T>,
    before: Seq<(K, T)>,
    i: int,
)
    requires
        distinct_keys(before),
        distinct_keys(after),
        0 <= i < before.len(),
        after.len() == before.len(),
        forall|j: int| 0 <= j < before.len() ==> (#[trigger] after[j]).0@ == before[j].0@,
        forall|j: int|
            0 <= j < before.len() && j != i ==> (#[trigger] after[j]).1 == before[j].1,
        target == map_of(before).insert(after[i].0@, after[i].1),
    ensures
        map_of(after) == target,
{
    assert forall|key: K::V| map_of(after).contains_key(key) == target.contains_key(key) by {
        if map_of(after).contains_key(key) {
            let j = choose|j: int| key_at(after, key, j);
            assert(key_at(before, key, j));
        }
        if target.contains_key(key) {
            if key == after[i].0@ {
                assert(key_at(after, key, i));
            } else {
                let j = choose|j: int| key_at(before, key, j);
                assert(key_at(after, key, j));
            }
        }
    }
    assert forall|key: K::V| map_of(after).contains_key(key) implies #[trigger] map_of(after)[key]
        == target[key] by {
        let j = choose|j: int| key_at(after, key, j);
        lemma_map_of_entry(after, j);
        lemma_map_of_entry(before, j);
        if j != i {
            assert(before[j].0@ != before[i].0@) by {
                if before[j].0@ == before[i].0@ {
                    assert(j == i);
                }
            }
        }
    }
    assert(map_of(after) =~= target);
}

/// A list with one entry more, for a key that it lacks, stands for the map with that entry.
pub proof fn lemma_map_of_push<K: MapKey, T>(before: Seq<(K, T)>, entry: (K, T))
    requires
        distinct_keys(before),
        !map_of(before).contains_key(entry.0@),
    ensures
        distinct_keys(before.push(entry)),
        map_of(before.push(entry)) == map_of(before).insert(entry.0@, entry.1),
{
    let after = before.push(entry);
    let target = map_of(before).insert(entry.0@, entry.1);
    assert forall|j: int| 0 <= j < before.len() implies (#[trigger] before[j]).0@ != entry.0@ by {
        if before[j].0@ == entry.0@ {
            assert(key_at(before, entry.0@, j));
        }
    }
    assert(distinct_keys(after)) by {
        assert forall|a: int, b: int|
            0 <= a < after.len() && 0 <= b < after.len() && #[trigger] after[a].0@
                == #[trigger] after[b].0@ implies a == b by {
            if a < before.len() && b < before.len() {
                assert(before[a].0@ == before[b].0@);
            } else if a < before.len() {
                assert(before[a].0@ != entry.0@);
            } else if b < before.len() {
                assert(before[b].0@ != entry.0@);
            }
        }
    }
    assert forall|key: K::V| map_of(after).contains_key(key) == target.contains_key(key) by {
        if map_of(after).contains_key(key) {
            let j = choose|j: int| key_at(after, key, j);
            if j < before.len() {
                assert(key_at(before, key, j));
            }
        }
        if target.contains_key(key) {
            if key == entry.0@ {
                assert(key_at(after, key, before.len() as int));
            } else {
                let j = choose|j: int| key_at(before, key, j);
                assert(key_at(after, key, j));
            }
        }
    }
    assert forall|key: K::V| map_of(after).contains_key(key) implies #[trigger] map_of(after)[key]
        == target[key] by {
        let j = choose|j: int| key_at(after, key, j);
        lemma_map_of_entry(after, j);
        if j < before.len() {
            lemma_map_of_entry(before, j);
            assert(before[j].0@ != entry.0@);
        }
    }
    assert(map_of(after) =~= target);
}

proof fn lemma_map_of_remove<K: MapKey, T>(before: Seq<(K, T)>, i: int)
    requires
        distinct_keys(before),
        0 <= i < before.len(),
    ensures
        distinct_keys(before.remove(i)),
        map_of(before.remove(i)) == map_of(before).remove(before[i].0@),
{
    let after = before.remove(i);
    let target = map_of(before).remove(before[i].0@);
    assert(forall|j: int|
        0 <= j < after.len() ==> #[trigger] after[j] == before[if j < i { j } else { j + 1 }]);
    assert(distinct_keys(after)) by {
        assert forall|a: int, b: int|
            0 <= a < after.len() && 0 <= b < after.len() && #[trigger] after[a].0@
                == #[trigger] after[b].0@ implies a == b by {
            let a0 = if a < i { a } else { a + 1 };
            let b0 = if b < i { b } else { b + 1 };
            assert(before[a0].0@ == before[b0].0@);
        }
    }
    assert forall|key: K::V| map_of(after).contains_key(key) == target.contains_key(key) by {
        if map_of(after).contains_key(key) {
            let j = choose|j: int| key_at(after, key, j);
            let j0 = if j < i { j } else { j + 1 };
            assert(key_at(before, key, j0));
            if key == before[i].0@ {
                assert(before[j0].0@ == before[i].0@);
            }
        }
        if target.contains_key(key) {
            let j0 = choose|j: int| key_at(before, key, j);
            assert(j0 != i);
            let j = if j0 < i { j0 } else { j0 - 1 };
            assert(key_at(after, key, j));
        }
    }
    assert forall|key: K::V| map_of(after).contains_key(key) implies #[trigger] map_of(after)[key]
        == target[key] by {
        let j = choose|j: int| key_at(after, key, j);
        let j0 = if j < i { j } else { j + 1 };
        lemma_map_of_entry(after, j);
        lemma_map_of_entry(before, j0);
    }
    assert(map_of(after) =~= target);
}

} // verus!
