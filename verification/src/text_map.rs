//! A map keyed by text.

use crate::text::{same_text, texts};
use vstd::prelude::*;

verus! {

/// A map from texts to values. Each key has one entry.
#[derive(Debug)]
pub struct TextMap<V> {
    entries: Vec<(String, V)>,
}

spec fn as_map<V>(entries: Seq<(String, V)>) -> Map<Seq<char>, V>
    decreases entries.len(),
{
    if entries.len() == 0 {
        Map::empty()
    } else {
        as_map(entries.drop_last()).insert(entries.last().0@, entries.last().1)
    }
}

spec fn all_distinct<V>(entries: Seq<(String, V)>) -> bool {
    forall|i: int, j: int|
        0 <= i < j < entries.len() ==> (#[trigger] entries[i]).0@ != (#[trigger] entries[j]).0@
}

proof fn as_map_keys<V>(entries: Seq<(String, V)>, key: Seq<char>)
    ensures
        as_map(entries).contains_key(key) <==> exists|i: int|
            0 <= i < entries.len() && (#[trigger] entries[i]).0@ == key,
    decreases entries.len(),
{
    if entries.len() > 0 {
        let front = entries.drop_last();
        as_map_keys(front, key);
        if as_map(front).contains_key(key) {
            let i = choose|i: int| 0 <= i < front.len() && (#[trigger] front[i]).0@ == key;
            assert(entries[i].0@ == key);
        }
        if exists|i: int| 0 <= i < entries.len() && (#[trigger] entries[i]).0@ == key {
            let i = choose|i: int| 0 <= i < entries.len() && (#[trigger] entries[i]).0@ == key;
            if i < front.len() {
                assert(front[i].0@ == key);
            }
        }
    }
}

proof fn as_map_entry<V>(entries: Seq<(String, V)>, at: int)
    requires
        all_distinct(entries),
        0 <= at < entries.len(),
    ensures
        as_map(entries).contains_key(entries[at].0@),
        as_map(entries)[entries[at].0@] == entries[at].1,
    decreases entries.len(),
{
    if at < entries.len() - 1 {
        let front = entries.drop_last();
        as_map_entry(front, at);
        assert(entries[at].0@ != entries[entries.len() - 1].0@);
        assert(front[at] == entries[at]);
    }
}

proof fn as_map_update<V>(entries: Seq<(String, V)>, at: int, entry: (String, V))
    requires
        0 <= at < entries.len(),
        all_distinct(entries),
        entry.0@ == entries[at].0@,
    ensures
        as_map(entries.update(at, entry)) == as_map(entries).insert(entry.0@, entry.1),
    decreases entries.len(),
{
    let front = entries.drop_last();
    let updated = entries.update(at, entry);
    if at == entries.len() - 1 {
        assert(updated.drop_last() == front);
    } else {
        as_map_update(front, at, entry);
        assert(updated.drop_last() == front.update(at, entry));
        assert(entries[at].0@ != entries[entries.len() - 1].0@);
    }
    assert(as_map(updated) =~= as_map(entries).insert(entry.0@, entry.1));
}

proof fn as_map_len<V>(entries: Seq<(String, V)>)
    requires
        all_distinct(entries),
    ensures
        as_map(entries).dom().finite(),
        as_map(entries).dom().len() == entries.len(),
    decreases entries.len(),
{
    if entries.len() > 0 {
        let front = entries.drop_last();
        as_map_len(front);
        as_map_keys(front, entries.last().0@);
        assert forall|i: int| 0 <= i < front.len() implies (#[trigger] front[i]).0@
            != entries.last().0@ by {
            assert(entries[i].0@ != entries[entries.len() - 1].0@);
        }
        assert(as_map(entries).dom() == as_map(front).dom().insert(entries.last().0@));
    }
}

impl<V> TextMap<V> {
    /// The keys and their values.
    pub closed spec fn view(&self) -> Map<Seq<char>, V> {
        as_map(self.entries@)
    }

    /// The values, one per key, in the order in which the keys came.
    pub closed spec fn values(&self) -> Seq<V> {
        self.entries@.map_values(|e: (String, V)| e.1)
    }

    /// The map of the first `n` keys.
    pub closed spec fn first(&self, n: int) -> Map<Seq<char>, V> {
        as_map(self.entries@.take(n))
    }

    /// Each key has one entry.
    pub closed spec fn wf(&self) -> bool {
        all_distinct(self.entries@)
    }

    /// A value is listed exactly when some key has it.
    pub proof fn values_belong_to_keys(&self, value: V)
        requires
            self.wf(),
        ensures
            self.values().contains(value) <==> exists|key: Seq<char>| #[trigger]
                self@.contains_key(key) && self@[key] == value,
    {
        if self.values().contains(value) {
            let i = choose|i: int| 0 <= i < self.values().len() && self.values()[i] == value;
            as_map_entry(self.entries@, i);
            assert(self@.contains_key(self.entries@[i].0@));
        }
        if exists|key: Seq<char>| #[trigger] self@.contains_key(key) && self@[key] == value {
            let key = choose|key: Seq<char>| #[trigger]
                self@.contains_key(key) && self@[key] == value;
            as_map_keys(self.entries@, key);
            let i = choose|i: int|
                0 <= i < self.entries@.len() && (#[trigger] self.entries@[i]).0@ == key;
            as_map_entry(self.entries@, i);
            assert(self.values()[i] == value);
        }
    }

    /// An empty map.
    pub fn new() -> (map: Self)
        ensures
            map.wf(),
            map@ == Map::<Seq<char>, V>::empty(),
            map.values() == Seq::<V>::empty(),
    {
        let map = TextMap { entries: Vec::new() };
        assert(map.values() == Seq::<V>::empty());
        map
    }

    /// The number of keys.
    pub fn len(&self) -> (len: usize)
        requires
            self.wf(),
        ensures
            self@.dom().finite(),
            len == self@.dom().len(),
            len == self.values().len(),
            self.first(0) == Map::<Seq<char>, V>::empty(),
            self.first(len as int) == self@,
    {
        proof {
            as_map_len(self.entries@);
            assert(self.entries@.take(self.entries@.len() as int) == self.entries@);
        }
        self.entries.len()
    }

    /// The key and the value at `at` in the order in which the keys came.
    pub fn entry(&self, at: usize) -> (entry: &(String, V))
        requires
            self.wf(),
            at < self.values().len(),
        ensures
            !self.first(at as int).contains_key(entry.0@),
            self.first(at + 1) == self.first(at as int).insert(entry.0@, entry.1),
            entry.1 == self.values()[at as int],
            self@.contains_key(entry.0@),
            self@[entry.0@] == entry.1,
    {
        proof {
            let front = self.entries@.take(at as int);
            let key = self.entries@[at as int].0@;
            assert(self.entries@.take(at + 1).drop_last() == front);
            as_map_keys(front, key);
            as_map_entry(self.entries@, at as int);
            assert forall|i: int| 0 <= i < front.len() implies (#[trigger] front[i]).0@ != key by {
                assert(self.entries@[i].0@ != self.entries@[at as int].0@);
            }
        }
        &self.entries[at]
    }

    /// The keys, each once.
    pub fn keys(&self) -> (keys: Vec<String>)
        requires
            self.wf(),
        ensures
            texts(keys@).no_duplicates(),
            forall|key: Seq<char>| #[trigger]
                texts(keys@).contains(key) <==> self@.contains_key(key),
    {
        let mut keys: Vec<String> = Vec::new();
        let mut i: usize = 0;
        while i < self.entries.len()
            invariant
                i <= self.entries@.len(),
                keys@.len() == i,
                forall|j: int| 0 <= j < i ==> (#[trigger] keys@[j])@ == self.entries@[j].0@,
            decreases self.entries@.len() - i,
        {
            keys.push(self.entries[i].0.clone());
            i = i + 1;
        }
        proof {
            let list = texts(keys@);
            assert forall|j: int, k: int| 0 <= j < k < list.len() implies list[j] != list[k] by {
                assert(list[j] == self.entries@[j].0@ && list[k] == self.entries@[k].0@);
            }
            assert forall|key: Seq<char>| #[trigger]
                list.contains(key) <==> self@.contains_key(key) by {
                as_map_keys(self.entries@, key);
                if list.contains(key) {
                    let j = choose|j: int| 0 <= j < list.len() && list[j] == key;
                    assert(self.entries@[j].0@ == key);
                }
                if self@.contains_key(key) {
                    let j = choose|j: int|
                        0 <= j < self.entries@.len() && (#[trigger] self.entries@[j]).0@ == key;
                    assert(list[j] == key);
                }
            }
        }
        keys
    }

    /// Gives `key` the value `value`, and says whether it had one before.
    pub fn insert(&mut self, key: String, value: V) -> (had: bool)
        requires
            old(self).wf(),
        ensures
            final(self).wf(),
            final(self)@ == old(self)@.insert(key@, value),
            had == old(self)@.contains_key(key@),
    {
        let ghost before = self.entries@;
        let ghost text = key@;
        proof {
            as_map_keys(before, text);
        }
        let mut i: usize = 0;
        while i < self.entries.len()
            invariant
                i <= self.entries@.len(),
                self.entries@ == before,
                before == old(self).entries@,
                all_distinct(before),
                key@ == text,
                as_map(before).contains_key(text) <==> exists|j: int|
                    0 <= j < before.len() && (#[trigger] before[j]).0@ == text,
                forall|j: int| 0 <= j < i ==> (#[trigger] before[j]).0@ != text,
            decreases self.entries@.len() - i,
        {
            if same_text(self.entries[i].0.as_str(), key.as_str()) {
                proof {
                    as_map_update(before, i as int, (key, value));
                }
                self.entries.set(i, (key, value));
                return true;
            }
            i = i + 1;
        }
        self.entries.push((key, value));
        assert(self.entries@.drop_last() == before);
        false
    }
}

} // verus!
