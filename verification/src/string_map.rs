//! Maps whose keys are texts.
use vstd::prelude::*;

verus! {

/// A map from texts to values.
#[derive(Debug)]
pub struct StringMap<V> {
    pub(crate) entries: Vec<(String, V)>,
}

/// No two entries have the same key.
pub open spec fn keys_distinct<V>(entries: Seq<(String, V)>) -> bool {
    forall|i: int, j: int|
        0 <= i < j < entries.len() ==> (#[trigger] entries[i]).0@ != (#[trigger] entries[j]).0@
}

/// Whether one of the entries has a key.
pub open spec fn has_key<V>(entries: Seq<(String, V)>, key: Seq<char>) -> bool {
    exists|i: int| 0 <= i < entries.len() && (#[trigger] entries[i]).0@ == key
}

/// The map that entries with distinct keys make up.
pub open spec fn entries_map<V>(entries: Seq<(String, V)>) -> Map<Seq<char>, V> {
    Map::new(
        |key: Seq<char>| has_key(entries, key),
        |key: Seq<char>|
            entries[choose|i: int| 0 <= i < entries.len() && (#[trigger] entries[i]).0@ == key].1,
    )
}

impl<V> View for StringMap<V> {
    type V = Map<Seq<char>, V>;

    closed spec fn view(&self) -> Map<Seq<char>, V> {
        entries_map(self.entries@)
    }
}

proof fn lemma_entry<V>(entries: Seq<(String, V)>, i: int)
    requires
        keys_distinct(entries),
        0 <= i < entries.len(),
    ensures
        entries_map(entries).contains_key(entries[i].0@),
        entries_map(entries)[entries[i].0@] == entries[i].1,
{
    assert(has_key(entries, entries[i].0@));
}

/// Setting the value of an entry sets the value under its key.
proof fn lemma_replace<V>(entries: Seq<(String, V)>, i: int, entry: (String, V))
    requires
        keys_distinct(entries),
        0 <= i < entries.len(),
        entry.0@ == entries[i].0@,
    ensures
        keys_distinct(entries.update(i, entry)),
        entries_map(entries.update(i, entry)) == entries_map(entries).insert(entry.0@, entry.1),
{
    let after = entries.update(i, entry);
    assert forall|key: Seq<char>| has_key(after, key) == has_key(entries, key) by {
        if has_key(after, key) {
            let j = choose|j: int| 0 <= j < after.len() && (#[trigger] after[j]).0@ == key;
            assert(entries[j].0@ == key);
        }
        if has_key(entries, key) {
            let j = choose|j: int| 0 <= j < entries.len() && (#[trigger] entries[j]).0@ == key;
            assert(after[j].0@ == key);
        }
    }
    lemma_entry(after, i);
    assert forall|key: Seq<char>| has_key(after, key) && key != entry.0@ implies entries_map(after)[key]
        == entries_map(entries)[key] by {
        let j = choose|j: int| 0 <= j < after.len() && (#[trigger] after[j]).0@ == key;
        lemma_entry(after, j);
        lemma_entry(entries, j);
    }
    assert(entries_map(after) =~= entries_map(entries).insert(entry.0@, entry.1));
}

/// An entry with a new key adds that key.
proof fn lemma_append<V>(entries: Seq<(String, V)>, entry: (String, V))
    requires
        keys_distinct(entries),
        !has_key(entries, entry.0@),
    ensures
        keys_distinct(entries.push(entry)),
        entries_map(entries.push(entry)) == entries_map(entries).insert(entry.0@, entry.1),
{
    let after = entries.push(entry);
    assert forall|key: Seq<char>| has_key(after, key) == (has_key(entries, key) || key == entry.0@) by {
        if has_key(after, key) {
            let j = choose|j: int| 0 <= j < after.len() && (#[trigger] after[j]).0@ == key;
            if j < entries.len() {
                assert(entries[j].0@ == key);
            }
        }
        if has_key(entries, key) {
            let j = choose|j: int| 0 <= j < entries.len() && (#[trigger] entries[j]).0@ == key;
            assert(after[j].0@ == key);
        }
        assert(after[entries.len() as int] == entry);
    }
    lemma_entry(after, entries.len() as int);
    assert forall|key: Seq<char>| has_key(after, key) && key != entry.0@ implies entries_map(after)[key]
        == entries_map(entries)[key] by {
        let j = choose|j: int| 0 <= j < after.len() && (#[trigger] after[j]).0@ == key;
        lemma_entry(after, j);
        lemma_entry(entries, j);
    }
    assert(entries_map(after) =~= entries_map(entries).insert(entry.0@, entry.1));
}

impl<V> StringMap<V> {
    #[verifier::type_invariant]
    spec fn wf(&self) -> bool {
        keys_distinct(self.entries@)
    }

    /// The map without entries.
    pub fn new() -> (map: Self)
        ensures
            map@ == Map::<Seq<char>, V>::empty(),
    {
        let map = StringMap { entries: Vec::new() };
        assert(map@ == Map::<Seq<char>, V>::empty());
        map
    }

    /// The value under a key.
    pub fn get(&self, key: &str) -> (value: Option<&V>)
        ensures
            match value {
                Some(value) => self@.contains_key(key@) && *value == self@[key@],
                None => !self@.contains_key(key@),
            },
    {
        proof {
            use_type_invariant(self);
        }
        let wanted = key.to_owned();
        for i in 0..self.entries.len()
            invariant
                keys_distinct(self.entries@),
                wanted@ == key@,
                forall|j: int| 0 <= j < i ==> (#[trigger] self.entries@[j]).0@ != key@,
        {
            if self.entries[i].0 == wanted {
                proof {
                    lemma_entry(self.entries@, i as int);
                }
                return Some(&self.entries[i].1);
            }
        }
        None
    }

    /// The entries, each key once.
    pub fn into_entries(self) -> (entries: Vec<(String, V)>)
        ensures
            keys_distinct(entries@),
            entries_map(entries@) == self@,
    {
        proof {
            use_type_invariant(&self);
        }
        self.entries
    }

    /// Sets the value under a key.
    pub fn insert(&mut self, key: String, value: V)
        ensures
            final(self)@ == old(self)@.insert(key@, value),
    {
        proof {
            use_type_invariant(&*self);
        }
        let mut entries: Vec<(String, V)> = Vec::new();
        std::mem::swap(&mut entries, &mut self.entries);
        let ghost before = entries@;
        let count = entries.len();
        for i in 0..count
            invariant
                count == before.len(),
                entries@ == before,
                old(self)@ == entries_map(before),
                keys_distinct(before),
                forall|j: int| 0 <= j < i ==> (#[trigger] before[j]).0@ != key@,
        {
            if entries[i].0 == key {
                proof {
                    lemma_replace(before, i as int, (key, value));
                }
                entries.set(i, (key, value));
                self.entries = entries;
                return ;
            }
        }
        proof {
            lemma_append(before, (key, value));
        }
        entries.push((key, value));
        self.entries = entries;
    }
}

/// The entries of a map are its keys with their values: each entry stands in the map, each key
/// of the map has an entry, and no two entries have the same key.
pub proof fn law_entries_are_the_map<V>(entries: Seq<(String, V)>, key: Seq<char>)
    requires
        keys_distinct(entries),
    ensures
        forall|i: int, j: int|
            0 <= i < entries.len() && 0 <= j < entries.len() && (#[trigger] entries[i]).0@ == (
            #[trigger] entries[j]).0@ ==> i == j,
        forall|i: int|
            0 <= i < entries.len() ==> entries_map(entries).contains_key((#[trigger] entries[i]).0@) && entries_map(
                entries,
            )[entries[i].0@] == entries[i].1,
        entries_map(entries).contains_key(key) ==> exists|i: int|
            0 <= i < entries.len() && (#[trigger] entries[i]).0@ == key,
{
    assert forall|i: int| 0 <= i < entries.len() implies entries_map(entries).contains_key(
        (#[trigger] entries[i]).0@,
    ) && entries_map(entries)[entries[i].0@] == entries[i].1 by {
        lemma_entry(entries, i);
    }
}

} // verus!
