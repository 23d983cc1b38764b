//! A small association list keyed by 32-byte identities.
//!
//! The ledger keeps its holdings and its swap records in such lists. A list
//! never holds one key twice, so it stands for a finite map.

use crate::commitment::same_identity;
use vstd::prelude::*;

verus! {

struct Entry<V> {
    key: [u8; 32],
    value: V,
}

/// A finite map from identities to values of type `V`.
pub struct IdentityMap<V> {
    entries: Vec<Entry<V>>,
}

/// No key occurs at two places.
spec fn distinct_keys<V>(entries: Seq<Entry<V>>) -> bool {
    forall|i: int, j: int|
        0 <= i < j < entries.len() ==> (#[trigger] entries[i]).key@ != (#[trigger] entries[j]).key@
}

spec fn holds_key<V>(entries: Seq<Entry<V>>, key: Seq<u8>) -> bool {
    exists|i: int| 0 <= i < entries.len() && (#[trigger] entries[i]).key@ == key
}

spec fn place_of<V>(entries: Seq<Entry<V>>, key: Seq<u8>) -> int {
    choose|i: int| 0 <= i < entries.len() && (#[trigger] entries[i]).key@ == key
}

/// The map that a list of entries stands for.
spec fn map_of<V>(entries: Seq<Entry<V>>) -> Map<Seq<u8>, V> {
    Map::new(
        |key: Seq<u8>| holds_key(entries, key),
        |key: Seq<u8>| entries[place_of(entries, key)].value,
    )
}

/// Under a key that stands at place `i`, the map holds the value at `i`.
proof fn lemma_entry_is_mapped<V>(entries: Seq<Entry<V>>, i: int)
    requires
        distinct_keys(entries),
        0 <= i < entries.len(),
    ensures
        map_of(entries).contains_key(entries[i].key@),
        map_of(entries)[entries[i].key@] == entries[i].value,
{
    assert(place_of(entries, entries[i].key@) == i);
}

/// Every key of the map stands at some place, and the map holds the value
/// at that place.
proof fn lemma_key_has_place<V>(entries: Seq<Entry<V>>, key: Seq<u8>) -> (p: int)
    requires
        distinct_keys(entries),
        map_of(entries).contains_key(key),
    ensures
        0 <= p < entries.len(),
        entries[p].key@ == key,
        map_of(entries)[key] == entries[p].value,
{
    place_of(entries, key)
}

/// Two lists of distinct keys stand for the same map if each entry of the
/// one is an entry of the other.
proof fn lemma_same_entries_same_map<V>(
    entries: Seq<Entry<V>>,
    want: Map<Seq<u8>, V>,
)
    requires
        distinct_keys(entries),
        forall|i: int|
            0 <= i < entries.len() ==> want.contains_key((#[trigger] entries[i]).key@)
                && want[entries[i].key@] == entries[i].value,
        forall|key: Seq<u8>| want.contains_key(key) ==> holds_key(entries, key),
    ensures
        map_of(entries) == want,
{
    assert forall|key: Seq<u8>| map_of(entries).contains_key(key) implies want.contains_key(key)
        && map_of(entries)[key] == want[key] by {
        let p = lemma_key_has_place(entries, key);
    }
}

proof fn lemma_push<V>(entries: Seq<Entry<V>>, entry: Entry<V>)
    requires
        distinct_keys(entries),
        !holds_key(entries, entry.key@),
    ensures
        distinct_keys(entries.push(entry)),
        map_of(entries.push(entry)) == map_of(entries).insert(entry.key@, entry.value),
{
    let after = entries.push(entry);
    let want = map_of(entries).insert(entry.key@, entry.value);
    assert forall|i: int| 0 <= i < after.len() implies want.contains_key(
        (#[trigger] after[i]).key@,
    ) && want[after[i].key@] == after[i].value by {
        if i < entries.len() {
            lemma_entry_is_mapped(entries, i);
        }
    }
    assert forall|key: Seq<u8>| want.contains_key(key) implies holds_key(after, key) by {
        if key == entry.key@ {
            assert(after[entries.len() as int] == entry);
        } else {
            let p = lemma_key_has_place(entries, key);
            assert(after[p] == entries[p]);
        }
    }
    lemma_same_entries_same_map(after, want);
}

proof fn lemma_update<V>(entries: Seq<Entry<V>>, i: int, entry: Entry<V>)
    requires
        distinct_keys(entries),
        0 <= i < entries.len(),
        entries[i].key@ == entry.key@,
    ensures
        distinct_keys(entries.update(i, entry)),
        map_of(entries.update(i, entry)) == map_of(entries).insert(entry.key@, entry.value),
{
    let after = entries.update(i, entry);
    let want = map_of(entries).insert(entry.key@, entry.value);
    assert forall|a: int| 0 <= a < after.len() implies (#[trigger] after[a]).key@
        == entries[a].key@ by {}
    assert forall|a: int| 0 <= a < after.len() implies want.contains_key(
        (#[trigger] after[a]).key@,
    ) && want[after[a].key@] == after[a].value by {
        if a != i {
            lemma_entry_is_mapped(entries, a);
        }
    }
    assert forall|key: Seq<u8>| want.contains_key(key) implies holds_key(after, key) by {
        if key == entry.key@ {
            assert(after[i] == entry);
        } else {
            let p = lemma_key_has_place(entries, key);
            assert(after[p] == entries[p]);
        }
    }
    lemma_same_entries_same_map(after, want);
}

proof fn lemma_remove<V>(entries: Seq<Entry<V>>, i: int)
    requires
        distinct_keys(entries),
        0 <= i < entries.len(),
    ensures
        distinct_keys(entries.remove(i)),
        map_of(entries.remove(i)) == map_of(entries).remove(entries[i].key@),
{
    let after = entries.remove(i);
    let want = map_of(entries).remove(entries[i].key@);
    assert forall|a: int| 0 <= a < after.len() implies #[trigger] after[a] == entries[if a < i {
        a
    } else {
        a + 1
    }] by {}
    assert forall|a: int| 0 <= a < after.len() implies want.contains_key(
        (#[trigger] after[a]).key@,
    ) && want[after[a].key@] == after[a].value by {
        lemma_entry_is_mapped(
            entries,
            if a < i {
                a
            } else {
                a + 1
            },
        );
    }
    assert forall|key: Seq<u8>| want.contains_key(key) implies holds_key(after, key) by {
        let p = lemma_key_has_place(entries, key);
        assert(after[if p < i {
            p
        } else {
            p - 1
        }] == entries[p]);
    }
    lemma_same_entries_same_map(after, want);
}

impl<V> View for IdentityMap<V> {
    type V = Map<Seq<u8>, V>;

    closed spec fn view(&self) -> Map<Seq<u8>, V> {
        map_of(self.entries@)
    }
}

impl<V> IdentityMap<V> {
    #[verifier::type_invariant]
    spec fn well_formed(self) -> bool {
        distinct_keys(self.entries@)
    }

    /// The empty map.
    pub fn new() -> (map: Self)
        ensures
            map@ == Map::<Seq<u8>, V>::empty(),
    {
        IdentityMap { entries: Vec::new() }
    }

    /// Where `key` stands in the list, if it does.
    fn position(&self, key: &[u8; 32]) -> (place: Option<usize>)
        ensures
            match place {
                Some(i) => i < self.entries@.len() && self.entries@[i as int].key@ == key@,
                None => !holds_key(self.entries@, key@),
            },
    {
        let mut i: usize = 0;
        while i < self.entries.len()
            invariant
                i <= self.entries@.len(),
                forall|k: int| 0 <= k < i ==> (#[trigger] self.entries@[k]).key@ != key@,
            decreases self.entries@.len() - i,
        {
            if same_identity(&self.entries[i].key, key) {
                return Some(i);
            }
            i += 1;
        }
        None
    }

    /// The value stored under `key`.
    pub fn get(&self, key: &[u8; 32]) -> (value: Option<&V>)
        ensures
            value == if self@.contains_key(key@) {
                Some(&self@[key@])
            } else {
                None
            },
    {
        proof {
            use_type_invariant(self);
        }
        match self.position(key) {
            Some(i) => {
                proof {
                    lemma_entry_is_mapped(self.entries@, i as int);
                }
                Some(&self.entries[i].value)
            },
            None => None,
        }
    }

    /// Stores `value` under `key`, in place of what was stored there.
    pub fn insert(&mut self, key: [u8; 32], value: V)
        ensures
            final(self)@ == old(self)@.insert(key@, value),
    {
        proof {
            use_type_invariant(&*self);
        }
        let entry = Entry { key, value };
        let place = self.position(&key);
        let mut entries = Vec::new();
        std::mem::swap(&mut entries, &mut self.entries);
        match place {
            Some(i) => {
                proof {
                    lemma_update(entries@, i as int, entry);
                }
                entries.set(i, entry);
            },
            None => {
                proof {
                    lemma_push(entries@, entry);
                }
                entries.push(entry);
            },
        }
        self.entries = entries;
    }

    /// Takes out what is stored under `key`.
    pub fn remove(&mut self, key: &[u8; 32]) -> (value: Option<V>)
        ensures
            final(self)@ == old(self)@.remove(key@),
            value == if old(self)@.contains_key(key@) {
                Some(old(self)@[key@])
            } else {
                None
            },
    {
        proof {
            use_type_invariant(&*self);
        }
        match self.position(key) {
            Some(i) => {
                let mut entries = Vec::new();
                std::mem::swap(&mut entries, &mut self.entries);
                proof {
                    lemma_entry_is_mapped(entries@, i as int);
                    lemma_remove(entries@, i as int);
                }
                let entry = entries.remove(i);
                self.entries = entries;
                Some(entry.value)
            },
            None => {
                None
            },
        }
    }
}

} // verus!
