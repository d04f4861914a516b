//! Small tables kept as vectors of keyed entries. A key is looked up by its
//! first entry; inserting replaces that entry, or appends one, so that each
//! key has at most the entry it was last given.
use vstd::prelude::*;

use crate::text::str_eq;

verus! {

/// An entry that is found by a string key.
pub trait Keyed {
    /// The key of the entry.
    spec fn key(&self) -> Seq<char>;

    /// The key of the entry.
    fn key_str(&self) -> (res: &str)
        ensures
            res@ == self.key(),
    ;
}

impl<V> Keyed for (String, V) {
    open spec fn key(&self) -> Seq<char> {
        self.0@
    }

    fn key_str(&self) -> (res: &str) {
        self.0.as_str()
    }
}

/// Whether position `i` holds the first entry with key `key`.
pub open spec fn is_first_key<E: Keyed>(entries: Seq<E>, key: Seq<char>, i: int) -> bool {
    &&& 0 <= i < entries.len()
    &&& entries[i].key() == key
    &&& forall|j: int| 0 <= j < i ==> (#[trigger] entries[j]).key() != key
}

/// Whether some entry has key `key`.
pub open spec fn has_key<E: Keyed>(entries: Seq<E>, key: Seq<char>) -> bool {
    exists|i: int| 0 <= i < entries.len() && (#[trigger] entries[i]).key() == key
}

/// The position of the first entry with key `key`.
pub open spec fn first_key_index<E: Keyed>(entries: Seq<E>, key: Seq<char>) -> int {
    choose|i: int| is_first_key(entries, key, i)
}

/// The entry that a lookup of `key` finds: the first one with that key.
pub open spec fn lookup<E: Keyed>(entries: Seq<E>, key: Seq<char>) -> Option<E> {
    if has_key(entries, key) {
        Some(entries[first_key_index(entries, key)])
    } else {
        None
    }
}

/// Where a key is present, its first entry exists and is unique.
pub proof fn lemma_first_key<E: Keyed>(entries: Seq<E>, key: Seq<char>)
    requires
        has_key(entries, key),
    ensures
        is_first_key(entries, key, first_key_index(entries, key)),
        forall|i: int| is_first_key(entries, key, i) ==> i == first_key_index(entries, key),
    decreases entries.len(),
{
    let last = entries.len() - 1;
    let prefix = entries.drop_last();
    if has_key(prefix, key) {
        lemma_first_key(prefix, key);
        let i = first_key_index(prefix, key);
        assert(prefix[i] == entries[i]);
        assert forall|j: int| 0 <= j < i implies (#[trigger] entries[j]).key() != key by {
            assert(prefix[j] == entries[j]);
        }
        assert(is_first_key(entries, key, i));
    } else {
        assert(entries[last].key() == key) by {
            let w = choose|w: int| 0 <= w < entries.len() && (#[trigger] entries[w]).key() == key;
            if w < last {
                assert(prefix[w] == entries[w]);
            }
        }
        assert forall|j: int| 0 <= j < last implies (#[trigger] entries[j]).key() != key by {
            assert(prefix[j] == entries[j]);
        }
        assert(is_first_key(entries, key, last));
    }
    assert forall|i: int| is_first_key(entries, key, i) implies i == first_key_index(
        entries,
        key,
    ) by {
        let f = first_key_index(entries, key);
        if i < f {
            assert(entries[i].key() == key);
        } else if f < i {
            assert(entries[f].key() == key);
        }
    }
}

/// The position of the first entry with key `key`, if any.
pub fn find_key<E: Keyed>(entries: &Vec<E>, key: &str) -> (res: Option<usize>)
    ensures
        match res {
            Some(i) => is_first_key(entries@, key@, i as int) && i == first_key_index(
                entries@,
                key@,
            ),
            None => !has_key(entries@, key@),
        },
{
    let n = entries.len();
    for i in 0..n
        invariant
            n == entries@.len(),
            forall|j: int| 0 <= j < i ==> (#[trigger] entries@[j]).key() != key@,
    {
        if str_eq(entries[i].key_str(), key) {
            proof {
                lemma_first_key(entries@, key@);
            }
            return Some(i);
        }
    }
    None
}

/// The entry that a lookup of `key` finds.
pub fn get_entry<'a, E: Keyed>(entries: &'a Vec<E>, key: &str) -> (res: Option<&'a E>)
    ensures
        match res {
            Some(e) => lookup(entries@, key@) == Some(*e),
            None => lookup(entries@, key@) is None,
        },
{
    match find_key(entries, key) {
        Some(i) => Some(&entries[i]),
        None => None,
    }
}

/// Replaces the first entry with the key of `entry`, or appends `entry`.
pub fn insert_entry<E: Keyed>(entries: &mut Vec<E>, entry: E)
    ensures
        lookup(final(entries)@, entry.key()) == Some(entry),
        forall|k: Seq<char>|
            k != entry.key() ==> #[trigger] lookup(final(entries)@, k) == lookup(old(entries)@, k),
        has_key(old(entries)@, entry.key()) ==> final(entries)@ == old(entries)@.update(
            first_key_index(old(entries)@, entry.key()),
            entry,
        ),
        !has_key(old(entries)@, entry.key()) ==> final(entries)@ == old(entries)@.push(entry),
{
    let ghost key = entry.key();
    let ghost before = entries@;
    let found = find_key(entries, entry.key_str());
    match found {
        Some(i) => {
            entries[i] = entry;
            proof {
                assert(is_first_key(entries@, key, i as int));
                lemma_first_key(entries@, key);
            }
        },
        None => {
            entries.push(entry);
            proof {
                assert(entries@[before.len() as int] == entry);
                assert forall|j: int| 0 <= j < before.len() implies (#[trigger] entries@[j]).key()
                    != key by {
                    assert(entries@[j] == before[j]);
                }
                assert(is_first_key(entries@, key, before.len() as int));
                lemma_first_key(entries@, key);
            }
        },
    }
    proof {
        assert forall|k: Seq<char>| k != key implies #[trigger] lookup(entries@, k) == lookup(
            before,
            k,
        ) by {
            lemma_unchanged_key(before, entries@, key, k);
        }
    }
}

/// Entries that differ only at positions keyed `key` give the same lookup of
/// any other key.
proof fn lemma_unchanged_key<E: Keyed>(a: Seq<E>, b: Seq<E>, key: Seq<char>, k: Seq<char>)
    requires
        k != key,
        a.len() <= b.len(),
        forall|j: int| 0 <= j < a.len() && a[j].key() != key ==> b[j] == a[j],
        forall|j: int| 0 <= j < a.len() && a[j].key() == key ==> b[j].key() == key,
        forall|j: int| a.len() <= j < b.len() ==> b[j].key() == key,
    ensures
        lookup(b, k) == lookup(a, k),
{
    if has_key(a, k) {
        lemma_first_key(a, k);
        let i = first_key_index(a, k);
        assert(b[i] == a[i]);
        assert forall|j: int| 0 <= j < i implies (#[trigger] b[j]).key() != k by {
            if a[j].key() != key {
                assert(b[j] == a[j]);
            }
        }
        assert(is_first_key(b, k, i));
        lemma_first_key(b, k);
    } else {
        assert forall|j: int| 0 <= j < b.len() implies (#[trigger] b[j]).key() != k by {
            if j < a.len() && a[j].key() != key {
                assert(b[j] == a[j]);
            }
        }
    }
}

} // verus!
