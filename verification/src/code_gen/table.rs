//! Tables keyed by name, kept as lists of pairs in the order of insertion.
use vstd::prelude::*;
use crate::code_gen::ir::{first_named, lemma_first_named};
use crate::text::str_eq;

verus! {

/// The keys of a table, in order.
pub open spec fn keys_of<V>(entries: Seq<(Seq<char>, V)>) -> Seq<Seq<char>> {
    Seq::new(entries.len(), |i: int| entries[i].0)
}

/// The index of the first entry under `key`.
pub open spec fn find<V>(entries: Seq<(Seq<char>, V)>, key: Seq<char>) -> Option<int> {
    first_named(keys_of(entries), key, 0)
}

/// Whether the table has an entry under `key`.
pub open spec fn has_key<V>(entries: Seq<(Seq<char>, V)>, key: Seq<char>) -> bool {
    find(entries, key) is Some
}

/// The value under `key`.
pub open spec fn lookup<V>(entries: Seq<(Seq<char>, V)>, key: Seq<char>) -> Option<V> {
    match find(entries, key) {
        Some(i) => Some(entries[i].1),
        None => None,
    }
}

/// The table with `value` under `key`: in the place of the entry that was
/// there, or at the end.
pub open spec fn put<V>(entries: Seq<(Seq<char>, V)>, key: Seq<char>, value: V) -> Seq<
    (Seq<char>, V),
> {
    match find(entries, key) {
        Some(i) => entries.update(i, (key, value)),
        None => entries.push((key, value)),
    }
}

/// The index that `find` gives is one of the table and holds the key.
pub proof fn lemma_find<V>(entries: Seq<(Seq<char>, V)>, key: Seq<char>)
    ensures
        match find(entries, key) {
            Some(i) => 0 <= i < entries.len() && entries[i].0 == key,
            None => forall|j: int| 0 <= j < entries.len() ==> entries[j].0 != key,
        },
{
    lemma_first_named(keys_of(entries), key, 0);
    match find(entries, key) {
        Some(i) => {},
        None => {
            assert forall|j: int| 0 <= j < entries.len() implies entries[j].0 != key by {
                assert(keys_of(entries)[j] == entries[j].0);
            }
        },
    }
}

/// After `put`, the key holds the value, and every other key holds what it held.
pub proof fn lemma_put<V>(entries: Seq<(Seq<char>, V)>, key: Seq<char>, value: V, other: Seq<char>)
    ensures
        lookup(put(entries, key, value), key) == Some(value),
        other != key ==> lookup(put(entries, key, value), other) == lookup(entries, other),
        has_key(put(entries, key, value), other) == (other == key || has_key(entries, other)),
{
    let after = put(entries, key, value);
    lemma_find(entries, key);
    lemma_find(entries, other);
    lemma_find(after, key);
    lemma_find(after, other);
    lemma_first_named(keys_of(entries), key, 0);
    lemma_first_named(keys_of(entries), other, 0);
    lemma_first_named(keys_of(after), key, 0);
    lemma_first_named(keys_of(after), other, 0);
    match find(entries, key) {
        Some(i) => {
            assert(keys_of(after) =~= keys_of(entries));
        },
        None => {
            assert(after[entries.len() as int] == (key, value));
            assert(keys_of(after)[entries.len() as int] == key);
            assert forall|j: int| 0 <= j < entries.len() implies #[trigger] keys_of(after)[j]
                == keys_of(entries)[j] by {
                assert(after[j] == entries[j]);
            }
            match find(entries, other) {
                Some(j) => {
                    assert(keys_of(after)[j] == other);
                },
                None => {
                    if other != key {
                        assert forall|j: int| 0 <= j < after.len() implies keys_of(after)[j]
                            != other by {
                            if j < entries.len() {
                                assert(keys_of(entries)[j] != other);
                            }
                        }
                    }
                },
            }
        },
    }
}

/// The keys of a list of pairs whose first parts are strings.
pub open spec fn string_keys<V>(entries: Seq<(String, V)>) -> Seq<Seq<char>> {
    Seq::new(entries.len(), |i: int| entries[i].0@)
}

/// The index of the first pair under `key`.
pub fn find_key<V>(entries: &Vec<(String, V)>, key: &str) -> (r: Option<usize>)
    ensures
        r matches Some(i) ==> i < entries.len() && entries@[i as int].0@ == key@ && first_named(
            string_keys(entries@),
            key@,
            0,
        ) == Some(i as int),
        r is None ==> first_named(string_keys(entries@), key@, 0) is None,
{
    let ghost keys = string_keys(entries@);
    let mut i: usize = 0;
    while i < entries.len()
        invariant
            i <= entries.len(),
            keys == string_keys(entries@),
            first_named(keys, key@, 0) == first_named(keys, key@, i as int),
        decreases entries.len() - i,
    {
        assert(keys[i as int] == entries@[i as int].0@);
        if str_eq(entries[i].0.as_str(), key) {
            return Some(i);
        }
        i += 1;
    }
    None
}

} // verus!
