//! Finding the first entry of a sequence that bears a given key.

use vstd::prelude::*;

verus! {

/// `i` is the place of the first occurrence of `key` in `keys`.
pub open spec fn is_first_at<K>(keys: Seq<K>, key: K, i: int) -> bool {
    &&& 0 <= i < keys.len()
    &&& keys[i] == key
    &&& forall|j: int| 0 <= j < i ==> keys[j] != key
}

/// The place of the first occurrence of `key` in `keys`, if it occurs at all.
pub open spec fn first_at<K>(keys: Seq<K>, key: K) -> Option<int> {
    if exists|i: int| is_first_at(keys, key, i) {
        Some(choose|i: int| is_first_at(keys, key, i))
    } else {
        None
    }
}

/// There is one first occurrence at most, so whoever has found it has found
/// what `first_at` speaks of.
pub proof fn lemma_first_at_found<K>(keys: Seq<K>, key: K, i: int)
    requires
        is_first_at(keys, key, i),
    ensures
        first_at(keys, key) == Some(i),
{
}

/// A key that stands at no place has no first occurrence.
pub proof fn lemma_first_at_absent<K>(keys: Seq<K>, key: K)
    requires
        forall|j: int| 0 <= j < keys.len() ==> keys[j] != key,
    ensures
        first_at(keys, key) is None,
{
}

/// What `first_at` returns, said without `choose`: the first occurrence, or
/// `None` exactly where the key is nowhere in the sequence.
pub proof fn lemma_first_at<K>(keys: Seq<K>, key: K)
    ensures
        match first_at(keys, key) {
            Some(i) => is_first_at(keys, key, i),
            None => forall|j: int| 0 <= j < keys.len() ==> keys[j] != key,
        },
{
    if first_at(keys, key) is None {
        assert forall|j: int| 0 <= j < keys.len() implies keys[j] != key by {
            if keys[j] == key {
                lemma_some_first(keys, key, j);
            }
        }
    }
}

/// A key that occurs somewhere has a first occurrence at or before that place.
proof fn lemma_some_first<K>(keys: Seq<K>, key: K, at: int)
    requires
        0 <= at < keys.len(),
        keys[at] == key,
    ensures
        exists|i: int| is_first_at(keys, key, i) && i <= at,
    decreases at,
{
    if forall|j: int| 0 <= j < at ==> keys[j] != key {
        assert(is_first_at(keys, key, at));
    } else {
        let j = choose|j: int| 0 <= j < at && keys[j] == key;
        lemma_some_first(keys, key, j);
    }
}

} // verus!
