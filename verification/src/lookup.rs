//! Finding the first occurrence of a key in a sequence of keys.

use vstd::prelude::*;

verus! {

/// Whether `i` is the position of the first occurrence of `key` in `keys`.
pub open spec fn is_first_at<K>(keys: Seq<K>, key: K, i: int) -> bool {
    &&& 0 <= i < keys.len()
    &&& keys[i] == key
    &&& forall|j: int| 0 <= j < i ==> keys[j] != key
}

/// The position of the first occurrence of `key` in `keys`, where there is
/// one.
pub open spec fn first_position<K>(keys: Seq<K>, key: K) -> int {
    choose|i: int| is_first_at(keys, key, i)
}

/// Only one position is that of the first occurrence.
pub proof fn lemma_first_is_unique<K>(keys: Seq<K>, key: K, i: int, j: int)
    requires
        is_first_at(keys, key, i),
        is_first_at(keys, key, j),
    ensures
        i == j,
{
}

/// A key that occurs at `i` has a first occurrence.
proof fn lemma_first_exists<K>(keys: Seq<K>, key: K, i: int)
    requires
        0 <= i < keys.len(),
        keys[i] == key,
    ensures
        exists|k: int| is_first_at(keys, key, k),
    decreases i,
{
    if exists|j: int| 0 <= j < i && keys[j] == key {
        let j = choose|j: int| 0 <= j < i && keys[j] == key;
        lemma_first_exists(keys, key, j);
    } else {
        assert(is_first_at(keys, key, i));
    }
}

/// Where `key` occurs in `keys`, [`first_position`] is the position of its
/// first occurrence.
pub proof fn lemma_first_position_of_present<K>(keys: Seq<K>, key: K)
    requires
        keys.contains(key),
    ensures
        is_first_at(keys, key, first_position(keys, key)),
{
    let i = choose|i: int| 0 <= i < keys.len() && keys[i] == key;
    lemma_first_exists(keys, key, i);
}

/// The position that [`is_first_at`] describes is [`first_position`].
pub proof fn lemma_first_position_is<K>(keys: Seq<K>, key: K, i: int)
    requires
        is_first_at(keys, key, i),
    ensures
        keys.contains(key),
        first_position(keys, key) == i,
{
    lemma_first_is_unique(keys, key, i, first_position(keys, key));
}

} // verus!
