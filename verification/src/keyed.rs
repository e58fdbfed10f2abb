//! Lists that are keyed: no two entries share a key, and an entry is found
//! by its key. The proxy keeps its registries as such lists, in the order
//! in which the entries came.

use vstd::prelude::*;

verus! {

/// Whether `i` is the first place at which the key stands.
pub open spec fn first_at<K>(keys: Seq<K>, i: int, key: K) -> bool {
    &&& 0 <= i < keys.len()
    &&& keys[i] == key
    &&& forall|j: int| 0 <= j < i ==> #[trigger] keys[j] != key
}

/// Whether the key stands nowhere.
pub open spec fn absent<K>(keys: Seq<K>, key: K) -> bool {
    forall|j: int| 0 <= j < keys.len() ==> #[trigger] keys[j] != key
}

/// Whether no key stands twice.
pub open spec fn distinct<K>(keys: Seq<K>) -> bool {
    forall|i: int, j: int|
        0 <= i < keys.len() && 0 <= j < keys.len() && #[trigger] keys[i] == #[trigger] keys[j] ==> i == j
}

/// The place of a key, if it stands somewhere.
pub open spec fn place_of<K>(keys: Seq<K>, key: K) -> Option<int> {
    if exists|i: int| first_at(keys, i, key) {
        Some(choose|i: int| first_at(keys, i, key))
    } else {
        None
    }
}

/// The first place of a key is its place.
pub proof fn lemma_place_of<K>(keys: Seq<K>, i: int, key: K)
    requires
        first_at(keys, i, key),
    ensures
        place_of(keys, key) == Some(i),
        !absent(keys, key),
{
    let chosen = choose|k: int| first_at(keys, k, key);
    if chosen < i {
        assert(keys[chosen] != key);
    } else if i < chosen {
        assert(keys[i] != key);
    }
}

/// A key that stands nowhere has no place.
pub proof fn lemma_place_of_absent<K>(keys: Seq<K>, key: K)
    requires
        absent(keys, key),
    ensures
        place_of(keys, key) is None,
{
    assert forall|i: int| !first_at(keys, i, key) by {
        if 0 <= i < keys.len() {
            assert(keys[i] != key);
        }
    }
}

/// A key that stands somewhere has a place, and it stands there.
pub proof fn lemma_place_of_present<K>(keys: Seq<K>, i: int, key: K)
    requires
        0 <= i < keys.len(),
        keys[i] == key,
    ensures
        place_of(keys, key) is Some,
        first_at(keys, place_of(keys, key)->0, key),
        distinct(keys) ==> place_of(keys, key) == Some(i),
    decreases i,
{
    if exists|j: int| 0 <= j < i && #[trigger] keys[j] == key {
        let j = choose|j: int| 0 <= j < i && #[trigger] keys[j] == key;
        lemma_place_of_present(keys, j, key);
    } else {
        assert(first_at(keys, i, key));
        lemma_place_of(keys, i, key);
    }
}

/// Adding a key that stands nowhere keeps the keys distinct.
pub proof fn lemma_distinct_push<K>(keys: Seq<K>, key: K)
    requires
        distinct(keys),
        absent(keys, key),
    ensures
        distinct(keys.push(key)),
{
    let after = keys.push(key);
    assert forall|i: int, j: int|
        0 <= i < after.len() && 0 <= j < after.len() && #[trigger] after[i] == #[trigger] after[j]
    implies i == j by {
        if i < keys.len() {
            assert(after[i] == keys[i]);
        }
        if j < keys.len() {
            assert(after[j] == keys[j]);
        }
    }
}

/// Taking a key out keeps the keys distinct, and the key stands nowhere after.
pub proof fn lemma_distinct_remove<K>(keys: Seq<K>, i: int)
    requires
        distinct(keys),
        0 <= i < keys.len(),
    ensures
        distinct(keys.remove(i)),
        absent(keys.remove(i), keys[i]),
{
    let after = keys.remove(i);
    assert forall|a: int, b: int|
        0 <= a < after.len() && 0 <= b < after.len() && #[trigger] after[a] == #[trigger] after[b]
    implies a == b by {
        let a0 = if a < i { a } else { a + 1 };
        let b0 = if b < i { b } else { b + 1 };
        assert(after[a] == keys[a0]);
        assert(after[b] == keys[b0]);
    }
    assert forall|a: int| 0 <= a < after.len() implies #[trigger] after[a] != keys[i] by {
        let a0 = if a < i { a } else { a + 1 };
        assert(after[a] == keys[a0]);
    }
}

} // verus!
