//! Lists of keys with values, read as maps: under each key stands the value
//! of its first entry.

use vstd::prelude::*;

verus! {

/// The map that a list of entries stands for. Where a key has several
/// entries, the first one counts.
pub open spec fn assoc<K, V>(list: Seq<(K, V)>) -> Map<K, V>
    decreases list.len(),
{
    if list.len() == 0 {
        Map::empty()
    } else {
        let init = assoc(list.drop_last());
        if init.contains_key(list.last().0) {
            init
        } else {
            init.insert(list.last().0, list.last().1)
        }
    }
}

/// Whether the first entry for `key` stands at `i`.
pub open spec fn first_at<K, V>(list: Seq<(K, V)>, key: K, i: int) -> bool {
    &&& 0 <= i < list.len()
    &&& list[i].0 == key
    &&& forall|j: int| 0 <= j < i ==> list[j].0 != key
}

/// Whether `key` has no entry.
pub open spec fn absent<K, V>(list: Seq<(K, V)>, key: K) -> bool {
    forall|j: int| 0 <= j < list.len() ==> list[j].0 != key
}

/// A key without an entry is not in the map.
pub proof fn lemma_assoc_absent<K, V>(list: Seq<(K, V)>, key: K)
    requires
        absent(list, key),
    ensures
        !assoc(list).contains_key(key),
    decreases list.len(),
{
    if list.len() > 0 {
        let init = list.drop_last();
        assert forall|j: int| 0 <= j < init.len() implies init[j].0 != key by {
            assert(init[j] == list[j]);
        }
        lemma_assoc_absent(init, key);
        assert(list.last() == list[list.len() - 1]);
    }
}

/// Under a key stands the value of its first entry.
pub proof fn lemma_assoc_present<K, V>(list: Seq<(K, V)>, key: K, i: int)
    requires
        first_at(list, key, i),
    ensures
        assoc(list).contains_key(key),
        assoc(list)[key] == list[i].1,
    decreases list.len(),
{
    let init = list.drop_last();
    assert forall|j: int| 0 <= j < i && j < init.len() implies init[j].0 != key by {}
    if i == list.len() - 1 {
        lemma_assoc_absent(init, key);
    } else {
        lemma_assoc_present(init, key, i);
    }
}

/// A new value in the first entry of a key is a new value under that key,
/// and changes nothing else.
pub proof fn lemma_assoc_update<K, V>(list: Seq<(K, V)>, key: K, i: int, value: V)
    requires
        first_at(list, key, i),
    ensures
        assoc(list.update(i, (key, value))) == assoc(list).insert(key, value),
    decreases list.len(),
{
    let init = list.drop_last();
    let changed = list.update(i, (key, value));
    assert forall|j: int| 0 <= j < i && j < init.len() implies init[j].0 != key by {}
    if i == list.len() - 1 {
        lemma_assoc_absent(init, key);
        assert(changed.drop_last() =~= init);
    } else {
        lemma_assoc_update(init, key, i, value);
        assert(changed.drop_last() =~= init.update(i, (key, value)));
    }
}

/// An entry behind the others, for a key that has none, is a new value
/// under that key.
pub proof fn lemma_assoc_push<K, V>(list: Seq<(K, V)>, key: K, value: V)
    requires
        absent(list, key),
    ensures
        assoc(list.push((key, value))) == assoc(list).insert(key, value),
{
    lemma_assoc_absent(list, key);
    assert(list.push((key, value)).drop_last() =~= list);
}

} // verus!
