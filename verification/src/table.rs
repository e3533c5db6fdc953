//! Mappings written as lists of entries, keyed by text.

use vstd::prelude::*;

verus! {

/// What `key` stands for in `entries`, where a later entry takes the place
/// of an earlier one with the same key.
pub open spec fn lookup<V>(entries: Seq<(Seq<char>, V)>, key: Seq<char>) -> Option<V>
    decreases entries.len(),
{
    if entries.len() == 0 {
        None
    } else if entries.last().0 == key {
        Some(entries.last().1)
    } else {
        lookup(entries.drop_last(), key)
    }
}

/// The mapping that `entries` make.
pub open spec fn mapping<V>(entries: Seq<(Seq<char>, V)>) -> Map<Seq<char>, V> {
    Map::new(|key: Seq<char>| lookup(entries, key) is Some, |key: Seq<char>| lookup(entries, key)->0)
}

/// Adding an entry at the end inserts it into the mapping.
pub proof fn lemma_mapping_push<V>(entries: Seq<(Seq<char>, V)>, key: Seq<char>, value: V)
    ensures
        mapping(entries.push((key, value))) == mapping(entries).insert(key, value),
{
    let longer = entries.push((key, value));
    assert(longer.drop_last() == entries);
    assert forall|k: Seq<char>| lookup(longer, k) == (if k == key {
        Some(value)
    } else {
        lookup(entries, k)
    }) by {}
    assert(mapping(longer) =~= mapping(entries).insert(key, value));
}

/// Without entries the mapping is empty.
pub proof fn lemma_mapping_empty<V>()
    ensures
        mapping(Seq::<(Seq<char>, V)>::empty()) == Map::<Seq<char>, V>::empty(),
{
    assert(mapping(Seq::<(Seq<char>, V)>::empty()) =~= Map::<Seq<char>, V>::empty());
}

} // verus!
