//! The keys of a map, as a vector.

use std::collections::HashMap;

use vstd::prelude::*;

verus! {

broadcast use vstd::std_specs::hash::group_hash_axioms;

/// The keys of `map`, each once, in no particular order.
pub fn numbers<V>(map: &HashMap<u64, V>) -> (keys: Vec<u64>)
    ensures
        keys@.no_duplicates(),
        keys@.to_set() == map@.dom(),
{
    let mut keys: Vec<u64> = Vec::new();
    for k in iter: map.keys()
        invariant
            keys@ == iter.seq().unref().take(iter.index()),
            iter.index() == iter.seq().len() ==> keys@ == iter.seq().unref(),
            iter.seq().no_duplicates(),
            iter.seq().unref().to_set() == map@.dom(),
    {
        keys.push(*k);
    }
    keys
}

} // verus!
