//! Reading the standard collections the rules are written over.

use std::collections::HashMap;
use vstd::prelude::*;
use vstd::std_specs::iter::IteratorSpec;

verus! {

broadcast use vstd::std_specs::hash::group_hash_axioms;

/// The keys of `m`, each once, in the order `m` hands them out.
pub fn map_keys<V>(m: &HashMap<u32, V>) -> (r: Vec<u32>)
    ensures
        r@ == vstd::std_specs::hash::spec_keys_iter(m).remaining().unref(),
        r@.to_set() == m@.dom(),
        r@.no_duplicates(),
{
    let mut ids: Vec<u32> = Vec::new();
    let keys = m.keys();
    for k in it: keys
        invariant
            it.seq() == keys.remaining(),
            ids@ == it.seq().take(it.index()).unref(),
    {
        ids.push(*k);
        assert(ids@ =~= it.seq().take(it.index() + 1).unref());
    }
    assert(ids@ =~= keys.remaining().unref());
    ids
}

/// Whether `v` holds `x`.
pub fn vec_contains(v: &Vec<u32>, x: u32) -> (r: bool)
    ensures
        r == v@.contains(x),
{
    let mut i: usize = 0;
    while i < v.len()
        invariant
            i <= v@.len(),
            forall|j: int| 0 <= j < i ==> v@[j] != x,
        decreases v@.len() - i,
    {
        if v[i] == x {
            return true;
        }
        i = i + 1;
    }
    false
}

} // verus!
