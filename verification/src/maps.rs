//! Walking the keys of a `HashMap`, whose order the map chooses.
use std::collections::HashMap;
use std::hash::Hash;
use vstd::prelude::*;
use vstd::std_specs::iter::IteratorSpec;

verus! {

/// `ks` lists every key of `dom` exactly once, in some order.
pub open spec fn is_key_order<K>(ks: Seq<K>, dom: Set<K>) -> bool {
    &&& ks.no_duplicates()
    &&& ks.to_set() == dom
    &&& ks.len() == dom.len()
}

/// The keys of `m`, each once, in the order in which the map yields them.
pub fn keys_of<K: Copy + Eq + Hash, V>(m: &HashMap<K, V>) -> (r: Vec<K>)
    requires
        vstd::std_specs::hash::obeys_key_model::<K>(),
    ensures
        is_key_order(r@, m@.dom()),
{
    broadcast use vstd::std_specs::hash::group_hash_axioms;

    let mut r: Vec<K> = Vec::new();
    let ghost ks = vstd::std_specs::hash::spec_keys_iter(m).remaining();
    for k in it: m.keys()
        invariant
            it.seq() == ks,
            r@ == ks.take(it.index() as int).map_values(|x: &K| *x),
    {
        r.push(*k);
    }
    assert(ks.take(ks.len() as int) == ks);
    assert(r@ =~= ks.unref());
    r
}

} // verus!
