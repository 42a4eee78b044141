//! Maps keyed by chunk index.

use std::collections::BTreeMap;

use vstd::prelude::*;
use vstd::std_specs::btree::*;
use vstd::std_specs::cmp::*;
use vstd::std_specs::iter::*;

verus! {

broadcast use {vstd::std_specs::btree::group_btree_axioms, vstd::laws_cmp::group_laws_cmp};

/// Whether `s` goes up strictly.
pub open spec fn ascending(s: Seq<u64>) -> bool {
    forall|i: int, j: int| 0 <= i < j < s.len() ==> s[i] < s[j]
}

proof fn lemma_increasing_is_ascending(s: Seq<u64>)
    requires
        increasing_seq(s),
    ensures
        ascending(s),
{
    assert forall|i: int, j: int| 0 <= i < j < s.len() implies s[i] < s[j] by {
        assert(OrdSpec::cmp_spec(&s[i], &s[j]) is Less);
    }
}

/// The keys of a map, in order.
pub fn indices<V>(map: &BTreeMap<u64, V>) -> (r: Vec<u64>)
    ensures
        ascending(r@),
        forall|k: u64| #[trigger] r@.contains(k) <==> map@.contains_key(k),
{
    let entries = map.iter();
    let ghost all = IteratorSpec::remaining(&entries);
    let ghost keys = all.map_values(|kv: (&u64, &V)| *kv.0);
    let mut out: Vec<u64> = Vec::new();
    for entry in it: entries
        invariant
            it.seq() == all,
            keys == all.map_values(|kv: (&u64, &V)| *kv.0),
            out@ == keys.take(it.index() as int),
    {
        out.push(*entry.0);
    }
    proof {
        assert(out@ =~= keys);
        lemma_increasing_is_ascending(keys);
        assert forall|k: u64| #[trigger] out@.contains(k) <==> map@.contains_key(k) by {
            if map@.contains_key(k) {
                assert(all.contains((&k, &map@[k])));
                let i = all.index_of((&k, &map@[k]));
                assert(keys[i] == k);
            }
        }
    }
    out
}

} // verus!
