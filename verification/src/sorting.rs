//! Sorting of key-value entries by key.

use std::cmp::Ordering;

use vstd::laws_cmp::obeys_cmp;
use vstd::prelude::*;
use vstd::std_specs::cmp::OrdSpec;

verus! {

/// `<[(K, V)]>::sort_unstable_by`, comparing entries by their keys with
/// `Ord::cmp`. The sort may panic when the comparison is not a total order,
/// so the key type's ordering must obey the laws of one as Verus models them
/// (`obeys_cmp`). The entries afterwards are a rearrangement of those before,
/// and no entry's key compares greater than the key of a later entry.
#[verifier::external_body]
pub(crate) fn sort_entries_by_key<K: Ord, V>(entries: &mut Vec<(K, V)>)
    requires
        obeys_cmp::<K>(),
    ensures
        final(entries)@.to_multiset() == old(entries)@.to_multiset(),
        forall|i: int, j: int|
            0 <= i < j < final(entries)@.len() ==> #[trigger] final(entries)@[i].0.cmp_spec(
                &final(entries)@[j].0,
            ) != Ordering::Greater,
{
    entries.sort_unstable_by(|a, b| entry_key_order(a, b));
}

/// How the keys of two entries compare under `Ord`.
pub(crate) fn entry_key_order<K: Ord, V>(a: &(K, V), b: &(K, V)) -> (o: Ordering)
    ensures
        K::obeys_cmp_spec() ==> o == a.0.cmp_spec(&b.0),
{
    a.0.cmp(&b.0)
}

} // verus!
