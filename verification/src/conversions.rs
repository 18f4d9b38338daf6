//! Conversion of a hash map into a mapping sorted by key.

use std::collections::HashMap;

use vstd::prelude::*;
use vstd::std_specs::convert::FromSpecImpl;

use crate::key_domain::KeyDomain;
use crate::vector_mapping::{entries_of, keys_in_order, ValueDomain, VectorMapping};

verus! {

/// A hash map converts into the mapping that `VectorMapping::from_map_sorted`
/// builds from it: its entries, sorted by key. The `From` trait's own spec is
/// not used (`obeys_from_spec` is false); the contract stands on `from`.
impl<K: KeyDomain + Ord, V: ValueDomain> From<HashMap<K, V>> for VectorMapping<K, V, Vec<K>, Vec<V>> {
    fn from(value: HashMap<K, V>) -> (r: Self)
        ensures
            r.wf(),
            entries_of(r.keys_view(), r.values_view(), value@),
            keys_in_order(r.keys_view()),
    {
        VectorMapping::from_map_sorted(&value)
    }
}

impl<K: KeyDomain + Ord, V: ValueDomain> FromSpecImpl<HashMap<K, V>> for VectorMapping<K, V, Vec<K>, Vec<V>> {
    open spec fn obeys_from_spec() -> bool {
        false
    }

    open spec fn from_spec(v: HashMap<K, V>) -> Self {
        arbitrary()
    }
}

} // verus!
