//! The orders that mappings built from a `HashMap` sort their keys by,
//! stated over the keys themselves: integers ascend, and strings and byte
//! strings ascend lexicographically by their bytes.

use std::sync::Arc;

use vstd::prelude::*;
use vstd::std_specs::cmp::OrdSpec;
use vstd::string::StringSliceAdditionalSpecFns;

use crate::byte_layout::bytes_le;
use crate::key_domain::KeyDomain;
use crate::vector_mapping::keys_in_order;

verus! {

/// `a` comes no later than `b` lexicographically: `a` is a prefix of `b`, or
/// at the first byte where they differ `a`'s byte is smaller.
pub open spec fn lexicographically_before(a: Seq<u8>, b: Seq<u8>) -> bool {
    ||| a.is_prefix_of(b)
    ||| exists|p: int|
        #![trigger a[p], b[p]]
        0 <= p < a.len() && p < b.len() && a.take(p) == b.take(p) && a[p] < b[p]
}

/// The byte-string order that string keys are sorted by is the lexicographic
/// order.
pub proof fn lemma_bytes_le_lexicographic(a: Seq<u8>, b: Seq<u8>)
    requires
        bytes_le(a, b),
    ensures
        lexicographically_before(a, b),
    decreases a.len(),
{
    if a.len() == 0 {
        assert(a.is_prefix_of(b));
    } else if a[0] != b[0] {
        assert(a.take(0) =~= b.take(0));
        assert(a[0] < b[0]);
    } else {
        let a1 = a.drop_first();
        let b1 = b.drop_first();
        lemma_bytes_le_lexicographic(a1, b1);
        if a1.is_prefix_of(b1) {
            assert forall|t: int| 0 <= t < a.len() implies a[t] == b[t] by {
                if t > 0 {
                    assert(a[t] == a1[t - 1]);
                    assert(b[t] == b1[t - 1]);
                }
            }
            assert(a.is_prefix_of(b));
        } else {
            let p = choose|p: int|
                #![trigger a1[p], b1[p]]
                0 <= p < a1.len() && p < b1.len() && a1.take(p) == b1.take(p) && a1[p] < b1[p];
            assert(a[p + 1] == a1[p] && b[p + 1] == b1[p]);
            assert forall|t: int| 0 <= t < p + 1 implies #[trigger] a[t] == b[t] by {
                if t > 0 {
                    assert(a1.take(p)[t - 1] == b1.take(p)[t - 1]);
                }
            }
            assert(a.take(p + 1) =~= b.take(p + 1));
        }
    }
}

/// `u8` keys in their key type's order ascend, under `<=` and under `Ord`.
pub proof fn law_u8_keys_ascend(keys: Seq<u8>)
    requires
        keys_in_order(keys),
    ensures
        forall|i: int, j: int|
            0 <= i < j < keys.len() ==> #[trigger] keys[i] <= #[trigger] keys[j] && !(
            keys[i].cmp_spec(&keys[j]) is Greater),
{
    assert forall|i: int, j: int| 0 <= i < j < keys.len() implies #[trigger] keys[i]
        <= #[trigger] keys[j] && !(keys[i].cmp_spec(&keys[j]) is Greater) by {
        assert(KeyDomain::key_le(keys[i], keys[j]));
    }
}

/// `u16` keys in their key type's order ascend, under `<=` and under `Ord`.
pub proof fn law_u16_keys_ascend(keys: Seq<u16>)
    requires
        keys_in_order(keys),
    ensures
        forall|i: int, j: int|
            0 <= i < j < keys.len() ==> #[trigger] keys[i] <= #[trigger] keys[j] && !(
            keys[i].cmp_spec(&keys[j]) is Greater),
{
    assert forall|i: int, j: int| 0 <= i < j < keys.len() implies #[trigger] keys[i]
        <= #[trigger] keys[j] && !(keys[i].cmp_spec(&keys[j]) is Greater) by {
        assert(KeyDomain::key_le(keys[i], keys[j]));
    }
}

/// `u32` keys in their key type's order ascend, under `<=` and under `Ord`.
pub proof fn law_u32_keys_ascend(keys: Seq<u32>)
    requires
        keys_in_order(keys),
    ensures
        forall|i: int, j: int|
            0 <= i < j < keys.len() ==> #[trigger] keys[i] <= #[trigger] keys[j] && !(
            keys[i].cmp_spec(&keys[j]) is Greater),
{
    assert forall|i: int, j: int| 0 <= i < j < keys.len() implies #[trigger] keys[i]
        <= #[trigger] keys[j] && !(keys[i].cmp_spec(&keys[j]) is Greater) by {
        assert(KeyDomain::key_le(keys[i], keys[j]));
    }
}

/// `u64` keys in their key type's order ascend, under `<=` and under `Ord`.
pub proof fn law_u64_keys_ascend(keys: Seq<u64>)
    requires
        keys_in_order(keys),
    ensures
        forall|i: int, j: int|
            0 <= i < j < keys.len() ==> #[trigger] keys[i] <= #[trigger] keys[j] && !(
            keys[i].cmp_spec(&keys[j]) is Greater),
{
    assert forall|i: int, j: int| 0 <= i < j < keys.len() implies #[trigger] keys[i]
        <= #[trigger] keys[j] && !(keys[i].cmp_spec(&keys[j]) is Greater) by {
        assert(KeyDomain::key_le(keys[i], keys[j]));
    }
}

/// `u128` keys in their key type's order ascend, under `<=` and under `Ord`.
pub proof fn law_u128_keys_ascend(keys: Seq<u128>)
    requires
        keys_in_order(keys),
    ensures
        forall|i: int, j: int|
            0 <= i < j < keys.len() ==> #[trigger] keys[i] <= #[trigger] keys[j] && !(
            keys[i].cmp_spec(&keys[j]) is Greater),
{
    assert forall|i: int, j: int| 0 <= i < j < keys.len() implies #[trigger] keys[i]
        <= #[trigger] keys[j] && !(keys[i].cmp_spec(&keys[j]) is Greater) by {
        assert(KeyDomain::key_le(keys[i], keys[j]));
    }
}

/// `usize` keys in their key type's order ascend, under `<=` and under `Ord`.
pub proof fn law_usize_keys_ascend(keys: Seq<usize>)
    requires
        keys_in_order(keys),
    ensures
        forall|i: int, j: int|
            0 <= i < j < keys.len() ==> #[trigger] keys[i] <= #[trigger] keys[j] && !(
            keys[i].cmp_spec(&keys[j]) is Greater),
{
    assert forall|i: int, j: int| 0 <= i < j < keys.len() implies #[trigger] keys[i]
        <= #[trigger] keys[j] && !(keys[i].cmp_spec(&keys[j]) is Greater) by {
        assert(KeyDomain::key_le(keys[i], keys[j]));
    }
}

/// `i8` keys in their key type's order ascend, under `<=` and under `Ord`.
pub proof fn law_i8_keys_ascend(keys: Seq<i8>)
    requires
        keys_in_order(keys),
    ensures
        forall|i: int, j: int|
            0 <= i < j < keys.len() ==> #[trigger] keys[i] <= #[trigger] keys[j] && !(
            keys[i].cmp_spec(&keys[j]) is Greater),
{
    assert forall|i: int, j: int| 0 <= i < j < keys.len() implies #[trigger] keys[i]
        <= #[trigger] keys[j] && !(keys[i].cmp_spec(&keys[j]) is Greater) by {
        assert(KeyDomain::key_le(keys[i], keys[j]));
    }
}

/// `i16` keys in their key type's order ascend, under `<=` and under `Ord`.
pub proof fn law_i16_keys_ascend(keys: Seq<i16>)
    requires
        keys_in_order(keys),
    ensures
        forall|i: int, j: int|
            0 <= i < j < keys.len() ==> #[trigger] keys[i] <= #[trigger] keys[j] && !(
            keys[i].cmp_spec(&keys[j]) is Greater),
{
    assert forall|i: int, j: int| 0 <= i < j < keys.len() implies #[trigger] keys[i]
        <= #[trigger] keys[j] && !(keys[i].cmp_spec(&keys[j]) is Greater) by {
        assert(KeyDomain::key_le(keys[i], keys[j]));
    }
}

/// `i32` keys in their key type's order ascend, under `<=` and under `Ord`.
pub proof fn law_i32_keys_ascend(keys: Seq<i32>)
    requires
        keys_in_order(keys),
    ensures
        forall|i: int, j: int|
            0 <= i < j < keys.len() ==> #[trigger] keys[i] <= #[trigger] keys[j] && !(
            keys[i].cmp_spec(&keys[j]) is Greater),
{
    assert forall|i: int, j: int| 0 <= i < j < keys.len() implies #[trigger] keys[i]
        <= #[trigger] keys[j] && !(keys[i].cmp_spec(&keys[j]) is Greater) by {
        assert(KeyDomain::key_le(keys[i], keys[j]));
    }
}

/// `i64` keys in their key type's order ascend, under `<=` and under `Ord`.
pub proof fn law_i64_keys_ascend(keys: Seq<i64>)
    requires
        keys_in_order(keys),
    ensures
        forall|i: int, j: int|
            0 <= i < j < keys.len() ==> #[trigger] keys[i] <= #[trigger] keys[j] && !(
            keys[i].cmp_spec(&keys[j]) is Greater),
{
    assert forall|i: int, j: int| 0 <= i < j < keys.len() implies #[trigger] keys[i]
        <= #[trigger] keys[j] && !(keys[i].cmp_spec(&keys[j]) is Greater) by {
        assert(KeyDomain::key_le(keys[i], keys[j]));
    }
}

/// `i128` keys in their key type's order ascend, under `<=` and under `Ord`.
pub proof fn law_i128_keys_ascend(keys: Seq<i128>)
    requires
        keys_in_order(keys),
    ensures
        forall|i: int, j: int|
            0 <= i < j < keys.len() ==> #[trigger] keys[i] <= #[trigger] keys[j] && !(
            keys[i].cmp_spec(&keys[j]) is Greater),
{
    assert forall|i: int, j: int| 0 <= i < j < keys.len() implies #[trigger] keys[i]
        <= #[trigger] keys[j] && !(keys[i].cmp_spec(&keys[j]) is Greater) by {
        assert(KeyDomain::key_le(keys[i], keys[j]));
    }
}

/// `isize` keys in their key type's order ascend, under `<=` and under `Ord`.
pub proof fn law_isize_keys_ascend(keys: Seq<isize>)
    requires
        keys_in_order(keys),
    ensures
        forall|i: int, j: int|
            0 <= i < j < keys.len() ==> #[trigger] keys[i] <= #[trigger] keys[j] && !(
            keys[i].cmp_spec(&keys[j]) is Greater),
{
    assert forall|i: int, j: int| 0 <= i < j < keys.len() implies #[trigger] keys[i]
        <= #[trigger] keys[j] && !(keys[i].cmp_spec(&keys[j]) is Greater) by {
        assert(KeyDomain::key_le(keys[i], keys[j]));
    }
}

/// `&str` keys in their key type's order ascend lexicographically by their
/// bytes.
pub proof fn law_str_keys_ascend(keys: Seq<&str>)
    requires
        keys_in_order(keys),
    ensures
        forall|i: int, j: int|
            0 <= i < j < keys.len() ==> lexicographically_before(
                #[trigger] (*keys[i]).spec_bytes(),
                #[trigger] (*keys[j]).spec_bytes(),
            ),
{
    assert forall|i: int, j: int| 0 <= i < j < keys.len() implies lexicographically_before(
        #[trigger] (*keys[i]).spec_bytes(),
        #[trigger] (*keys[j]).spec_bytes(),
    ) by {
        assert(KeyDomain::key_le(keys[i], keys[j]));
        lemma_bytes_le_lexicographic((*keys[i]).spec_bytes(), (*keys[j]).spec_bytes());
    }
}

/// `&[u8]` keys in their key type's order ascend lexicographically by their
/// bytes.
pub proof fn law_byte_string_keys_ascend(keys: Seq<&[u8]>)
    requires
        keys_in_order(keys),
    ensures
        forall|i: int, j: int|
            0 <= i < j < keys.len() ==> lexicographically_before(
                #[trigger] (*keys[i])@,
                #[trigger] (*keys[j])@,
            ),
{
    assert forall|i: int, j: int| 0 <= i < j < keys.len() implies lexicographically_before(
        #[trigger] (*keys[i])@,
        #[trigger] (*keys[j])@,
    ) by {
        assert(KeyDomain::key_le(keys[i], keys[j]));
        lemma_bytes_le_lexicographic((*keys[i])@, (*keys[j])@);
    }
}

/// `Arc<str>` keys in their key type's order ascend lexicographically by their
/// bytes.
pub proof fn law_shared_str_keys_ascend(keys: Seq<Arc<str>>)
    requires
        keys_in_order(keys),
    ensures
        forall|i: int, j: int|
            0 <= i < j < keys.len() ==> lexicographically_before(
                #[trigger] (*keys[i]).spec_bytes(),
                #[trigger] (*keys[j]).spec_bytes(),
            ),
{
    assert forall|i: int, j: int| 0 <= i < j < keys.len() implies lexicographically_before(
        #[trigger] (*keys[i]).spec_bytes(),
        #[trigger] (*keys[j]).spec_bytes(),
    ) by {
        assert(KeyDomain::key_le(keys[i], keys[j]));
        lemma_bytes_le_lexicographic((*keys[i]).spec_bytes(), (*keys[j]).spec_bytes());
    }
}

} // verus!
