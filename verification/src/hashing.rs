//! The calls into outside crates and into std that Verus has no
//! specification for. Each item here is trusted: its contract is taken as
//! given, and its doc comment says what is claimed of the code it calls.

use std::collections::hash_map::Iter;
use std::collections::HashMap;
use std::hash::{BuildHasherDefault, Hash};
use std::sync::Arc;

use rustc_hash::FxHasher;
use vstd::prelude::*;
use vstd::string::StringSliceAdditionalSpecFns;
use vstd::std_specs::hash::{obeys_key_model, spec_hash_map_iter};
use vstd::std_specs::iter::IteratorSpec;

use crate::byte_layout::{bytes_le, ints_bytes, usize_width};
use crate::sorting::entry_key_order;

verus! {

/// `rustc_hash::FxHasher`, the hasher of the position index of integer keys.
#[verifier::external_type_specification]
#[verifier::external_body]
pub struct ExFxHasher(FxHasher);

/// `std::hash::BuildHasherDefault`, which builds hashers by `Default`.
#[verifier::external_type_specification]
#[verifier::external_body]
#[verifier::reject_recursive_types(H)]
pub struct ExBuildHasherDefault<H>(BuildHasherDefault<H>);

/// The hash builder of the position index of integer keys.
pub type FxBuildHasher = BuildHasherDefault<FxHasher>;

/// The 128-bit XXH3 digest of a byte string, as `xxhash_rust::xxh3::xxh3_128`
/// computes it (seed 0, default secret).
pub uninterp spec fn xxh3_128_of(data: Seq<u8>) -> u128;

/// `xxhash_rust::xxh3::xxh3_128`: the digest is a function of the bytes alone.
#[verifier::external_body]
pub(crate) fn xxh3_128_digest(data: &[u8]) -> (digest: u128)
    ensures
        digest == xxh3_128_of(data@),
{
    xxhash_rust::xxh3::xxh3_128(data)
}

/// `HashMap::<K, usize, BuildHasherDefault<FxHasher>>::default`: an empty map.
#[verifier::external_body]
pub(crate) fn fx_index_new<K>() -> (index: HashMap<K, usize, FxBuildHasher>)
    ensures
        index@.dom().is_empty(),
{
    HashMap::default()
}

/// `HashMap::<K, usize, BuildHasherDefault<FxHasher>>::insert`: for a key type whose `Hash`
/// and `Eq` agree with its identity (`obeys_key_model`), the map afterwards
/// is the map before with `key` bound to `pos`. `FxHasher` is deterministic
/// (no per-process seed), which this relies on.
#[verifier::external_body]
pub(crate) fn fx_index_insert<K: Eq + Hash>(
    index: &mut HashMap<K, usize, FxBuildHasher>,
    key: K,
    pos: usize,
)
    ensures
        obeys_key_model::<K>() ==> final(index)@ == old(index)@.insert(key, pos),
{
    index.insert(key, pos);
}

/// `HashMap::<K, usize, BuildHasherDefault<FxHasher>>::get`: for a key type that obeys the
/// key model, the position bound to `key`, if any.
#[verifier::external_body]
pub(crate) fn fx_index_get<K: Eq + Hash>(
    index: &HashMap<K, usize, FxBuildHasher>,
    key: &K,
) -> (pos: Option<usize>)
    ensures
        obeys_key_model::<K>() ==> pos == (if index@.contains_key(*key) {
            Some(index@[*key])
        } else {
            None
        }),
{
    index.get(key).copied()
}

/// Key types whose `Hash` and `PartialEq` go by their contents: strings and
/// byte strings, borrowed or shared. For these, this crate takes a key to be
/// its contents, so equal contents are equal keys. The trait is sealed: no
/// other type can implement it.
pub trait ByContent: crate::sealed::Sealed + Eq + Hash {
    /// The bytes that the key consists of.
    spec fn content_view(&self) -> Seq<u8>;

    /// The bytes that the key consists of.
    fn content_bytes(&self) -> (bytes: &[u8])
        ensures
            bytes@ == self.content_view(),
    ;
}

impl<'a> ByContent for &'a str {
    /// The UTF-8 encoding of the string.
    open spec fn content_view(&self) -> Seq<u8> {
        (**self).spec_bytes()
    }

    fn content_bytes(&self) -> (bytes: &[u8]) {
        self.as_bytes()
    }
}

impl<'a> ByContent for &'a [u8] {
    open spec fn content_view(&self) -> Seq<u8> {
        (**self)@
    }

    fn content_bytes(&self) -> (bytes: &[u8]) {
        *self
    }
}

impl ByContent for Arc<str> {
    /// The UTF-8 encoding of the shared string.
    open spec fn content_view(&self) -> Seq<u8> {
        (**self).spec_bytes()
    }

    fn content_bytes(&self) -> (bytes: &[u8]) {
        arc_str_bytes(self)
    }
}

/// `<K as PartialEq>::eq` for a content-keyed type: two keys are equal when
/// their contents are, which is spec equality of the two values.
#[verifier::external_body]
pub(crate) fn content_equal<K: ByContent>(a: &K, b: &K) -> (equal: bool)
    ensures
        equal == (*a == *b),
{
    *a == *b
}

/// `<Arc<T> as Clone>::clone`: another handle to the same value.
#[verifier::external_body]
pub(crate) fn arc_clone<T: ?Sized>(shared: &Arc<T>) -> (copy: Arc<T>)
    ensures
        copy == *shared,
{
    Arc::clone(shared)
}

/// `str::as_bytes` through the `Arc`: the UTF-8 encoding of the string.
#[verifier::external_body]
pub(crate) fn arc_str_bytes(key: &Arc<str>) -> (bytes: &[u8])
    ensures
        bytes@ == (**key).spec_bytes(),
{
    key.as_bytes()
}

/// `HashMap::<K, usize>::insert` for a content-keyed type: the map afterwards
/// is the map before with `key` bound to `pos`.
#[verifier::external_body]
pub(crate) fn content_index_insert<K: ByContent>(index: &mut HashMap<K, usize>, key: K, pos: usize)
    ensures
        final(index)@ == old(index)@.insert(key, pos),
{
    index.insert(key, pos);
}

/// `HashMap::<K, usize>::get` for a content-keyed type: the position bound
/// to `key`, if any.
#[verifier::external_body]
pub(crate) fn content_index_get<K: ByContent>(index: &HashMap<K, usize>, key: &K) -> (pos: Option<
    usize,
>)
    ensures
        pos == (if index@.contains_key(*key) {
            Some(index@[*key])
        } else {
            None
        }),
{
    index.get(key).copied()
}

/// `bytemuck::cast_slice::<u16, u8>`: the in-memory bytes of the keys, 2 per key.
/// Each key is laid out in the machine's byte order, which is either
/// little-endian or big-endian; which one is not stated.
#[verifier::external_body]
pub(crate) fn u16_key_bytes(keys: &[u16]) -> (bytes: &[u8])
    ensures
        bytes@ == ints_bytes(keys@.map_values(|k: u16| k as int), 2, true) || bytes@ == ints_bytes(
            keys@.map_values(|k: u16| k as int),
            2,
            false,
        ),
{
    bytemuck::cast_slice::<u16, u8>(keys)
}

/// `bytemuck::cast_slice::<u32, u8>`: the in-memory bytes of the keys, 4 per key.
/// Each key is laid out in the machine's byte order, which is either
/// little-endian or big-endian; which one is not stated.
#[verifier::external_body]
pub(crate) fn u32_key_bytes(keys: &[u32]) -> (bytes: &[u8])
    ensures
        bytes@ == ints_bytes(keys@.map_values(|k: u32| k as int), 4, true) || bytes@ == ints_bytes(
            keys@.map_values(|k: u32| k as int),
            4,
            false,
        ),
{
    bytemuck::cast_slice::<u32, u8>(keys)
}

/// `bytemuck::cast_slice::<u64, u8>`: the in-memory bytes of the keys, 8 per key.
/// Each key is laid out in the machine's byte order, which is either
/// little-endian or big-endian; which one is not stated.
#[verifier::external_body]
pub(crate) fn u64_key_bytes(keys: &[u64]) -> (bytes: &[u8])
    ensures
        bytes@ == ints_bytes(keys@.map_values(|k: u64| k as int), 8, true) || bytes@ == ints_bytes(
            keys@.map_values(|k: u64| k as int),
            8,
            false,
        ),
{
    bytemuck::cast_slice::<u64, u8>(keys)
}

/// `bytemuck::cast_slice::<u128, u8>`: the in-memory bytes of the keys, 16 per key.
/// Each key is laid out in the machine's byte order, which is either
/// little-endian or big-endian; which one is not stated.
#[verifier::external_body]
pub(crate) fn u128_key_bytes(keys: &[u128]) -> (bytes: &[u8])
    ensures
        bytes@ == ints_bytes(keys@.map_values(|k: u128| k as int), 16, true) || bytes@ == ints_bytes(
            keys@.map_values(|k: u128| k as int),
            16,
            false,
        ),
{
    bytemuck::cast_slice::<u128, u8>(keys)
}

/// `bytemuck::cast_slice::<usize, u8>`: the in-memory bytes of the keys, as many per key as a `usize` has.
/// Each key is laid out in the machine's byte order, which is either
/// little-endian or big-endian; which one is not stated.
#[verifier::external_body]
pub(crate) fn usize_key_bytes(keys: &[usize]) -> (bytes: &[u8])
    ensures
        bytes@ == ints_bytes(keys@.map_values(|k: usize| k as int), usize_width(), true) || bytes@ == ints_bytes(
            keys@.map_values(|k: usize| k as int),
            usize_width(),
            false,
        ),
{
    bytemuck::cast_slice::<usize, u8>(keys)
}

/// `bytemuck::cast_slice::<i8, u8>`: the in-memory bytes of the keys, one per
/// key, each the two's complement bits of the key read as a `u8`.
#[verifier::external_body]
pub(crate) fn i8_key_bytes(keys: &[i8]) -> (bytes: &[u8])
    ensures
        bytes@ == keys@.map_values(|k: i8| k as u8),
{
    bytemuck::cast_slice::<i8, u8>(keys)
}

/// `bytemuck::cast_slice::<i16, u8>`: the in-memory bytes of the keys, 2 per key.
/// Each key is laid out in the machine's byte order, which is either
/// little-endian or big-endian; which one is not stated.
#[verifier::external_body]
pub(crate) fn i16_key_bytes(keys: &[i16]) -> (bytes: &[u8])
    ensures
        bytes@ == ints_bytes(keys@.map_values(|k: i16| k as int), 2, true) || bytes@ == ints_bytes(
            keys@.map_values(|k: i16| k as int),
            2,
            false,
        ),
{
    bytemuck::cast_slice::<i16, u8>(keys)
}

/// `bytemuck::cast_slice::<i32, u8>`: the in-memory bytes of the keys, 4 per key.
/// Each key is laid out in the machine's byte order, which is either
/// little-endian or big-endian; which one is not stated.
#[verifier::external_body]
pub(crate) fn i32_key_bytes(keys: &[i32]) -> (bytes: &[u8])
    ensures
        bytes@ == ints_bytes(keys@.map_values(|k: i32| k as int), 4, true) || bytes@ == ints_bytes(
            keys@.map_values(|k: i32| k as int),
            4,
            false,
        ),
{
    bytemuck::cast_slice::<i32, u8>(keys)
}

/// `bytemuck::cast_slice::<i64, u8>`: the in-memory bytes of the keys, 8 per key.
/// Each key is laid out in the machine's byte order, which is either
/// little-endian or big-endian; which one is not stated.
#[verifier::external_body]
pub(crate) fn i64_key_bytes(keys: &[i64]) -> (bytes: &[u8])
    ensures
        bytes@ == ints_bytes(keys@.map_values(|k: i64| k as int), 8, true) || bytes@ == ints_bytes(
            keys@.map_values(|k: i64| k as int),
            8,
            false,
        ),
{
    bytemuck::cast_slice::<i64, u8>(keys)
}

/// `bytemuck::cast_slice::<i128, u8>`: the in-memory bytes of the keys, 16 per key.
/// Each key is laid out in the machine's byte order, which is either
/// little-endian or big-endian; which one is not stated.
#[verifier::external_body]
pub(crate) fn i128_key_bytes(keys: &[i128]) -> (bytes: &[u8])
    ensures
        bytes@ == ints_bytes(keys@.map_values(|k: i128| k as int), 16, true) || bytes@ == ints_bytes(
            keys@.map_values(|k: i128| k as int),
            16,
            false,
        ),
{
    bytemuck::cast_slice::<i128, u8>(keys)
}

/// `bytemuck::cast_slice::<isize, u8>`: the in-memory bytes of the keys, as many per key as a `usize` has.
/// Each key is laid out in the machine's byte order, which is either
/// little-endian or big-endian; which one is not stated.
#[verifier::external_body]
pub(crate) fn isize_key_bytes(keys: &[isize]) -> (bytes: &[u8])
    ensures
        bytes@ == ints_bytes(keys@.map_values(|k: isize| k as int), usize_width(), true) || bytes@ == ints_bytes(
            keys@.map_values(|k: isize| k as int),
            usize_width(),
            false,
        ),
{
    bytemuck::cast_slice::<isize, u8>(keys)
}
/// `HashMap::<K, V>::iter` for a content-keyed type. Such keys hash and
/// compare lawfully, so this claims what vstd states of `HashMap::iter` for
/// key types that obey its key model: the iterator walks the map's entries
/// (`spec_hash_map_iter`), each once, and terminates.
#[verifier::external_body]
pub(crate) fn content_map_iter<'a, K: ByContent, V>(map: &'a HashMap<K, V>) -> (it: Iter<'a, K, V>)
    ensures
        it == spec_hash_map_iter(map),
        it.remaining().no_duplicates(),
        IteratorSpec::decrease(&it) is Some,
        IteratorSpec::initial_value_relation(&it, &it),
{
    map.iter()
}

/// `<[(K, V)]>::sort_unstable_by`, comparing entries by their keys with
/// `Ord::cmp`, for a content-keyed type. Strings and byte strings are ordered
/// lexicographically by their bytes, a total order, so the sort does not
/// panic. The entries afterwards are a rearrangement of those before, their
/// keys' bytes in lexicographic order.
#[verifier::external_body]
pub(crate) fn content_sort_entries<K: ByContent + Ord, V>(entries: &mut Vec<(K, V)>)
    ensures
        final(entries)@.to_multiset() == old(entries)@.to_multiset(),
        forall|i: int, j: int|
            0 <= i < j < final(entries)@.len() ==> bytes_le(
                (#[trigger] final(entries)@[i]).0.content_view(),
                (#[trigger] final(entries)@[j]).0.content_view(),
            ),
{
    entries.sort_unstable_by(|a, b| entry_key_order(a, b));
}

} // verus!
