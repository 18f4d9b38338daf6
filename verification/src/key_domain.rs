use std::collections::HashMap;
use std::fmt::Debug;
use std::collections::hash_map::Iter;
use std::hash::{Hash, RandomState};
use std::sync::Arc;

use vstd::prelude::*;
use vstd::std_specs::hash::spec_hash_map_iter;
use vstd::std_specs::iter::IteratorSpec;
use vstd::std_specs::cmp::OrdSpec;

use crate::sorting::sort_entries_by_key;
use crate::byte_layout::{bytes_le, framed, framed_items, int_bytes, ints_bytes, lemma_ints_bytes_slot, usize_width};
use crate::coalignment::last_positions;
use crate::hashing::{
    FxBuildHasher,
    fx_index_get,
    fx_index_insert,
    fx_index_new,
    i128_key_bytes,
    i16_key_bytes,
    i32_key_bytes,
    i64_key_bytes,
    i8_key_bytes,
    isize_key_bytes,
    arc_clone,
    content_equal,
    content_index_get,
    content_index_insert,
    content_map_iter,
    content_sort_entries,
    ByContent,
    u128_key_bytes,
    u16_key_bytes,
    u32_key_bytes,
    u64_key_bytes,
    usize_key_bytes,
    xxh3_128_digest,
    xxh3_128_of,
};

verus! {

/// The digest of integer keys laid out as `width`-byte values in the given
/// byte order.
pub open spec fn int_keys_digest(vals: Seq<int>, width: nat, little: bool) -> Fingerprint {
    xxh3_128_of(ints_bytes(vals, width, little))
}

/// A 128-bit digest of a key sequence, used to recognise two mappings that
/// share their key order.
pub type Fingerprint = u128;

/// A key type of a mapping.
///
/// Besides equality and cloning with stated results, a key type supplies the
/// hash map that indexes positions by key, and a fingerprint of a whole key
/// sequence.
pub trait KeyDomain: Sized + Eq + Hash + Clone {
    /// The hasher of the position index.
    type Hasher: Debug;

    fn key_eq(&self, other: &Self) -> (r: bool)
        ensures
            r == (*self == *other),
    ;

    fn clone_key(&self) -> (r: Self)
        ensures
            r == *self,
    ;

    /// An empty position index.
    fn new_pos() -> (index: HashMap<Self, usize, Self::Hasher>)
        ensures
            index@.dom().is_empty(),
    ;

    /// Binds `key` to `pos` in the index.
    fn pos_insert(index: &mut HashMap<Self, usize, Self::Hasher>, key: Self, pos: usize)
        ensures
            final(index)@ == old(index)@.insert(key, pos),
    ;

    /// The position that the index binds `key` to, if any.
    fn pos_get(index: &HashMap<Self, usize, Self::Hasher>, key: &Self) -> (r: Option<usize>)
        ensures
            r == (if index@.contains_key(*key) {
                Some(index@[*key])
            } else {
                None
            }),
    ;

    /// The index of a key sequence: each key bound to the position of its
    /// last occurrence.
    fn build_pos(keys: &[Self]) -> (index: HashMap<Self, usize, Self::Hasher>)
        ensures
            index@ == last_positions(keys@),
    {
        let mut index = Self::new_pos();
        assert(index@ =~= last_positions(keys@.take(0)));
        let n = keys.len();
        let mut i: usize = 0;
        while i < n
            invariant
                n == keys@.len(),
                0 <= i <= n,
                index@ == last_positions(keys@.take(i as int)),
            decreases n - i,
        {
            let key = keys[i].clone_key();
            Self::pos_insert(&mut index, key, i);
            assert(keys@.take(i + 1).drop_last() =~= keys@.take(i as int));
            i = i + 1;
        }
        assert(keys@.take(n as int) =~= keys@);
        index
    }

    /// `HashMap::iter` on a map with these keys: it walks the map's
    /// entries, each once.
    fn map_iter<'a, V>(map: &'a HashMap<Self, V>) -> (it: Iter<'a, Self, V>)
        ensures
            it == spec_hash_map_iter(map),
            it.remaining().no_duplicates(),
            IteratorSpec::decrease(&it) is Some,
            IteratorSpec::initial_value_relation(&it, &it),
    ;

    /// Whether `a` comes no later than `b` in the key type's order.
    spec fn key_le(a: Self, b: Self) -> bool;

    /// Sorts entries by key: the entries afterwards are a rearrangement of
    /// those before, their keys in order.
    fn sort_entries<V>(entries: &mut Vec<(Self, V)>)
        ensures
            final(entries)@.to_multiset() == old(entries)@.to_multiset(),
            forall|i: int, j: int|
                0 <= i < j < final(entries)@.len() ==> Self::key_le(
                    #[trigger] final(entries)@[i].0,
                    #[trigger] final(entries)@[j].0,
                ),
    ;

    /// Whether `fp` is a digest that `fingerprint` gives for `keys`. Where
    /// the digest depends on the machine (its byte order), this admits each
    /// of the digests the machines give.
    spec fn fingerprint_of(keys: Seq<Self>, fp: Fingerprint) -> bool;

    /// A digest of the whole key sequence.
    fn fingerprint(keys: &[Self]) -> (fp: Fingerprint)
        ensures
            Self::fingerprint_of(keys@, fp),
    ;
}

impl KeyDomain for u8 {
    type Hasher = FxBuildHasher;

    fn key_eq(&self, other: &u8) -> (r: bool) {
        *self == *other
    }

    fn clone_key(&self) -> (r: u8) {
        *self
    }

    fn new_pos() -> (index: HashMap<u8, usize, FxBuildHasher>) {
        fx_index_new()
    }

    fn pos_insert(index: &mut HashMap<u8, usize, FxBuildHasher>, key: u8, pos: usize) {
        broadcast use vstd::std_specs::hash::group_hash_axioms;

        fx_index_insert(index, key, pos);
    }

    fn pos_get(index: &HashMap<u8, usize, FxBuildHasher>, key: &u8) -> (r: Option<usize>) {
        broadcast use vstd::std_specs::hash::group_hash_axioms;

        fx_index_get(index, key)
    }

    fn map_iter<'a, V>(map: &'a HashMap<u8, V>) -> (it: Iter<'a, u8, V>) {
        broadcast use vstd::std_specs::hash::group_hash_axioms;

        map.iter()
    }

    open spec fn key_le(a: u8, b: u8) -> bool {
        a <= b
    }

    fn sort_entries<V>(entries: &mut Vec<(u8, V)>) {
        broadcast use vstd::laws_cmp::group_laws_cmp;

        sort_entries_by_key(entries);
        assert forall|i: int, j: int| 0 <= i < j < entries@.len() implies Self::key_le(
            #[trigger] entries@[i].0,
            #[trigger] entries@[j].0,
        ) by {
            assert(!(entries@[i].0.cmp_spec(&entries@[j].0) is Greater));
        }
    }

    open spec fn fingerprint_of(keys: Seq<u8>, fp: Fingerprint) -> bool {
        fp == xxh3_128_of(keys)
    }

    fn fingerprint(keys: &[u8]) -> (fp: Fingerprint) {
        xxh3_128_digest(keys)
    }
}

impl KeyDomain for u16 {
    type Hasher = FxBuildHasher;

    fn key_eq(&self, other: &u16) -> (r: bool) {
        *self == *other
    }

    fn clone_key(&self) -> (r: u16) {
        *self
    }

    fn new_pos() -> (index: HashMap<u16, usize, FxBuildHasher>) {
        fx_index_new()
    }

    fn pos_insert(index: &mut HashMap<u16, usize, FxBuildHasher>, key: u16, pos: usize) {
        broadcast use vstd::std_specs::hash::group_hash_axioms;

        fx_index_insert(index, key, pos);
    }

    fn pos_get(index: &HashMap<u16, usize, FxBuildHasher>, key: &u16) -> (r: Option<usize>) {
        broadcast use vstd::std_specs::hash::group_hash_axioms;

        fx_index_get(index, key)
    }

    fn map_iter<'a, V>(map: &'a HashMap<u16, V>) -> (it: Iter<'a, u16, V>) {
        broadcast use vstd::std_specs::hash::group_hash_axioms;

        map.iter()
    }

    open spec fn key_le(a: u16, b: u16) -> bool {
        a <= b
    }

    fn sort_entries<V>(entries: &mut Vec<(u16, V)>) {
        broadcast use vstd::laws_cmp::group_laws_cmp;

        sort_entries_by_key(entries);
        assert forall|i: int, j: int| 0 <= i < j < entries@.len() implies Self::key_le(
            #[trigger] entries@[i].0,
            #[trigger] entries@[j].0,
        ) by {
            assert(!(entries@[i].0.cmp_spec(&entries@[j].0) is Greater));
        }
    }

    open spec fn fingerprint_of(keys: Seq<u16>, fp: Fingerprint) -> bool {
        fp == int_keys_digest(keys.map_values(|k: u16| k as int), 2, true) || fp
            == int_keys_digest(keys.map_values(|k: u16| k as int), 2, false)
    }

    fn fingerprint(keys: &[u16]) -> (fp: Fingerprint) {
        xxh3_128_digest(u16_key_bytes(keys))
    }
}

impl KeyDomain for u32 {
    type Hasher = FxBuildHasher;

    fn key_eq(&self, other: &u32) -> (r: bool) {
        *self == *other
    }

    fn clone_key(&self) -> (r: u32) {
        *self
    }

    fn new_pos() -> (index: HashMap<u32, usize, FxBuildHasher>) {
        fx_index_new()
    }

    fn pos_insert(index: &mut HashMap<u32, usize, FxBuildHasher>, key: u32, pos: usize) {
        broadcast use vstd::std_specs::hash::group_hash_axioms;

        fx_index_insert(index, key, pos);
    }

    fn pos_get(index: &HashMap<u32, usize, FxBuildHasher>, key: &u32) -> (r: Option<usize>) {
        broadcast use vstd::std_specs::hash::group_hash_axioms;

        fx_index_get(index, key)
    }

    fn map_iter<'a, V>(map: &'a HashMap<u32, V>) -> (it: Iter<'a, u32, V>) {
        broadcast use vstd::std_specs::hash::group_hash_axioms;

        map.iter()
    }

    open spec fn key_le(a: u32, b: u32) -> bool {
        a <= b
    }

    fn sort_entries<V>(entries: &mut Vec<(u32, V)>) {
        broadcast use vstd::laws_cmp::group_laws_cmp;

        sort_entries_by_key(entries);
        assert forall|i: int, j: int| 0 <= i < j < entries@.len() implies Self::key_le(
            #[trigger] entries@[i].0,
            #[trigger] entries@[j].0,
        ) by {
            assert(!(entries@[i].0.cmp_spec(&entries@[j].0) is Greater));
        }
    }

    open spec fn fingerprint_of(keys: Seq<u32>, fp: Fingerprint) -> bool {
        fp == int_keys_digest(keys.map_values(|k: u32| k as int), 4, true) || fp
            == int_keys_digest(keys.map_values(|k: u32| k as int), 4, false)
    }

    fn fingerprint(keys: &[u32]) -> (fp: Fingerprint) {
        xxh3_128_digest(u32_key_bytes(keys))
    }
}

impl KeyDomain for u64 {
    type Hasher = FxBuildHasher;

    fn key_eq(&self, other: &u64) -> (r: bool) {
        *self == *other
    }

    fn clone_key(&self) -> (r: u64) {
        *self
    }

    fn new_pos() -> (index: HashMap<u64, usize, FxBuildHasher>) {
        fx_index_new()
    }

    fn pos_insert(index: &mut HashMap<u64, usize, FxBuildHasher>, key: u64, pos: usize) {
        broadcast use vstd::std_specs::hash::group_hash_axioms;

        fx_index_insert(index, key, pos);
    }

    fn pos_get(index: &HashMap<u64, usize, FxBuildHasher>, key: &u64) -> (r: Option<usize>) {
        broadcast use vstd::std_specs::hash::group_hash_axioms;

        fx_index_get(index, key)
    }

    fn map_iter<'a, V>(map: &'a HashMap<u64, V>) -> (it: Iter<'a, u64, V>) {
        broadcast use vstd::std_specs::hash::group_hash_axioms;

        map.iter()
    }

    open spec fn key_le(a: u64, b: u64) -> bool {
        a <= b
    }

    fn sort_entries<V>(entries: &mut Vec<(u64, V)>) {
        broadcast use vstd::laws_cmp::group_laws_cmp;

        sort_entries_by_key(entries);
        assert forall|i: int, j: int| 0 <= i < j < entries@.len() implies Self::key_le(
            #[trigger] entries@[i].0,
            #[trigger] entries@[j].0,
        ) by {
            assert(!(entries@[i].0.cmp_spec(&entries@[j].0) is Greater));
        }
    }

    open spec fn fingerprint_of(keys: Seq<u64>, fp: Fingerprint) -> bool {
        fp == int_keys_digest(keys.map_values(|k: u64| k as int), 8, true) || fp
            == int_keys_digest(keys.map_values(|k: u64| k as int), 8, false)
    }

    fn fingerprint(keys: &[u64]) -> (fp: Fingerprint) {
        xxh3_128_digest(u64_key_bytes(keys))
    }
}

impl KeyDomain for u128 {
    type Hasher = FxBuildHasher;

    fn key_eq(&self, other: &u128) -> (r: bool) {
        *self == *other
    }

    fn clone_key(&self) -> (r: u128) {
        *self
    }

    fn new_pos() -> (index: HashMap<u128, usize, FxBuildHasher>) {
        fx_index_new()
    }

    fn pos_insert(index: &mut HashMap<u128, usize, FxBuildHasher>, key: u128, pos: usize) {
        broadcast use vstd::std_specs::hash::group_hash_axioms;

        fx_index_insert(index, key, pos);
    }

    fn pos_get(index: &HashMap<u128, usize, FxBuildHasher>, key: &u128) -> (r: Option<usize>) {
        broadcast use vstd::std_specs::hash::group_hash_axioms;

        fx_index_get(index, key)
    }

    fn map_iter<'a, V>(map: &'a HashMap<u128, V>) -> (it: Iter<'a, u128, V>) {
        broadcast use vstd::std_specs::hash::group_hash_axioms;

        map.iter()
    }

    open spec fn key_le(a: u128, b: u128) -> bool {
        a <= b
    }

    fn sort_entries<V>(entries: &mut Vec<(u128, V)>) {
        broadcast use vstd::laws_cmp::group_laws_cmp;

        sort_entries_by_key(entries);
        assert forall|i: int, j: int| 0 <= i < j < entries@.len() implies Self::key_le(
            #[trigger] entries@[i].0,
            #[trigger] entries@[j].0,
        ) by {
            assert(!(entries@[i].0.cmp_spec(&entries@[j].0) is Greater));
        }
    }

    open spec fn fingerprint_of(keys: Seq<u128>, fp: Fingerprint) -> bool {
        fp == int_keys_digest(keys.map_values(|k: u128| k as int), 16, true) || fp
            == int_keys_digest(keys.map_values(|k: u128| k as int), 16, false)
    }

    fn fingerprint(keys: &[u128]) -> (fp: Fingerprint) {
        xxh3_128_digest(u128_key_bytes(keys))
    }
}

impl KeyDomain for usize {
    type Hasher = FxBuildHasher;

    fn key_eq(&self, other: &usize) -> (r: bool) {
        *self == *other
    }

    fn clone_key(&self) -> (r: usize) {
        *self
    }

    fn new_pos() -> (index: HashMap<usize, usize, FxBuildHasher>) {
        fx_index_new()
    }

    fn pos_insert(index: &mut HashMap<usize, usize, FxBuildHasher>, key: usize, pos: usize) {
        broadcast use vstd::std_specs::hash::group_hash_axioms;

        fx_index_insert(index, key, pos);
    }

    fn pos_get(index: &HashMap<usize, usize, FxBuildHasher>, key: &usize) -> (r: Option<usize>) {
        broadcast use vstd::std_specs::hash::group_hash_axioms;

        fx_index_get(index, key)
    }

    fn map_iter<'a, V>(map: &'a HashMap<usize, V>) -> (it: Iter<'a, usize, V>) {
        broadcast use vstd::std_specs::hash::group_hash_axioms;

        map.iter()
    }

    open spec fn key_le(a: usize, b: usize) -> bool {
        a <= b
    }

    fn sort_entries<V>(entries: &mut Vec<(usize, V)>) {
        broadcast use vstd::laws_cmp::group_laws_cmp;

        sort_entries_by_key(entries);
        assert forall|i: int, j: int| 0 <= i < j < entries@.len() implies Self::key_le(
            #[trigger] entries@[i].0,
            #[trigger] entries@[j].0,
        ) by {
            assert(!(entries@[i].0.cmp_spec(&entries@[j].0) is Greater));
        }
    }

    open spec fn fingerprint_of(keys: Seq<usize>, fp: Fingerprint) -> bool {
        fp == int_keys_digest(keys.map_values(|k: usize| k as int), usize_width(), true) || fp
            == int_keys_digest(keys.map_values(|k: usize| k as int), usize_width(), false)
    }

    fn fingerprint(keys: &[usize]) -> (fp: Fingerprint) {
        xxh3_128_digest(usize_key_bytes(keys))
    }
}

impl KeyDomain for i8 {
    type Hasher = FxBuildHasher;

    fn key_eq(&self, other: &i8) -> (r: bool) {
        *self == *other
    }

    fn clone_key(&self) -> (r: i8) {
        *self
    }

    fn new_pos() -> (index: HashMap<i8, usize, FxBuildHasher>) {
        fx_index_new()
    }

    fn pos_insert(index: &mut HashMap<i8, usize, FxBuildHasher>, key: i8, pos: usize) {
        broadcast use vstd::std_specs::hash::group_hash_axioms;

        fx_index_insert(index, key, pos);
    }

    fn pos_get(index: &HashMap<i8, usize, FxBuildHasher>, key: &i8) -> (r: Option<usize>) {
        broadcast use vstd::std_specs::hash::group_hash_axioms;

        fx_index_get(index, key)
    }

    fn map_iter<'a, V>(map: &'a HashMap<i8, V>) -> (it: Iter<'a, i8, V>) {
        broadcast use vstd::std_specs::hash::group_hash_axioms;

        map.iter()
    }

    open spec fn key_le(a: i8, b: i8) -> bool {
        a <= b
    }

    fn sort_entries<V>(entries: &mut Vec<(i8, V)>) {
        broadcast use vstd::laws_cmp::group_laws_cmp;

        sort_entries_by_key(entries);
        assert forall|i: int, j: int| 0 <= i < j < entries@.len() implies Self::key_le(
            #[trigger] entries@[i].0,
            #[trigger] entries@[j].0,
        ) by {
            assert(!(entries@[i].0.cmp_spec(&entries@[j].0) is Greater));
        }
    }

    open spec fn fingerprint_of(keys: Seq<i8>, fp: Fingerprint) -> bool {
        fp == xxh3_128_of(keys.map_values(|k: i8| k as u8))
    }

    fn fingerprint(keys: &[i8]) -> (fp: Fingerprint) {
        xxh3_128_digest(i8_key_bytes(keys))
    }
}

impl KeyDomain for i16 {
    type Hasher = FxBuildHasher;

    fn key_eq(&self, other: &i16) -> (r: bool) {
        *self == *other
    }

    fn clone_key(&self) -> (r: i16) {
        *self
    }

    fn new_pos() -> (index: HashMap<i16, usize, FxBuildHasher>) {
        fx_index_new()
    }

    fn pos_insert(index: &mut HashMap<i16, usize, FxBuildHasher>, key: i16, pos: usize) {
        broadcast use vstd::std_specs::hash::group_hash_axioms;

        fx_index_insert(index, key, pos);
    }

    fn pos_get(index: &HashMap<i16, usize, FxBuildHasher>, key: &i16) -> (r: Option<usize>) {
        broadcast use vstd::std_specs::hash::group_hash_axioms;

        fx_index_get(index, key)
    }

    fn map_iter<'a, V>(map: &'a HashMap<i16, V>) -> (it: Iter<'a, i16, V>) {
        broadcast use vstd::std_specs::hash::group_hash_axioms;

        map.iter()
    }

    open spec fn key_le(a: i16, b: i16) -> bool {
        a <= b
    }

    fn sort_entries<V>(entries: &mut Vec<(i16, V)>) {
        broadcast use vstd::laws_cmp::group_laws_cmp;

        sort_entries_by_key(entries);
        assert forall|i: int, j: int| 0 <= i < j < entries@.len() implies Self::key_le(
            #[trigger] entries@[i].0,
            #[trigger] entries@[j].0,
        ) by {
            assert(!(entries@[i].0.cmp_spec(&entries@[j].0) is Greater));
        }
    }

    open spec fn fingerprint_of(keys: Seq<i16>, fp: Fingerprint) -> bool {
        fp == int_keys_digest(keys.map_values(|k: i16| k as int), 2, true) || fp
            == int_keys_digest(keys.map_values(|k: i16| k as int), 2, false)
    }

    fn fingerprint(keys: &[i16]) -> (fp: Fingerprint) {
        xxh3_128_digest(i16_key_bytes(keys))
    }
}

impl KeyDomain for i32 {
    type Hasher = FxBuildHasher;

    fn key_eq(&self, other: &i32) -> (r: bool) {
        *self == *other
    }

    fn clone_key(&self) -> (r: i32) {
        *self
    }

    fn new_pos() -> (index: HashMap<i32, usize, FxBuildHasher>) {
        fx_index_new()
    }

    fn pos_insert(index: &mut HashMap<i32, usize, FxBuildHasher>, key: i32, pos: usize) {
        broadcast use vstd::std_specs::hash::group_hash_axioms;

        fx_index_insert(index, key, pos);
    }

    fn pos_get(index: &HashMap<i32, usize, FxBuildHasher>, key: &i32) -> (r: Option<usize>) {
        broadcast use vstd::std_specs::hash::group_hash_axioms;

        fx_index_get(index, key)
    }

    fn map_iter<'a, V>(map: &'a HashMap<i32, V>) -> (it: Iter<'a, i32, V>) {
        broadcast use vstd::std_specs::hash::group_hash_axioms;

        map.iter()
    }

    open spec fn key_le(a: i32, b: i32) -> bool {
        a <= b
    }

    fn sort_entries<V>(entries: &mut Vec<(i32, V)>) {
        broadcast use vstd::laws_cmp::group_laws_cmp;

        sort_entries_by_key(entries);
        assert forall|i: int, j: int| 0 <= i < j < entries@.len() implies Self::key_le(
            #[trigger] entries@[i].0,
            #[trigger] entries@[j].0,
        ) by {
            assert(!(entries@[i].0.cmp_spec(&entries@[j].0) is Greater));
        }
    }

    open spec fn fingerprint_of(keys: Seq<i32>, fp: Fingerprint) -> bool {
        fp == int_keys_digest(keys.map_values(|k: i32| k as int), 4, true) || fp
            == int_keys_digest(keys.map_values(|k: i32| k as int), 4, false)
    }

    fn fingerprint(keys: &[i32]) -> (fp: Fingerprint) {
        xxh3_128_digest(i32_key_bytes(keys))
    }
}

impl KeyDomain for i64 {
    type Hasher = FxBuildHasher;

    fn key_eq(&self, other: &i64) -> (r: bool) {
        *self == *other
    }

    fn clone_key(&self) -> (r: i64) {
        *self
    }

    fn new_pos() -> (index: HashMap<i64, usize, FxBuildHasher>) {
        fx_index_new()
    }

    fn pos_insert(index: &mut HashMap<i64, usize, FxBuildHasher>, key: i64, pos: usize) {
        broadcast use vstd::std_specs::hash::group_hash_axioms;

        fx_index_insert(index, key, pos);
    }

    fn pos_get(index: &HashMap<i64, usize, FxBuildHasher>, key: &i64) -> (r: Option<usize>) {
        broadcast use vstd::std_specs::hash::group_hash_axioms;

        fx_index_get(index, key)
    }

    fn map_iter<'a, V>(map: &'a HashMap<i64, V>) -> (it: Iter<'a, i64, V>) {
        broadcast use vstd::std_specs::hash::group_hash_axioms;

        map.iter()
    }

    open spec fn key_le(a: i64, b: i64) -> bool {
        a <= b
    }

    fn sort_entries<V>(entries: &mut Vec<(i64, V)>) {
        broadcast use vstd::laws_cmp::group_laws_cmp;

        sort_entries_by_key(entries);
        assert forall|i: int, j: int| 0 <= i < j < entries@.len() implies Self::key_le(
            #[trigger] entries@[i].0,
            #[trigger] entries@[j].0,
        ) by {
            assert(!(entries@[i].0.cmp_spec(&entries@[j].0) is Greater));
        }
    }

    open spec fn fingerprint_of(keys: Seq<i64>, fp: Fingerprint) -> bool {
        fp == int_keys_digest(keys.map_values(|k: i64| k as int), 8, true) || fp
            == int_keys_digest(keys.map_values(|k: i64| k as int), 8, false)
    }

    fn fingerprint(keys: &[i64]) -> (fp: Fingerprint) {
        xxh3_128_digest(i64_key_bytes(keys))
    }
}

impl KeyDomain for i128 {
    type Hasher = FxBuildHasher;

    fn key_eq(&self, other: &i128) -> (r: bool) {
        *self == *other
    }

    fn clone_key(&self) -> (r: i128) {
        *self
    }

    fn new_pos() -> (index: HashMap<i128, usize, FxBuildHasher>) {
        fx_index_new()
    }

    fn pos_insert(index: &mut HashMap<i128, usize, FxBuildHasher>, key: i128, pos: usize) {
        broadcast use vstd::std_specs::hash::group_hash_axioms;

        fx_index_insert(index, key, pos);
    }

    fn pos_get(index: &HashMap<i128, usize, FxBuildHasher>, key: &i128) -> (r: Option<usize>) {
        broadcast use vstd::std_specs::hash::group_hash_axioms;

        fx_index_get(index, key)
    }

    fn map_iter<'a, V>(map: &'a HashMap<i128, V>) -> (it: Iter<'a, i128, V>) {
        broadcast use vstd::std_specs::hash::group_hash_axioms;

        map.iter()
    }

    open spec fn key_le(a: i128, b: i128) -> bool {
        a <= b
    }

    fn sort_entries<V>(entries: &mut Vec<(i128, V)>) {
        broadcast use vstd::laws_cmp::group_laws_cmp;

        sort_entries_by_key(entries);
        assert forall|i: int, j: int| 0 <= i < j < entries@.len() implies Self::key_le(
            #[trigger] entries@[i].0,
            #[trigger] entries@[j].0,
        ) by {
            assert(!(entries@[i].0.cmp_spec(&entries@[j].0) is Greater));
        }
    }

    open spec fn fingerprint_of(keys: Seq<i128>, fp: Fingerprint) -> bool {
        fp == int_keys_digest(keys.map_values(|k: i128| k as int), 16, true) || fp
            == int_keys_digest(keys.map_values(|k: i128| k as int), 16, false)
    }

    fn fingerprint(keys: &[i128]) -> (fp: Fingerprint) {
        xxh3_128_digest(i128_key_bytes(keys))
    }
}

impl KeyDomain for isize {
    type Hasher = FxBuildHasher;

    fn key_eq(&self, other: &isize) -> (r: bool) {
        *self == *other
    }

    fn clone_key(&self) -> (r: isize) {
        *self
    }

    fn new_pos() -> (index: HashMap<isize, usize, FxBuildHasher>) {
        fx_index_new()
    }

    fn pos_insert(index: &mut HashMap<isize, usize, FxBuildHasher>, key: isize, pos: usize) {
        broadcast use vstd::std_specs::hash::group_hash_axioms;

        fx_index_insert(index, key, pos);
    }

    fn pos_get(index: &HashMap<isize, usize, FxBuildHasher>, key: &isize) -> (r: Option<usize>) {
        broadcast use vstd::std_specs::hash::group_hash_axioms;

        fx_index_get(index, key)
    }

    fn map_iter<'a, V>(map: &'a HashMap<isize, V>) -> (it: Iter<'a, isize, V>) {
        broadcast use vstd::std_specs::hash::group_hash_axioms;

        map.iter()
    }

    open spec fn key_le(a: isize, b: isize) -> bool {
        a <= b
    }

    fn sort_entries<V>(entries: &mut Vec<(isize, V)>) {
        broadcast use vstd::laws_cmp::group_laws_cmp;

        sort_entries_by_key(entries);
        assert forall|i: int, j: int| 0 <= i < j < entries@.len() implies Self::key_le(
            #[trigger] entries@[i].0,
            #[trigger] entries@[j].0,
        ) by {
            assert(!(entries@[i].0.cmp_spec(&entries@[j].0) is Greater));
        }
    }

    open spec fn fingerprint_of(keys: Seq<isize>, fp: Fingerprint) -> bool {
        fp == int_keys_digest(keys.map_values(|k: isize| k as int), usize_width(), true) || fp
            == int_keys_digest(keys.map_values(|k: isize| k as int), usize_width(), false)
    }

    fn fingerprint(keys: &[isize]) -> (fp: Fingerprint) {
        xxh3_128_digest(isize_key_bytes(keys))
    }
}

/// The bytes of each key, in order.
pub open spec fn key_contents<K: ByContent>(keys: Seq<K>) -> Seq<Seq<u8>> {
    keys.map_values(|k: K| k.content_view())
}

/// The digest of content-keyed keys, framed with counts in the given byte
/// order.
pub open spec fn framed_keys_digest<K: ByContent>(keys: Seq<K>, little: bool) -> Fingerprint {
    xxh3_128_of(framed(key_contents(keys), little))
}

/// Appends `src[from..to]` to `buf`.
fn append_bytes(buf: &mut Vec<u8>, src: &[u8], from: usize, to: usize)
    requires
        from <= to <= src@.len(),
    ensures
        final(buf)@ == old(buf)@ + src@.subrange(from as int, to as int),
{
    let ghost start = buf@;
    let mut t = from;
    while t < to
        invariant
            from <= t <= to,
            to <= src@.len(),
            buf@ == start + src@.subrange(from as int, t as int),
        decreases to - t,
    {
        buf.push(src[t]);
        assert(src@.subrange(from as int, t + 1) =~= src@.subrange(from as int, t as int).push(
            src@[t as int],
        ));
        t = t + 1;
    }
}

/// The digest of a sequence of content-keyed keys: the count, then each key's
/// length and bytes, with the counts as `usize` values in the machine's byte
/// order, hashed with XXH3-128.
fn hash_byte_slices<K: ByContent>(keys: &[K]) -> (fp: Fingerprint)
    ensures
        fp == framed_keys_digest(keys@, true) || fp == framed_keys_digest(keys@, false),
{
    let ghost contents = key_contents(keys@);
    let n = keys.len();
    // the counts: the number of keys, then the length of each key
    let mut counts: Vec<usize> = Vec::new();
    counts.push(n);
    let mut i: usize = 0;
    while i < n
        invariant
            n == keys@.len(),
            0 <= i <= n,
            contents == key_contents(keys@),
            counts@.len() == i + 1,
            counts@[0] == n,
            forall|j: int| 0 <= j < i ==> #[trigger] counts@[j + 1] == contents[j].len(),
        decreases n - i,
    {
        let bytes = keys[i].content_bytes();
        counts.push(bytes.len());
        i = i + 1;
    }
    let count_bytes = usize_key_bytes(counts.as_slice());
    let ghost vals = counts@.map_values(|c: usize| c as int);
    let ghost width = usize_width();
    let ghost little = count_bytes@ == ints_bytes(vals, width, true);
    assert(count_bytes@ == ints_bytes(vals, width, little));
    assert(width > 0);
    let w: usize = count_bytes.len() / counts.len();
    proof {
        assert(count_bytes@.len() == width * (n + 1)) by (nonlinear_arith)
            requires
                count_bytes@.len() == vals.len() * width,
                vals.len() == n + 1,
        ;
        vstd::arithmetic::div_mod::lemma_fundamental_div_mod_converse(
            count_bytes@.len() as int,
            (n + 1) as int,
            width as int,
            0,
        );
        lemma_ints_bytes_slot(vals, width, little, 0);
        assert(1 * width == width);
    }
    let mut buf: Vec<u8> = Vec::new();
    append_bytes(&mut buf, count_bytes, 0, w);
    assert(buf@ =~= int_bytes(n as int, width, little) + framed_items(contents.take(0), little));
    let mut off: usize = w;
    let mut i: usize = 0;
    while i < n
        invariant
            n == keys@.len(),
            0 <= i <= n,
            contents == key_contents(keys@),
            w == width,
            width == usize_width(),
            width > 0,
            vals.len() == n + 1,
            forall|j: int| 0 <= j < n ==> #[trigger] vals[j + 1] == contents[j].len(),
            count_bytes@ == ints_bytes(vals, width, little),
            count_bytes@.len() == vals.len() * width,
            count_bytes@.len() <= usize::MAX,
            off == (i + 1) * width,
            buf@ == int_bytes(n as int, width, little) + framed_items(contents.take(i as int), little),
        decreases n - i,
    {
        proof {
            lemma_ints_bytes_slot(vals, width, little, i + 1);
            assert((i + 1) * width + width == (i + 2) * width) by (nonlinear_arith);
        }
        let ghost before = buf@;
        append_bytes(&mut buf, count_bytes, off, off + w);
        let bytes = keys[i].content_bytes();
        append_bytes(&mut buf, bytes, 0, bytes.len());
        proof {
            let prefix = contents.take(i + 1);
            assert(contents[i as int] == keys@[i as int].content_view());
            assert(bytes@ == contents[i as int]);
            assert(vals[i + 1] == contents[i as int].len());
            assert(count_bytes@.subrange(off as int, (off + w) as int) == int_bytes(
                contents[i as int].len() as int,
                width,
                little,
            ));
            assert(prefix.drop_last() =~= contents.take(i as int));
            assert(prefix.last() == contents[i as int]);
            assert(bytes@.subrange(0, bytes@.len() as int) =~= bytes@);
            let len_bytes = int_bytes(contents[i as int].len() as int, width, little);
            assert(buf@ == before + len_bytes + bytes@);
            assert(prefix.len() == i + 1);
            assert(framed_items(prefix, little) == framed_items(prefix.drop_last(), little)
                + int_bytes(prefix.last().len() as int, usize_width(), little) + prefix.last());
            assert(framed_items(prefix, little) == framed_items(contents.take(i as int), little)
                + len_bytes + contents[i as int]);
            assert(buf@ =~= int_bytes(n as int, width, little) + framed_items(prefix, little));
        }
        off = off + w;
        i = i + 1;
    }
    assert(contents.take(n as int) =~= contents);
    xxh3_128_digest(buf.as_slice())
}

impl<'a> KeyDomain for &'a str {
    type Hasher = RandomState;

    fn key_eq(&self, other: &&'a str) -> (r: bool) {
        content_equal(self, other)
    }

    fn clone_key(&self) -> (r: &'a str) {
        *self
    }

    fn new_pos() -> (index: HashMap<&'a str, usize, RandomState>) {
        HashMap::new()
    }

    fn pos_insert(index: &mut HashMap<&'a str, usize, RandomState>, key: &'a str, pos: usize) {
        content_index_insert(index, key, pos);
    }

    fn pos_get(index: &HashMap<&'a str, usize, RandomState>, key: &&'a str) -> (r: Option<usize>) {
        content_index_get(index, key)
    }

    fn map_iter<'b, V>(map: &'b HashMap<&'a str, V>) -> (it: Iter<'b, &'a str, V>) {
        content_map_iter(map)
    }

    /// Byte strings in lexicographic order.
    open spec fn key_le(a: &'a str, b: &'a str) -> bool {
        bytes_le(a.content_view(), b.content_view())
    }

    fn sort_entries<V>(entries: &mut Vec<(&'a str, V)>) {
        content_sort_entries(entries);
    }

    open spec fn fingerprint_of(keys: Seq<&'a str>, fp: Fingerprint) -> bool {
        fp == framed_keys_digest(keys, true) || fp == framed_keys_digest(keys, false)
    }

    fn fingerprint(keys: &[&'a str]) -> (fp: Fingerprint) {
        hash_byte_slices(keys)
    }
}

impl<'a> KeyDomain for &'a [u8] {
    type Hasher = RandomState;

    fn key_eq(&self, other: &&'a [u8]) -> (r: bool) {
        content_equal(self, other)
    }

    fn clone_key(&self) -> (r: &'a [u8]) {
        *self
    }

    fn new_pos() -> (index: HashMap<&'a [u8], usize, RandomState>) {
        HashMap::new()
    }

    fn pos_insert(index: &mut HashMap<&'a [u8], usize, RandomState>, key: &'a [u8], pos: usize) {
        content_index_insert(index, key, pos);
    }

    fn pos_get(index: &HashMap<&'a [u8], usize, RandomState>, key: &&'a [u8]) -> (r: Option<usize>) {
        content_index_get(index, key)
    }

    fn map_iter<'b, V>(map: &'b HashMap<&'a [u8], V>) -> (it: Iter<'b, &'a [u8], V>) {
        content_map_iter(map)
    }

    /// Byte strings in lexicographic order.
    open spec fn key_le(a: &'a [u8], b: &'a [u8]) -> bool {
        bytes_le(a.content_view(), b.content_view())
    }

    fn sort_entries<V>(entries: &mut Vec<(&'a [u8], V)>) {
        content_sort_entries(entries);
    }

    open spec fn fingerprint_of(keys: Seq<&'a [u8]>, fp: Fingerprint) -> bool {
        fp == framed_keys_digest(keys, true) || fp == framed_keys_digest(keys, false)
    }

    fn fingerprint(keys: &[&'a [u8]]) -> (fp: Fingerprint) {
        hash_byte_slices(keys)
    }
}

impl KeyDomain for Arc<str> {
    type Hasher = RandomState;

    fn key_eq(&self, other: &Arc<str>) -> (r: bool) {
        content_equal(self, other)
    }

    fn clone_key(&self) -> (r: Arc<str>) {
        arc_clone(self)
    }

    fn new_pos() -> (index: HashMap<Arc<str>, usize, RandomState>) {
        HashMap::new()
    }

    fn pos_insert(index: &mut HashMap<Arc<str>, usize, RandomState>, key: Arc<str>, pos: usize) {
        content_index_insert(index, key, pos);
    }

    fn pos_get(index: &HashMap<Arc<str>, usize, RandomState>, key: &Arc<str>) -> (r: Option<usize>) {
        content_index_get(index, key)
    }

    fn map_iter<'a, V>(map: &'a HashMap<Arc<str>, V>) -> (it: Iter<'a, Arc<str>, V>) {
        content_map_iter(map)
    }

    /// Byte strings in lexicographic order.
    open spec fn key_le(a: Arc<str>, b: Arc<str>) -> bool {
        bytes_le(a.content_view(), b.content_view())
    }

    fn sort_entries<V>(entries: &mut Vec<(Arc<str>, V)>) {
        content_sort_entries(entries);
    }

    open spec fn fingerprint_of(keys: Seq<Arc<str>>, fp: Fingerprint) -> bool {
        fp == framed_keys_digest(keys, true) || fp == framed_keys_digest(keys, false)
    }

    fn fingerprint(keys: &[Arc<str>]) -> (fp: Fingerprint) {
        hash_byte_slices(keys)
    }
}

} // verus!
