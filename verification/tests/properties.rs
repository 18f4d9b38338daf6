use coalign::coalignment::{realign_values_hash, realign_values_linear};
use coalign::errors::CoalignError;
use coalign::key_domain::KeyDomain;
use coalign::vector_mapping::OrderingContainer;
use coalign::vector_ops::{
    vector_add, vector_div, vector_mul, vector_op_fallback_to_out,
    vector_scalar_op_fallback_inplace, vector_scalar_op_fallback_to_out, vector_sub, Scalar,
    VectorAdd, VectorDiv, VectorMul, VectorOp, VectorSub,
};
use coalign::VectorMapping;
use std::collections::HashMap;
use std::sync::Arc;

#[test]
fn integer_fingerprint_is_xxh3_of_key_bytes() {
    let keys = [3u32, 1, 2];
    let expected = xxhash_rust::xxh3::xxh3_128(bytemuck::cast_slice::<u32, u8>(&keys));
    assert_eq!(<u32 as KeyDomain>::fingerprint(&keys), expected);
    let bytes = [9u8, 8];
    assert_eq!(
        <u8 as KeyDomain>::fingerprint(&bytes),
        xxhash_rust::xxh3::xxh3_128(&bytes)
    );
}

#[test]
fn signed_byte_fingerprint_uses_twos_complement() {
    let keys = [-1i8, 0, 5];
    let bytes = [255u8, 0, 5];
    assert_eq!(
        <i8 as KeyDomain>::fingerprint(&keys),
        xxhash_rust::xxh3::xxh3_128(&bytes)
    );
}

#[test]
fn fingerprint_depends_on_order() {
    let a = [1i64, 2, 3];
    let b = [3i64, 2, 1];
    assert_ne!(
        <i64 as KeyDomain>::fingerprint(&a),
        <i64 as KeyDomain>::fingerprint(&b)
    );
    let s1 = ["a", "b"];
    let s2 = ["b", "a"];
    assert_ne!(
        <&str as KeyDomain>::fingerprint(&s1),
        <&str as KeyDomain>::fingerprint(&s2)
    );
    assert_eq!(
        <&str as KeyDomain>::fingerprint(&s1),
        <&str as KeyDomain>::fingerprint(&["a", "b"])
    );
}

#[test]
fn string_fingerprint_is_xxh3_of_framed_bytes() {
    let keys = ["ab", "", "xyz"];
    let mut framed: Vec<u8> = Vec::new();
    framed.extend_from_slice(&keys.len().to_ne_bytes());
    for k in keys {
        framed.extend_from_slice(&k.len().to_ne_bytes());
        framed.extend_from_slice(k.as_bytes());
    }
    assert_eq!(
        <&str as KeyDomain>::fingerprint(&keys),
        xxhash_rust::xxh3::xxh3_128(&framed)
    );
    let empty: [&str; 0] = [];
    assert_eq!(
        <&str as KeyDomain>::fingerprint(&empty),
        xxhash_rust::xxh3::xxh3_128(&0usize.to_ne_bytes())
    );
}

#[test]
fn wide_integer_fingerprint_is_xxh3_of_native_bytes() {
    let keys = [1i16, -2, 300];
    let mut bytes: Vec<u8> = Vec::new();
    for k in keys {
        bytes.extend_from_slice(&k.to_ne_bytes());
    }
    assert_eq!(
        <i16 as KeyDomain>::fingerprint(&keys),
        xxhash_rust::xxh3::xxh3_128(&bytes)
    );
}

#[test]
fn string_fingerprint_separates_boundaries() {
    // The length of each key is hashed, so splitting the same bytes
    // differently gives another digest.
    let a = ["ab", "c"];
    let b = ["a", "bc"];
    assert_ne!(
        <&str as KeyDomain>::fingerprint(&a),
        <&str as KeyDomain>::fingerprint(&b)
    );
}

#[test]
fn byte_and_string_keys_share_fingerprints() {
    let s = ["key", "other"];
    let b: [&[u8]; 2] = [b"key", b"other"];
    let arc: [Arc<str>; 2] = [Arc::from("key"), Arc::from("other")];
    let fs = <&str as KeyDomain>::fingerprint(&s);
    assert_eq!(fs, <&[u8] as KeyDomain>::fingerprint(&b));
    assert_eq!(fs, <Arc<str> as KeyDomain>::fingerprint(&arc));
}

#[test]
fn build_pos_binds_last_positions() {
    let keys = [5u32, 6, 5];
    let pos = <u32 as KeyDomain>::build_pos(&keys);
    assert_eq!(pos.len(), 2);
    assert_eq!(pos.get(&5), Some(&2));
    assert_eq!(pos.get(&6), Some(&1));
    let words = ["p", "q"];
    let wpos = <&str as KeyDomain>::build_pos(&words);
    assert_eq!(wpos.get("q"), Some(&1));
}

#[test]
fn key_domain_helpers() {
    assert!(<u64 as KeyDomain>::key_eq(&4, &4));
    assert!(!<&str as KeyDomain>::key_eq(&"a", &"b"));
    assert_eq!(<i16 as KeyDomain>::clone_key(&-3), -3);
    let mut index = <i32 as KeyDomain>::new_pos();
    assert!(index.is_empty());
    <i32 as KeyDomain>::pos_insert(&mut index, 8, 1);
    assert_eq!(<i32 as KeyDomain>::pos_get(&index, &8), Some(1));
    assert_eq!(<i32 as KeyDomain>::pos_get(&index, &9), None);
}

#[test]
fn vector_kernels() {
    let l = [10i32, 20, 30];
    let r = [1i32, 2, 3];
    assert_eq!(vector_add(&l, &r), vec![11, 22, 33]);
    assert_eq!(vector_sub(&l, &r), vec![9, 18, 27]);
    assert_eq!(vector_mul(&l, &r), vec![10, 40, 90]);
    assert_eq!(vector_div(&l, &r), vec![10, 10, 10]);
}

#[test]
fn vector_op_types() {
    let l = [8u64, 6];
    let r = [2u64, 3];
    assert_eq!(VectorAdd::apply(&l, &r), vec![10, 9]);
    assert_eq!(VectorSub::apply(&l, &r), vec![6, 3]);
    assert_eq!(VectorMul::apply(&l, &r), vec![16, 18]);
    assert_eq!(VectorDiv::apply(&l, &r), vec![4, 2]);
    assert_eq!(VectorDiv::apply_scalar(&l, 2), vec![4, 3]);
    assert_eq!(VectorSub::apply_scalar_scalar(8u64, 5), 3);
    let mut out = [0u64; 2];
    VectorMul::apply_into(&l, &r, &mut out);
    assert_eq!(out, [16, 18]);
    VectorAdd::apply_scalar_into(&l, 1, &mut out);
    assert_eq!(out, [9, 7]);
    let mut m = [8u64, 6];
    VectorSub::apply_inplace(&mut m, &[1]);
    assert_eq!(m, [7, 6]);
    VectorMul::apply_scalar_inplace(&mut m, 2);
    assert_eq!(m, [14, 12]);
}

#[test]
fn scalar_kernels() {
    let l = [1i16, -2, 3];
    assert_eq!(i16::vector_scalar_add(&l, 1), vec![2, -1, 4]);
    assert_eq!(i16::vector_scalar_div(&l, -1), vec![-1, 2, -3]);
    let mut out = [0i16; 3];
    i16::vector_mul_to_out(&l, &l, &mut out);
    assert_eq!(out, [1, 4, 9]);
    let mut inplace = [5i16, 5];
    i16::vector_sub_inplace(&mut inplace, &[1, 2]);
    assert_eq!(inplace, [4, 3]);
    assert_eq!(7i16.scalar_div(2), 3);
    assert_eq!(i16::MIN.scalar_sub(1), i16::MAX);
}

#[test]
fn fallback_helpers() {
    let l = [1u32, 2, 3];
    let r = [4u32, 5, 6];
    let mut out = [0u32; 3];
    vector_op_fallback_to_out(&l, &r, &mut out, |a, b| a * b);
    assert_eq!(out, [4, 10, 18]);
    vector_scalar_op_fallback_to_out(&l, 7, &mut out, |a, b| a + b);
    assert_eq!(out, [8, 9, 10]);
    let mut m = [1u32, 2];
    vector_scalar_op_fallback_inplace(&mut m, 3, |a, b| a * b);
    assert_eq!(m, [3, 6]);
}

#[test]
fn from_map_unsorted_lists_entries() {
    let map: HashMap<u32, i64> = [(3, 30), (1, 10), (2, 20)].into();
    let m = VectorMapping::<u32, i64, Vec<u32>, Vec<i64>>::from_map_unsorted(&map);
    assert_eq!(m.len(), 3);
    let mut pairs: Vec<(u32, i64)> = m
        .keys()
        .iter()
        .copied()
        .zip(m.values().iter().copied())
        .collect();
    pairs.sort();
    assert_eq!(pairs, vec![(1, 10), (2, 20), (3, 30)]);
    for (k, v) in &map {
        assert_eq!(m.get(k), Some(v));
    }
}

#[test]
fn from_map_sorted_orders_keys() {
    let map: HashMap<i8, u16> = [(5, 50), (-2, 20), (0, 1)].into();
    let m = VectorMapping::from_map_sorted(&map);
    assert_eq!(m.keys(), &vec![-2, 0, 5]);
    assert_eq!(m.values(), &vec![20, 1, 50]);
    let empty: HashMap<u64, u8> = HashMap::new();
    assert!(VectorMapping::from_map_sorted(&empty).is_empty());
}

#[test]
fn from_map_with_string_keys() {
    let map: HashMap<&str, i32> = [("b", 2), ("a", 1), ("c", 3)].into();
    let m = VectorMapping::from_map_sorted(&map);
    assert_eq!(m.keys(), &vec!["a", "b", "c"]);
    assert_eq!(m.values(), &vec![1, 2, 3]);
    let u = VectorMapping::<&str, i32, Vec<&str>, Vec<i32>>::from_map_unsorted(&map);
    assert_eq!(u.get(&"c"), Some(&3));
}

#[test]
fn equal_lengths_commute_by_key() {
    // law: for a commuting operation, swapping equally long operands gives
    // the same key-value map
    let a = VectorMapping::new(vec![1u32, 2, 3], vec![5i32, 6, 7]);
    let b = VectorMapping::new(vec![3u32, 1, 2], vec![1i32, 2, 3]);
    let ab = a.add(&b).unwrap();
    let ba = b.add(&a).unwrap();
    assert_eq!(ab.keys(), &vec![1, 2, 3]);
    assert_eq!(ba.keys(), &vec![3, 1, 2]);
    for k in [1u32, 2, 3] {
        assert_eq!(ab.get(&k), ba.get(&k));
    }
}

#[test]
fn unequal_lengths_are_symmetric() {
    // law: with key sets of different sizes, both operand orders give the
    // same mapping
    let a = VectorMapping::new(vec!["a", "b", "c", "d"], vec![1u8, 2, 3, 4]);
    let b = VectorMapping::new(vec!["d", "b"], vec![10u8, 20]);
    let ab = a.mul(&b).unwrap();
    let ba = b.mul(&a).unwrap();
    assert_eq!(ab.keys(), ba.keys());
    assert_eq!(ab.values(), ba.values());
    assert_eq!(ab.values(), &vec![1, 40, 3, 40]);
}

#[test]
fn combine_by_key_keeps_unshared_values() {
    // law: keys of the longer mapping that the shorter lacks keep their value
    let a = VectorMapping::new(vec![10u64, 20, 30, 40], vec![1u64, 2, 3, 4]);
    let b = VectorMapping::new(vec![40u64, 10], vec![100u64, 100]);
    let c = a.add(&b).unwrap();
    assert_eq!(c.get(&20), Some(&2));
    assert_eq!(c.get(&30), Some(&3));
    assert_eq!(c.get(&10), Some(&101));
    assert_eq!(c.get(&40), Some(&104));
}

#[test]
fn same_keys_combine_positionwise() {
    // law: with the same key order, values combine position by position
    let a = VectorMapping::new(vec![2u16, 9, 4], vec![1i32, 2, 3]);
    let b = VectorMapping::new(vec![2u16, 9, 4], [10i32, 20, 30]);
    let c = a.sub(&b).unwrap();
    assert_eq!(c.values(), &vec![-9, -18, -27]);
}

#[test]
fn inplace_matches_allocating() {
    // law: the in-place operation leaves the values the allocating one returns
    let a = VectorMapping::new(vec![1u32, 2, 3], vec![9i32, 8, 7]);
    let b = VectorMapping::new(vec![2u32, 3, 1], vec![1i32, 2, 3]);
    let allocated = a.div(&b).unwrap();
    let mut c = a.clone();
    c.div_inplace(&b).unwrap();
    assert_eq!(c.values(), allocated.values());
    assert_eq!(c.keys(), allocated.keys());
}

#[test]
fn entries_describe_map() {
    // law: a mapping built from a map gives back each entry by key
    let map: HashMap<u64, i32> = [(100, -1), (7, 3), (55, 0)].into();
    let m = VectorMapping::from_map_sorted(&map);
    for (k, v) in &map {
        assert_eq!(m.get(k), Some(v));
    }
    assert_eq!(m.get(&8), None);
}

#[test]
fn realign_keeps_entries() {
    // law: realigned values pair each target key with the value it had before
    let lhs = ["p", "q", "r"];
    let rhs = ["r", "p", "q"];
    let vals = [1i32, 2, 3];
    let out = realign_values_linear(&lhs, &rhs, &vals).unwrap();
    for (i, k) in rhs.iter().enumerate() {
        let j = lhs.iter().position(|x| x == k).unwrap();
        assert_eq!(out[i], vals[j]);
    }
}

#[test]
fn linear_and_hash_agree_on_failures() {
    // law: both realignments fail on the same inputs
    let lhs = [1u32, 1, 2];
    let rhs = [1u32, 2, 3];
    let vals = [4u8, 5, 6];
    let pos = <u32 as KeyDomain>::build_pos(&lhs);
    assert_eq!(
        realign_values_linear(&lhs, &rhs, &vals),
        Err(CoalignError::IncompatibleKeys)
    );
    assert_eq!(
        realign_values_hash(&lhs, &rhs, &vals, &pos),
        Err(CoalignError::IncompatibleKeys)
    );
}

#[test]
fn realign_succeeds_iff_same_keys() {
    // law: realignment succeeds exactly for duplicate-free sequences with the
    // same keys
    let vals = [1u8, 2, 3];
    assert!(realign_values_linear(&[1u32, 2, 3], &[3u32, 2, 1], &vals).is_ok());
    assert!(realign_values_linear(&[1u32, 2, 3], &[3u32, 2, 4], &vals).is_err());
    assert!(realign_values_linear(&[1u32, 2, 2], &[1u32, 2, 2], &vals).is_err());
}

#[test]
fn scalar_sides_commute() {
    // law: for a commuting operation, the scalar may stand on either side
    let m = VectorMapping::new(vec![0u32, 1], vec![3u32, 250]);
    assert_eq!((&m + 10).values(), (10 + &m).values());
    assert_eq!((&m * 7).values(), (7 * &m).values());
}

#[test]
fn realign_round_trip() {
    // law: aligning back to the first key order restores the values
    let a = VectorMapping::new(vec![1u32, 2, 3], vec![7i32, 8, 9]);
    let b = VectorMapping::new(vec![3u32, 1, 2], vec![30i32, 10, 20]);
    let c = b.aligned_to(&a).unwrap();
    assert_eq!(c.values(), &vec![10, 20, 30]);
    let d = c.aligned_to(&b).unwrap();
    assert_eq!(d.keys(), b.keys());
    assert_eq!(d.values(), b.values());
    let lhs = ["x", "y", "z"];
    let rhs = ["z", "x", "y"];
    let out = realign_values_linear(&lhs, &rhs, &[1u8, 2, 3]).unwrap();
    assert_eq!(realign_values_linear(&rhs, &lhs, &out).unwrap(), vec![1, 2, 3]);
}

#[test]
fn add_then_sub_scalar_restores_values() {
    // law: for integer values, `- c` undoes `+ c` (wrapping included)
    let m = VectorMapping::new(vec![0u32, 1, 2], vec![250u8, 3, 0]);
    let back = m.add_scalar(10).sub_scalar(10);
    assert_eq!(back.keys(), m.keys());
    assert_eq!(back.values(), m.values());
}

#[test]
fn result_depends_on_entries() {
    // law: a mapping from `OrderingContainer::new` and `from_parts` combines
    // like one from `new` with the same keys and values
    let keys = vec![4u64, 9, 1];
    let vals = vec![1i32, 2, 3];
    let m1 = VectorMapping::new(keys.clone(), vals.clone());
    let m2 = VectorMapping::<u64, i32, Vec<u64>, Vec<i32>>::from_parts(
        OrderingContainer::new(keys.clone()),
        vals.clone(),
    );
    let other = VectorMapping::new(vec![1u64, 4, 9], vec![10i32, 20, 30]);
    let r1 = m1.sub(&other).unwrap();
    let r2 = m2.sub(&other).unwrap();
    assert_eq!(r1.keys(), r2.keys());
    assert_eq!(r1.values(), r2.values());
    assert_eq!(r1.values(), &vec![-19, -28, -7]);
}

#[test]
fn same_keys_with_repeats_combine_positionwise() {
    // law: the same key sequence combines position by position, repeated
    // keys included
    let a = VectorMapping::new(vec![1u32, 1, 2], vec![1i32, 2, 3]);
    let b = VectorMapping::new(vec![1u32, 1, 2], vec![10i32, 20, 30]);
    assert_eq!(a.add(&b).unwrap().values(), &vec![11, 22, 33]);
    let c = VectorMapping::<u32, i32, Vec<u32>, Vec<i32>>::from_parts(
        OrderingContainer::new(vec![1u32, 1, 2]),
        vec![5, 5, 5],
    );
    assert_eq!(a.sub(&c).unwrap().values(), &vec![-4, -3, -2]);
    let mut d = a.clone();
    d.mul_inplace(&b).unwrap();
    assert_eq!(d.values(), &vec![10, 40, 90]);
}

#[test]
fn reordering_doubles_by_key() {
    let a = VectorMapping::new(vec![5u16, 6, 7, 8], vec![1u32, 2, 3, 4]);
    let b = VectorMapping::new(vec![8u16, 5, 7, 6], vec![4u32, 1, 3, 2]);
    assert_eq!(a.add(&b).unwrap().values(), &vec![2, 4, 6, 8]);
    assert_eq!(b.add(&a).unwrap().values(), &vec![8, 2, 6, 4]);
}

#[test]
fn inplace_chain_matches_allocating_chain() {
    // law: a chain of in-place operations leaves the values that the same
    // chain of allocating operations returns
    let a0 = VectorMapping::new(vec![1u64, 2, 3, 4], vec![3i64, 5, 7, 9]);
    let b = VectorMapping::new(vec![4u64, 2, 1, 3], vec![2i64, 3, 4, 5]);
    let allocated = a0
        .mul(&b)
        .unwrap()
        .add_scalar(17)
        .div_scalar(13)
        .mul(&b)
        .unwrap();
    let mut a = a0.clone();
    a.mul_inplace(&b).unwrap();
    a.add_scalar_inplace(17);
    a.div_scalar_inplace(13);
    a.mul_inplace(&b).unwrap();
    assert_eq!(a.keys(), a0.keys());
    assert_eq!(a.values(), allocated.values());
}

#[test]
fn string_keyed_maps_convert_sorted() {
    let map: HashMap<&str, u8> = [("pear", 3), ("apple", 1), ("fig", 2)].into();
    let m: VectorMapping<&str, u8, Vec<&str>, Vec<u8>> = map.into();
    assert_eq!(m.keys(), &vec!["apple", "fig", "pear"]);
    assert_eq!(m.values(), &vec![1, 2, 3]);
    let bytes: HashMap<&[u8], i32> = [(&b"b"[..], 2), (&b"ab"[..], 1)].into();
    let mb = VectorMapping::from_map_sorted(&bytes);
    assert_eq!(mb.values(), &vec![1, 2]);
    let shared: HashMap<Arc<str>, i32> = [(Arc::from("z"), 26), (Arc::from("a"), 1)].into();
    let ms = VectorMapping::from_map_sorted(&shared);
    assert_eq!(ms.values(), &vec![1, 26]);
}

#[test]
fn ordering_container_clone() {
    let o: OrderingContainer<u8, Vec<u8>> = OrderingContainer::new(vec![1, 2]);
    let o2 = o.clone();
    let a = VectorMapping::<u8, u8, Vec<u8>, Vec<u8>>::from_parts(o, vec![1, 1]);
    let b = VectorMapping::<u8, u8, Vec<u8>, Vec<u8>>::from_parts(o2, vec![2, 2]);
    assert_eq!(a.add(&b).unwrap().values(), &vec![3, 3]);
}
