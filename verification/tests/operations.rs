use coalign::errors::CoalignError;
use coalign::vector_mapping::OrderingContainer;
use coalign::vector_ops::VectorMul;
use std::sync::Arc;
use coalign::VectorMapping;

#[test]
fn add_ints_same_order() {
    let a = VectorMapping::new(vec![0u32, 1, 2], vec![1i32, 2, 3]);
    let b = VectorMapping::new(vec![0u32, 1, 2], vec![10i32, 20, 30]);
    let c = a.add(&b).unwrap();
    assert_eq!(c.keys(), &vec![0, 1, 2]);
    assert_eq!(c.values(), &vec![11, 22, 33]);
}

#[test]
fn sub_realigns_by_key() {
    let a = VectorMapping::new(vec![0u32, 1, 2], vec![10i32, 20, 30]);
    let b = VectorMapping::new(vec![2u32, 0, 1], vec![1i32, 2, 3]);
    let c = a.sub(&b).unwrap();
    assert_eq!(c.keys(), &vec![0, 1, 2]);
    assert_eq!(c.values(), &vec![8, 17, 29]);
}

#[test]
fn mul_folds_subset_into_larger() {
    let a = VectorMapping::new(vec![1u64, 2, 3], vec![2i64, 3, 4]);
    let b = VectorMapping::new(vec![3u64], vec![10i64]);
    let c = a.mul(&b).unwrap();
    assert_eq!(c.keys(), &vec![1, 2, 3]);
    assert_eq!(c.values(), &vec![2, 3, 40]);
}

#[test]
fn smaller_left_operand_stays_on_the_left() {
    // The shorter mapping is folded into the longer one by key, and each
    // shared key gets `left value op right value` whichever side is longer.
    let small = VectorMapping::new(vec![3u64], vec![10i64]);
    let large = VectorMapping::new(vec![1u64, 2, 3], vec![2i64, 3, 4]);
    let c = small.sub(&large).unwrap();
    assert_eq!(c.keys(), &vec![1, 2, 3]);
    assert_eq!(c.values(), &vec![2, 3, 6]);
}

#[test]
fn subset_sub_and_div_keep_operand_order() {
    let a = VectorMapping::new(vec!["b"], vec![20i32]);
    let b = VectorMapping::new(vec!["a", "b", "c"], vec![1i32, 2, 3]);
    let d = a.sub(&b).unwrap();
    assert_eq!(d.keys(), &vec!["a", "b", "c"]);
    assert_eq!(d.get(&"b"), Some(&18));
    let q = a.div(&b).unwrap();
    assert_eq!(q.get(&"b"), Some(&10));
    assert_eq!(q.get(&"a"), Some(&1));
    assert_eq!(b.sub(&a).unwrap().get(&"b"), Some(&-18));
}

#[test]
fn div_ints_by_key() {
    let a = VectorMapping::new(vec!["x", "y", "z"], vec![10u32, 20, 30]);
    let b = VectorMapping::new(vec!["z", "x", "y"], vec![3u32, 2, 5]);
    let c = a.div(&b).unwrap();
    assert_eq!(c.keys(), &vec!["x", "y", "z"]);
    assert_eq!(c.values(), &vec![5, 4, 10]);
}

#[test]
fn same_length_different_keys_is_incompatible() {
    let a = VectorMapping::new(vec![0u32, 1, 2], vec![1i32, 2, 3]);
    let b = VectorMapping::new(vec![0u32, 1, 3], vec![1i32, 2, 3]);
    assert_eq!(a.add(&b).unwrap_err(), CoalignError::IncompatibleKeys);
    assert_eq!(b.add(&a).unwrap_err(), CoalignError::IncompatibleKeys);
}

#[test]
fn non_subset_is_incompatible() {
    let a = VectorMapping::new(vec![0u32, 1, 2], vec![1i32, 2, 3]);
    let b = VectorMapping::new(vec![5u32], vec![1i32]);
    assert_eq!(a.mul(&b).unwrap_err(), CoalignError::IncompatibleKeys);
    assert_eq!(b.mul(&a).unwrap_err(), CoalignError::IncompatibleKeys);
}

#[test]
fn duplicate_keys_do_not_realign() {
    let a = VectorMapping::new(vec![0u32, 1, 2], vec![1i32, 2, 3]);
    let b = VectorMapping::new(vec![0u32, 0, 1], vec![1i32, 2, 3]);
    assert_eq!(a.add(&b).unwrap_err(), CoalignError::IncompatibleKeys);
}

#[test]
fn empty_mappings_combine_to_empty() {
    let a: VectorMapping<u32, i32, Vec<u32>, Vec<i32>> = VectorMapping::new(vec![], vec![]);
    let b: VectorMapping<u32, i32, Vec<u32>, Vec<i32>> = VectorMapping::new(vec![], vec![]);
    let c = a.add(&b).unwrap();
    assert!(c.is_empty());
    assert_eq!(c.len(), 0);
}

#[test]
fn lookups() {
    let m = VectorMapping::new(vec![7u16, 3, 9], vec![70i16, 30, 90]);
    assert_eq!(m.len(), 3);
    assert!(!m.is_empty());
    assert_eq!(m.get(&3), Some(&30));
    assert_eq!(m.get(&9), Some(&90));
    assert_eq!(m.get(&4), None);
    assert_eq!(m.get_idx(0), Some(&70));
    assert_eq!(m.get_idx(2), Some(&90));
    assert_eq!(m.get_idx(3), None);
    assert_eq!(m.keys(), &vec![7, 3, 9]);
    assert_eq!(m.values(), &vec![70, 30, 90]);
}

#[test]
fn get_finds_last_occurrence_of_repeated_key() {
    let m = VectorMapping::new(vec![1u8, 2, 1], vec![10u8, 20, 30]);
    assert_eq!(m.get(&1), Some(&30));
    assert_eq!(m.get(&2), Some(&20));
}

#[test]
fn array_containers() {
    let a = VectorMapping::new([1i8, 2, 3], [5i8, 6, 7]);
    let b = VectorMapping::new([3i8, 1, 2], [1i8, 1, 1]);
    let c = a.add(&b).unwrap();
    assert_eq!(c.keys(), &[1, 2, 3]);
    assert_eq!(c.values(), &vec![6, 7, 8]);
}

#[test]
fn scalar_operations() {
    let m = VectorMapping::new(vec!["a", "b", "c"], vec![1i32, 2, 4]);
    assert_eq!(m.add_scalar(3).values(), &vec![4, 5, 7]);
    assert_eq!(m.sub_scalar(1).values(), &vec![0, 1, 3]);
    assert_eq!(m.mul_scalar(-2).values(), &vec![-2, -4, -8]);
    assert_eq!(m.div_scalar(2).values(), &vec![0, 1, 2]);
    assert_eq!(m.add_scalar(3).keys(), &vec!["a", "b", "c"]);
}

#[test]
fn scalar_chain() {
    let values = VectorMapping::new(vec!["a", "b", "c"], vec![1u32, 2, 3]);
    let out = values.mul_scalar(2).add_scalar(1);
    assert_eq!(out.values(), &vec![3, 5, 7]);
}

#[test]
fn integer_arithmetic_wraps() {
    let m = VectorMapping::new(vec![0u8, 1], vec![200u8, 3]);
    assert_eq!(m.add_scalar(100).values(), &vec![44, 103]);
    assert_eq!(m.sub_scalar(4).values(), &vec![196, 255]);
    let s = VectorMapping::new(vec![0u8], vec![i8::MIN]);
    assert_eq!(s.sub_scalar(1).values(), &vec![i8::MAX]);
    assert_eq!(s.mul_scalar(-1).values(), &vec![i8::MIN]);
}

#[test]
fn scalar_operators_on_either_side() {
    let values = VectorMapping::new(vec!["a", "b", "c"], vec![1u32, 2, 4]);
    let right = &values + 3;
    let left = 24 / &values;
    assert_eq!(right.values(), &vec![4, 5, 7]);
    assert_eq!(left.values(), &vec![24, 12, 6]);
    assert_eq!(left.keys(), &vec!["a", "b", "c"]);
}

#[test]
fn scalar_operators_all_ops() {
    let m = VectorMapping::new(vec![1u32, 2], vec![6i64, 3]);
    assert_eq!((&m - 1).values(), &vec![5, 2]);
    assert_eq!((&m * 2).values(), &vec![12, 6]);
    assert_eq!((&m / 3).values(), &vec![2, 1]);
    assert_eq!((10 - &m).values(), &vec![4, 7]);
    assert_eq!((2 * &m).values(), &vec![12, 6]);
    assert_eq!((1 + &m).values(), &vec![7, 4]);
    assert_eq!((12 / &m).values(), &vec![2, 4]);
    let owned = m.clone() + 1;
    assert_eq!(owned.values(), &vec![7, 4]);
    assert_eq!((m.clone() - 6).values(), &vec![0, -3]);
    assert_eq!((m.clone() * 0).values(), &vec![0, 0]);
    assert_eq!((m / 2).values(), &vec![3, 1]);
}

#[test]
fn inplace_same_order() {
    let mut a = VectorMapping::new(vec![0u32, 1, 2], vec![1i32, 2, 3]);
    let b = VectorMapping::new(vec![0u32, 1, 2], vec![10i32, 20, 30]);
    a.add_inplace(&b).unwrap();
    assert_eq!(a.values(), &vec![11, 22, 33]);
    a.mul_inplace(&b).unwrap();
    assert_eq!(a.values(), &vec![110, 440, 990]);
    a.div_inplace(&b).unwrap();
    assert_eq!(a.values(), &vec![11, 22, 33]);
    a.sub_inplace(&b).unwrap();
    assert_eq!(a.values(), &vec![1, 2, 3]);
}

#[test]
fn inplace_realigns_by_key() {
    let mut a = VectorMapping::new(vec![0u32, 1, 2], vec![10i32, 20, 30]);
    let b = VectorMapping::new(vec![2u32, 0, 1], vec![1i32, 2, 3]);
    a.sub_inplace(&b).unwrap();
    assert_eq!(a.keys(), &vec![0, 1, 2]);
    assert_eq!(a.values(), &vec![8, 17, 29]);
}

#[test]
fn inplace_error_leaves_values() {
    let mut a = VectorMapping::new(vec![0u32, 1, 2], vec![10i32, 20, 30]);
    let b = VectorMapping::new(vec![2u32, 5, 1], vec![1i32, 2, 3]);
    assert_eq!(a.add_inplace(&b), Err(CoalignError::IncompatibleKeys));
    assert_eq!(a.values(), &vec![10, 20, 30]);
}

#[test]
fn inplace_folds_smaller_right_operand() {
    let mut a = VectorMapping::new(vec!["a", "b", "c"], vec![1i32, 2, 3]);
    let b = VectorMapping::new(vec!["b"], vec![20i32]);
    a.add_inplace(&b).unwrap();
    assert_eq!(a.keys(), &vec!["a", "b", "c"]);
    assert_eq!(a.values(), &vec![1, 22, 3]);
    a.sub_inplace(&b).unwrap();
    assert_eq!(a.values(), &vec![1, 2, 3]);
    let z = VectorMapping::new(vec!["z"], vec![1i32]);
    assert_eq!(a.mul_inplace(&z), Err(CoalignError::IncompatibleKeys));
    assert_eq!(a.values(), &vec![1, 2, 3]);
}

#[test]
fn scalar_inplace() {
    let mut a = VectorMapping::new(vec![0u32, 1], vec![10u16, 20]);
    a.add_scalar_inplace(5);
    assert_eq!(a.values(), &vec![15, 25]);
    a.sub_scalar_inplace(1);
    assert_eq!(a.values(), &vec![14, 24]);
    a.mul_scalar_inplace(3);
    assert_eq!(a.values(), &vec![42, 72]);
    a.div_scalar_inplace(6);
    assert_eq!(a.values(), &vec![7, 12]);
}

#[test]
fn op_scalar_with_operation_type() {
    let a = VectorMapping::new(vec![0u32, 1], vec![3i32, -4]);
    let r = a.op_scalar::<VectorMul>(5);
    assert_eq!(r.values(), &vec![15, -20]);
}

#[test]
fn parts_round_trip() {
    let a = VectorMapping::new(vec![4u32, 5, 6], vec![1i32, 2, 3]);
    let (ordering, values) = a.clone().into_parts();
    assert_eq!(values, vec![1, 2, 3]);
    let doubled = VectorMapping::<u32, i32, Vec<u32>, Vec<i32>>::from_parts(ordering, vec![2, 4, 6]);
    assert_eq!(doubled.keys(), &vec![4, 5, 6]);
    let sum = a.add(&doubled).unwrap();
    assert_eq!(sum.values(), &vec![3, 6, 9]);
}

#[test]
fn ordering_container_new_keeps_keys() {
    let ordering: OrderingContainer<u32, Vec<u32>> = OrderingContainer::new(vec![3, 1, 2]);
    let m = VectorMapping::<u32, u8, Vec<u32>, Vec<u8>>::from_parts(ordering, vec![30, 10, 20]);
    assert_eq!(m.get(&1), Some(&10));
    assert_eq!(m.keys(), &vec![3, 1, 2]);
}

#[test]
fn byte_string_keys() {
    let k1: Vec<&[u8]> = vec![b"ab", b"cd", b"ef"];
    let k2: Vec<&[u8]> = vec![b"ef", b"ab", b"cd"];
    let a = VectorMapping::new(k1, vec![1i32, 2, 3]);
    let b = VectorMapping::new(k2, vec![30i32, 10, 20]);
    let c = a.add(&b).unwrap();
    assert_eq!(c.values(), &vec![11, 22, 33]);
    assert_eq!(c.get(&&b"cd"[..]), Some(&22));
}

#[test]
fn shared_string_keys() {
    let k1: Vec<Arc<str>> = vec![Arc::from("x"), Arc::from("y")];
    let k2: Vec<Arc<str>> = vec![Arc::from("y"), Arc::from("x")];
    let a = VectorMapping::new(k1, vec![1u32, 2]);
    let b = VectorMapping::new(k2, vec![20u32, 10]);
    let c = a.mul(&b).unwrap();
    assert_eq!(c.values(), &vec![10, 40]);
    let sub = VectorMapping::new(vec![Arc::<str>::from("y")], vec![1u32]);
    assert_eq!(c.sub(&sub).unwrap().values(), &vec![10, 39]);
}

#[test]
fn wide_integer_keys() {
    let a = VectorMapping::new(vec![u128::MAX, 0, 7], vec![1i32, 2, 3]);
    let b = VectorMapping::new(vec![7u128, u128::MAX, 0], vec![3i32, 1, 2]);
    assert_eq!(a.sub(&b).unwrap().values(), &vec![0, 0, 0]);
    let c = VectorMapping::new(vec![-1isize, 4], vec![1u8, 2]);
    let d = VectorMapping::new(vec![4isize, -1], vec![2u8, 1]);
    assert_eq!(c.add(&d).unwrap().values(), &vec![2, 4]);
    let e = VectorMapping::new(vec![9usize, 8], vec![1i16, 2]);
    let f = VectorMapping::new(vec![8usize], vec![5i16]);
    assert_eq!(e.add(&f).unwrap().values(), &vec![1, 7]);
    let g = VectorMapping::new(vec![-5i128, 5], vec![1i32, 1]);
    assert_eq!(g.add(&g).unwrap().values(), &vec![2, 2]);
}
