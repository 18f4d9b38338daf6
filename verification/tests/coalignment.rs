use coalign::coalignment::{realign_values_hash, realign_values_linear};
use coalign::errors::CoalignError;
use coalign::vector_ops::Scalar;
use std::collections::HashMap;

#[derive(Debug, Clone, Copy, PartialEq, Default)]
struct F64(f64);

impl Scalar for F64 {
    fn scalar_add(self, rhs: F64) -> F64 {
        F64(self.0 + rhs.0)
    }
    fn scalar_sub(self, rhs: F64) -> F64 {
        F64(self.0 - rhs.0)
    }
    fn scalar_mul(self, rhs: F64) -> F64 {
        F64(self.0 * rhs.0)
    }
    fn scalar_div(self, rhs: F64) -> F64 {
        F64(self.0 / rhs.0)
    }
}

#[test]
fn check_realign() {
    let k1 = ["a", "b", "c"];
    let k2 = ["c", "b", "a"];
    let vals = [F64(3.0), F64(2.0), F64(1.0)];
    let pos_mapping_lhs = k1.iter().enumerate().map(|(i, k)| (*k, i)).collect();

    let realigned = realign_values_hash(&k1, &k2, &vals, &pos_mapping_lhs)
        .expect("Failed to realign values");

    assert_eq!(realigned, [F64(1.0), F64(2.0), F64(3.0)]);
}

#[test]
fn realign_linear_reorders_by_key() {
    let lhs = [10u32, 20, 30, 40];
    let rhs = [40u32, 10, 30, 20];
    let vals = [1i64, 2, 3, 4];
    let out = realign_values_linear(&lhs, &rhs, &vals).unwrap();
    assert_eq!(out, vec![4, 1, 3, 2]);
}

#[test]
fn realign_linear_missing_key() {
    let lhs = [1u8, 2, 3];
    let rhs = [1u8, 2, 4];
    let vals = [5i32, 6, 7];
    assert_eq!(
        realign_values_linear(&lhs, &rhs, &vals),
        Err(CoalignError::IncompatibleKeys)
    );
}

#[test]
fn realign_linear_repeated_key() {
    let lhs = [1u8, 2, 3];
    let rhs = [1u8, 1, 3];
    let vals = [5i32, 6, 7];
    assert_eq!(
        realign_values_linear(&lhs, &rhs, &vals),
        Err(CoalignError::IncompatibleKeys)
    );
}

#[test]
fn realign_linear_duplicate_in_lhs() {
    // lhs repeats a key, so some key of rhs is missing from it
    let lhs = ["x", "x", "y"];
    let rhs = ["x", "y", "z"];
    let vals = [1u16, 2, 3];
    assert_eq!(
        realign_values_linear(&lhs, &rhs, &vals),
        Err(CoalignError::IncompatibleKeys)
    );
}

#[test]
fn realign_hash_agrees_with_linear() {
    let lhs = [7i64, -3, 12, 0];
    let rhs = [0i64, 12, 7, -3];
    let vals = [1u32, 2, 3, 4];
    let pos: HashMap<i64, usize, _> = lhs.iter().enumerate().map(|(i, k)| (*k, i)).collect();
    let h = realign_values_hash(&lhs, &rhs, &vals, &pos).unwrap();
    let l = realign_values_linear(&lhs, &rhs, &vals).unwrap();
    assert_eq!(h, l);
    assert_eq!(h, vec![4, 3, 1, 2]);
}

#[test]
fn realign_hash_missing_key() {
    let lhs = ["a", "b"];
    let rhs = ["a", "q"];
    let vals = [1u8, 2];
    let pos = lhs.iter().enumerate().map(|(i, k)| (*k, i)).collect();
    assert_eq!(
        realign_values_hash(&lhs, &rhs, &vals, &pos),
        Err(CoalignError::IncompatibleKeys)
    );
}
