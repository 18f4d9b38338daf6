use coalign::vector_ops::Scalar;
use coalign::VectorMapping;
use std::collections::HashMap;

/// A floating-point value type for the tests.
#[derive(Debug, Clone, Copy, PartialEq, Default)]
struct F64(f64);

impl Scalar for F64 {
    fn scalar_add(self, rhs: F64) -> F64 {
        F64(self.0 + rhs.0)
    }
    fn scalar_sub(self, rhs: F64) -> F64 {
        F64(self.0 - rhs.0)
    }
    fn scalar_mul(self, rhs: F64) -> F64 {
        F64(self.0 * rhs.0)
    }
    fn scalar_div(self, rhs: F64) -> F64 {
        F64(self.0 / rhs.0)
    }
}

#[test]
fn add_same_ordering() {
    let a = VectorMapping::new(vec![0, 1, 2], vec![F64(1.0), F64(2.0), F64(3.0)]);
    let b = VectorMapping::new(vec![0, 1, 2], vec![F64(10.0), F64(20.0), F64(30.0)]);
    let c = a.add(&b).expect("Couldn't add nums");
    assert_eq!(
        <Vec<F64> as AsRef<Vec<F64>>>::as_ref(&c.values()),
        &[F64(11.0), F64(22.0), F64(33.0)]
    );
}

#[test]
fn add_diff_ordering() {
    let a = VectorMapping::new(vec![0, 1, 2], vec![F64(1.0), F64(2.0), F64(3.0)]);
    let b = VectorMapping::new(vec![2, 0, 1], vec![F64(10.0), F64(20.0), F64(30.0)]);
    let c = a.add(&b).expect("Couldn't add nums");
    println!("{:?}", (&c));
    let d = c.add(&a).expect("Couldn't add nums");
    println!("{:?}", (&d));
    assert_eq!(
        <Vec<F64> as AsRef<Vec<F64>>>::as_ref(&d.values()),
        &[F64(22.0), F64(34.0), F64(16.0)]
    );
}

#[test]
fn from_map() {
    let tups = [(1, F64(10.0)), (2, F64(11.0)), (3, F64(12.0))];
    let map: HashMap<u32, F64> = tups.into();
    let vmap: VectorMapping<u32, F64, Vec<u32>, Vec<F64>> = map.into();
    println!("{:?}", (&vmap));
    assert_eq!(vmap.keys(), &vec![1, 2, 3]);
    assert_eq!(vmap.values(), &vec![F64(10.0), F64(11.0), F64(12.0)]);
}
