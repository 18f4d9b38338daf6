use coalign::vector_ops::Scalar;
use coalign::VectorMapping;

#[derive(Debug, Clone, Copy, PartialEq, Default)]
struct F64(f64);

impl Scalar for F64 {
    fn scalar_add(self, rhs: F64) -> F64 {
        F64(self.0 + rhs.0)
    }
    fn scalar_sub(self, rhs: F64) -> F64 {
        F64(self.0 - rhs.0)
    }
    fn scalar_mul(self, rhs: F64) -> F64 {
        F64(self.0 * rhs.0)
    }
    fn scalar_div(self, rhs: F64) -> F64 {
        F64(self.0 / rhs.0)
    }
}

#[test]
fn align_mapping() {
    let a = VectorMapping::new(vec![0, 1, 2], vec![F64(1.0), F64(2.0), F64(3.0)]);
    let b = VectorMapping::new(vec![2, 0, 1], vec![F64(10.0), F64(20.0), F64(30.0)]);
    let c = b.aligned_to(&a).expect("Couldn't align mappings");
    println!("{:?}", (&c));
    assert_eq!(
        <Vec<F64> as AsRef<Vec<F64>>>::as_ref(&c.values()),
        &[F64(20.0), F64(30.0), F64(10.0)]
    );
}

#[test]
fn add_subset_mapping() {
    let a = VectorMapping::new(vec!["a", "b", "c"], vec![F64(1.0), F64(2.0), F64(3.0)]);
    let b = VectorMapping::new(vec!["b"], vec![F64(20.0)]);
    let c = a.add(&b).expect("Couldn't add mappings");
    let d = b.add(&a).expect("Couldn't add mappings");
    assert_eq!(c.keys(), d.keys());
    assert_eq!(c.values(), d.values());
    println!("{:?}", (&c));
    assert_eq!(
        <Vec<F64> as AsRef<Vec<F64>>>::as_ref(&c.values()),
        &[F64(1.0), F64(22.0), F64(3.0)]
    );
}
