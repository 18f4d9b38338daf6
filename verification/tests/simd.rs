use coalign::vector_ops::vector_add;
use coalign::vector_ops::Scalar;
use core::array;

#[derive(Debug, Clone, Copy, PartialEq, Default)]
struct F64(f64);

impl Scalar for F64 {
    fn scalar_add(self, rhs: F64) -> F64 {
        F64(self.0 + rhs.0)
    }
    fn scalar_sub(self, rhs: F64) -> F64 {
        F64(self.0 - rhs.0)
    }
    fn scalar_mul(self, rhs: F64) -> F64 {
        F64(self.0 * rhs.0)
    }
    fn scalar_div(self, rhs: F64) -> F64 {
        F64(self.0 / rhs.0)
    }
}

#[test]
fn basic_add() {
    let x: [F64; 103] = array::from_fn(|x| F64(x as f64 * 10.0));
    let y: [F64; 103] = array::from_fn(|x| F64(x as f64 * 15.0));
    let expected: [F64; 103] = array::from_fn(|x| F64((x as f64 * 10.0) + (x as f64 * 15.0)));

    let result = vector_add(&x, &y);

    assert_eq!(result, expected);
}

#[test]
fn basic_scalar_mul() {
    let x: [F64; 103] = array::from_fn(|x| F64(x as f64 * 10.3));
    let expected: [F64; 103] = array::from_fn(|i| F64(x[i].0 * 5.0));

    let result = F64::vector_scalar_mul(&x, F64(5.0));

    assert_eq!(result, expected);
}
