use std::ops::{Add, Div, Mul, Sub};

use vstd::prelude::*;
use vstd::std_specs::ops::{AddSpecImpl, DivSpecImpl, MulSpecImpl, SubSpecImpl};

use crate::key_domain::KeyDomain;
use crate::vector_mapping::{KeyContainer, ValueContainer, ValueDomain, VectorMapping};
use crate::vector_ops::{
    scalar_with, scalar_with_defined, with_scalar, with_scalar_defined, ArithOp, VectorAdd,
    VectorDiv, VectorMul, VectorSub,
};

verus! {

// Operator syntax for scalars on either side of a mapping:
// `mapping + s` applies `v + s` to every value, `s / &mapping` applies `s / v`.

/// `mapping + s`: the same as `add_scalar`.
impl<K: KeyDomain, V: ValueDomain, KC: KeyContainer<K>, VC: ValueContainer<V>> Add<V> for VectorMapping<K, V, KC, VC> {
    type Output = VectorMapping<K, V, KC, Vec<V>>;

    fn add(self, rhs: V) -> (r: VectorMapping<K, V, KC, Vec<V>>)
        ensures
            r.wf(),
            r.keys_view() == self.keys_view(),
            r.fingerprint_view() == self.fingerprint_view(),
            r.values_view() == with_scalar(ArithOp::Add, self.values_view(), rhs),
    {
        self.add_scalar(rhs)
    }
}

impl<K: KeyDomain, V: ValueDomain, KC: KeyContainer<K>, VC: ValueContainer<V>> AddSpecImpl<V> for VectorMapping<K, V, KC, VC> {
    open spec fn obeys_add_spec() -> bool {
        false
    }

    open spec fn add_req(self, rhs: V) -> bool {
        self.wf()
    }

    open spec fn add_spec(self, rhs: V) -> VectorMapping<K, V, KC, Vec<V>> {
        arbitrary()
    }
}

/// `&mapping + s`: the same as `add_scalar`, whose contract states the
/// result. (Verus ties an `ensures` on this method to the inherent `add` of the
/// mapping, which shares its name, so the contract is not repeated here.)
impl<'a, K: KeyDomain, V: ValueDomain, KC: KeyContainer<K>, VC: ValueContainer<V>> Add<V> for &'a VectorMapping<K, V, KC, VC> {
    type Output = VectorMapping<K, V, KC, Vec<V>>;

    fn add(self, rhs: V) -> (r: VectorMapping<K, V, KC, Vec<V>>) {
        self.add_scalar(rhs)
    }
}

impl<'a, K: KeyDomain, V: ValueDomain, KC: KeyContainer<K>, VC: ValueContainer<V>> AddSpecImpl<V> for &'a VectorMapping<K, V, KC, VC> {
    open spec fn obeys_add_spec() -> bool {
        false
    }

    open spec fn add_req(self, rhs: V) -> bool {
        self.wf()
    }

    open spec fn add_spec(self, rhs: V) -> VectorMapping<K, V, KC, Vec<V>> {
        arbitrary()
    }
}

/// `mapping - s`: the same as `sub_scalar`.
impl<K: KeyDomain, V: ValueDomain, KC: KeyContainer<K>, VC: ValueContainer<V>> Sub<V> for VectorMapping<K, V, KC, VC> {
    type Output = VectorMapping<K, V, KC, Vec<V>>;

    fn sub(self, rhs: V) -> (r: VectorMapping<K, V, KC, Vec<V>>)
        ensures
            r.wf(),
            r.keys_view() == self.keys_view(),
            r.fingerprint_view() == self.fingerprint_view(),
            r.values_view() == with_scalar(ArithOp::Sub, self.values_view(), rhs),
    {
        self.sub_scalar(rhs)
    }
}

impl<K: KeyDomain, V: ValueDomain, KC: KeyContainer<K>, VC: ValueContainer<V>> SubSpecImpl<V> for VectorMapping<K, V, KC, VC> {
    open spec fn obeys_sub_spec() -> bool {
        false
    }

    open spec fn sub_req(self, rhs: V) -> bool {
        self.wf()
    }

    open spec fn sub_spec(self, rhs: V) -> VectorMapping<K, V, KC, Vec<V>> {
        arbitrary()
    }
}

/// `&mapping - s`: the same as `sub_scalar`, whose contract states the
/// result. (Verus ties an `ensures` on this method to the inherent `sub` of the
/// mapping, which shares its name, so the contract is not repeated here.)
impl<'a, K: KeyDomain, V: ValueDomain, KC: KeyContainer<K>, VC: ValueContainer<V>> Sub<V> for &'a VectorMapping<K, V, KC, VC> {
    type Output = VectorMapping<K, V, KC, Vec<V>>;

    fn sub(self, rhs: V) -> (r: VectorMapping<K, V, KC, Vec<V>>) {
        self.sub_scalar(rhs)
    }
}

impl<'a, K: KeyDomain, V: ValueDomain, KC: KeyContainer<K>, VC: ValueContainer<V>> SubSpecImpl<V> for &'a VectorMapping<K, V, KC, VC> {
    open spec fn obeys_sub_spec() -> bool {
        false
    }

    open spec fn sub_req(self, rhs: V) -> bool {
        self.wf()
    }

    open spec fn sub_spec(self, rhs: V) -> VectorMapping<K, V, KC, Vec<V>> {
        arbitrary()
    }
}

/// `mapping * s`: the same as `mul_scalar`.
impl<K: KeyDomain, V: ValueDomain, KC: KeyContainer<K>, VC: ValueContainer<V>> Mul<V> for VectorMapping<K, V, KC, VC> {
    type Output = VectorMapping<K, V, KC, Vec<V>>;

    fn mul(self, rhs: V) -> (r: VectorMapping<K, V, KC, Vec<V>>)
        ensures
            r.wf(),
            r.keys_view() == self.keys_view(),
            r.fingerprint_view() == self.fingerprint_view(),
            r.values_view() == with_scalar(ArithOp::Mul, self.values_view(), rhs),
    {
        self.mul_scalar(rhs)
    }
}

impl<K: KeyDomain, V: ValueDomain, KC: KeyContainer<K>, VC: ValueContainer<V>> MulSpecImpl<V> for VectorMapping<K, V, KC, VC> {
    open spec fn obeys_mul_spec() -> bool {
        false
    }

    open spec fn mul_req(self, rhs: V) -> bool {
        self.wf()
    }

    open spec fn mul_spec(self, rhs: V) -> VectorMapping<K, V, KC, Vec<V>> {
        arbitrary()
    }
}

/// `&mapping * s`: the same as `mul_scalar`, whose contract states the
/// result. (Verus ties an `ensures` on this method to the inherent `mul` of the
/// mapping, which shares its name, so the contract is not repeated here.)
impl<'a, K: KeyDomain, V: ValueDomain, KC: KeyContainer<K>, VC: ValueContainer<V>> Mul<V> for &'a VectorMapping<K, V, KC, VC> {
    type Output = VectorMapping<K, V, KC, Vec<V>>;

    fn mul(self, rhs: V) -> (r: VectorMapping<K, V, KC, Vec<V>>) {
        self.mul_scalar(rhs)
    }
}

impl<'a, K: KeyDomain, V: ValueDomain, KC: KeyContainer<K>, VC: ValueContainer<V>> MulSpecImpl<V> for &'a VectorMapping<K, V, KC, VC> {
    open spec fn obeys_mul_spec() -> bool {
        false
    }

    open spec fn mul_req(self, rhs: V) -> bool {
        self.wf()
    }

    open spec fn mul_spec(self, rhs: V) -> VectorMapping<K, V, KC, Vec<V>> {
        arbitrary()
    }
}

/// `mapping / s`: the same as `div_scalar`.
impl<K: KeyDomain, V: ValueDomain, KC: KeyContainer<K>, VC: ValueContainer<V>> Div<V> for VectorMapping<K, V, KC, VC> {
    type Output = VectorMapping<K, V, KC, Vec<V>>;

    fn div(self, rhs: V) -> (r: VectorMapping<K, V, KC, Vec<V>>)
        ensures
            r.wf(),
            r.keys_view() == self.keys_view(),
            r.fingerprint_view() == self.fingerprint_view(),
            r.values_view() == with_scalar(ArithOp::Div, self.values_view(), rhs),
    {
        self.div_scalar(rhs)
    }
}

impl<K: KeyDomain, V: ValueDomain, KC: KeyContainer<K>, VC: ValueContainer<V>> DivSpecImpl<V> for VectorMapping<K, V, KC, VC> {
    open spec fn obeys_div_spec() -> bool {
        false
    }

    open spec fn div_req(self, rhs: V) -> bool {
        self.wf()
            && with_scalar_defined(ArithOp::Div, self.values_view(), rhs)
    }

    open spec fn div_spec(self, rhs: V) -> VectorMapping<K, V, KC, Vec<V>> {
        arbitrary()
    }
}

/// `&mapping / s`: the same as `div_scalar`, whose contract states the
/// result. (Verus ties an `ensures` on this method to the inherent `div` of the
/// mapping, which shares its name, so the contract is not repeated here.)
impl<'a, K: KeyDomain, V: ValueDomain, KC: KeyContainer<K>, VC: ValueContainer<V>> Div<V> for &'a VectorMapping<K, V, KC, VC> {
    type Output = VectorMapping<K, V, KC, Vec<V>>;

    fn div(self, rhs: V) -> (r: VectorMapping<K, V, KC, Vec<V>>) {
        self.div_scalar(rhs)
    }
}

impl<'a, K: KeyDomain, V: ValueDomain, KC: KeyContainer<K>, VC: ValueContainer<V>> DivSpecImpl<V> for &'a VectorMapping<K, V, KC, VC> {
    open spec fn obeys_div_spec() -> bool {
        false
    }

    open spec fn div_req(self, rhs: V) -> bool {
        self.wf()
            && with_scalar_defined(ArithOp::Div, self.values_view(), rhs)
    }

    open spec fn div_spec(self, rhs: V) -> VectorMapping<K, V, KC, Vec<V>> {
        arbitrary()
    }
}

/// `s + &mapping` applies `s + v` to every value.
impl<'a, K: KeyDomain, KC: KeyContainer<K>, VC: ValueContainer<u8>> Add<&'a VectorMapping<K, u8, KC, VC>> for u8 {
    type Output = VectorMapping<K, u8, KC, Vec<u8>>;

    fn add(self, rhs: &'a VectorMapping<K, u8, KC, VC>) -> (r: VectorMapping<K, u8, KC, Vec<u8>>)
        ensures
            r.wf(),
            r.keys_view() == rhs.keys_view(),
            r.fingerprint_view() == rhs.fingerprint_view(),
            r.values_view() == scalar_with(ArithOp::Add, self, rhs.values_view()),
    {
        rhs.scalar_op_first::<VectorAdd>(self)
    }
}

impl<'a, K: KeyDomain, KC: KeyContainer<K>, VC: ValueContainer<u8>> AddSpecImpl<&'a VectorMapping<K, u8, KC, VC>> for u8 {
    open spec fn obeys_add_spec() -> bool {
        false
    }

    open spec fn add_req(self, rhs: &'a VectorMapping<K, u8, KC, VC>) -> bool {
        rhs.wf()
    }

    open spec fn add_spec(self, rhs: &'a VectorMapping<K, u8, KC, VC>) -> VectorMapping<K, u8, KC, Vec<u8>> {
        arbitrary()
    }
}

/// `s - &mapping` applies `s - v` to every value.
impl<'a, K: KeyDomain, KC: KeyContainer<K>, VC: ValueContainer<u8>> Sub<&'a VectorMapping<K, u8, KC, VC>> for u8 {
    type Output = VectorMapping<K, u8, KC, Vec<u8>>;

    fn sub(self, rhs: &'a VectorMapping<K, u8, KC, VC>) -> (r: VectorMapping<K, u8, KC, Vec<u8>>)
        ensures
            r.wf(),
            r.keys_view() == rhs.keys_view(),
            r.fingerprint_view() == rhs.fingerprint_view(),
            r.values_view() == scalar_with(ArithOp::Sub, self, rhs.values_view()),
    {
        rhs.scalar_op_first::<VectorSub>(self)
    }
}

impl<'a, K: KeyDomain, KC: KeyContainer<K>, VC: ValueContainer<u8>> SubSpecImpl<&'a VectorMapping<K, u8, KC, VC>> for u8 {
    open spec fn obeys_sub_spec() -> bool {
        false
    }

    open spec fn sub_req(self, rhs: &'a VectorMapping<K, u8, KC, VC>) -> bool {
        rhs.wf()
    }

    open spec fn sub_spec(self, rhs: &'a VectorMapping<K, u8, KC, VC>) -> VectorMapping<K, u8, KC, Vec<u8>> {
        arbitrary()
    }
}

/// `s * &mapping` applies `s * v` to every value.
impl<'a, K: KeyDomain, KC: KeyContainer<K>, VC: ValueContainer<u8>> Mul<&'a VectorMapping<K, u8, KC, VC>> for u8 {
    type Output = VectorMapping<K, u8, KC, Vec<u8>>;

    fn mul(self, rhs: &'a VectorMapping<K, u8, KC, VC>) -> (r: VectorMapping<K, u8, KC, Vec<u8>>)
        ensures
            r.wf(),
            r.keys_view() == rhs.keys_view(),
            r.fingerprint_view() == rhs.fingerprint_view(),
            r.values_view() == scalar_with(ArithOp::Mul, self, rhs.values_view()),
    {
        rhs.scalar_op_first::<VectorMul>(self)
    }
}

impl<'a, K: KeyDomain, KC: KeyContainer<K>, VC: ValueContainer<u8>> MulSpecImpl<&'a VectorMapping<K, u8, KC, VC>> for u8 {
    open spec fn obeys_mul_spec() -> bool {
        false
    }

    open spec fn mul_req(self, rhs: &'a VectorMapping<K, u8, KC, VC>) -> bool {
        rhs.wf()
    }

    open spec fn mul_spec(self, rhs: &'a VectorMapping<K, u8, KC, VC>) -> VectorMapping<K, u8, KC, Vec<u8>> {
        arbitrary()
    }
}

/// `s / &mapping` applies `s / v` to every value.
impl<'a, K: KeyDomain, KC: KeyContainer<K>, VC: ValueContainer<u8>> Div<&'a VectorMapping<K, u8, KC, VC>> for u8 {
    type Output = VectorMapping<K, u8, KC, Vec<u8>>;

    fn div(self, rhs: &'a VectorMapping<K, u8, KC, VC>) -> (r: VectorMapping<K, u8, KC, Vec<u8>>)
        ensures
            r.wf(),
            r.keys_view() == rhs.keys_view(),
            r.fingerprint_view() == rhs.fingerprint_view(),
            r.values_view() == scalar_with(ArithOp::Div, self, rhs.values_view()),
    {
        rhs.scalar_op_first::<VectorDiv>(self)
    }
}

impl<'a, K: KeyDomain, KC: KeyContainer<K>, VC: ValueContainer<u8>> DivSpecImpl<&'a VectorMapping<K, u8, KC, VC>> for u8 {
    open spec fn obeys_div_spec() -> bool {
        false
    }

    open spec fn div_req(self, rhs: &'a VectorMapping<K, u8, KC, VC>) -> bool {
        rhs.wf()
            && scalar_with_defined(ArithOp::Div, self, rhs.values_view())
    }

    open spec fn div_spec(self, rhs: &'a VectorMapping<K, u8, KC, VC>) -> VectorMapping<K, u8, KC, Vec<u8>> {
        arbitrary()
    }
}

/// `s + &mapping` applies `s + v` to every value.
impl<'a, K: KeyDomain, KC: KeyContainer<K>, VC: ValueContainer<u16>> Add<&'a VectorMapping<K, u16, KC, VC>> for u16 {
    type Output = VectorMapping<K, u16, KC, Vec<u16>>;

    fn add(self, rhs: &'a VectorMapping<K, u16, KC, VC>) -> (r: VectorMapping<K, u16, KC, Vec<u16>>)
        ensures
            r.wf(),
            r.keys_view() == rhs.keys_view(),
            r.fingerprint_view() == rhs.fingerprint_view(),
            r.values_view() == scalar_with(ArithOp::Add, self, rhs.values_view()),
    {
        rhs.scalar_op_first::<VectorAdd>(self)
    }
}

impl<'a, K: KeyDomain, KC: KeyContainer<K>, VC: ValueContainer<u16>> AddSpecImpl<&'a VectorMapping<K, u16, KC, VC>> for u16 {
    open spec fn obeys_add_spec() -> bool {
        false
    }

    open spec fn add_req(self, rhs: &'a VectorMapping<K, u16, KC, VC>) -> bool {
        rhs.wf()
    }

    open spec fn add_spec(self, rhs: &'a VectorMapping<K, u16, KC, VC>) -> VectorMapping<K, u16, KC, Vec<u16>> {
        arbitrary()
    }
}

/// `s - &mapping` applies `s - v` to every value.
impl<'a, K: KeyDomain, KC: KeyContainer<K>, VC: ValueContainer<u16>> Sub<&'a VectorMapping<K, u16, KC, VC>> for u16 {
    type Output = VectorMapping<K, u16, KC, Vec<u16>>;

    fn sub(self, rhs: &'a VectorMapping<K, u16, KC, VC>) -> (r: VectorMapping<K, u16, KC, Vec<u16>>)
        ensures
            r.wf(),
            r.keys_view() == rhs.keys_view(),
            r.fingerprint_view() == rhs.fingerprint_view(),
            r.values_view() == scalar_with(ArithOp::Sub, self, rhs.values_view()),
    {
        rhs.scalar_op_first::<VectorSub>(self)
    }
}

impl<'a, K: KeyDomain, KC: KeyContainer<K>, VC: ValueContainer<u16>> SubSpecImpl<&'a VectorMapping<K, u16, KC, VC>> for u16 {
    open spec fn obeys_sub_spec() -> bool {
        false
    }

    open spec fn sub_req(self, rhs: &'a VectorMapping<K, u16, KC, VC>) -> bool {
        rhs.wf()
    }

    open spec fn sub_spec(self, rhs: &'a VectorMapping<K, u16, KC, VC>) -> VectorMapping<K, u16, KC, Vec<u16>> {
        arbitrary()
    }
}

/// `s * &mapping` applies `s * v` to every value.
impl<'a, K: KeyDomain, KC: KeyContainer<K>, VC: ValueContainer<u16>> Mul<&'a VectorMapping<K, u16, KC, VC>> for u16 {
    type Output = VectorMapping<K, u16, KC, Vec<u16>>;

    fn mul(self, rhs: &'a VectorMapping<K, u16, KC, VC>) -> (r: VectorMapping<K, u16, KC, Vec<u16>>)
        ensures
            r.wf(),
            r.keys_view() == rhs.keys_view(),
            r.fingerprint_view() == rhs.fingerprint_view(),
            r.values_view() == scalar_with(ArithOp::Mul, self, rhs.values_view()),
    {
        rhs.scalar_op_first::<VectorMul>(self)
    }
}

impl<'a, K: KeyDomain, KC: KeyContainer<K>, VC: ValueContainer<u16>> MulSpecImpl<&'a VectorMapping<K, u16, KC, VC>> for u16 {
    open spec fn obeys_mul_spec() -> bool {
        false
    }

    open spec fn mul_req(self, rhs: &'a VectorMapping<K, u16, KC, VC>) -> bool {
        rhs.wf()
    }

    open spec fn mul_spec(self, rhs: &'a VectorMapping<K, u16, KC, VC>) -> VectorMapping<K, u16, KC, Vec<u16>> {
        arbitrary()
    }
}

/// `s / &mapping` applies `s / v` to every value.
impl<'a, K: KeyDomain, KC: KeyContainer<K>, VC: ValueContainer<u16>> Div<&'a VectorMapping<K, u16, KC, VC>> for u16 {
    type Output = VectorMapping<K, u16, KC, Vec<u16>>;

    fn div(self, rhs: &'a VectorMapping<K, u16, KC, VC>) -> (r: VectorMapping<K, u16, KC, Vec<u16>>)
        ensures
            r.wf(),
            r.keys_view() == rhs.keys_view(),
            r.fingerprint_view() == rhs.fingerprint_view(),
            r.values_view() == scalar_with(ArithOp::Div, self, rhs.values_view()),
    {
        rhs.scalar_op_first::<VectorDiv>(self)
    }
}

impl<'a, K: KeyDomain, KC: KeyContainer<K>, VC: ValueContainer<u16>> DivSpecImpl<&'a VectorMapping<K, u16, KC, VC>> for u16 {
    open spec fn obeys_div_spec() -> bool {
        false
    }

    open spec fn div_req(self, rhs: &'a VectorMapping<K, u16, KC, VC>) -> bool {
        rhs.wf()
            && scalar_with_defined(ArithOp::Div, self, rhs.values_view())
    }

    open spec fn div_spec(self, rhs: &'a VectorMapping<K, u16, KC, VC>) -> VectorMapping<K, u16, KC, Vec<u16>> {
        arbitrary()
    }
}

/// `s + &mapping` applies `s + v` to every value.
impl<'a, K: KeyDomain, KC: KeyContainer<K>, VC: ValueContainer<u32>> Add<&'a VectorMapping<K, u32, KC, VC>> for u32 {
    type Output = VectorMapping<K, u32, KC, Vec<u32>>;

    fn add(self, rhs: &'a VectorMapping<K, u32, KC, VC>) -> (r: VectorMapping<K, u32, KC, Vec<u32>>)
        ensures
            r.wf(),
            r.keys_view() == rhs.keys_view(),
            r.fingerprint_view() == rhs.fingerprint_view(),
            r.values_view() == scalar_with(ArithOp::Add, self, rhs.values_view()),
    {
        rhs.scalar_op_first::<VectorAdd>(self)
    }
}

impl<'a, K: KeyDomain, KC: KeyContainer<K>, VC: ValueContainer<u32>> AddSpecImpl<&'a VectorMapping<K, u32, KC, VC>> for u32 {
    open spec fn obeys_add_spec() -> bool {
        false
    }

    open spec fn add_req(self, rhs: &'a VectorMapping<K, u32, KC, VC>) -> bool {
        rhs.wf()
    }

    open spec fn add_spec(self, rhs: &'a VectorMapping<K, u32, KC, VC>) -> VectorMapping<K, u32, KC, Vec<u32>> {
        arbitrary()
    }
}

/// `s - &mapping` applies `s - v` to every value.
impl<'a, K: KeyDomain, KC: KeyContainer<K>, VC: ValueContainer<u32>> Sub<&'a VectorMapping<K, u32, KC, VC>> for u32 {
    type Output = VectorMapping<K, u32, KC, Vec<u32>>;

    fn sub(self, rhs: &'a VectorMapping<K, u32, KC, VC>) -> (r: VectorMapping<K, u32, KC, Vec<u32>>)
        ensures
            r.wf(),
            r.keys_view() == rhs.keys_view(),
            r.fingerprint_view() == rhs.fingerprint_view(),
            r.values_view() == scalar_with(ArithOp::Sub, self, rhs.values_view()),
    {
        rhs.scalar_op_first::<VectorSub>(self)
    }
}

impl<'a, K: KeyDomain, KC: KeyContainer<K>, VC: ValueContainer<u32>> SubSpecImpl<&'a VectorMapping<K, u32, KC, VC>> for u32 {
    open spec fn obeys_sub_spec() -> bool {
        false
    }

    open spec fn sub_req(self, rhs: &'a VectorMapping<K, u32, KC, VC>) -> bool {
        rhs.wf()
    }

    open spec fn sub_spec(self, rhs: &'a VectorMapping<K, u32, KC, VC>) -> VectorMapping<K, u32, KC, Vec<u32>> {
        arbitrary()
    }
}

/// `s * &mapping` applies `s * v` to every value.
impl<'a, K: KeyDomain, KC: KeyContainer<K>, VC: ValueContainer<u32>> Mul<&'a VectorMapping<K, u32, KC, VC>> for u32 {
    type Output = VectorMapping<K, u32, KC, Vec<u32>>;

    fn mul(self, rhs: &'a VectorMapping<K, u32, KC, VC>) -> (r: VectorMapping<K, u32, KC, Vec<u32>>)
        ensures
            r.wf(),
            r.keys_view() == rhs.keys_view(),
            r.fingerprint_view() == rhs.fingerprint_view(),
            r.values_view() == scalar_with(ArithOp::Mul, self, rhs.values_view()),
    {
        rhs.scalar_op_first::<VectorMul>(self)
    }
}

impl<'a, K: KeyDomain, KC: KeyContainer<K>, VC: ValueContainer<u32>> MulSpecImpl<&'a VectorMapping<K, u32, KC, VC>> for u32 {
    open spec fn obeys_mul_spec() -> bool {
        false
    }

    open spec fn mul_req(self, rhs: &'a VectorMapping<K, u32, KC, VC>) -> bool {
        rhs.wf()
    }

    open spec fn mul_spec(self, rhs: &'a VectorMapping<K, u32, KC, VC>) -> VectorMapping<K, u32, KC, Vec<u32>> {
        arbitrary()
    }
}

/// `s / &mapping` applies `s / v` to every value.
impl<'a, K: KeyDomain, KC: KeyContainer<K>, VC: ValueContainer<u32>> Div<&'a VectorMapping<K, u32, KC, VC>> for u32 {
    type Output = VectorMapping<K, u32, KC, Vec<u32>>;

    fn div(self, rhs: &'a VectorMapping<K, u32, KC, VC>) -> (r: VectorMapping<K, u32, KC, Vec<u32>>)
        ensures
            r.wf(),
            r.keys_view() == rhs.keys_view(),
            r.fingerprint_view() == rhs.fingerprint_view(),
            r.values_view() == scalar_with(ArithOp::Div, self, rhs.values_view()),
    {
        rhs.scalar_op_first::<VectorDiv>(self)
    }
}

impl<'a, K: KeyDomain, KC: KeyContainer<K>, VC: ValueContainer<u32>> DivSpecImpl<&'a VectorMapping<K, u32, KC, VC>> for u32 {
    open spec fn obeys_div_spec() -> bool {
        false
    }

    open spec fn div_req(self, rhs: &'a VectorMapping<K, u32, KC, VC>) -> bool {
        rhs.wf()
            && scalar_with_defined(ArithOp::Div, self, rhs.values_view())
    }

    open spec fn div_spec(self, rhs: &'a VectorMapping<K, u32, KC, VC>) -> VectorMapping<K, u32, KC, Vec<u32>> {
        arbitrary()
    }
}

/// `s + &mapping` applies `s + v` to every value.
impl<'a, K: KeyDomain, KC: KeyContainer<K>, VC: ValueContainer<u64>> Add<&'a VectorMapping<K, u64, KC, VC>> for u64 {
    type Output = VectorMapping<K, u64, KC, Vec<u64>>;

    fn add(self, rhs: &'a VectorMapping<K, u64, KC, VC>) -> (r: VectorMapping<K, u64, KC, Vec<u64>>)
        ensures
            r.wf(),
            r.keys_view() == rhs.keys_view(),
            r.fingerprint_view() == rhs.fingerprint_view(),
            r.values_view() == scalar_with(ArithOp::Add, self, rhs.values_view()),
    {
        rhs.scalar_op_first::<VectorAdd>(self)
    }
}

impl<'a, K: KeyDomain, KC: KeyContainer<K>, VC: ValueContainer<u64>> AddSpecImpl<&'a VectorMapping<K, u64, KC, VC>> for u64 {
    open spec fn obeys_add_spec() -> bool {
        false
    }

    open spec fn add_req(self, rhs: &'a VectorMapping<K, u64, KC, VC>) -> bool {
        rhs.wf()
    }

    open spec fn add_spec(self, rhs: &'a VectorMapping<K, u64, KC, VC>) -> VectorMapping<K, u64, KC, Vec<u64>> {
        arbitrary()
    }
}

/// `s - &mapping` applies `s - v` to every value.
impl<'a, K: KeyDomain, KC: KeyContainer<K>, VC: ValueContainer<u64>> Sub<&'a VectorMapping<K, u64, KC, VC>> for u64 {
    type Output = VectorMapping<K, u64, KC, Vec<u64>>;

    fn sub(self, rhs: &'a VectorMapping<K, u64, KC, VC>) -> (r: VectorMapping<K, u64, KC, Vec<u64>>)
        ensures
            r.wf(),
            r.keys_view() == rhs.keys_view(),
            r.fingerprint_view() == rhs.fingerprint_view(),
            r.values_view() == scalar_with(ArithOp::Sub, self, rhs.values_view()),
    {
        rhs.scalar_op_first::<VectorSub>(self)
    }
}

impl<'a, K: KeyDomain, KC: KeyContainer<K>, VC: ValueContainer<u64>> SubSpecImpl<&'a VectorMapping<K, u64, KC, VC>> for u64 {
    open spec fn obeys_sub_spec() -> bool {
        false
    }

    open spec fn sub_req(self, rhs: &'a VectorMapping<K, u64, KC, VC>) -> bool {
        rhs.wf()
    }

    open spec fn sub_spec(self, rhs: &'a VectorMapping<K, u64, KC, VC>) -> VectorMapping<K, u64, KC, Vec<u64>> {
        arbitrary()
    }
}

/// `s * &mapping` applies `s * v` to every value.
impl<'a, K: KeyDomain, KC: KeyContainer<K>, VC: ValueContainer<u64>> Mul<&'a VectorMapping<K, u64, KC, VC>> for u64 {
    type Output = VectorMapping<K, u64, KC, Vec<u64>>;

    fn mul(self, rhs: &'a VectorMapping<K, u64, KC, VC>) -> (r: VectorMapping<K, u64, KC, Vec<u64>>)
        ensures
            r.wf(),
            r.keys_view() == rhs.keys_view(),
            r.fingerprint_view() == rhs.fingerprint_view(),
            r.values_view() == scalar_with(ArithOp::Mul, self, rhs.values_view()),
    {
        rhs.scalar_op_first::<VectorMul>(self)
    }
}

impl<'a, K: KeyDomain, KC: KeyContainer<K>, VC: ValueContainer<u64>> MulSpecImpl<&'a VectorMapping<K, u64, KC, VC>> for u64 {
    open spec fn obeys_mul_spec() -> bool {
        false
    }

    open spec fn mul_req(self, rhs: &'a VectorMapping<K, u64, KC, VC>) -> bool {
        rhs.wf()
    }

    open spec fn mul_spec(self, rhs: &'a VectorMapping<K, u64, KC, VC>) -> VectorMapping<K, u64, KC, Vec<u64>> {
        arbitrary()
    }
}

/// `s / &mapping` applies `s / v` to every value.
impl<'a, K: KeyDomain, KC: KeyContainer<K>, VC: ValueContainer<u64>> Div<&'a VectorMapping<K, u64, KC, VC>> for u64 {
    type Output = VectorMapping<K, u64, KC, Vec<u64>>;

    fn div(self, rhs: &'a VectorMapping<K, u64, KC, VC>) -> (r: VectorMapping<K, u64, KC, Vec<u64>>)
        ensures
            r.wf(),
            r.keys_view() == rhs.keys_view(),
            r.fingerprint_view() == rhs.fingerprint_view(),
            r.values_view() == scalar_with(ArithOp::Div, self, rhs.values_view()),
    {
        rhs.scalar_op_first::<VectorDiv>(self)
    }
}

impl<'a, K: KeyDomain, KC: KeyContainer<K>, VC: ValueContainer<u64>> DivSpecImpl<&'a VectorMapping<K, u64, KC, VC>> for u64 {
    open spec fn obeys_div_spec() -> bool {
        false
    }

    open spec fn div_req(self, rhs: &'a VectorMapping<K, u64, KC, VC>) -> bool {
        rhs.wf()
            && scalar_with_defined(ArithOp::Div, self, rhs.values_view())
    }

    open spec fn div_spec(self, rhs: &'a VectorMapping<K, u64, KC, VC>) -> VectorMapping<K, u64, KC, Vec<u64>> {
        arbitrary()
    }
}

/// `s + &mapping` applies `s + v` to every value.
impl<'a, K: KeyDomain, KC: KeyContainer<K>, VC: ValueContainer<i8>> Add<&'a VectorMapping<K, i8, KC, VC>> for i8 {
    type Output = VectorMapping<K, i8, KC, Vec<i8>>;

    fn add(self, rhs: &'a VectorMapping<K, i8, KC, VC>) -> (r: VectorMapping<K, i8, KC, Vec<i8>>)
        ensures
            r.wf(),
            r.keys_view() == rhs.keys_view(),
            r.fingerprint_view() == rhs.fingerprint_view(),
            r.values_view() == scalar_with(ArithOp::Add, self, rhs.values_view()),
    {
        rhs.scalar_op_first::<VectorAdd>(self)
    }
}

impl<'a, K: KeyDomain, KC: KeyContainer<K>, VC: ValueContainer<i8>> AddSpecImpl<&'a VectorMapping<K, i8, KC, VC>> for i8 {
    open spec fn obeys_add_spec() -> bool {
        false
    }

    open spec fn add_req(self, rhs: &'a VectorMapping<K, i8, KC, VC>) -> bool {
        rhs.wf()
    }

    open spec fn add_spec(self, rhs: &'a VectorMapping<K, i8, KC, VC>) -> VectorMapping<K, i8, KC, Vec<i8>> {
        arbitrary()
    }
}

/// `s - &mapping` applies `s - v` to every value.
impl<'a, K: KeyDomain, KC: KeyContainer<K>, VC: ValueContainer<i8>> Sub<&'a VectorMapping<K, i8, KC, VC>> for i8 {
    type Output = VectorMapping<K, i8, KC, Vec<i8>>;

    fn sub(self, rhs: &'a VectorMapping<K, i8, KC, VC>) -> (r: VectorMapping<K, i8, KC, Vec<i8>>)
        ensures
            r.wf(),
            r.keys_view() == rhs.keys_view(),
            r.fingerprint_view() == rhs.fingerprint_view(),
            r.values_view() == scalar_with(ArithOp::Sub, self, rhs.values_view()),
    {
        rhs.scalar_op_first::<VectorSub>(self)
    }
}

impl<'a, K: KeyDomain, KC: KeyContainer<K>, VC: ValueContainer<i8>> SubSpecImpl<&'a VectorMapping<K, i8, KC, VC>> for i8 {
    open spec fn obeys_sub_spec() -> bool {
        false
    }

    open spec fn sub_req(self, rhs: &'a VectorMapping<K, i8, KC, VC>) -> bool {
        rhs.wf()
    }

    open spec fn sub_spec(self, rhs: &'a VectorMapping<K, i8, KC, VC>) -> VectorMapping<K, i8, KC, Vec<i8>> {
        arbitrary()
    }
}

/// `s * &mapping` applies `s * v` to every value.
impl<'a, K: KeyDomain, KC: KeyContainer<K>, VC: ValueContainer<i8>> Mul<&'a VectorMapping<K, i8, KC, VC>> for i8 {
    type Output = VectorMapping<K, i8, KC, Vec<i8>>;

    fn mul(self, rhs: &'a VectorMapping<K, i8, KC, VC>) -> (r: VectorMapping<K, i8, KC, Vec<i8>>)
        ensures
            r.wf(),
            r.keys_view() == rhs.keys_view(),
            r.fingerprint_view() == rhs.fingerprint_view(),
            r.values_view() == scalar_with(ArithOp::Mul, self, rhs.values_view()),
    {
        rhs.scalar_op_first::<VectorMul>(self)
    }
}

impl<'a, K: KeyDomain, KC: KeyContainer<K>, VC: ValueContainer<i8>> MulSpecImpl<&'a VectorMapping<K, i8, KC, VC>> for i8 {
    open spec fn obeys_mul_spec() -> bool {
        false
    }

    open spec fn mul_req(self, rhs: &'a VectorMapping<K, i8, KC, VC>) -> bool {
        rhs.wf()
    }

    open spec fn mul_spec(self, rhs: &'a VectorMapping<K, i8, KC, VC>) -> VectorMapping<K, i8, KC, Vec<i8>> {
        arbitrary()
    }
}

/// `s / &mapping` applies `s / v` to every value.
impl<'a, K: KeyDomain, KC: KeyContainer<K>, VC: ValueContainer<i8>> Div<&'a VectorMapping<K, i8, KC, VC>> for i8 {
    type Output = VectorMapping<K, i8, KC, Vec<i8>>;

    fn div(self, rhs: &'a VectorMapping<K, i8, KC, VC>) -> (r: VectorMapping<K, i8, KC, Vec<i8>>)
        ensures
            r.wf(),
            r.keys_view() == rhs.keys_view(),
            r.fingerprint_view() == rhs.fingerprint_view(),
            r.values_view() == scalar_with(ArithOp::Div, self, rhs.values_view()),
    {
        rhs.scalar_op_first::<VectorDiv>(self)
    }
}

impl<'a, K: KeyDomain, KC: KeyContainer<K>, VC: ValueContainer<i8>> DivSpecImpl<&'a VectorMapping<K, i8, KC, VC>> for i8 {
    open spec fn obeys_div_spec() -> bool {
        false
    }

    open spec fn div_req(self, rhs: &'a VectorMapping<K, i8, KC, VC>) -> bool {
        rhs.wf()
            && scalar_with_defined(ArithOp::Div, self, rhs.values_view())
    }

    open spec fn div_spec(self, rhs: &'a VectorMapping<K, i8, KC, VC>) -> VectorMapping<K, i8, KC, Vec<i8>> {
        arbitrary()
    }
}

/// `s + &mapping` applies `s + v` to every value.
impl<'a, K: KeyDomain, KC: KeyContainer<K>, VC: ValueContainer<i16>> Add<&'a VectorMapping<K, i16, KC, VC>> for i16 {
    type Output = VectorMapping<K, i16, KC, Vec<i16>>;

    fn add(self, rhs: &'a VectorMapping<K, i16, KC, VC>) -> (r: VectorMapping<K, i16, KC, Vec<i16>>)
        ensures
            r.wf(),
            r.keys_view() == rhs.keys_view(),
            r.fingerprint_view() == rhs.fingerprint_view(),
            r.values_view() == scalar_with(ArithOp::Add, self, rhs.values_view()),
    {
        rhs.scalar_op_first::<VectorAdd>(self)
    }
}

impl<'a, K: KeyDomain, KC: KeyContainer<K>, VC: ValueContainer<i16>> AddSpecImpl<&'a VectorMapping<K, i16, KC, VC>> for i16 {
    open spec fn obeys_add_spec() -> bool {
        false
    }

    open spec fn add_req(self, rhs: &'a VectorMapping<K, i16, KC, VC>) -> bool {
        rhs.wf()
    }

    open spec fn add_spec(self, rhs: &'a VectorMapping<K, i16, KC, VC>) -> VectorMapping<K, i16, KC, Vec<i16>> {
        arbitrary()
    }
}

/// `s - &mapping` applies `s - v` to every value.
impl<'a, K: KeyDomain, KC: KeyContainer<K>, VC: ValueContainer<i16>> Sub<&'a VectorMapping<K, i16, KC, VC>> for i16 {
    type Output = VectorMapping<K, i16, KC, Vec<i16>>;

    fn sub(self, rhs: &'a VectorMapping<K, i16, KC, VC>) -> (r: VectorMapping<K, i16, KC, Vec<i16>>)
        ensures
            r.wf(),
            r.keys_view() == rhs.keys_view(),
            r.fingerprint_view() == rhs.fingerprint_view(),
            r.values_view() == scalar_with(ArithOp::Sub, self, rhs.values_view()),
    {
        rhs.scalar_op_first::<VectorSub>(self)
    }
}

impl<'a, K: KeyDomain, KC: KeyContainer<K>, VC: ValueContainer<i16>> SubSpecImpl<&'a VectorMapping<K, i16, KC, VC>> for i16 {
    open spec fn obeys_sub_spec() -> bool {
        false
    }

    open spec fn sub_req(self, rhs: &'a VectorMapping<K, i16, KC, VC>) -> bool {
        rhs.wf()
    }

    open spec fn sub_spec(self, rhs: &'a VectorMapping<K, i16, KC, VC>) -> VectorMapping<K, i16, KC, Vec<i16>> {
        arbitrary()
    }
}

/// `s * &mapping` applies `s * v` to every value.
impl<'a, K: KeyDomain, KC: KeyContainer<K>, VC: ValueContainer<i16>> Mul<&'a VectorMapping<K, i16, KC, VC>> for i16 {
    type Output = VectorMapping<K, i16, KC, Vec<i16>>;

    fn mul(self, rhs: &'a VectorMapping<K, i16, KC, VC>) -> (r: VectorMapping<K, i16, KC, Vec<i16>>)
        ensures
            r.wf(),
            r.keys_view() == rhs.keys_view(),
            r.fingerprint_view() == rhs.fingerprint_view(),
            r.values_view() == scalar_with(ArithOp::Mul, self, rhs.values_view()),
    {
        rhs.scalar_op_first::<VectorMul>(self)
    }
}

impl<'a, K: KeyDomain, KC: KeyContainer<K>, VC: ValueContainer<i16>> MulSpecImpl<&'a VectorMapping<K, i16, KC, VC>> for i16 {
    open spec fn obeys_mul_spec() -> bool {
        false
    }

    open spec fn mul_req(self, rhs: &'a VectorMapping<K, i16, KC, VC>) -> bool {
        rhs.wf()
    }

    open spec fn mul_spec(self, rhs: &'a VectorMapping<K, i16, KC, VC>) -> VectorMapping<K, i16, KC, Vec<i16>> {
        arbitrary()
    }
}

/// `s / &mapping` applies `s / v` to every value.
impl<'a, K: KeyDomain, KC: KeyContainer<K>, VC: ValueContainer<i16>> Div<&'a VectorMapping<K, i16, KC, VC>> for i16 {
    type Output = VectorMapping<K, i16, KC, Vec<i16>>;

    fn div(self, rhs: &'a VectorMapping<K, i16, KC, VC>) -> (r: VectorMapping<K, i16, KC, Vec<i16>>)
        ensures
            r.wf(),
            r.keys_view() == rhs.keys_view(),
            r.fingerprint_view() == rhs.fingerprint_view(),
            r.values_view() == scalar_with(ArithOp::Div, self, rhs.values_view()),
    {
        rhs.scalar_op_first::<VectorDiv>(self)
    }
}

impl<'a, K: KeyDomain, KC: KeyContainer<K>, VC: ValueContainer<i16>> DivSpecImpl<&'a VectorMapping<K, i16, KC, VC>> for i16 {
    open spec fn obeys_div_spec() -> bool {
        false
    }

    open spec fn div_req(self, rhs: &'a VectorMapping<K, i16, KC, VC>) -> bool {
        rhs.wf()
            && scalar_with_defined(ArithOp::Div, self, rhs.values_view())
    }

    open spec fn div_spec(self, rhs: &'a VectorMapping<K, i16, KC, VC>) -> VectorMapping<K, i16, KC, Vec<i16>> {
        arbitrary()
    }
}

/// `s + &mapping` applies `s + v` to every value.
impl<'a, K: KeyDomain, KC: KeyContainer<K>, VC: ValueContainer<i32>> Add<&'a VectorMapping<K, i32, KC, VC>> for i32 {
    type Output = VectorMapping<K, i32, KC, Vec<i32>>;

    fn add(self, rhs: &'a VectorMapping<K, i32, KC, VC>) -> (r: VectorMapping<K, i32, KC, Vec<i32>>)
        ensures
            r.wf(),
            r.keys_view() == rhs.keys_view(),
            r.fingerprint_view() == rhs.fingerprint_view(),
            r.values_view() == scalar_with(ArithOp::Add, self, rhs.values_view()),
    {
        rhs.scalar_op_first::<VectorAdd>(self)
    }
}

impl<'a, K: KeyDomain, KC: KeyContainer<K>, VC: ValueContainer<i32>> AddSpecImpl<&'a VectorMapping<K, i32, KC, VC>> for i32 {
    open spec fn obeys_add_spec() -> bool {
        false
    }

    open spec fn add_req(self, rhs: &'a VectorMapping<K, i32, KC, VC>) -> bool {
        rhs.wf()
    }

    open spec fn add_spec(self, rhs: &'a VectorMapping<K, i32, KC, VC>) -> VectorMapping<K, i32, KC, Vec<i32>> {
        arbitrary()
    }
}

/// `s - &mapping` applies `s - v` to every value.
impl<'a, K: KeyDomain, KC: KeyContainer<K>, VC: ValueContainer<i32>> Sub<&'a VectorMapping<K, i32, KC, VC>> for i32 {
    type Output = VectorMapping<K, i32, KC, Vec<i32>>;

    fn sub(self, rhs: &'a VectorMapping<K, i32, KC, VC>) -> (r: VectorMapping<K, i32, KC, Vec<i32>>)
        ensures
            r.wf(),
            r.keys_view() == rhs.keys_view(),
            r.fingerprint_view() == rhs.fingerprint_view(),
            r.values_view() == scalar_with(ArithOp::Sub, self, rhs.values_view()),
    {
        rhs.scalar_op_first::<VectorSub>(self)
    }
}

impl<'a, K: KeyDomain, KC: KeyContainer<K>, VC: ValueContainer<i32>> SubSpecImpl<&'a VectorMapping<K, i32, KC, VC>> for i32 {
    open spec fn obeys_sub_spec() -> bool {
        false
    }

    open spec fn sub_req(self, rhs: &'a VectorMapping<K, i32, KC, VC>) -> bool {
        rhs.wf()
    }

    open spec fn sub_spec(self, rhs: &'a VectorMapping<K, i32, KC, VC>) -> VectorMapping<K, i32, KC, Vec<i32>> {
        arbitrary()
    }
}

/// `s * &mapping` applies `s * v` to every value.
impl<'a, K: KeyDomain, KC: KeyContainer<K>, VC: ValueContainer<i32>> Mul<&'a VectorMapping<K, i32, KC, VC>> for i32 {
    type Output = VectorMapping<K, i32, KC, Vec<i32>>;

    fn mul(self, rhs: &'a VectorMapping<K, i32, KC, VC>) -> (r: VectorMapping<K, i32, KC, Vec<i32>>)
        ensures
            r.wf(),
            r.keys_view() == rhs.keys_view(),
            r.fingerprint_view() == rhs.fingerprint_view(),
            r.values_view() == scalar_with(ArithOp::Mul, self, rhs.values_view()),
    {
        rhs.scalar_op_first::<VectorMul>(self)
    }
}

impl<'a, K: KeyDomain, KC: KeyContainer<K>, VC: ValueContainer<i32>> MulSpecImpl<&'a VectorMapping<K, i32, KC, VC>> for i32 {
    open spec fn obeys_mul_spec() -> bool {
        false
    }

    open spec fn mul_req(self, rhs: &'a VectorMapping<K, i32, KC, VC>) -> bool {
        rhs.wf()
    }

    open spec fn mul_spec(self, rhs: &'a VectorMapping<K, i32, KC, VC>) -> VectorMapping<K, i32, KC, Vec<i32>> {
        arbitrary()
    }
}

/// `s / &mapping` applies `s / v` to every value.
impl<'a, K: KeyDomain, KC: KeyContainer<K>, VC: ValueContainer<i32>> Div<&'a VectorMapping<K, i32, KC, VC>> for i32 {
    type Output = VectorMapping<K, i32, KC, Vec<i32>>;

    fn div(self, rhs: &'a VectorMapping<K, i32, KC, VC>) -> (r: VectorMapping<K, i32, KC, Vec<i32>>)
        ensures
            r.wf(),
            r.keys_view() == rhs.keys_view(),
            r.fingerprint_view() == rhs.fingerprint_view(),
            r.values_view() == scalar_with(ArithOp::Div, self, rhs.values_view()),
    {
        rhs.scalar_op_first::<VectorDiv>(self)
    }
}

impl<'a, K: KeyDomain, KC: KeyContainer<K>, VC: ValueContainer<i32>> DivSpecImpl<&'a VectorMapping<K, i32, KC, VC>> for i32 {
    open spec fn obeys_div_spec() -> bool {
        false
    }

    open spec fn div_req(self, rhs: &'a VectorMapping<K, i32, KC, VC>) -> bool {
        rhs.wf()
            && scalar_with_defined(ArithOp::Div, self, rhs.values_view())
    }

    open spec fn div_spec(self, rhs: &'a VectorMapping<K, i32, KC, VC>) -> VectorMapping<K, i32, KC, Vec<i32>> {
        arbitrary()
    }
}

/// `s + &mapping` applies `s + v` to every value.
impl<'a, K: KeyDomain, KC: KeyContainer<K>, VC: ValueContainer<i64>> Add<&'a VectorMapping<K, i64, KC, VC>> for i64 {
    type Output = VectorMapping<K, i64, KC, Vec<i64>>;

    fn add(self, rhs: &'a VectorMapping<K, i64, KC, VC>) -> (r: VectorMapping<K, i64, KC, Vec<i64>>)
        ensures
            r.wf(),
            r.keys_view() == rhs.keys_view(),
            r.fingerprint_view() == rhs.fingerprint_view(),
            r.values_view() == scalar_with(ArithOp::Add, self, rhs.values_view()),
    {
        rhs.scalar_op_first::<VectorAdd>(self)
    }
}

impl<'a, K: KeyDomain, KC: KeyContainer<K>, VC: ValueContainer<i64>> AddSpecImpl<&'a VectorMapping<K, i64, KC, VC>> for i64 {
    open spec fn obeys_add_spec() -> bool {
        false
    }

    open spec fn add_req(self, rhs: &'a VectorMapping<K, i64, KC, VC>) -> bool {
        rhs.wf()
    }

    open spec fn add_spec(self, rhs: &'a VectorMapping<K, i64, KC, VC>) -> VectorMapping<K, i64, KC, Vec<i64>> {
        arbitrary()
    }
}

/// `s - &mapping` applies `s - v` to every value.
impl<'a, K: KeyDomain, KC: KeyContainer<K>, VC: ValueContainer<i64>> Sub<&'a VectorMapping<K, i64, KC, VC>> for i64 {
    type Output = VectorMapping<K, i64, KC, Vec<i64>>;

    fn sub(self, rhs: &'a VectorMapping<K, i64, KC, VC>) -> (r: VectorMapping<K, i64, KC, Vec<i64>>)
        ensures
            r.wf(),
            r.keys_view() == rhs.keys_view(),
            r.fingerprint_view() == rhs.fingerprint_view(),
            r.values_view() == scalar_with(ArithOp::Sub, self, rhs.values_view()),
    {
        rhs.scalar_op_first::<VectorSub>(self)
    }
}

impl<'a, K: KeyDomain, KC: KeyContainer<K>, VC: ValueContainer<i64>> SubSpecImpl<&'a VectorMapping<K, i64, KC, VC>> for i64 {
    open spec fn obeys_sub_spec() -> bool {
        false
    }

    open spec fn sub_req(self, rhs: &'a VectorMapping<K, i64, KC, VC>) -> bool {
        rhs.wf()
    }

    open spec fn sub_spec(self, rhs: &'a VectorMapping<K, i64, KC, VC>) -> VectorMapping<K, i64, KC, Vec<i64>> {
        arbitrary()
    }
}

/// `s * &mapping` applies `s * v` to every value.
impl<'a, K: KeyDomain, KC: KeyContainer<K>, VC: ValueContainer<i64>> Mul<&'a VectorMapping<K, i64, KC, VC>> for i64 {
    type Output = VectorMapping<K, i64, KC, Vec<i64>>;

    fn mul(self, rhs: &'a VectorMapping<K, i64, KC, VC>) -> (r: VectorMapping<K, i64, KC, Vec<i64>>)
        ensures
            r.wf(),
            r.keys_view() == rhs.keys_view(),
            r.fingerprint_view() == rhs.fingerprint_view(),
            r.values_view() == scalar_with(ArithOp::Mul, self, rhs.values_view()),
    {
        rhs.scalar_op_first::<VectorMul>(self)
    }
}

impl<'a, K: KeyDomain, KC: KeyContainer<K>, VC: ValueContainer<i64>> MulSpecImpl<&'a VectorMapping<K, i64, KC, VC>> for i64 {
    open spec fn obeys_mul_spec() -> bool {
        false
    }

    open spec fn mul_req(self, rhs: &'a VectorMapping<K, i64, KC, VC>) -> bool {
        rhs.wf()
    }

    open spec fn mul_spec(self, rhs: &'a VectorMapping<K, i64, KC, VC>) -> VectorMapping<K, i64, KC, Vec<i64>> {
        arbitrary()
    }
}

/// `s / &mapping` applies `s / v` to every value.
impl<'a, K: KeyDomain, KC: KeyContainer<K>, VC: ValueContainer<i64>> Div<&'a VectorMapping<K, i64, KC, VC>> for i64 {
    type Output = VectorMapping<K, i64, KC, Vec<i64>>;

    fn div(self, rhs: &'a VectorMapping<K, i64, KC, VC>) -> (r: VectorMapping<K, i64, KC, Vec<i64>>)
        ensures
            r.wf(),
            r.keys_view() == rhs.keys_view(),
            r.fingerprint_view() == rhs.fingerprint_view(),
            r.values_view() == scalar_with(ArithOp::Div, self, rhs.values_view()),
    {
        rhs.scalar_op_first::<VectorDiv>(self)
    }
}

impl<'a, K: KeyDomain, KC: KeyContainer<K>, VC: ValueContainer<i64>> DivSpecImpl<&'a VectorMapping<K, i64, KC, VC>> for i64 {
    open spec fn obeys_div_spec() -> bool {
        false
    }

    open spec fn div_req(self, rhs: &'a VectorMapping<K, i64, KC, VC>) -> bool {
        rhs.wf()
            && scalar_with_defined(ArithOp::Div, self, rhs.values_view())
    }

    open spec fn div_spec(self, rhs: &'a VectorMapping<K, i64, KC, VC>) -> VectorMapping<K, i64, KC, Vec<i64>> {
        arbitrary()
    }
}

} // verus!
