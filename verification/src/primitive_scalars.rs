use vstd::prelude::*;

use crate::vector_ops::Scalar;

verus! {

// Integer scalars: addition, subtraction and multiplication wrap around on
// overflow; division is defined when the divisor is not zero and the quotient
// fits in the type.

impl Scalar for u8 {
    open spec fn spec_add(self, rhs: u8) -> u8 {
        self.wrapping_add(rhs)
    }

    open spec fn spec_sub(self, rhs: u8) -> u8 {
        self.wrapping_sub(rhs)
    }

    open spec fn spec_mul(self, rhs: u8) -> u8 {
        self.wrapping_mul(rhs)
    }

    open spec fn spec_div(self, rhs: u8) -> u8 {
        self / rhs
    }

    open spec fn div_defined(self, rhs: u8) -> bool {
        rhs != 0
    }

    fn scalar_add(self, rhs: u8) -> (r: u8) {
        self.wrapping_add(rhs)
    }

    fn scalar_sub(self, rhs: u8) -> (r: u8) {
        self.wrapping_sub(rhs)
    }

    fn scalar_mul(self, rhs: u8) -> (r: u8) {
        self.wrapping_mul(rhs)
    }

    fn scalar_div(self, rhs: u8) -> (r: u8) {
        self / rhs
    }
}

impl Scalar for u16 {
    open spec fn spec_add(self, rhs: u16) -> u16 {
        self.wrapping_add(rhs)
    }

    open spec fn spec_sub(self, rhs: u16) -> u16 {
        self.wrapping_sub(rhs)
    }

    open spec fn spec_mul(self, rhs: u16) -> u16 {
        self.wrapping_mul(rhs)
    }

    open spec fn spec_div(self, rhs: u16) -> u16 {
        self / rhs
    }

    open spec fn div_defined(self, rhs: u16) -> bool {
        rhs != 0
    }

    fn scalar_add(self, rhs: u16) -> (r: u16) {
        self.wrapping_add(rhs)
    }

    fn scalar_sub(self, rhs: u16) -> (r: u16) {
        self.wrapping_sub(rhs)
    }

    fn scalar_mul(self, rhs: u16) -> (r: u16) {
        self.wrapping_mul(rhs)
    }

    fn scalar_div(self, rhs: u16) -> (r: u16) {
        self / rhs
    }
}

impl Scalar for u32 {
    open spec fn spec_add(self, rhs: u32) -> u32 {
        self.wrapping_add(rhs)
    }

    open spec fn spec_sub(self, rhs: u32) -> u32 {
        self.wrapping_sub(rhs)
    }

    open spec fn spec_mul(self, rhs: u32) -> u32 {
        self.wrapping_mul(rhs)
    }

    open spec fn spec_div(self, rhs: u32) -> u32 {
        self / rhs
    }

    open spec fn div_defined(self, rhs: u32) -> bool {
        rhs != 0
    }

    fn scalar_add(self, rhs: u32) -> (r: u32) {
        self.wrapping_add(rhs)
    }

    fn scalar_sub(self, rhs: u32) -> (r: u32) {
        self.wrapping_sub(rhs)
    }

    fn scalar_mul(self, rhs: u32) -> (r: u32) {
        self.wrapping_mul(rhs)
    }

    fn scalar_div(self, rhs: u32) -> (r: u32) {
        self / rhs
    }
}

impl Scalar for u64 {
    open spec fn spec_add(self, rhs: u64) -> u64 {
        self.wrapping_add(rhs)
    }

    open spec fn spec_sub(self, rhs: u64) -> u64 {
        self.wrapping_sub(rhs)
    }

    open spec fn spec_mul(self, rhs: u64) -> u64 {
        self.wrapping_mul(rhs)
    }

    open spec fn spec_div(self, rhs: u64) -> u64 {
        self / rhs
    }

    open spec fn div_defined(self, rhs: u64) -> bool {
        rhs != 0
    }

    fn scalar_add(self, rhs: u64) -> (r: u64) {
        self.wrapping_add(rhs)
    }

    fn scalar_sub(self, rhs: u64) -> (r: u64) {
        self.wrapping_sub(rhs)
    }

    fn scalar_mul(self, rhs: u64) -> (r: u64) {
        self.wrapping_mul(rhs)
    }

    fn scalar_div(self, rhs: u64) -> (r: u64) {
        self / rhs
    }
}

impl Scalar for i8 {
    open spec fn spec_add(self, rhs: i8) -> i8 {
        self.wrapping_add(rhs)
    }

    open spec fn spec_sub(self, rhs: i8) -> i8 {
        self.wrapping_sub(rhs)
    }

    open spec fn spec_mul(self, rhs: i8) -> i8 {
        self.wrapping_mul(rhs)
    }

    open spec fn spec_div(self, rhs: i8) -> i8 {
        match self.checked_div(rhs) {
            Some(q) => q,
            None => 0,
        }
    }

    open spec fn div_defined(self, rhs: i8) -> bool {
        self.checked_div(rhs) is Some
    }

    fn scalar_add(self, rhs: i8) -> (r: i8) {
        self.wrapping_add(rhs)
    }

    fn scalar_sub(self, rhs: i8) -> (r: i8) {
        self.wrapping_sub(rhs)
    }

    fn scalar_mul(self, rhs: i8) -> (r: i8) {
        self.wrapping_mul(rhs)
    }

    fn scalar_div(self, rhs: i8) -> (r: i8) {
        match self.checked_div(rhs) {
            Some(q) => q,
            None => 0,
        }
    }
}

impl Scalar for i16 {
    open spec fn spec_add(self, rhs: i16) -> i16 {
        self.wrapping_add(rhs)
    }

    open spec fn spec_sub(self, rhs: i16) -> i16 {
        self.wrapping_sub(rhs)
    }

    open spec fn spec_mul(self, rhs: i16) -> i16 {
        self.wrapping_mul(rhs)
    }

    open spec fn spec_div(self, rhs: i16) -> i16 {
        match self.checked_div(rhs) {
            Some(q) => q,
            None => 0,
        }
    }

    open spec fn div_defined(self, rhs: i16) -> bool {
        self.checked_div(rhs) is Some
    }

    fn scalar_add(self, rhs: i16) -> (r: i16) {
        self.wrapping_add(rhs)
    }

    fn scalar_sub(self, rhs: i16) -> (r: i16) {
        self.wrapping_sub(rhs)
    }

    fn scalar_mul(self, rhs: i16) -> (r: i16) {
        self.wrapping_mul(rhs)
    }

    fn scalar_div(self, rhs: i16) -> (r: i16) {
        match self.checked_div(rhs) {
            Some(q) => q,
            None => 0,
        }
    }
}

impl Scalar for i32 {
    open spec fn spec_add(self, rhs: i32) -> i32 {
        self.wrapping_add(rhs)
    }

    open spec fn spec_sub(self, rhs: i32) -> i32 {
        self.wrapping_sub(rhs)
    }

    open spec fn spec_mul(self, rhs: i32) -> i32 {
        self.wrapping_mul(rhs)
    }

    open spec fn spec_div(self, rhs: i32) -> i32 {
        match self.checked_div(rhs) {
            Some(q) => q,
            None => 0,
        }
    }

    open spec fn div_defined(self, rhs: i32) -> bool {
        self.checked_div(rhs) is Some
    }

    fn scalar_add(self, rhs: i32) -> (r: i32) {
        self.wrapping_add(rhs)
    }

    fn scalar_sub(self, rhs: i32) -> (r: i32) {
        self.wrapping_sub(rhs)
    }

    fn scalar_mul(self, rhs: i32) -> (r: i32) {
        self.wrapping_mul(rhs)
    }

    fn scalar_div(self, rhs: i32) -> (r: i32) {
        match self.checked_div(rhs) {
            Some(q) => q,
            None => 0,
        }
    }
}

impl Scalar for i64 {
    open spec fn spec_add(self, rhs: i64) -> i64 {
        self.wrapping_add(rhs)
    }

    open spec fn spec_sub(self, rhs: i64) -> i64 {
        self.wrapping_sub(rhs)
    }

    open spec fn spec_mul(self, rhs: i64) -> i64 {
        self.wrapping_mul(rhs)
    }

    open spec fn spec_div(self, rhs: i64) -> i64 {
        match self.checked_div(rhs) {
            Some(q) => q,
            None => 0,
        }
    }

    open spec fn div_defined(self, rhs: i64) -> bool {
        self.checked_div(rhs) is Some
    }

    fn scalar_add(self, rhs: i64) -> (r: i64) {
        self.wrapping_add(rhs)
    }

    fn scalar_sub(self, rhs: i64) -> (r: i64) {
        self.wrapping_sub(rhs)
    }

    fn scalar_mul(self, rhs: i64) -> (r: i64) {
        self.wrapping_mul(rhs)
    }

    fn scalar_div(self, rhs: i64) -> (r: i64) {
        match self.checked_div(rhs) {
            Some(q) => q,
            None => 0,
        }
    }
}

} // verus!
