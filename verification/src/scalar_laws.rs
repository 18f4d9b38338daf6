//! What the integer value types compute, stated over the integers: `+`,
//! `-` and `*` are the mathematical results modulo 2^N, and `/` is the
//! quotient rounded towards zero.

use vstd::arithmetic::div_mod::{lemma_fundamental_div_mod, lemma_mod_multiples_basic, lemma_mod_pos_bound};
use vstd::prelude::*;

use crate::vector_ops::{scalar_op, ArithOp, Scalar};

verus! {

/// `r` differs from `p` by a multiple of `m` when it is `p mod m` or that
/// minus `m`.
proof fn lemma_wrapped_product(p: int, r: int, m: int)
    requires
        m > 0,
        r == p % m || r == p % m - m,
    ensures
        (p - r) % m == 0,
{
    lemma_fundamental_div_mod(p, m);
    let q = p / m;
    if r == p % m {
        assert(p - r == q * m) by (nonlinear_arith)
            requires
                p == m * q + p % m,
                r == p % m,
        ;
        lemma_mod_multiples_basic(q, m);
    } else {
        assert(p - r == (q + 1) * m) by (nonlinear_arith)
            requires
                p == m * q + p % m,
                r == p % m - m,
        ;
        lemma_mod_multiples_basic(q + 1, m);
    }
}

/// The quotient of `x` by `d` rounded towards zero leaves a remainder
/// smaller than `d` in size and with the sign of `x`.
proof fn lemma_truncated_quotient(x: int, d: int, q: int)
    requires
        d != 0,
        q == (if x == 0 {
            0
        } else if x > 0 && d > 0 {
            x / d
        } else if x < 0 && d < 0 {
            (x * -1) / (d * -1)
        } else if x < 0 {
            ((x * -1) / d) * -1
        } else {
            (x / (d * -1)) * -1
        }),
    ensures
        ({
            let rem = x - q * d;
            &&& rem == 0 || (rem > 0) == (x > 0)
            &&& (if rem < 0 {
                -rem
            } else {
                rem
            }) < (if d < 0 {
                -d
            } else {
                d
            })
        }),
        (if q < 0 {
            -q
        } else {
            q
        }) * (if d < 0 {
            -d
        } else {
            d
        }) <= (if x < 0 {
            -x
        } else {
            x
        }),
        d == 1 ==> q == x,
        d == -1 ==> q == -x,
{
    let a = if x < 0 {
        -x
    } else {
        x
    };
    let b = if d < 0 {
        -d
    } else {
        d
    };
    if x != 0 {
        lemma_fundamental_div_mod(a, b);
        lemma_mod_pos_bound(a, b);
        let k = a / b;
        assert(k * b <= a && (b == 1 ==> k == a)) by (nonlinear_arith)
            requires
                a == b * k + a % b,
                0 <= a % b < b,
        ;
        if x > 0 && d > 0 {
            assert(x - q * d == a % b) by (nonlinear_arith)
                requires
                    a == b * k + a % b,
                    q == k,
                    x == a,
                    d == b,
            ;
        } else if x < 0 && d < 0 {
            assert(x - q * d == -(a % b)) by (nonlinear_arith)
                requires
                    a == b * k + a % b,
                    q == k,
                    x == -a,
                    d == -b,
            ;
        } else if x < 0 {
            assert(x - q * d == -(a % b)) by (nonlinear_arith)
                requires
                    a == b * k + a % b,
                    q == -k,
                    x == -a,
                    d == b,
            ;
        } else {
            assert(x - q * d == a % b) by (nonlinear_arith)
                requires
                    a == b * k + a % b,
                    q == -k,
                    x == a,
                    d == -b,
            ;
        }
    }
}

/// `u8` arithmetic: `+` and `-` give the mathematical sum and difference up
/// to one wrap of 2^8, `*` gives the product up to a multiple of 2^8,
/// and `/` is the quotient rounded down: the largest `q` with `q * c <= x`.
/// Division is defined unless the divisor is zero.
pub proof fn law_u8_arithmetic(x: u8, c: u8)
    ensures
        (scalar_op(ArithOp::Add, x, c) as int) == (x as int) + (c as int) || (scalar_op(ArithOp::Add, x, c) as int)
            == (x as int) + (c as int) - 0x100 || (scalar_op(ArithOp::Add, x, c) as int) == (x as int) + (c as int) + 0x100,
        (scalar_op(ArithOp::Sub, x, c) as int) == (x as int) - (c as int) || (scalar_op(ArithOp::Sub, x, c) as int)
            == (x as int) - (c as int) - 0x100 || (scalar_op(ArithOp::Sub, x, c) as int) == (x as int) - (c as int) + 0x100,
        ((x as int) * (c as int) - (scalar_op(ArithOp::Mul, x, c) as int)) % 0x100 == 0,
        x.div_defined(c) <==> c != 0,
        c != 0 ==> (scalar_op(ArithOp::Div, x, c) as int) * (c as int) <= (x as int)
            < (scalar_op(ArithOp::Div, x, c) as int) * (c as int) + (c as int),
{
    let p = (x as int) * (c as int);
    lemma_wrapped_product(p, (scalar_op(ArithOp::Mul, x, c) as int), 0x100);
    if c != 0 {
        lemma_fundamental_div_mod(x as int, (c as int));
        lemma_mod_pos_bound(x as int, (c as int));
        let q = (scalar_op(ArithOp::Div, x, c) as int);
        let xi = (x as int);
        let ci = (c as int);
        assert(q * ci <= xi < q * ci + ci) by (nonlinear_arith)
            requires
                xi == ci * q + xi % ci,
                0 <= xi % ci < ci,
        ;
    }
}

/// `u16` arithmetic: `+` and `-` give the mathematical sum and difference up
/// to one wrap of 2^16, `*` gives the product up to a multiple of 2^16,
/// and `/` is the quotient rounded down: the largest `q` with `q * c <= x`.
/// Division is defined unless the divisor is zero.
pub proof fn law_u16_arithmetic(x: u16, c: u16)
    ensures
        (scalar_op(ArithOp::Add, x, c) as int) == (x as int) + (c as int) || (scalar_op(ArithOp::Add, x, c) as int)
            == (x as int) + (c as int) - 0x10000 || (scalar_op(ArithOp::Add, x, c) as int) == (x as int) + (c as int) + 0x10000,
        (scalar_op(ArithOp::Sub, x, c) as int) == (x as int) - (c as int) || (scalar_op(ArithOp::Sub, x, c) as int)
            == (x as int) - (c as int) - 0x10000 || (scalar_op(ArithOp::Sub, x, c) as int) == (x as int) - (c as int) + 0x10000,
        ((x as int) * (c as int) - (scalar_op(ArithOp::Mul, x, c) as int)) % 0x10000 == 0,
        x.div_defined(c) <==> c != 0,
        c != 0 ==> (scalar_op(ArithOp::Div, x, c) as int) * (c as int) <= (x as int)
            < (scalar_op(ArithOp::Div, x, c) as int) * (c as int) + (c as int),
{
    let p = (x as int) * (c as int);
    lemma_wrapped_product(p, (scalar_op(ArithOp::Mul, x, c) as int), 0x10000);
    if c != 0 {
        lemma_fundamental_div_mod(x as int, (c as int));
        lemma_mod_pos_bound(x as int, (c as int));
        let q = (scalar_op(ArithOp::Div, x, c) as int);
        let xi = (x as int);
        let ci = (c as int);
        assert(q * ci <= xi < q * ci + ci) by (nonlinear_arith)
            requires
                xi == ci * q + xi % ci,
                0 <= xi % ci < ci,
        ;
    }
}

/// `u32` arithmetic: `+` and `-` give the mathematical sum and difference up
/// to one wrap of 2^32, `*` gives the product up to a multiple of 2^32,
/// and `/` is the quotient rounded down: the largest `q` with `q * c <= x`.
/// Division is defined unless the divisor is zero.
pub proof fn law_u32_arithmetic(x: u32, c: u32)
    ensures
        (scalar_op(ArithOp::Add, x, c) as int) == (x as int) + (c as int) || (scalar_op(ArithOp::Add, x, c) as int)
            == (x as int) + (c as int) - 0x100000000 || (scalar_op(ArithOp::Add, x, c) as int) == (x as int) + (c as int) + 0x100000000,
        (scalar_op(ArithOp::Sub, x, c) as int) == (x as int) - (c as int) || (scalar_op(ArithOp::Sub, x, c) as int)
            == (x as int) - (c as int) - 0x100000000 || (scalar_op(ArithOp::Sub, x, c) as int) == (x as int) - (c as int) + 0x100000000,
        ((x as int) * (c as int) - (scalar_op(ArithOp::Mul, x, c) as int)) % 0x100000000 == 0,
        x.div_defined(c) <==> c != 0,
        c != 0 ==> (scalar_op(ArithOp::Div, x, c) as int) * (c as int) <= (x as int)
            < (scalar_op(ArithOp::Div, x, c) as int) * (c as int) + (c as int),
{
    let p = (x as int) * (c as int);
    lemma_wrapped_product(p, (scalar_op(ArithOp::Mul, x, c) as int), 0x100000000);
    if c != 0 {
        lemma_fundamental_div_mod(x as int, (c as int));
        lemma_mod_pos_bound(x as int, (c as int));
        let q = (scalar_op(ArithOp::Div, x, c) as int);
        let xi = (x as int);
        let ci = (c as int);
        assert(q * ci <= xi < q * ci + ci) by (nonlinear_arith)
            requires
                xi == ci * q + xi % ci,
                0 <= xi % ci < ci,
        ;
    }
}

/// `u64` arithmetic: `+` and `-` give the mathematical sum and difference up
/// to one wrap of 2^64, `*` gives the product up to a multiple of 2^64,
/// and `/` is the quotient rounded down: the largest `q` with `q * c <= x`.
/// Division is defined unless the divisor is zero.
pub proof fn law_u64_arithmetic(x: u64, c: u64)
    ensures
        (scalar_op(ArithOp::Add, x, c) as int) == (x as int) + (c as int) || (scalar_op(ArithOp::Add, x, c) as int)
            == (x as int) + (c as int) - 0x10000000000000000 || (scalar_op(ArithOp::Add, x, c) as int) == (x as int) + (c as int) + 0x10000000000000000,
        (scalar_op(ArithOp::Sub, x, c) as int) == (x as int) - (c as int) || (scalar_op(ArithOp::Sub, x, c) as int)
            == (x as int) - (c as int) - 0x10000000000000000 || (scalar_op(ArithOp::Sub, x, c) as int) == (x as int) - (c as int) + 0x10000000000000000,
        ((x as int) * (c as int) - (scalar_op(ArithOp::Mul, x, c) as int)) % 0x10000000000000000 == 0,
        x.div_defined(c) <==> c != 0,
        c != 0 ==> (scalar_op(ArithOp::Div, x, c) as int) * (c as int) <= (x as int)
            < (scalar_op(ArithOp::Div, x, c) as int) * (c as int) + (c as int),
{
    let p = (x as int) * (c as int);
    lemma_wrapped_product(p, (scalar_op(ArithOp::Mul, x, c) as int), 0x10000000000000000);
    if c != 0 {
        lemma_fundamental_div_mod(x as int, (c as int));
        lemma_mod_pos_bound(x as int, (c as int));
        let q = (scalar_op(ArithOp::Div, x, c) as int);
        let xi = (x as int);
        let ci = (c as int);
        assert(q * ci <= xi < q * ci + ci) by (nonlinear_arith)
            requires
                xi == ci * q + xi % ci,
                0 <= xi % ci < ci,
        ;
    }
}

/// `i8` arithmetic: `+` and `-` give the mathematical sum and difference up
/// to one wrap of 2^8, `*` gives the product up to a multiple of 2^8,
/// and `/` is the quotient rounded towards zero: its remainder is smaller
/// than the divisor in size and has the sign of the dividend. Division is
/// defined unless the divisor is zero or the quotient overflows.
pub proof fn law_i8_arithmetic(x: i8, c: i8)
    ensures
        (scalar_op(ArithOp::Add, x, c) as int) == (x as int) + (c as int) || (scalar_op(ArithOp::Add, x, c) as int)
            == (x as int) + (c as int) - 0x100 || (scalar_op(ArithOp::Add, x, c) as int) == (x as int) + (c as int) + 0x100,
        (scalar_op(ArithOp::Sub, x, c) as int) == (x as int) - (c as int) || (scalar_op(ArithOp::Sub, x, c) as int)
            == (x as int) - (c as int) - 0x100 || (scalar_op(ArithOp::Sub, x, c) as int) == (x as int) - (c as int) + 0x100,
        ((x as int) * (c as int) - (scalar_op(ArithOp::Mul, x, c) as int)) % 0x100 == 0,
        x.div_defined(c) <==> c != 0 && !(x == i8::MIN && c == -1),
        x.div_defined(c) ==> ({
            let rem = (x as int) - (scalar_op(ArithOp::Div, x, c) as int) * (c as int);
            &&& rem == 0 || (rem > 0) == (x > 0)
            &&& (if rem < 0 {
                -rem
            } else {
                rem
            }) < (if c < 0 {
                -(c as int)
            } else {
                (c as int)
            })
        }),
{
    let p = (x as int) * (c as int);
    lemma_wrapped_product(p, (scalar_op(ArithOp::Mul, x, c) as int), 0x100);
    if c != 0 {
        let x_i = (x as int);
        let c_i = (c as int);
        let q = if x_i == 0 {
            0
        } else if x_i > 0 && c_i > 0 {
            x_i / c_i
        } else if x_i < 0 && c_i < 0 {
            (x_i * -1) / (c_i * -1)
        } else if x_i < 0 {
            ((x_i * -1) / c_i) * -1
        } else {
            (x_i / (c_i * -1)) * -1
        };
        lemma_truncated_quotient(x_i, c_i, q);
        let aq = if q < 0 {
            -q
        } else {
            q
        };
        let ac = if c_i < 0 {
            -c_i
        } else {
            c_i
        };
        let ax = if x_i < 0 {
            -x_i
        } else {
            x_i
        };
        if c_i != 1 && c_i != -1 {
            assert(aq * 2 <= ax) by (nonlinear_arith)
                requires
                    aq * ac <= ax,
                    ac >= 2,
                    aq >= 0,
            ;
        }
        assert(x.div_defined(c) <==> !(x == i8::MIN && c == -1));
        if x.div_defined(c) {
            assert((scalar_op(ArithOp::Div, x, c) as int) == q);
        }
    }
}

/// `i16` arithmetic: `+` and `-` give the mathematical sum and difference up
/// to one wrap of 2^16, `*` gives the product up to a multiple of 2^16,
/// and `/` is the quotient rounded towards zero: its remainder is smaller
/// than the divisor in size and has the sign of the dividend. Division is
/// defined unless the divisor is zero or the quotient overflows.
pub proof fn law_i16_arithmetic(x: i16, c: i16)
    ensures
        (scalar_op(ArithOp::Add, x, c) as int) == (x as int) + (c as int) || (scalar_op(ArithOp::Add, x, c) as int)
            == (x as int) + (c as int) - 0x10000 || (scalar_op(ArithOp::Add, x, c) as int) == (x as int) + (c as int) + 0x10000,
        (scalar_op(ArithOp::Sub, x, c) as int) == (x as int) - (c as int) || (scalar_op(ArithOp::Sub, x, c) as int)
            == (x as int) - (c as int) - 0x10000 || (scalar_op(ArithOp::Sub, x, c) as int) == (x as int) - (c as int) + 0x10000,
        ((x as int) * (c as int) - (scalar_op(ArithOp::Mul, x, c) as int)) % 0x10000 == 0,
        x.div_defined(c) <==> c != 0 && !(x == i16::MIN && c == -1),
        x.div_defined(c) ==> ({
            let rem = (x as int) - (scalar_op(ArithOp::Div, x, c) as int) * (c as int);
            &&& rem == 0 || (rem > 0) == (x > 0)
            &&& (if rem < 0 {
                -rem
            } else {
                rem
            }) < (if c < 0 {
                -(c as int)
            } else {
                (c as int)
            })
        }),
{
    let p = (x as int) * (c as int);
    lemma_wrapped_product(p, (scalar_op(ArithOp::Mul, x, c) as int), 0x10000);
    if c != 0 {
        let x_i = (x as int);
        let c_i = (c as int);
        let q = if x_i == 0 {
            0
        } else if x_i > 0 && c_i > 0 {
            x_i / c_i
        } else if x_i < 0 && c_i < 0 {
            (x_i * -1) / (c_i * -1)
        } else if x_i < 0 {
            ((x_i * -1) / c_i) * -1
        } else {
            (x_i / (c_i * -1)) * -1
        };
        lemma_truncated_quotient(x_i, c_i, q);
        let aq = if q < 0 {
            -q
        } else {
            q
        };
        let ac = if c_i < 0 {
            -c_i
        } else {
            c_i
        };
        let ax = if x_i < 0 {
            -x_i
        } else {
            x_i
        };
        if c_i != 1 && c_i != -1 {
            assert(aq * 2 <= ax) by (nonlinear_arith)
                requires
                    aq * ac <= ax,
                    ac >= 2,
                    aq >= 0,
            ;
        }
        assert(x.div_defined(c) <==> !(x == i16::MIN && c == -1));
        if x.div_defined(c) {
            assert((scalar_op(ArithOp::Div, x, c) as int) == q);
        }
    }
}

/// `i32` arithmetic: `+` and `-` give the mathematical sum and difference up
/// to one wrap of 2^32, `*` gives the product up to a multiple of 2^32,
/// and `/` is the quotient rounded towards zero: its remainder is smaller
/// than the divisor in size and has the sign of the dividend. Division is
/// defined unless the divisor is zero or the quotient overflows.
pub proof fn law_i32_arithmetic(x: i32, c: i32)
    ensures
        (scalar_op(ArithOp::Add, x, c) as int) == (x as int) + (c as int) || (scalar_op(ArithOp::Add, x, c) as int)
            == (x as int) + (c as int) - 0x100000000 || (scalar_op(ArithOp::Add, x, c) as int) == (x as int) + (c as int) + 0x100000000,
        (scalar_op(ArithOp::Sub, x, c) as int) == (x as int) - (c as int) || (scalar_op(ArithOp::Sub, x, c) as int)
            == (x as int) - (c as int) - 0x100000000 || (scalar_op(ArithOp::Sub, x, c) as int) == (x as int) - (c as int) + 0x100000000,
        ((x as int) * (c as int) - (scalar_op(ArithOp::Mul, x, c) as int)) % 0x100000000 == 0,
        x.div_defined(c) <==> c != 0 && !(x == i32::MIN && c == -1),
        x.div_defined(c) ==> ({
            let rem = (x as int) - (scalar_op(ArithOp::Div, x, c) as int) * (c as int);
            &&& rem == 0 || (rem > 0) == (x > 0)
            &&& (if rem < 0 {
                -rem
            } else {
                rem
            }) < (if c < 0 {
                -(c as int)
            } else {
                (c as int)
            })
        }),
{
    let p = (x as int) * (c as int);
    lemma_wrapped_product(p, (scalar_op(ArithOp::Mul, x, c) as int), 0x100000000);
    if c != 0 {
        let x_i = (x as int);
        let c_i = (c as int);
        let q = if x_i == 0 {
            0
        } else if x_i > 0 && c_i > 0 {
            x_i / c_i
        } else if x_i < 0 && c_i < 0 {
            (x_i * -1) / (c_i * -1)
        } else if x_i < 0 {
            ((x_i * -1) / c_i) * -1
        } else {
            (x_i / (c_i * -1)) * -1
        };
        lemma_truncated_quotient(x_i, c_i, q);
        let aq = if q < 0 {
            -q
        } else {
            q
        };
        let ac = if c_i < 0 {
            -c_i
        } else {
            c_i
        };
        let ax = if x_i < 0 {
            -x_i
        } else {
            x_i
        };
        if c_i != 1 && c_i != -1 {
            assert(aq * 2 <= ax) by (nonlinear_arith)
                requires
                    aq * ac <= ax,
                    ac >= 2,
                    aq >= 0,
            ;
        }
        assert(x.div_defined(c) <==> !(x == i32::MIN && c == -1));
        if x.div_defined(c) {
            assert((scalar_op(ArithOp::Div, x, c) as int) == q);
        }
    }
}

/// `i64` arithmetic: `+` and `-` give the mathematical sum and difference up
/// to one wrap of 2^64, `*` gives the product up to a multiple of 2^64,
/// and `/` is the quotient rounded towards zero: its remainder is smaller
/// than the divisor in size and has the sign of the dividend. Division is
/// defined unless the divisor is zero or the quotient overflows.
pub proof fn law_i64_arithmetic(x: i64, c: i64)
    ensures
        (scalar_op(ArithOp::Add, x, c) as int) == (x as int) + (c as int) || (scalar_op(ArithOp::Add, x, c) as int)
            == (x as int) + (c as int) - 0x10000000000000000 || (scalar_op(ArithOp::Add, x, c) as int) == (x as int) + (c as int) + 0x10000000000000000,
        (scalar_op(ArithOp::Sub, x, c) as int) == (x as int) - (c as int) || (scalar_op(ArithOp::Sub, x, c) as int)
            == (x as int) - (c as int) - 0x10000000000000000 || (scalar_op(ArithOp::Sub, x, c) as int) == (x as int) - (c as int) + 0x10000000000000000,
        ((x as int) * (c as int) - (scalar_op(ArithOp::Mul, x, c) as int)) % 0x10000000000000000 == 0,
        x.div_defined(c) <==> c != 0 && !(x == i64::MIN && c == -1),
        x.div_defined(c) ==> ({
            let rem = (x as int) - (scalar_op(ArithOp::Div, x, c) as int) * (c as int);
            &&& rem == 0 || (rem > 0) == (x > 0)
            &&& (if rem < 0 {
                -rem
            } else {
                rem
            }) < (if c < 0 {
                -(c as int)
            } else {
                (c as int)
            })
        }),
{
    let p = (x as int) * (c as int);
    lemma_wrapped_product(p, (scalar_op(ArithOp::Mul, x, c) as int), 0x10000000000000000);
    if c != 0 {
        let x_i = (x as int);
        let c_i = (c as int);
        let q = if x_i == 0 {
            0
        } else if x_i > 0 && c_i > 0 {
            x_i / c_i
        } else if x_i < 0 && c_i < 0 {
            (x_i * -1) / (c_i * -1)
        } else if x_i < 0 {
            ((x_i * -1) / c_i) * -1
        } else {
            (x_i / (c_i * -1)) * -1
        };
        lemma_truncated_quotient(x_i, c_i, q);
        let aq = if q < 0 {
            -q
        } else {
            q
        };
        let ac = if c_i < 0 {
            -c_i
        } else {
            c_i
        };
        let ax = if x_i < 0 {
            -x_i
        } else {
            x_i
        };
        if c_i != 1 && c_i != -1 {
            assert(aq * 2 <= ax) by (nonlinear_arith)
                requires
                    aq * ac <= ax,
                    ac >= 2,
                    aq >= 0,
            ;
        }
        assert(x.div_defined(c) <==> !(x == i64::MIN && c == -1));
        if x.div_defined(c) {
            assert((scalar_op(ArithOp::Div, x, c) as int) == q);
        }
    }
}

} // verus!
