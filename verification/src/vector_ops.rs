use vstd::prelude::*;
use vstd::slice::slice_to_vec;

verus! {

/// The four arithmetic operations that mappings can be combined with.
#[derive(Debug, Clone, Copy, PartialEq, Eq)]
pub enum ArithOp {
    Add,
    Sub,
    Mul,
    Div,
}

/// A value type that the element-wise operations work on.
///
/// An implementation gives the four scalar operations; the vector-level
/// operations have default bodies built on them, which an implementation may
/// replace by faster ones with the same contracts. The spec functions say
/// what the scalar operations return; an implementation that is verified
/// defines them. An implementation outside Verus keeps the defaults, one
/// arbitrary value per operation and type, which its results do not match:
/// the contracts built on these spec functions then say nothing true of its
/// values.
pub trait Scalar: Copy + Sized {
    /// What `scalar_add` returns.
    open spec fn spec_add(self, rhs: Self) -> Self {
        arbitrary()
    }

    /// What `scalar_sub` returns.
    open spec fn spec_sub(self, rhs: Self) -> Self {
        arbitrary()
    }

    /// What `scalar_mul` returns.
    open spec fn spec_mul(self, rhs: Self) -> Self {
        arbitrary()
    }

    /// What `scalar_div` returns.
    open spec fn spec_div(self, rhs: Self) -> Self {
        arbitrary()
    }

    /// Whether `self / rhs` can be computed (for integers: the divisor is not
    /// zero and the quotient does not overflow).
    open spec fn div_defined(self, rhs: Self) -> bool {
        arbitrary()
    }

    fn scalar_add(self, rhs: Self) -> (r: Self)
        ensures
            r == self.spec_add(rhs),
    ;

    fn scalar_sub(self, rhs: Self) -> (r: Self)
        ensures
            r == self.spec_sub(rhs),
    ;

    fn scalar_mul(self, rhs: Self) -> (r: Self)
        ensures
            r == self.spec_mul(rhs),
    ;

    fn scalar_div(self, rhs: Self) -> (r: Self)
        requires
            self.div_defined(rhs),
        ensures
            r == self.spec_div(rhs),
    ;

    /// `left[i] + right[i]` for every position, in a new vector.
    fn vector_add(left: &[Self], right: &[Self]) -> (out: Vec<Self>)
        requires
            left@.len() == right@.len(),
        ensures
            out@.len() == left@.len(),
            forall|i: int| 0 <= i < left@.len() ==> #[trigger] out@[i] == left@[i].spec_add(right@[i]),
    {
        let mut out = slice_to_vec(left);
        Self::vector_add_to_out(left, right, out.as_mut_slice());
        out
    }

    /// Writes `left[i] + right[i]` into `out[i]` for every position.
    fn vector_add_to_out(left: &[Self], right: &[Self], out: &mut [Self])
        requires
            left@.len() == right@.len(),
            left@.len() == old(out)@.len(),
        ensures
            final(out)@.len() == left@.len(),
            forall|i: int|
                0 <= i < left@.len() ==> #[trigger] final(out)@[i] == left@[i].spec_add(right@[i]),
    {
        vector_op_fallback_to_out(
            left,
            right,
            out,
            (|l: Self, r: Self| -> (o: Self)
                ensures
                    o == l.spec_add(r),
                { l.scalar_add(r) }),
        );
    }

    /// Replaces `left[i]` by `left[i] + right[i]` where both have a position `i`.
    fn vector_add_inplace(left: &mut [Self], right: &[Self])
        ensures
            final(left)@.len() == old(left)@.len(),
            forall|i: int|
                0 <= i < old(left)@.len() ==> #[trigger] final(left)@[i] == if i < right@.len() {
                    old(left)@[i].spec_add(right@[i])
                } else {
                    old(left)@[i]
                },
    {
        vector_op_fallback_inplace(
            left,
            right,
            (|l: Self, r: Self| -> (o: Self)
                ensures
                    o == l.spec_add(r),
                { l.scalar_add(r) }),
        );
    }

    /// `left[i] + right` for every position, in a new vector.
    fn vector_scalar_add(left: &[Self], right: Self) -> (out: Vec<Self>)
        ensures
            out@.len() == left@.len(),
            forall|i: int| 0 <= i < left@.len() ==> #[trigger] out@[i] == left@[i].spec_add(right),
    {
        let mut out = slice_to_vec(left);
        Self::vector_scalar_add_to_out(left, right, out.as_mut_slice());
        out
    }

    /// Writes `left[i] + right` into `out[i]` for every position.
    fn vector_scalar_add_to_out(left: &[Self], right: Self, out: &mut [Self])
        requires
            left@.len() == old(out)@.len(),
        ensures
            final(out)@.len() == left@.len(),
            forall|i: int|
                0 <= i < left@.len() ==> #[trigger] final(out)@[i] == left@[i].spec_add(right),
    {
        vector_scalar_op_fallback_to_out(
            left,
            right,
            out,
            (|l: Self, r: Self| -> (o: Self)
                ensures
                    o == l.spec_add(r),
                { l.scalar_add(r) }),
        );
    }

    /// Replaces every `left[i]` by `left[i] + right`.
    fn vector_scalar_add_inplace(left: &mut [Self], right: Self)
        ensures
            final(left)@.len() == old(left)@.len(),
            forall|i: int|
                0 <= i < old(left)@.len() ==> #[trigger] final(left)@[i] == old(left)@[i].spec_add(right),
    {
        vector_scalar_op_fallback_inplace(
            left,
            right,
            (|l: Self, r: Self| -> (o: Self)
                ensures
                    o == l.spec_add(r),
                { l.scalar_add(r) }),
        );
    }

    /// `left[i] - right[i]` for every position, in a new vector.
    fn vector_sub(left: &[Self], right: &[Self]) -> (out: Vec<Self>)
        requires
            left@.len() == right@.len(),
        ensures
            out@.len() == left@.len(),
            forall|i: int| 0 <= i < left@.len() ==> #[trigger] out@[i] == left@[i].spec_sub(right@[i]),
    {
        let mut out = slice_to_vec(left);
        Self::vector_sub_to_out(left, right, out.as_mut_slice());
        out
    }

    /// Writes `left[i] - right[i]` into `out[i]` for every position.
    fn vector_sub_to_out(left: &[Self], right: &[Self], out: &mut [Self])
        requires
            left@.len() == right@.len(),
            left@.len() == old(out)@.len(),
        ensures
            final(out)@.len() == left@.len(),
            forall|i: int|
                0 <= i < left@.len() ==> #[trigger] final(out)@[i] == left@[i].spec_sub(right@[i]),
    {
        vector_op_fallback_to_out(
            left,
            right,
            out,
            (|l: Self, r: Self| -> (o: Self)
                ensures
                    o == l.spec_sub(r),
                { l.scalar_sub(r) }),
        );
    }

    /// Replaces `left[i]` by `left[i] - right[i]` where both have a position `i`.
    fn vector_sub_inplace(left: &mut [Self], right: &[Self])
        ensures
            final(left)@.len() == old(left)@.len(),
            forall|i: int|
                0 <= i < old(left)@.len() ==> #[trigger] final(left)@[i] == if i < right@.len() {
                    old(left)@[i].spec_sub(right@[i])
                } else {
                    old(left)@[i]
                },
    {
        vector_op_fallback_inplace(
            left,
            right,
            (|l: Self, r: Self| -> (o: Self)
                ensures
                    o == l.spec_sub(r),
                { l.scalar_sub(r) }),
        );
    }

    /// `left[i] - right` for every position, in a new vector.
    fn vector_scalar_sub(left: &[Self], right: Self) -> (out: Vec<Self>)
        ensures
            out@.len() == left@.len(),
            forall|i: int| 0 <= i < left@.len() ==> #[trigger] out@[i] == left@[i].spec_sub(right),
    {
        let mut out = slice_to_vec(left);
        Self::vector_scalar_sub_to_out(left, right, out.as_mut_slice());
        out
    }

    /// Writes `left[i] - right` into `out[i]` for every position.
    fn vector_scalar_sub_to_out(left: &[Self], right: Self, out: &mut [Self])
        requires
            left@.len() == old(out)@.len(),
        ensures
            final(out)@.len() == left@.len(),
            forall|i: int|
                0 <= i < left@.len() ==> #[trigger] final(out)@[i] == left@[i].spec_sub(right),
    {
        vector_scalar_op_fallback_to_out(
            left,
            right,
            out,
            (|l: Self, r: Self| -> (o: Self)
                ensures
                    o == l.spec_sub(r),
                { l.scalar_sub(r) }),
        );
    }

    /// Replaces every `left[i]` by `left[i] - right`.
    fn vector_scalar_sub_inplace(left: &mut [Self], right: Self)
        ensures
            final(left)@.len() == old(left)@.len(),
            forall|i: int|
                0 <= i < old(left)@.len() ==> #[trigger] final(left)@[i] == old(left)@[i].spec_sub(right),
    {
        vector_scalar_op_fallback_inplace(
            left,
            right,
            (|l: Self, r: Self| -> (o: Self)
                ensures
                    o == l.spec_sub(r),
                { l.scalar_sub(r) }),
        );
    }

    /// `left[i] * right[i]` for every position, in a new vector.
    fn vector_mul(left: &[Self], right: &[Self]) -> (out: Vec<Self>)
        requires
            left@.len() == right@.len(),
        ensures
            out@.len() == left@.len(),
            forall|i: int| 0 <= i < left@.len() ==> #[trigger] out@[i] == left@[i].spec_mul(right@[i]),
    {
        let mut out = slice_to_vec(left);
        Self::vector_mul_to_out(left, right, out.as_mut_slice());
        out
    }

    /// Writes `left[i] * right[i]` into `out[i]` for every position.
    fn vector_mul_to_out(left: &[Self], right: &[Self], out: &mut [Self])
        requires
            left@.len() == right@.len(),
            left@.len() == old(out)@.len(),
        ensures
            final(out)@.len() == left@.len(),
            forall|i: int|
                0 <= i < left@.len() ==> #[trigger] final(out)@[i] == left@[i].spec_mul(right@[i]),
    {
        vector_op_fallback_to_out(
            left,
            right,
            out,
            (|l: Self, r: Self| -> (o: Self)
                ensures
                    o == l.spec_mul(r),
                { l.scalar_mul(r) }),
        );
    }

    /// Replaces `left[i]` by `left[i] * right[i]` where both have a position `i`.
    fn vector_mul_inplace(left: &mut [Self], right: &[Self])
        ensures
            final(left)@.len() == old(left)@.len(),
            forall|i: int|
                0 <= i < old(left)@.len() ==> #[trigger] final(left)@[i] == if i < right@.len() {
                    old(left)@[i].spec_mul(right@[i])
                } else {
                    old(left)@[i]
                },
    {
        vector_op_fallback_inplace(
            left,
            right,
            (|l: Self, r: Self| -> (o: Self)
                ensures
                    o == l.spec_mul(r),
                { l.scalar_mul(r) }),
        );
    }

    /// `left[i] * right` for every position, in a new vector.
    fn vector_scalar_mul(left: &[Self], right: Self) -> (out: Vec<Self>)
        ensures
            out@.len() == left@.len(),
            forall|i: int| 0 <= i < left@.len() ==> #[trigger] out@[i] == left@[i].spec_mul(right),
    {
        let mut out = slice_to_vec(left);
        Self::vector_scalar_mul_to_out(left, right, out.as_mut_slice());
        out
    }

    /// Writes `left[i] * right` into `out[i]` for every position.
    fn vector_scalar_mul_to_out(left: &[Self], right: Self, out: &mut [Self])
        requires
            left@.len() == old(out)@.len(),
        ensures
            final(out)@.len() == left@.len(),
            forall|i: int|
                0 <= i < left@.len() ==> #[trigger] final(out)@[i] == left@[i].spec_mul(right),
    {
        vector_scalar_op_fallback_to_out(
            left,
            right,
            out,
            (|l: Self, r: Self| -> (o: Self)
                ensures
                    o == l.spec_mul(r),
                { l.scalar_mul(r) }),
        );
    }

    /// Replaces every `left[i]` by `left[i] * right`.
    fn vector_scalar_mul_inplace(left: &mut [Self], right: Self)
        ensures
            final(left)@.len() == old(left)@.len(),
            forall|i: int|
                0 <= i < old(left)@.len() ==> #[trigger] final(left)@[i] == old(left)@[i].spec_mul(right),
    {
        vector_scalar_op_fallback_inplace(
            left,
            right,
            (|l: Self, r: Self| -> (o: Self)
                ensures
                    o == l.spec_mul(r),
                { l.scalar_mul(r) }),
        );
    }

    /// `left[i] / right[i]` for every position, in a new vector.
    fn vector_div(left: &[Self], right: &[Self]) -> (out: Vec<Self>)
        requires
            left@.len() == right@.len(),
            forall|i: int| 0 <= i < left@.len() ==> #[trigger] left@[i].div_defined(right@[i]),
        ensures
            out@.len() == left@.len(),
            forall|i: int| 0 <= i < left@.len() ==> #[trigger] out@[i] == left@[i].spec_div(right@[i]),
    {
        let mut out = slice_to_vec(left);
        Self::vector_div_to_out(left, right, out.as_mut_slice());
        out
    }

    /// Writes `left[i] / right[i]` into `out[i]` for every position.
    fn vector_div_to_out(left: &[Self], right: &[Self], out: &mut [Self])
        requires
            left@.len() == right@.len(),
            left@.len() == old(out)@.len(),
            forall|i: int| 0 <= i < left@.len() ==> #[trigger] left@[i].div_defined(right@[i]),
        ensures
            final(out)@.len() == left@.len(),
            forall|i: int|
                0 <= i < left@.len() ==> #[trigger] final(out)@[i] == left@[i].spec_div(right@[i]),
    {
        vector_op_fallback_to_out(
            left,
            right,
            out,
            (|l: Self, r: Self| -> (o: Self)
                requires
                    l.div_defined(r),
                ensures
                    o == l.spec_div(r),
                { l.scalar_div(r) }),
        );
    }

    /// Replaces `left[i]` by `left[i] / right[i]` where both have a position `i`.
    fn vector_div_inplace(left: &mut [Self], right: &[Self])
        requires
            forall|i: int|
                0 <= i < old(left)@.len() && i < right@.len() ==> #[trigger] old(left)@[i].div_defined(
                    right@[i],
                ),
        ensures
            final(left)@.len() == old(left)@.len(),
            forall|i: int|
                0 <= i < old(left)@.len() ==> #[trigger] final(left)@[i] == if i < right@.len() {
                    old(left)@[i].spec_div(right@[i])
                } else {
                    old(left)@[i]
                },
    {
        vector_op_fallback_inplace(
            left,
            right,
            (|l: Self, r: Self| -> (o: Self)
                requires
                    l.div_defined(r),
                ensures
                    o == l.spec_div(r),
                { l.scalar_div(r) }),
        );
    }

    /// `left[i] / right` for every position, in a new vector.
    fn vector_scalar_div(left: &[Self], right: Self) -> (out: Vec<Self>)
        requires
            forall|i: int| 0 <= i < left@.len() ==> #[trigger] left@[i].div_defined(right),
        ensures
            out@.len() == left@.len(),
            forall|i: int| 0 <= i < left@.len() ==> #[trigger] out@[i] == left@[i].spec_div(right),
    {
        let mut out = slice_to_vec(left);
        Self::vector_scalar_div_to_out(left, right, out.as_mut_slice());
        out
    }

    /// Writes `left[i] / right` into `out[i]` for every position.
    fn vector_scalar_div_to_out(left: &[Self], right: Self, out: &mut [Self])
        requires
            left@.len() == old(out)@.len(),
            forall|i: int| 0 <= i < left@.len() ==> #[trigger] left@[i].div_defined(right),
        ensures
            final(out)@.len() == left@.len(),
            forall|i: int|
                0 <= i < left@.len() ==> #[trigger] final(out)@[i] == left@[i].spec_div(right),
    {
        vector_scalar_op_fallback_to_out(
            left,
            right,
            out,
            (|l: Self, r: Self| -> (o: Self)
                requires
                    l.div_defined(r),
                ensures
                    o == l.spec_div(r),
                { l.scalar_div(r) }),
        );
    }

    /// Replaces every `left[i]` by `left[i] / right`.
    fn vector_scalar_div_inplace(left: &mut [Self], right: Self)
        requires
            forall|i: int| 0 <= i < old(left)@.len() ==> #[trigger] old(left)@[i].div_defined(right),
        ensures
            final(left)@.len() == old(left)@.len(),
            forall|i: int|
                0 <= i < old(left)@.len() ==> #[trigger] final(left)@[i] == old(left)@[i].spec_div(right),
    {
        vector_scalar_op_fallback_inplace(
            left,
            right,
            (|l: Self, r: Self| -> (o: Self)
                requires
                    l.div_defined(r),
                ensures
                    o == l.spec_div(r),
                { l.scalar_div(r) }),
        );
    }
}

/// The result of applying `kind` to two scalars.
pub open spec fn scalar_op<T: Scalar>(kind: ArithOp, a: T, b: T) -> T {
    match kind {
        ArithOp::Add => a.spec_add(b),
        ArithOp::Sub => a.spec_sub(b),
        ArithOp::Mul => a.spec_mul(b),
        ArithOp::Div => a.spec_div(b),
    }
}

/// Whether applying `kind` to two scalars is defined.
pub open spec fn op_defined<T: Scalar>(kind: ArithOp, a: T, b: T) -> bool {
    kind is Div ==> a.div_defined(b)
}

/// `kind` applied position by position.
pub open spec fn elementwise<T: Scalar>(kind: ArithOp, left: Seq<T>, right: Seq<T>) -> Seq<T> {
    Seq::new(left.len(), |i: int| scalar_op(kind, left[i], right[i]))
}

/// Every position of `elementwise(kind, left, right)` is defined.
pub open spec fn elementwise_defined<T: Scalar>(
    kind: ArithOp,
    left: Seq<T>,
    right: Seq<T>,
) -> bool {
    forall|i: int| 0 <= i < left.len() ==> #[trigger] op_defined(kind, left[i], right[i])
}

/// `kind` applied where both sequences have a position; the rest of `left` is kept.
pub open spec fn elementwise_prefix<T: Scalar>(kind: ArithOp, left: Seq<T>, right: Seq<T>) -> Seq<
    T,
> {
    Seq::new(
        left.len(),
        |i: int|
            if i < right.len() {
                scalar_op(kind, left[i], right[i])
            } else {
                left[i]
            },
    )
}

/// Every combined position of `elementwise_prefix(kind, left, right)` is defined.
pub open spec fn prefix_defined<T: Scalar>(kind: ArithOp, left: Seq<T>, right: Seq<T>) -> bool {
    forall|i: int|
        0 <= i < left.len() && i < right.len() ==> #[trigger] op_defined(kind, left[i], right[i])
}

/// `kind` applied to every element of `left` with the same right operand.
pub open spec fn with_scalar<T: Scalar>(kind: ArithOp, left: Seq<T>, right: T) -> Seq<T> {
    Seq::new(left.len(), |i: int| scalar_op(kind, left[i], right))
}

/// Every position of `with_scalar(kind, left, right)` is defined.
pub open spec fn with_scalar_defined<T: Scalar>(kind: ArithOp, left: Seq<T>, right: T) -> bool {
    forall|i: int| 0 <= i < left.len() ==> #[trigger] op_defined(kind, left[i], right)
}

/// `kind` applied with the scalar `left` as the left operand of every element.
pub open spec fn scalar_with<T: Scalar>(kind: ArithOp, left: T, right: Seq<T>) -> Seq<T> {
    Seq::new(right.len(), |i: int| scalar_op(kind, left, right[i]))
}

/// Every position of `scalar_with(kind, left, right)` is defined.
pub open spec fn scalar_with_defined<T: Scalar>(kind: ArithOp, left: T, right: Seq<T>) -> bool {
    forall|i: int| 0 <= i < right.len() ==> #[trigger] op_defined(kind, left, right[i])
}

/// Fills `out` with `op(left[i], right[i])`.
pub fn vector_op_fallback_to_out<V, OP>(left: &[V], right: &[V], out: &mut [V], op: OP) where
    V: Copy,
    OP: Fn(V, V) -> V,

    requires
        left@.len() == right@.len(),
        left@.len() == old(out)@.len(),
        forall|i: int| 0 <= i < left@.len() ==> call_requires(op, (left@[i], right@[i])),
    ensures
        final(out)@.len() == left@.len(),
        forall|i: int|
            0 <= i < left@.len() ==> call_ensures(op, (left@[i], right@[i]), #[trigger] final(out)@[i]),
{
    let n = left.len();
    let mut i: usize = 0;
    while i < n
        invariant
            n == left@.len(),
            n == right@.len(),
            out@.len() == n,
            0 <= i <= n,
            forall|j: int| 0 <= j < n ==> call_requires(op, (left@[j], right@[j])),
            forall|j: int| 0 <= j < i ==> call_ensures(op, (left@[j], right@[j]), #[trigger] out@[j]),
        decreases n - i,
    {
        out[i] = op(left[i], right[i]);
        i = i + 1;
    }
}

/// Replaces `left[i]` by `op(left[i], right[i])` where both have a position `i`.
fn vector_op_fallback_inplace<V, OP>(left: &mut [V], right: &[V], op: OP) where
    V: Copy,
    OP: Fn(V, V) -> V,

    requires
        forall|i: int|
            0 <= i < old(left)@.len() && i < right@.len() ==> call_requires(
                op,
                (old(left)@[i], right@[i]),
            ),
    ensures
        final(left)@.len() == old(left)@.len(),
        forall|i: int|
            0 <= i < old(left)@.len() && i < right@.len() ==> call_ensures(
                op,
                (old(left)@[i], right@[i]),
                #[trigger] final(left)@[i],
            ),
        forall|i: int|
            right@.len() <= i < old(left)@.len() ==> #[trigger] final(left)@[i] == old(left)@[i],
{
    let ghost before = left@;
    let n = if left.len() < right.len() {
        left.len()
    } else {
        right.len()
    };
    let mut i: usize = 0;
    while i < n
        invariant
            n <= before.len(),
            n <= right@.len(),
            n == before.len() || n == right@.len(),
            left@.len() == before.len(),
            0 <= i <= n,
            forall|j: int| 0 <= j < n ==> call_requires(op, (before[j], right@[j])),
            forall|j: int| 0 <= j < i ==> call_ensures(op, (before[j], right@[j]), #[trigger] left@[j]),
            forall|j: int| i <= j < before.len() ==> #[trigger] left@[j] == before[j],
        decreases n - i,
    {
        let x = op(left[i], right[i]);
        left[i] = x;
        i = i + 1;
    }
}

/// Fills `out` with `op(left[i], right)`.
pub fn vector_scalar_op_fallback_to_out<V, OP>(left: &[V], right: V, out: &mut [V], op: OP) where
    V: Copy,
    OP: Fn(V, V) -> V,

    requires
        left@.len() == old(out)@.len(),
        forall|i: int| 0 <= i < left@.len() ==> call_requires(op, (left@[i], right)),
    ensures
        final(out)@.len() == left@.len(),
        forall|i: int|
            0 <= i < left@.len() ==> call_ensures(op, (left@[i], right), #[trigger] final(out)@[i]),
{
    let n = left.len();
    let mut i: usize = 0;
    while i < n
        invariant
            n == left@.len(),
            out@.len() == n,
            0 <= i <= n,
            forall|j: int| 0 <= j < n ==> call_requires(op, (left@[j], right)),
            forall|j: int| 0 <= j < i ==> call_ensures(op, (left@[j], right), #[trigger] out@[j]),
        decreases n - i,
    {
        out[i] = op(left[i], right);
        i = i + 1;
    }
}

/// Replaces every `left[i]` by `op(left[i], right)`.
pub fn vector_scalar_op_fallback_inplace<V, OP>(left: &mut [V], right: V, op: OP) where
    V: Copy,
    OP: Fn(V, V) -> V,

    requires
        forall|i: int| 0 <= i < old(left)@.len() ==> call_requires(op, (old(left)@[i], right)),
    ensures
        final(left)@.len() == old(left)@.len(),
        forall|i: int|
            0 <= i < old(left)@.len() ==> call_ensures(
                op,
                (old(left)@[i], right),
                #[trigger] final(left)@[i],
            ),
{
    let ghost before = left@;
    let n = left.len();
    let mut i: usize = 0;
    while i < n
        invariant
            n == before.len(),
            left@.len() == n,
            0 <= i <= n,
            forall|j: int| 0 <= j < n ==> call_requires(op, (before[j], right)),
            forall|j: int| 0 <= j < i ==> call_ensures(op, (before[j], right), #[trigger] left@[j]),
            forall|j: int| i <= j < n ==> #[trigger] left@[j] == before[j],
        decreases n - i,
    {
        let x = op(left[i], right);
        left[i] = x;
        i = i + 1;
    }
}

/// `left[i] + right[i]` for every position, in a new vector.
pub fn vector_add<V: Scalar>(left: &[V], right: &[V]) -> (out: Vec<V>)
    requires
        left@.len() == right@.len(),
        elementwise_defined(ArithOp::Add, left@, right@),
    ensures
        out@ == elementwise(ArithOp::Add, left@, right@),
{
    VectorAdd::apply(left, right)
}

/// `left[i] - right[i]` for every position, in a new vector.
pub fn vector_sub<V: Scalar>(left: &[V], right: &[V]) -> (out: Vec<V>)
    requires
        left@.len() == right@.len(),
        elementwise_defined(ArithOp::Sub, left@, right@),
    ensures
        out@ == elementwise(ArithOp::Sub, left@, right@),
{
    VectorSub::apply(left, right)
}

/// `left[i] * right[i]` for every position, in a new vector.
pub fn vector_mul<V: Scalar>(left: &[V], right: &[V]) -> (out: Vec<V>)
    requires
        left@.len() == right@.len(),
        elementwise_defined(ArithOp::Mul, left@, right@),
    ensures
        out@ == elementwise(ArithOp::Mul, left@, right@),
{
    VectorMul::apply(left, right)
}

/// `left[i] / right[i]` for every position, in a new vector.
pub fn vector_div<V: Scalar>(left: &[V], right: &[V]) -> (out: Vec<V>)
    requires
        left@.len() == right@.len(),
        elementwise_defined(ArithOp::Div, left@, right@),
    ensures
        out@ == elementwise(ArithOp::Div, left@, right@),
{
    VectorDiv::apply(left, right)
}

/// An element-wise operation, applied to whole slices.
pub trait VectorOp {
    /// Which operation this is.
    spec fn kind() -> ArithOp;

    fn apply<T: Scalar>(left: &[T], right: &[T]) -> (out: Vec<T>)
        requires
            left@.len() == right@.len(),
            elementwise_defined(Self::kind(), left@, right@),
        ensures
            out@ == elementwise(Self::kind(), left@, right@),
    ;

    fn apply_into<T: Scalar>(left: &[T], right: &[T], out: &mut [T])
        requires
            left@.len() == right@.len(),
            left@.len() == old(out)@.len(),
            elementwise_defined(Self::kind(), left@, right@),
        ensures
            final(out)@ == elementwise(Self::kind(), left@, right@),
    ;

    fn apply_inplace<T: Scalar>(left: &mut [T], right: &[T])
        requires
            prefix_defined(Self::kind(), old(left)@, right@),
        ensures
            final(left)@ == elementwise_prefix(Self::kind(), old(left)@, right@),
    ;

    fn apply_scalar<T: Scalar>(left: &[T], right: T) -> (out: Vec<T>)
        requires
            with_scalar_defined(Self::kind(), left@, right),
        ensures
            out@ == with_scalar(Self::kind(), left@, right),
    ;

    fn apply_scalar_into<T: Scalar>(left: &[T], right: T, out: &mut [T])
        requires
            left@.len() == old(out)@.len(),
            with_scalar_defined(Self::kind(), left@, right),
        ensures
            final(out)@ == with_scalar(Self::kind(), left@, right),
    ;

    fn apply_scalar_inplace<T: Scalar>(left: &mut [T], right: T)
        requires
            with_scalar_defined(Self::kind(), old(left)@, right),
        ensures
            final(left)@ == with_scalar(Self::kind(), old(left)@, right),
    ;

    fn apply_scalar_scalar<T: Scalar>(left: T, right: T) -> (r: T)
        requires
            op_defined(Self::kind(), left, right),
        ensures
            r == scalar_op(Self::kind(), left, right),
    ;
}

/// Element-wise `+`.
pub struct VectorAdd;

impl VectorOp for VectorAdd {
    open spec fn kind() -> ArithOp {
        ArithOp::Add
    }

    fn apply<T: Scalar>(left: &[T], right: &[T]) -> (out: Vec<T>) {
        let out = T::vector_add(left, right);
        assert(out@ =~= elementwise(ArithOp::Add, left@, right@));
        out
    }

    fn apply_into<T: Scalar>(left: &[T], right: &[T], out: &mut [T]) {
        T::vector_add_to_out(left, right, out);
        assert(out@ =~= elementwise(ArithOp::Add, left@, right@));
    }

    fn apply_inplace<T: Scalar>(left: &mut [T], right: &[T]) {
        let ghost before = left@;
        T::vector_add_inplace(left, right);
        assert(left@ =~= elementwise_prefix(ArithOp::Add, before, right@));
    }

    fn apply_scalar<T: Scalar>(left: &[T], right: T) -> (out: Vec<T>) {
        let out = T::vector_scalar_add(left, right);
        assert(out@ =~= with_scalar(ArithOp::Add, left@, right));
        out
    }

    fn apply_scalar_into<T: Scalar>(left: &[T], right: T, out: &mut [T]) {
        T::vector_scalar_add_to_out(left, right, out);
        assert(out@ =~= with_scalar(ArithOp::Add, left@, right));
    }

    fn apply_scalar_inplace<T: Scalar>(left: &mut [T], right: T) {
        let ghost before = left@;
        T::vector_scalar_add_inplace(left, right);
        assert(left@ =~= with_scalar(ArithOp::Add, before, right));
    }

    fn apply_scalar_scalar<T: Scalar>(left: T, right: T) -> (r: T) {
        left.scalar_add(right)
    }
}

/// Element-wise `-`.
pub struct VectorSub;

impl VectorOp for VectorSub {
    open spec fn kind() -> ArithOp {
        ArithOp::Sub
    }

    fn apply<T: Scalar>(left: &[T], right: &[T]) -> (out: Vec<T>) {
        let out = T::vector_sub(left, right);
        assert(out@ =~= elementwise(ArithOp::Sub, left@, right@));
        out
    }

    fn apply_into<T: Scalar>(left: &[T], right: &[T], out: &mut [T]) {
        T::vector_sub_to_out(left, right, out);
        assert(out@ =~= elementwise(ArithOp::Sub, left@, right@));
    }

    fn apply_inplace<T: Scalar>(left: &mut [T], right: &[T]) {
        let ghost before = left@;
        T::vector_sub_inplace(left, right);
        assert(left@ =~= elementwise_prefix(ArithOp::Sub, before, right@));
    }

    fn apply_scalar<T: Scalar>(left: &[T], right: T) -> (out: Vec<T>) {
        let out = T::vector_scalar_sub(left, right);
        assert(out@ =~= with_scalar(ArithOp::Sub, left@, right));
        out
    }

    fn apply_scalar_into<T: Scalar>(left: &[T], right: T, out: &mut [T]) {
        T::vector_scalar_sub_to_out(left, right, out);
        assert(out@ =~= with_scalar(ArithOp::Sub, left@, right));
    }

    fn apply_scalar_inplace<T: Scalar>(left: &mut [T], right: T) {
        let ghost before = left@;
        T::vector_scalar_sub_inplace(left, right);
        assert(left@ =~= with_scalar(ArithOp::Sub, before, right));
    }

    fn apply_scalar_scalar<T: Scalar>(left: T, right: T) -> (r: T) {
        left.scalar_sub(right)
    }
}

/// Element-wise `*`.
pub struct VectorMul;

impl VectorOp for VectorMul {
    open spec fn kind() -> ArithOp {
        ArithOp::Mul
    }

    fn apply<T: Scalar>(left: &[T], right: &[T]) -> (out: Vec<T>) {
        let out = T::vector_mul(left, right);
        assert(out@ =~= elementwise(ArithOp::Mul, left@, right@));
        out
    }

    fn apply_into<T: Scalar>(left: &[T], right: &[T], out: &mut [T]) {
        T::vector_mul_to_out(left, right, out);
        assert(out@ =~= elementwise(ArithOp::Mul, left@, right@));
    }

    fn apply_inplace<T: Scalar>(left: &mut [T], right: &[T]) {
        let ghost before = left@;
        T::vector_mul_inplace(left, right);
        assert(left@ =~= elementwise_prefix(ArithOp::Mul, before, right@));
    }

    fn apply_scalar<T: Scalar>(left: &[T], right: T) -> (out: Vec<T>) {
        let out = T::vector_scalar_mul(left, right);
        assert(out@ =~= with_scalar(ArithOp::Mul, left@, right));
        out
    }

    fn apply_scalar_into<T: Scalar>(left: &[T], right: T, out: &mut [T]) {
        T::vector_scalar_mul_to_out(left, right, out);
        assert(out@ =~= with_scalar(ArithOp::Mul, left@, right));
    }

    fn apply_scalar_inplace<T: Scalar>(left: &mut [T], right: T) {
        let ghost before = left@;
        T::vector_scalar_mul_inplace(left, right);
        assert(left@ =~= with_scalar(ArithOp::Mul, before, right));
    }

    fn apply_scalar_scalar<T: Scalar>(left: T, right: T) -> (r: T) {
        left.scalar_mul(right)
    }
}

/// Element-wise `/`.
pub struct VectorDiv;

impl VectorOp for VectorDiv {
    open spec fn kind() -> ArithOp {
        ArithOp::Div
    }

    fn apply<T: Scalar>(left: &[T], right: &[T]) -> (out: Vec<T>) {
        assert forall|i: int| 0 <= i < left@.len() implies #[trigger] left@[i].div_defined(right@[i]) by {
            assert(op_defined(ArithOp::Div, left@[i], right@[i]));
        }
        let out = T::vector_div(left, right);
        assert(out@ =~= elementwise(ArithOp::Div, left@, right@));
        out
    }

    fn apply_into<T: Scalar>(left: &[T], right: &[T], out: &mut [T]) {
        assert forall|i: int| 0 <= i < left@.len() implies #[trigger] left@[i].div_defined(right@[i]) by {
            assert(op_defined(ArithOp::Div, left@[i], right@[i]));
        }
        T::vector_div_to_out(left, right, out);
        assert(out@ =~= elementwise(ArithOp::Div, left@, right@));
    }

    fn apply_inplace<T: Scalar>(left: &mut [T], right: &[T]) {
        assert forall|i: int| 0 <= i < left@.len() && i < right@.len() implies #[trigger] left@[i].div_defined(right@[i]) by {
            assert(op_defined(ArithOp::Div, left@[i], right@[i]));
        }
        let ghost before = left@;
        T::vector_div_inplace(left, right);
        assert(left@ =~= elementwise_prefix(ArithOp::Div, before, right@));
    }

    fn apply_scalar<T: Scalar>(left: &[T], right: T) -> (out: Vec<T>) {
        assert forall|i: int| 0 <= i < left@.len() implies #[trigger] left@[i].div_defined(right) by {
            assert(op_defined(ArithOp::Div, left@[i], right));
        }
        let out = T::vector_scalar_div(left, right);
        assert(out@ =~= with_scalar(ArithOp::Div, left@, right));
        out
    }

    fn apply_scalar_into<T: Scalar>(left: &[T], right: T, out: &mut [T]) {
        assert forall|i: int| 0 <= i < left@.len() implies #[trigger] left@[i].div_defined(right) by {
            assert(op_defined(ArithOp::Div, left@[i], right));
        }
        T::vector_scalar_div_to_out(left, right, out);
        assert(out@ =~= with_scalar(ArithOp::Div, left@, right));
    }

    fn apply_scalar_inplace<T: Scalar>(left: &mut [T], right: T) {
        assert forall|i: int| 0 <= i < left@.len() implies #[trigger] left@[i].div_defined(right) by {
            assert(op_defined(ArithOp::Div, left@[i], right));
        }
        let ghost before = left@;
        T::vector_scalar_div_inplace(left, right);
        assert(left@ =~= with_scalar(ArithOp::Div, before, right));
    }

    fn apply_scalar_scalar<T: Scalar>(left: T, right: T) -> (r: T) {
        left.scalar_div(right)
    }
}

} // verus!
