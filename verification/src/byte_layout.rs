//! How integers and byte strings are laid out as bytes for fingerprinting.

use vstd::prelude::*;

verus! {

/// Byte `j` of the two's complement form of `v`, counting from the least
/// significant byte.
pub open spec fn byte_of(v: int, j: nat) -> u8
    decreases j,
{
    if j == 0 {
        (v % 256) as u8
    } else {
        byte_of(v / 256, (j - 1) as nat)
    }
}

/// `v` as `width` bytes: least significant byte first when `little`, most
/// significant byte first otherwise.
pub open spec fn int_bytes(v: int, width: nat, little: bool) -> Seq<u8> {
    Seq::new(
        width,
        |t: int|
            byte_of(
                v,
                if little {
                    t as nat
                } else {
                    (width - 1 - t) as nat
                },
            ),
    )
}

/// The values of `vals`, each as `width` bytes in the given order, one after
/// the other.
pub open spec fn ints_bytes(vals: Seq<int>, width: nat, little: bool) -> Seq<u8> {
    Seq::new(
        vals.len() * width,
        |i: int| int_bytes(vals[i / (width as int)], width, little)[i % (width as int)],
    )
}

/// The width of a `usize` in bytes.
pub open spec fn usize_width() -> nat {
    (usize::BITS / 8) as nat
}

/// The strings of `items` framed one after the other: each one's length as a
/// `usize` in the given byte order, then its bytes.
pub open spec fn framed_items(items: Seq<Seq<u8>>, little: bool) -> Seq<u8>
    decreases items.len(),
{
    if items.len() == 0 {
        Seq::empty()
    } else {
        framed_items(items.drop_last(), little) + int_bytes(
            items.last().len() as int,
            usize_width(),
            little,
        ) + items.last()
    }
}

/// The framing that string keys are fingerprinted by: the number of strings
/// as a `usize` in the given byte order, then the strings framed one after
/// the other.
pub open spec fn framed(items: Seq<Seq<u8>>, little: bool) -> Seq<u8> {
    int_bytes(items.len() as int, usize_width(), little) + framed_items(items, little)
}

/// A run of `width`-byte values read back one by one: the bytes of value
/// `j` are the `j`-th run of `width` bytes.
pub proof fn lemma_ints_bytes_slot(vals: Seq<int>, width: nat, little: bool, j: int)
    requires
        width > 0,
        0 <= j < vals.len(),
    ensures
        (j + 1) * width <= vals.len() * width,
        ints_bytes(vals, width, little).subrange(j * width, (j + 1) * width) == int_bytes(
            vals[j],
            width,
            little,
        ),
{
    let w = width as int;
    assert((j + 1) * w <= vals.len() * w) by (nonlinear_arith)
        requires
            0 <= j < vals.len(),
            w > 0,
    ;
    assert((j + 1) * w == j * w + w) by (nonlinear_arith);
    assert(0 <= j * w) by (nonlinear_arith)
        requires
            0 <= j,
            w > 0,
    ;
    let all = ints_bytes(vals, width, little);
    let part = all.subrange(j * w, (j + 1) * w);
    assert forall|t: int| 0 <= t < w implies #[trigger] part[t] == int_bytes(
        vals[j],
        width,
        little,
    )[t] by {
        let i = j * w + t;
        vstd::arithmetic::div_mod::lemma_fundamental_div_mod_converse(i, w, j, t);
        assert(i == t + j * w);
        assert(i < vals.len() * w);
    }
    assert(part =~= int_bytes(vals[j], width, little));
}

/// `a` comes no later than `b` in the lexicographic order of byte strings:
/// the first differing byte decides, and a prefix comes first.
pub open spec fn bytes_le(a: Seq<u8>, b: Seq<u8>) -> bool
    decreases a.len(),
{
    if a.len() == 0 {
        true
    } else if b.len() == 0 {
        false
    } else if a[0] != b[0] {
        a[0] < b[0]
    } else {
        bytes_le(a.drop_first(), b.drop_first())
    }
}

} // verus!
