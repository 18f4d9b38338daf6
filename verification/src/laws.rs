//! Properties of the library that span several functions, stated over the
//! spec functions that the functions' contracts use.

use vstd::prelude::*;
use vstd::set_lib::{lemma_int_range, lemma_subset_equality, set_int_range};

use crate::vector_mapping::{
    combine, entries_of, fold_into, fold_step, inplace_outcome_matches, Fingerprint,
};
use crate::vector_ops::{elementwise, scalar_op, scalar_with, with_scalar, ArithOp, Scalar};
use crate::coalignment::{
    first_positions, last_positions, lemma_first_positions, lemma_last_positions,
    realign_by_positions,
};

verus! {

/// The key-value map that a key sequence and a value sequence describe;
/// where a key repeats, its last occurrence counts (as for `get`).
pub open spec fn as_map<K, V>(keys: Seq<K>, vals: Seq<V>) -> Map<K, V> {
    Map::new(
        |k: K| last_positions(keys).contains_key(k),
        |k: K| vals[last_positions(keys)[k] as int],
    )
}

/// `n` distinct integers in `[0, n)` take every value of `[0, n)`.
proof fn lemma_distinct_positions_cover(ps: Seq<int>, n: nat)
    requires
        ps.len() == n,
        ps.no_duplicates(),
        forall|i: int| 0 <= i < n ==> 0 <= #[trigger] ps[i] < n,
    ensures
        forall|j: int| 0 <= j < n ==> #[trigger] ps.contains(j),
{
    let range = set_int_range(0, n as int);
    lemma_int_range(0, n as int);
    ps.unique_seq_to_set();
    assert(ps.to_set().subset_of(range)) by {
        assert forall|x: int| #[trigger] ps.to_set().contains(x) implies range.contains(x) by {
            assert(ps.contains(x));
            let i = choose|i: int| 0 <= i < ps.len() && ps[i] == x;
            assert(0 <= ps[i] < n);
        }
    }
    lemma_subset_equality(ps.to_set(), range);
    assert forall|j: int| 0 <= j < n implies #[trigger] ps.contains(j) by {
        assert(range.contains(j));
        assert(ps.to_set().contains(j));
    }
}

/// The last positions of the keys of `target`, in its order.
spec fn target_positions<K>(target: Seq<K>, lhs: Seq<K>) -> Seq<int> {
    Seq::new(target.len(), |i: int| last_positions(lhs)[target[i]] as int)
}

/// Realigning succeeds exactly when both key sequences are free of
/// duplicates and hold the same keys (the lengths being equal).
pub proof fn law_realign_succeeds_iff_same_keys<K, V>(lhs: Seq<K>, target: Seq<K>, vals: Seq<V>)
    requires
        lhs.len() == target.len(),
        lhs.len() <= usize::MAX,
    ensures
        realign_by_positions(target, last_positions(lhs), vals) is Some <==> {
            &&& target.no_duplicates()
            &&& lhs.no_duplicates()
            &&& target.to_set() == lhs.to_set()
        },
{
    lemma_last_positions(lhs);
    let m = last_positions(lhs);
    let n = lhs.len();
    if realign_by_positions(target, m, vals) is Some {
        let ps = target_positions(target, lhs);
        assert(ps.no_duplicates()) by {
            assert forall|i: int, j: int| 0 <= i < ps.len() && 0 <= j < ps.len() && i != j implies ps[i]
                != ps[j] by {
                if i < j {
                    assert(m[target[i]] != m[target[j]]);
                } else {
                    assert(m[target[j]] != m[target[i]]);
                }
            }
        }
        assert forall|i: int| 0 <= i < n implies 0 <= #[trigger] ps[i] < n by {
            assert(m.contains_key(target[i]));
        }
        lemma_distinct_positions_cover(ps, n);
        // every position of lhs is the last position of its own key
        assert forall|j: int| 0 <= j < n implies #[trigger] m[lhs[j]] == j && target.contains(
            lhs[j],
        ) by {
            assert(ps.contains(j));
            let i = choose|i: int| 0 <= i < ps.len() && ps[i] == j;
            assert(m.contains_key(target[i]));
            assert(lhs[j] == target[i]);
        }
        assert(lhs.no_duplicates()) by {
            assert forall|a: int, b: int| 0 <= a < n && 0 <= b < n && a != b implies lhs[a]
                != lhs[b] by {
                assert(m[lhs[a]] == a);
                assert(m[lhs[b]] == b);
            }
        }
        assert(target.no_duplicates()) by {
            assert forall|a: int, b: int| 0 <= a < n && 0 <= b < n && a != b implies target[a]
                != target[b] by {
                assert(ps[a] != ps[b]);
            }
        }
        assert forall|k: K| #[trigger] target.to_set().contains(k) <==> lhs.to_set().contains(k) by {
            if target.to_set().contains(k) {
                assert(target.contains(k));
                let i = choose|i: int| 0 <= i < n && target[i] == k;
                assert(m.contains_key(target[i]));
                assert(lhs.contains(k));
            }
            if lhs.to_set().contains(k) {
                assert(lhs.contains(k));
                let j = choose|j: int| 0 <= j < n && lhs[j] == k;
                assert(m[lhs[j]] == j);
                assert(target.contains(lhs[j]));
            }
        }
        assert(target.to_set() =~= lhs.to_set());
    }
    if target.no_duplicates() && lhs.no_duplicates() && target.to_set() == lhs.to_set() {
        assert forall|i: int| 0 <= i < target.len() implies #[trigger] m.contains_key(target[i]) by {
            assert(target.to_set().contains(target[i]));
            assert(lhs.to_set().contains(target[i]));
        }
        assert forall|i: int, j: int| 0 <= i < j < target.len() implies #[trigger] m[target[i]]
            != #[trigger] m[target[j]] by {
            assert(m.contains_key(target[i]));
            assert(m.contains_key(target[j]));
            assert(lhs[m[target[i]] as int] == target[i]);
            assert(lhs[m[target[j]] as int] == target[j]);
        }
    }
}

/// A successful realignment keeps every key's value: the target order and
/// the realigned values describe the same key-value map as the given keys and values.
pub proof fn law_realign_keeps_entries<K, V>(lhs: Seq<K>, target: Seq<K>, vals: Seq<V>)
    requires
        lhs.len() == target.len(),
        lhs.len() <= usize::MAX,
        realign_by_positions(target, last_positions(lhs), vals) is Some,
    ensures
        as_map(target, realign_by_positions(target, last_positions(lhs), vals)->0) == as_map(
            lhs,
            vals,
        ),
{
    law_realign_succeeds_iff_same_keys(lhs, target, vals);
    lemma_last_positions(lhs);
    lemma_last_positions(target);
    let m = last_positions(lhs);
    let mt = last_positions(target);
    let out = realign_by_positions(target, m, vals)->0;
    assert forall|k: K| #[trigger] mt.contains_key(k) <==> m.contains_key(k) by {
        if mt.contains_key(k) {
            assert(target.to_set().contains(k));
        }
        if m.contains_key(k) {
            assert(lhs.to_set().contains(k));
        }
    }
    assert forall|k: K| mt.contains_key(k) implies out[#[trigger] mt[k] as int] == vals[m[k] as int] by {
        let p = mt[k] as int;
        assert(target[p] == k);
    }
    assert(as_map(target, out) =~= as_map(lhs, vals));
}

/// The linear and the hashed realignment agree: looking a key up by its
/// first or by its last occurrence gives the same outcome.
pub proof fn law_linear_agrees_with_hash<K, V>(lhs: Seq<K>, target: Seq<K>, vals: Seq<V>)
    requires
        lhs.len() == target.len(),
        lhs.len() <= usize::MAX,
    ensures
        realign_by_positions(target, first_positions(lhs), vals) == realign_by_positions(
            target,
            last_positions(lhs),
            vals,
        ),
{
    lemma_first_positions(lhs);
    lemma_last_positions(lhs);
    law_realign_succeeds_iff_same_keys(lhs, target, vals);
    let f = first_positions(lhs);
    let l = last_positions(lhs);
    let n = target.len();
    let f_ok = (forall|i: int| 0 <= i < n ==> #[trigger] f.contains_key(target[i])) && (forall|
        i: int,
        j: int,
    | 0 <= i < j < n ==> #[trigger] f[target[i]] != #[trigger] f[target[j]]);
    let l_ok = (forall|i: int| 0 <= i < n ==> #[trigger] l.contains_key(target[i])) && (forall|
        i: int,
        j: int,
    | 0 <= i < j < n ==> #[trigger] l[target[i]] != #[trigger] l[target[j]]);
    assert forall|i: int| 0 <= i < n implies #[trigger] f.contains_key(target[i]) == l.contains_key(
        target[i],
    ) by {
        if f.contains_key(target[i]) {
            assert(lhs.contains(target[i]));
        }
        if l.contains_key(target[i]) {
            assert(lhs.contains(target[i]));
        }
    }
    if f_ok {
        assert forall|i: int, j: int| 0 <= i < j < n implies #[trigger] l[target[i]]
            != #[trigger] l[target[j]] by {
            assert(f.contains_key(target[i]) && f.contains_key(target[j]));
            assert(l.contains_key(target[i]) && l.contains_key(target[j]));
            assert(lhs[f[target[i]] as int] == target[i]);
            assert(lhs[f[target[j]] as int] == target[j]);
            assert(lhs[l[target[i]] as int] == target[i]);
            assert(lhs[l[target[j]] as int] == target[j]);
        }
        assert forall|i: int| 0 <= i < n implies #[trigger] l.contains_key(target[i]) by {
            assert(f.contains_key(target[i]));
        }
        assert(l_ok);
    }
    if l_ok {
        assert forall|i: int, j: int| 0 <= i < j < n implies #[trigger] f[target[i]]
            != #[trigger] f[target[j]] by {
            assert(f.contains_key(target[i]) && f.contains_key(target[j]));
            assert(lhs[f[target[i]] as int] == target[i]);
            assert(lhs[f[target[j]] as int] == target[j]);
            assert(lhs[l[target[i]] as int] == target[i]);
            assert(lhs[l[target[j]] as int] == target[j]);
        }
        // every key now occurs once in lhs, so its first and last positions coincide
        assert forall|i: int| 0 <= i < n implies #[trigger] f[target[i]] == l[target[i]] by {
            assert(l.contains_key(target[i]));
            assert(f.contains_key(target[i]));
            let a = f[target[i]] as int;
            let b = l[target[i]] as int;
            assert(lhs[a] == target[i]);
            assert(lhs[b] == target[i]);
        }
        assert(f_ok);
        let rf = realign_by_positions(target, f, vals);
        let rl = realign_by_positions(target, l, vals);
        assert(rf is Some && rl is Some);
        assert(rf->0 =~= rl->0);
    }
}

/// The entries of `long`, where each key that `short` also holds gets
/// `kind(short value, long value)` when `short_first`, and
/// `kind(long value, short value)` otherwise.
pub open spec fn merged<K, V: Scalar>(
    kind: ArithOp,
    long: Map<K, V>,
    short: Map<K, V>,
    short_first: bool,
) -> Map<K, V> {
    Map::new(
        |k: K| long.contains_key(k),
        |k: K|
            if short.contains_key(k) {
                fold_step(kind, short_first, long[k], short[k])
            } else {
                long[k]
            },
    )
}

/// Folding entries with distinct keys into `buf` changes exactly the
/// positions of those keys, each once.
proof fn lemma_fold_by_key<K, V: Scalar>(
    kind: ArithOp,
    first: bool,
    buf: Seq<V>,
    pos: Map<K, usize>,
    sk: Seq<K>,
    sv: Seq<V>,
    n: nat,
)
    requires
        n <= sk.len(),
        sk.len() == sv.len(),
        sk.no_duplicates(),
        forall|k: K| #[trigger] pos.contains_key(k) ==> pos[k] < buf.len(),
        forall|k1: K, k2: K|
            #[trigger] pos.contains_key(k1) && #[trigger] pos.contains_key(k2) && k1 != k2
                ==> pos[k1] != pos[k2],
    ensures
        fold_into(kind, first, buf, pos, sk, sv, n) is Some <==> forall|i: int|
            0 <= i < n ==> #[trigger] pos.contains_key(sk[i]),
        fold_into(kind, first, buf, pos, sk, sv, n) matches Some(out) ==> {
            &&& out.len() == buf.len()
            &&& forall|i: int|
                0 <= i < n ==> #[trigger] out[pos[sk[i]] as int] == fold_step(
                    kind,
                    first,
                    buf[pos[sk[i]] as int],
                    sv[i],
                )
            &&& forall|p: int|
                0 <= p < buf.len() && (forall|i: int| 0 <= i < n ==> pos[sk[i]] != p) ==> #[trigger] out[p]
                    == buf[p]
        },
    decreases n,
{
    if n > 0 {
        lemma_fold_by_key(kind, first, buf, pos, sk, sv, (n - 1) as nat);
        let k = sk[n - 1];
        if let Some(prev) = fold_into(kind, first, buf, pos, sk, sv, (n - 1) as nat) {
            if pos.contains_key(k) {
                let q = pos[k] as int;
                assert(prev.len() == buf.len());
                let out = fold_into(kind, first, buf, pos, sk, sv, n)->0;
                assert(out == prev.update(q, fold_step(kind, first, prev[q], sv[n - 1])));
                assert forall|i: int| 0 <= i < n - 1 implies pos[sk[i]] != q by {
                    assert(pos.contains_key(sk[i]));
                    assert(sk[i] != sk[n - 1]);
                }
                assert(prev[q] == buf[q]);
                assert forall|i: int| 0 <= i < n implies #[trigger] out[pos[sk[i]] as int]
                    == fold_step(kind, first, buf[pos[sk[i]] as int], sv[i]) by {
                    if i < n - 1 {
                        assert(pos.contains_key(sk[i]));
                        assert(pos[sk[i]] != q);
                        assert(prev[pos[sk[i]] as int] == fold_step(
                            kind,
                            first,
                            buf[pos[sk[i]] as int],
                            sv[i],
                        ));
                    } else {
                        assert(sk[i] == k);
                    }
                }
            }
        }
    }
}

/// Different keys have different last positions.
proof fn lemma_last_positions_injective<K>(keys: Seq<K>)
    requires
        keys.len() <= usize::MAX,
    ensures
        forall|k1: K, k2: K|
            #[trigger] last_positions(keys).contains_key(k1) && #[trigger] last_positions(
                keys,
            ).contains_key(k2) && k1 != k2 ==> last_positions(keys)[k1] != last_positions(keys)[k2],
{
    lemma_last_positions(keys);
}

/// The long mapping with the short one folded in by key describes the
/// merged key-value map.
proof fn lemma_fold_merges<K, V: Scalar>(
    kind: ArithOp,
    first: bool,
    lk: Seq<K>,
    lv: Seq<V>,
    sk: Seq<K>,
    sv: Seq<V>,
)
    requires
        lk.len() == lv.len(),
        sk.len() == sv.len(),
        lk.len() <= usize::MAX,
        sk.len() <= usize::MAX,
        lk.no_duplicates(),
        sk.no_duplicates(),
    ensures
        fold_into(kind, first, lv, last_positions(lk), sk, sv, sk.len()) is Some <==> sk.to_set().subset_of(
            lk.to_set(),
        ),
        fold_into(kind, first, lv, last_positions(lk), sk, sv, sk.len()) matches Some(out) ==> as_map(
            lk,
            out,
        ) == merged(kind, as_map(lk, lv), as_map(sk, sv), first),
{
    let pos = last_positions(lk);
    lemma_last_positions(lk);
    lemma_last_positions(sk);
    lemma_last_positions_injective(lk);
    lemma_fold_by_key(kind, first, lv, pos, sk, sv, sk.len());
    let r = fold_into(kind, first, lv, pos, sk, sv, sk.len());
    assert((forall|i: int| 0 <= i < sk.len() ==> #[trigger] pos.contains_key(sk[i]))
        <==> sk.to_set().subset_of(lk.to_set())) by {
        if forall|i: int| 0 <= i < sk.len() ==> #[trigger] pos.contains_key(sk[i]) {
            assert forall|k: K| #[trigger] sk.to_set().contains(k) implies lk.to_set().contains(
                k,
            ) by {
                let i = choose|i: int| 0 <= i < sk.len() && sk[i] == k;
                assert(pos.contains_key(sk[i]));
            }
        }
        if sk.to_set().subset_of(lk.to_set()) {
            assert forall|i: int| 0 <= i < sk.len() implies #[trigger] pos.contains_key(sk[i]) by {
                assert(sk.to_set().contains(sk[i]));
            }
        }
    }
    if let Some(out) = r {
        let lhs = as_map(lk, out);
        let rhs = merged(kind, as_map(lk, lv), as_map(sk, sv), first);
        let ps = last_positions(sk);
        assert forall|k: K| #[trigger] lhs.contains_key(k) implies lhs[k] == rhs[k] by {
            let p = pos[k] as int;
            assert(lk[p] == k);
            if ps.contains_key(k) {
                let i = ps[k] as int;
                assert(sk[i] == k);
                assert(pos[sk[i]] == p);
                assert(out[pos[sk[i]] as int] == fold_step(kind, first, lv[pos[sk[i]] as int], sv[i]));
            } else {
                assert forall|i: int| 0 <= i < sk.len() implies pos[sk[i]] != p by {
                    if pos[sk[i]] == p {
                        assert(pos.contains_key(sk[i]));
                        assert(lk[pos[sk[i]] as int] == sk[i]);
                        assert(sk.contains(k));
                    }
                }
                assert(out[p] == lv[p]);
            }
        }
        assert(lhs =~= rhs);
    }
}

/// Two duplicate-free sequences of the same length, one of whose key sets
/// is inside the other's, hold the same keys.
proof fn lemma_same_size_subset<K>(a: Seq<K>, b: Seq<K>)
    requires
        a.len() == b.len(),
        a.no_duplicates(),
        b.no_duplicates(),
        b.to_set().subset_of(a.to_set()),
    ensures
        b.to_set() == a.to_set(),
{
    a.unique_seq_to_set();
    b.unique_seq_to_set();
    lemma_subset_equality(b.to_set(), a.to_set());
}

/// Combining two mappings works by key. For duplicate-free key sequences,
/// whatever their fingerprints, the combination succeeds exactly when the
/// shorter mapping's keys (the second's, for equal lengths) are among the
/// longer one's, and then it keeps the longer mapping's keys and fingerprint,
/// gives each shared key `kind(left value, right value)` whichever mapping is
/// longer, and every other key its value in the longer mapping.
pub proof fn law_combine_by_key<K, V: Scalar>(
    kind: ArithOp,
    ak: Seq<K>,
    av: Seq<V>,
    af: Fingerprint,
    bk: Seq<K>,
    bv: Seq<V>,
    bf: Fingerprint,
)
    requires
        ak.len() == av.len(),
        bk.len() == bv.len(),
        ak.len() <= usize::MAX,
        bk.len() <= usize::MAX,
        ak.no_duplicates(),
        bk.no_duplicates(),
    ensures
        ({
            let a_long = ak.len() >= bk.len();
            let (lk, lv, lf, sk, sv) = if a_long {
                (ak, av, af, bk, bv)
            } else {
                (bk, bv, bf, ak, av)
            };
            &&& combine(kind, ak, av, af, bk, bv, bf) is Some <==> sk.to_set().subset_of(
                lk.to_set(),
            )
            &&& combine(kind, ak, av, af, bk, bv, bf) matches Some(e) ==> {
                &&& e.0 == lk
                &&& e.2 == lf
                &&& as_map(e.0, e.1) == merged(kind, as_map(lk, lv), as_map(sk, sv), !a_long)
                &&& forall|k: K|
                    #[trigger] as_map(ak, av).contains_key(k) && as_map(bk, bv).contains_key(k)
                        ==> as_map(e.0, e.1)[k] == scalar_op(kind, as_map(ak, av)[k], as_map(bk, bv)[k])
            }
        }),
{
    lemma_last_positions(ak);
    lemma_last_positions(bk);
    if ak == bk {
        let e = combine(kind, ak, av, af, bk, bv, bf)->0;
        assert(e.1 == elementwise(kind, av, bv));
        assert(as_map(e.0, e.1) =~= merged(kind, as_map(ak, av), as_map(bk, bv), false));
    } else if ak.len() == bk.len() {
        law_realign_succeeds_iff_same_keys(bk, ak, bv);
        if bk.to_set().subset_of(ak.to_set()) {
            lemma_same_size_subset(ak, bk);
        }
        if let Some(aligned) = realign_by_positions(ak, last_positions(bk), bv) {
            law_realign_keeps_entries(bk, ak, bv);
            let e = combine(kind, ak, av, af, bk, bv, bf)->0;
            let lhs = as_map(e.0, e.1);
            let rhs = merged(kind, as_map(ak, av), as_map(bk, bv), false);
            assert(as_map(ak, aligned) == as_map(bk, bv));
            assert forall|k: K| #[trigger] lhs.contains_key(k) implies lhs[k] == rhs[k] by {
                assert(ak.to_set().contains(k));
                assert(as_map(ak, aligned).contains_key(k));
            }
            assert(lhs =~= rhs);
        }
    } else if ak.len() > bk.len() {
        lemma_fold_merges(kind, false, ak, av, bk, bv);
    } else {
        lemma_fold_merges(kind, true, bk, bv, ak, av);
    }
}

/// Folding with the entry's value on the left or on the right gives the same
/// values when the operation commutes.
proof fn lemma_fold_side_commutes<K, V: Scalar>(
    kind: ArithOp,
    buf: Seq<V>,
    pos: Map<K, usize>,
    keys: Seq<K>,
    vals: Seq<V>,
    n: nat,
)
    requires
        forall|x: V, y: V| #[trigger] scalar_op(kind, x, y) == scalar_op(kind, y, x),
    ensures
        fold_into(kind, true, buf, pos, keys, vals, n) == fold_into(kind, false, buf, pos, keys, vals, n),
    decreases n,
{
    if n > 0 {
        lemma_fold_side_commutes(kind, buf, pos, keys, vals, (n - 1) as nat);
        if let Some(prev) = fold_into(kind, true, buf, pos, keys, vals, (n - 1) as nat) {
            if pos.contains_key(keys[n - 1]) {
                let p = pos[keys[n - 1]] as int;
                assert(scalar_op(kind, vals[n - 1], prev[p]) == scalar_op(kind, prev[p], vals[n - 1]));
            }
        }
    }
}

/// When the key sets differ in size and the operation commutes, the order of
/// the operands does not matter: the shorter mapping is folded into the
/// longer one either way.
pub proof fn law_unequal_lengths_symmetric<K, V: Scalar>(
    kind: ArithOp,
    ak: Seq<K>,
    av: Seq<V>,
    af: Fingerprint,
    bk: Seq<K>,
    bv: Seq<V>,
    bf: Fingerprint,
)
    requires
        ak.len() != bk.len(),
        forall|x: V, y: V| #[trigger] scalar_op(kind, x, y) == scalar_op(kind, y, x),
    ensures
        combine(kind, ak, av, af, bk, bv, bf) == combine(kind, bk, bv, bf, ak, av, af),
{
    if ak.len() > bk.len() {
        lemma_fold_side_commutes(kind, av, last_positions(ak), bk, bv, bk.len());
    } else {
        lemma_fold_side_commutes(kind, bv, last_positions(bk), ak, av, ak.len());
    }
}

/// Keys in the same order: the values are combined position by position,
/// whatever the fingerprints, repeated keys included.
pub proof fn law_same_keys_positionwise<K, V: Scalar>(
    kind: ArithOp,
    keys: Seq<K>,
    av: Seq<V>,
    af: Fingerprint,
    bv: Seq<V>,
    bf: Fingerprint,
)
    ensures
        combine(kind, keys, av, af, keys, bv, bf) == Some((keys, elementwise(kind, av, bv), af)),
{
}

/// For equally long mappings and an operation that commutes, swapping the
/// operands gives the same key-value map.
pub proof fn law_equal_lengths_commute_by_key<K, V: Scalar>(
    kind: ArithOp,
    ak: Seq<K>,
    av: Seq<V>,
    af: Fingerprint,
    bk: Seq<K>,
    bv: Seq<V>,
    bf: Fingerprint,
)
    requires
        ak.len() == av.len(),
        bk.len() == bv.len(),
        ak.len() == bk.len(),
        ak.len() <= usize::MAX,
        ak.no_duplicates(),
        bk.no_duplicates(),
        forall|x: V, y: V| #[trigger] scalar_op(kind, x, y) == scalar_op(kind, y, x),
    ensures
        combine(kind, ak, av, af, bk, bv, bf) is Some <==> combine(kind, bk, bv, bf, ak, av, af) is Some,
        combine(kind, ak, av, af, bk, bv, bf) matches Some(e1) ==> combine(
            kind,
            bk,
            bv,
            bf,
            ak,
            av,
            af,
        ) matches Some(e2) && as_map(e1.0, e1.1) == as_map(e2.0, e2.1),
{
    law_combine_by_key(kind, ak, av, af, bk, bv, bf);
    law_combine_by_key(kind, bk, bv, bf, ak, av, af);
    if bk.to_set().subset_of(ak.to_set()) {
        lemma_same_size_subset(ak, bk);
    }
    if ak.to_set().subset_of(bk.to_set()) {
        lemma_same_size_subset(bk, ak);
    }
    if let Some(e1) = combine(kind, ak, av, af, bk, bv, bf) {
        let e2 = combine(kind, bk, bv, bf, ak, av, af)->0;
        let m1 = merged(kind, as_map(ak, av), as_map(bk, bv), false);
        let m2 = merged(kind, as_map(bk, bv), as_map(ak, av), false);
        lemma_last_positions(ak);
        lemma_last_positions(bk);
        assert forall|k: K| #[trigger] m1.contains_key(k) <==> m2.contains_key(k) by {
            if m1.contains_key(k) {
                assert(ak.to_set().contains(k));
            }
            if m2.contains_key(k) {
                assert(bk.to_set().contains(k));
            }
        }
        assert forall|k: K| m1.contains_key(k) implies #[trigger] m1[k] == m2[k] by {
            assert(ak.to_set().contains(k));
            assert(bk.to_set().contains(k));
            assert(scalar_op(kind, as_map(ak, av)[k], as_map(bk, bv)[k]) == scalar_op(
                kind,
                as_map(bk, bv)[k],
                as_map(ak, av)[k],
            ));
        }
        assert(m1 =~= m2);
    }
}

/// The in-place operations leave exactly the values that the allocating
/// ones return.
pub proof fn law_inplace_matches_allocating<K, V: Scalar>(
    expected: Option<(Seq<K>, Seq<V>, Fingerprint)>,
    r: Result<(), crate::errors::CoalignError>,
    before: Seq<V>,
    after: Seq<V>,
)
    requires
        inplace_outcome_matches(r, before, after, expected),
    ensures
        r is Ok <==> expected is Some,
        expected matches Some(e) ==> after == e.1,
        expected is None ==> after == before,
{
}

/// A key sequence and value sequence that list a map's entries describe
/// that map.
pub proof fn law_entries_describe_map<K, V>(keys: Seq<K>, vals: Seq<V>, m: Map<K, V>)
    requires
        entries_of(keys, vals, m),
        keys.len() <= usize::MAX,
    ensures
        as_map(keys, vals) == m,
{
    lemma_last_positions(keys);
    let pos = last_positions(keys);
    assert forall|k: K| #[trigger] pos.contains_key(k) <==> m.contains_key(k) by {
        if pos.contains_key(k) {
            assert(keys.to_set().contains(k));
        }
        if m.contains_key(k) {
            assert(keys.to_set().contains(k));
        }
    }
    assert forall|k: K| pos.contains_key(k) implies vals[#[trigger] pos[k] as int] == m[k] by {
        let p = pos[k] as int;
        assert(keys[p] == k);
        assert(m[keys[p]] == vals[p]);
    }
    assert(as_map(keys, vals) =~= m);
}

/// A scalar works on either side of a mapping: for an operation that
/// commutes, `s op mapping` gives the values that `mapping op s` gives.
pub proof fn law_scalar_sides_commute<V: Scalar>(kind: ArithOp, s: V, vals: Seq<V>)
    requires
        forall|x: V, y: V| #[trigger] scalar_op(kind, x, y) == scalar_op(kind, y, x),
    ensures
        scalar_with(kind, s, vals) == with_scalar(kind, vals, s),
{
    assert(scalar_with(kind, s, vals) =~= with_scalar(kind, vals, s));
}

/// Realigning back undoes a realignment: when the values of `lhs` realign to
/// the key order `target`, the result realigns back to `lhs` as the values
/// it started from. This holds for `aligned_to` (last occurrences) and, by
/// `law_linear_agrees_with_hash`, for `realign_values_linear`.
pub proof fn law_realign_round_trip<K, V>(lhs: Seq<K>, target: Seq<K>, vals: Seq<V>)
    requires
        lhs.len() == target.len(),
        lhs.len() == vals.len(),
        lhs.len() <= usize::MAX,
        realign_by_positions(target, last_positions(lhs), vals) is Some,
    ensures
        realign_by_positions(
            lhs,
            last_positions(target),
            realign_by_positions(target, last_positions(lhs), vals)->0,
        ) == Some(vals),
        realign_by_positions(
            lhs,
            first_positions(target),
            realign_by_positions(target, first_positions(lhs), vals)->0,
        ) == Some(vals),
{
    let out = realign_by_positions(target, last_positions(lhs), vals)->0;
    law_realign_succeeds_iff_same_keys(lhs, target, vals);
    law_realign_succeeds_iff_same_keys(target, lhs, out);
    law_linear_agrees_with_hash(lhs, target, vals);
    law_linear_agrees_with_hash(target, lhs, out);
    lemma_last_positions(lhs);
    lemma_last_positions(target);
    let pl = last_positions(lhs);
    let pt = last_positions(target);
    let back = realign_by_positions(lhs, pt, out)->0;
    assert forall|j: int| 0 <= j < lhs.len() implies #[trigger] back[j] == vals[j] by {
        assert(lhs.to_set().contains(lhs[j]));
        assert(pt.contains_key(lhs[j]));
        let q = pt[lhs[j]] as int;
        assert(target[q] == lhs[j]);
        assert(pl.contains_key(lhs[j]));
        let p = pl[lhs[j]] as int;
        assert(lhs[p] == lhs[j]);
        assert(p == j);
    }
    assert(back =~= vals);
}

/// What combining gives does not depend on the left mapping's fingerprint:
/// two mappings with the same keys and values (made by `new`, or by
/// `from_parts` from an `OrderingContainer` of the same keys) combine with a
/// third into the same keys and values, repeated keys included; only the
/// fingerprint carried into the result may differ.
pub proof fn law_result_depends_on_entries<K, V: Scalar>(
    kind: ArithOp,
    ak: Seq<K>,
    av: Seq<V>,
    af1: Fingerprint,
    af2: Fingerprint,
    bk: Seq<K>,
    bv: Seq<V>,
    bf: Fingerprint,
)
    ensures
        combine(kind, ak, av, af1, bk, bv, bf) is Some <==> combine(kind, ak, av, af2, bk, bv, bf) is Some,
        combine(kind, ak, av, af1, bk, bv, bf) matches Some(e1) ==> combine(
            kind,
            ak,
            av,
            af2,
            bk,
            bv,
            bf,
        ) matches Some(e2) && e1.0 == e2.0 && e1.1 == e2.1,
{
}

/// Adding a scalar and then subtracting it gives back every value, for a
/// value type whose `- c` undoes `+ c` (every integer type, whose arithmetic
/// wraps: see `lemma_add_sub_cancels_u8` and its siblings).
pub proof fn law_add_then_sub_scalar<V: Scalar>(vals: Seq<V>, c: V)
    requires
        forall|x: V| #[trigger] scalar_op(ArithOp::Sub, scalar_op(ArithOp::Add, x, c), c) == x,
    ensures
        with_scalar(ArithOp::Sub, with_scalar(ArithOp::Add, vals, c), c) == vals,
{
    assert forall|i: int| 0 <= i < vals.len() implies #[trigger] with_scalar(
        ArithOp::Sub,
        with_scalar(ArithOp::Add, vals, c),
        c,
    )[i] == vals[i] by {
        assert(scalar_op(ArithOp::Sub, scalar_op(ArithOp::Add, vals[i], c), c) == vals[i]);
    }
    assert(with_scalar(ArithOp::Sub, with_scalar(ArithOp::Add, vals, c), c) =~= vals);
}

/// For `u8` values, wrapping `- c` undoes wrapping `+ c`.
pub proof fn lemma_add_sub_cancels_u8(c: u8)
    ensures
        forall|x: u8| #[trigger] scalar_op(ArithOp::Sub, scalar_op(ArithOp::Add, x, c), c) == x,
{
}

/// For `u16` values, wrapping `- c` undoes wrapping `+ c`.
pub proof fn lemma_add_sub_cancels_u16(c: u16)
    ensures
        forall|x: u16| #[trigger] scalar_op(ArithOp::Sub, scalar_op(ArithOp::Add, x, c), c) == x,
{
}

/// For `u32` values, wrapping `- c` undoes wrapping `+ c`.
pub proof fn lemma_add_sub_cancels_u32(c: u32)
    ensures
        forall|x: u32| #[trigger] scalar_op(ArithOp::Sub, scalar_op(ArithOp::Add, x, c), c) == x,
{
}

/// For `u64` values, wrapping `- c` undoes wrapping `+ c`.
pub proof fn lemma_add_sub_cancels_u64(c: u64)
    ensures
        forall|x: u64| #[trigger] scalar_op(ArithOp::Sub, scalar_op(ArithOp::Add, x, c), c) == x,
{
}

/// For `i8` values, wrapping `- c` undoes wrapping `+ c`.
pub proof fn lemma_add_sub_cancels_i8(c: i8)
    ensures
        forall|x: i8| #[trigger] scalar_op(ArithOp::Sub, scalar_op(ArithOp::Add, x, c), c) == x,
{
}

/// For `i16` values, wrapping `- c` undoes wrapping `+ c`.
pub proof fn lemma_add_sub_cancels_i16(c: i16)
    ensures
        forall|x: i16| #[trigger] scalar_op(ArithOp::Sub, scalar_op(ArithOp::Add, x, c), c) == x,
{
}

/// For `i32` values, wrapping `- c` undoes wrapping `+ c`.
pub proof fn lemma_add_sub_cancels_i32(c: i32)
    ensures
        forall|x: i32| #[trigger] scalar_op(ArithOp::Sub, scalar_op(ArithOp::Add, x, c), c) == x,
{
}

/// For `i64` values, wrapping `- c` undoes wrapping `+ c`.
pub proof fn lemma_add_sub_cancels_i64(c: i64)
    ensures
        forall|x: i64| #[trigger] scalar_op(ArithOp::Sub, scalar_op(ArithOp::Add, x, c), c) == x,
{
}

/// The mapping `(keys, values, fingerprint)` that the allocating operations
/// give when the steps are applied in order, `None` once a step fails. A
/// step `(kind, operand, c)` combines with the mapping `operand` when it is
/// `Some`, and applies `kind` with the scalar `c` to every value otherwise.
pub open spec fn run_allocating<K, V: Scalar>(
    start: (Seq<K>, Seq<V>, Fingerprint),
    steps: Seq<(ArithOp, Option<(Seq<K>, Seq<V>, Fingerprint)>, V)>,
) -> Option<(Seq<K>, Seq<V>, Fingerprint)>
    decreases steps.len(),
{
    if steps.len() == 0 {
        Some(start)
    } else {
        match run_allocating(start, steps.drop_last()) {
            Some(m) => {
                let step = steps.last();
                match step.1 {
                    Some(o) => combine(step.0, m.0, m.1, m.2, o.0, o.1, o.2),
                    None => Some((m.0, with_scalar(step.0, m.1, step.2), m.2)),
                }
            },
            None => None,
        }
    }
}

/// The values that the in-place operations leave in a mapping with `keys`
/// and fingerprint `fp` when the steps of `run_allocating` are applied in
/// order, `None` once a step fails.
pub open spec fn run_inplace<K, V: Scalar>(
    keys: Seq<K>,
    fp: Fingerprint,
    vals: Seq<V>,
    steps: Seq<(ArithOp, Option<(Seq<K>, Seq<V>, Fingerprint)>, V)>,
) -> Option<Seq<V>>
    decreases steps.len(),
{
    if steps.len() == 0 {
        Some(vals)
    } else {
        match run_inplace(keys, fp, vals, steps.drop_last()) {
            Some(v) => {
                let step = steps.last();
                match step.1 {
                    Some(o) => match combine(step.0, keys, v, fp, o.0, o.1, o.2) {
                        Some(e) => Some(e.1),
                        None => None,
                    },
                    None => Some(with_scalar(step.0, v, step.2)),
                }
            },
            None => None,
        }
    }
}

/// A chain of in-place operations leaves the values that the same chain of
/// allocating operations returns, and fails where it fails: each step keeps
/// the mapping's keys and fingerprint when no operand has more keys.
pub proof fn law_inplace_chain_matches_allocating<K, V: Scalar>(
    keys: Seq<K>,
    vals: Seq<V>,
    fp: Fingerprint,
    steps: Seq<(ArithOp, Option<(Seq<K>, Seq<V>, Fingerprint)>, V)>,
)
    requires
        forall|i: int|
            0 <= i < steps.len() ==> ((#[trigger] steps[i]).1 matches Some(o) ==> o.0.len()
                <= keys.len()),
    ensures
        run_allocating((keys, vals, fp), steps) is Some <==> run_inplace(keys, fp, vals, steps) is Some,
        run_allocating((keys, vals, fp), steps) matches Some(m) ==> {
            &&& m.0 == keys
            &&& m.2 == fp
            &&& run_inplace(keys, fp, vals, steps) == Some(m.1)
        },
    decreases steps.len(),
{
    if steps.len() > 0 {
        let prefix = steps.drop_last();
        assert forall|i: int| 0 <= i < prefix.len() implies ((#[trigger] prefix[i]).1 matches Some(
            o,
        ) ==> o.0.len() <= keys.len()) by {
            assert(prefix[i] == steps[i]);
        }
        law_inplace_chain_matches_allocating(keys, vals, fp, prefix);
        assert(steps[steps.len() - 1] == steps.last());
    }
}

} // verus!
