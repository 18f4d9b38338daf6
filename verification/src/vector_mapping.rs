use std::collections::HashMap;
use std::fmt::Debug;
use std::marker::PhantomData;
use std::sync::Arc;

use vstd::prelude::*;
use vstd::std_specs::hash::spec_hash_map_iter;
use vstd::std_specs::iter::IteratorSpec;
use vstd::slice::slice_to_vec;

use crate::coalignment::{
    last_positions, lemma_last_positions, lemma_realign_same_keys, realign_by_positions,
    realign_values_hash,
};
use crate::errors::CoalignError;
use crate::hashing::arc_clone;
pub use crate::key_domain::{Fingerprint, KeyDomain};
use crate::vector_ops::{
    elementwise, elementwise_defined, op_defined, scalar_op, scalar_with, scalar_with_defined,
    with_scalar, with_scalar_defined, Scalar, VectorAdd, VectorDiv, VectorMul, VectorOp, VectorSub, ArithOp,
};

verus! {

/// A value type of a mapping.
pub trait ValueDomain: Scalar + Debug {

}

impl<T: Scalar + Debug> ValueDomain for T {

}

/// Something that holds a sequence of keys.
pub trait KeyContainer<K>: Sized {
    /// The keys, in order.
    spec fn key_seq(&self) -> Seq<K>;

    fn key_slice(&self) -> (s: &[K])
        ensures
            s@ == self.key_seq(),
    ;

    fn clone_keys(&self) -> (c: Self)
        ensures
            c.key_seq() == self.key_seq(),
    ;
}

/// Something that holds a sequence of values.
pub trait ValueContainer<V>: Sized {
    /// The values, in order.
    spec fn value_seq(&self) -> Seq<V>;

    fn value_slice(&self) -> (s: &[V])
        ensures
            s@ == self.value_seq(),
    ;

    fn clone_values(&self) -> (c: Self)
        ensures
            c.value_seq() == self.value_seq(),
    ;
}

/// A value container whose values can be changed in place.
pub trait MutValueContainer<V>: ValueContainer<V> {
    fn value_slice_mut(&mut self) -> (s: &mut [V])
        ensures
            s@ == old(self).value_seq(),
            final(s)@ == final(self).value_seq(),
    ;
}

impl<K: KeyDomain> KeyContainer<K> for Vec<K> {
    open spec fn key_seq(&self) -> Seq<K> {
        self@
    }

    fn key_slice(&self) -> (s: &[K]) {
        self.as_slice()
    }

    fn clone_keys(&self) -> (c: Vec<K>) {
        let mut c: Vec<K> = Vec::new();
        let n = self.len();
        let mut i: usize = 0;
        while i < n
            invariant
                n == self@.len(),
                0 <= i <= n,
                c@ == self@.take(i as int),
            decreases n - i,
        {
            c.push(self[i].clone_key());
            assert(c@ =~= self@.take(i + 1));
            i = i + 1;
        }
        assert(self@.take(n as int) =~= self@);
        c
    }
}

impl<K: KeyDomain + Copy, const N: usize> KeyContainer<K> for [K; N] {
    open spec fn key_seq(&self) -> Seq<K> {
        self@
    }

    fn key_slice(&self) -> (s: &[K]) {
        self.as_slice()
    }

    fn clone_keys(&self) -> (c: [K; N]) {
        *self
    }
}

impl<V: Copy> ValueContainer<V> for Vec<V> {
    open spec fn value_seq(&self) -> Seq<V> {
        self@
    }

    fn value_slice(&self) -> (s: &[V]) {
        self.as_slice()
    }

    fn clone_values(&self) -> (c: Vec<V>) {
        slice_to_vec(self.as_slice())
    }
}

impl<V: Copy> MutValueContainer<V> for Vec<V> {
    fn value_slice_mut(&mut self) -> (s: &mut [V]) {
        self.as_mut_slice()
    }
}

impl<V: Copy, const N: usize> ValueContainer<V> for [V; N] {
    open spec fn value_seq(&self) -> Seq<V> {
        self@
    }

    fn value_slice(&self) -> (s: &[V]) {
        self.as_slice()
    }

    fn clone_values(&self) -> (c: [V; N]) {
        *self
    }
}

impl<V: Copy, const N: usize> MutValueContainer<V> for [V; N] {
    fn value_slice_mut(&mut self) -> (s: &mut [V]) {
        self
    }
}

/// The keys of a mapping together with their fingerprint and the index from
/// each key to its position, which copies of the container share.
#[derive(Debug)]
pub struct OrderingContainer<K: KeyDomain, KC: KeyContainer<K>> {
    fingerprint: Fingerprint,
    labels: KC,
    pos: Arc<HashMap<K, usize, K::Hasher>>,
}

impl<K: KeyDomain, KC: KeyContainer<K>> OrderingContainer<K, KC> {
    #[verifier::type_invariant]
    spec fn index_matches_labels(self) -> bool {
        &&& self.pos@ == last_positions(self.labels.key_seq())
        &&& self.labels.key_seq().len() <= usize::MAX
        &&& K::fingerprint_of(self.labels.key_seq(), self.fingerprint)
    }

    /// The keys, in order.
    pub closed spec fn labels_view(self) -> Seq<K> {
        self.labels.key_seq()
    }

    /// The fingerprint computed from the keys.
    pub closed spec fn fingerprint_view(self) -> Fingerprint {
        self.fingerprint
    }

    /// The ordering of `keys`: their fingerprint and position index.
    pub fn new(keys: KC) -> (r: Self)
        ensures
            r.labels_view() == keys.key_seq(),
            K::fingerprint_of(keys.key_seq(), r.fingerprint_view()),
    {
        let key_slice = keys.key_slice();
        proof {
            // the length of a slice fits in `usize`
            assert(key_slice@.len() == key_slice.len());
        }
        let fingerprint = K::fingerprint(key_slice);
        let pos = Arc::new(K::build_pos(key_slice));
        Self { fingerprint, labels: keys, pos }
    }

    /// A copy with the same keys and fingerprint that shares this
    /// container's position index.
    fn duplicate(&self) -> (r: Self)
        ensures
            r.labels_view() == self.labels_view(),
            r.fingerprint_view() == self.fingerprint_view(),
    {
        proof {
            use_type_invariant(self);
        }
        let labels = self.labels.clone_keys();
        let pos = arc_clone(&self.pos);
        Self { fingerprint: self.fingerprint, labels, pos }
    }
}

impl<K: KeyDomain, KC: KeyContainer<K>> Clone for OrderingContainer<K, KC> {
    fn clone(&self) -> (r: Self)
        ensures
            r.labels_view() == self.labels_view(),
            r.fingerprint_view() == self.fingerprint_view(),
    {
        self.duplicate()
    }
}

/// `kind` applied to a value held in a buffer and an entry's value: the
/// entry's value is the left operand when `first`, the right one otherwise.
pub open spec fn fold_step<V: Scalar>(kind: ArithOp, first: bool, held: V, entry: V) -> V {
    if first {
        scalar_op(kind, entry, held)
    } else {
        scalar_op(kind, held, entry)
    }
}

/// Whether `fold_step` is defined on these operands.
pub open spec fn fold_step_defined<V: Scalar>(kind: ArithOp, first: bool, held: V, entry: V) -> bool {
    if first {
        op_defined(kind, entry, held)
    } else {
        op_defined(kind, held, entry)
    }
}

/// Values of `buf` after combining, in order, the first `n` entries of
/// `(keys, vals)` into it: each key is looked up in `positions` and the
/// value there becomes `fold_step(kind, first, buf value, entry value)`.
/// `None` when a key has no position.
pub open spec fn fold_into<K, V: Scalar>(
    kind: ArithOp,
    first: bool,
    buf: Seq<V>,
    positions: Map<K, usize>,
    keys: Seq<K>,
    vals: Seq<V>,
    n: nat,
) -> Option<Seq<V>>
    decreases n,
{
    if n == 0 {
        Some(buf)
    } else {
        match fold_into(kind, first, buf, positions, keys, vals, (n - 1) as nat) {
            Some(prev) => {
                let k = keys[n - 1];
                if positions.contains_key(k) {
                    let p = positions[k] as int;
                    Some(prev.update(p, fold_step(kind, first, prev[p], vals[n - 1])))
                } else {
                    None
                }
            },
            None => None,
        }
    }
}

/// Every operation that `fold_into` performs is defined.
pub open spec fn fold_defined<K, V: Scalar>(
    kind: ArithOp,
    first: bool,
    buf: Seq<V>,
    positions: Map<K, usize>,
    keys: Seq<K>,
    vals: Seq<V>,
    n: nat,
) -> bool
    decreases n,
{
    n == 0 || {
        &&& fold_defined(kind, first, buf, positions, keys, vals, (n - 1) as nat)
        &&& match fold_into(kind, first, buf, positions, keys, vals, (n - 1) as nat) {
            Some(prev) => positions.contains_key(keys[n - 1]) ==> fold_step_defined(
                kind,
                first,
                prev[positions[keys[n - 1]] as int],
                vals[n - 1],
            ),
            None => true,
        }
    }
}

/// The keys, values and fingerprint that combining the mapping
/// `(lk, lv, lf)` with `(rk, rv, rf)` by `kind` gives; `None` when the keys
/// are incompatible.
///
/// - The same key sequence: position by position, keeping the left keys.
/// - Same length otherwise: the right values realigned to the left keys, then
///   position by position.
/// - Different lengths: the shorter mapping's entries folded into the longer
///   one's values by key, each shared key getting `kind(left value, right
///   value)`; every key of the shorter must occur in the longer.
pub open spec fn combine<K, V: Scalar>(
    kind: ArithOp,
    lk: Seq<K>,
    lv: Seq<V>,
    lf: Fingerprint,
    rk: Seq<K>,
    rv: Seq<V>,
    rf: Fingerprint,
) -> Option<(Seq<K>, Seq<V>, Fingerprint)> {
    if lk == rk {
        Some((lk, elementwise(kind, lv, rv), lf))
    } else if lk.len() == rk.len() {
        match realign_by_positions(lk, last_positions(rk), rv) {
            Some(aligned) => Some((lk, elementwise(kind, lv, aligned), lf)),
            None => None,
        }
    } else if lk.len() > rk.len() {
        match fold_into(kind, false, lv, last_positions(lk), rk, rv, rk.len()) {
            Some(vals) => Some((lk, vals, lf)),
            None => None,
        }
    } else {
        match fold_into(kind, true, rv, last_positions(rk), lk, lv, lk.len()) {
            Some(vals) => Some((rk, vals, rf)),
            None => None,
        }
    }
}

/// Every operation that `combine` performs is defined.
pub open spec fn combine_defined<K, V: Scalar>(
    kind: ArithOp,
    lk: Seq<K>,
    lv: Seq<V>,
    lf: Fingerprint,
    rk: Seq<K>,
    rv: Seq<V>,
    rf: Fingerprint,
) -> bool {
    if lk == rk {
        elementwise_defined(kind, lv, rv)
    } else if lk.len() == rk.len() {
        match realign_by_positions(lk, last_positions(rk), rv) {
            Some(aligned) => elementwise_defined(kind, lv, aligned),
            None => true,
        }
    } else if lk.len() > rk.len() {
        fold_defined(kind, false, lv, last_positions(lk), rk, rv, rk.len())
    } else {
        fold_defined(kind, true, rv, last_positions(rk), lk, lv, lk.len())
    }
}

/// Definedness of a fold carries over to its shorter prefixes.
pub proof fn lemma_fold_defined_prefix<K, V: Scalar>(
    kind: ArithOp,
    first: bool,
    buf: Seq<V>,
    positions: Map<K, usize>,
    keys: Seq<K>,
    vals: Seq<V>,
    m: nat,
    n: nat,
)
    requires
        m <= n,
        fold_defined(kind, first, buf, positions, keys, vals, n),
    ensures
        fold_defined(kind, first, buf, positions, keys, vals, m),
    decreases n,
{
    if m < n {
        lemma_fold_defined_prefix(kind, first, buf, positions, keys, vals, m, (n - 1) as nat);
    }
}

/// Folding into positions inside `buf` keeps its length.
pub proof fn lemma_fold_len<K, V: Scalar>(
    kind: ArithOp,
    first: bool,
    buf: Seq<V>,
    positions: Map<K, usize>,
    keys: Seq<K>,
    vals: Seq<V>,
    n: nat,
)
    requires
        forall|k: K| #[trigger] positions.contains_key(k) ==> positions[k] < buf.len(),
    ensures
        fold_into(kind, first, buf, positions, keys, vals, n) matches Some(out) ==> out.len() == buf.len(),
    decreases n,
{
    if n > 0 {
        lemma_fold_len(kind, first, buf, positions, keys, vals, (n - 1) as nat);
    }
}

/// Once a fold has failed, folding more entries fails too.
pub proof fn lemma_fold_none_stays<K, V: Scalar>(
    kind: ArithOp,
    first: bool,
    buf: Seq<V>,
    positions: Map<K, usize>,
    keys: Seq<K>,
    vals: Seq<V>,
    m: nat,
    n: nat,
)
    requires
        m <= n,
        fold_into(kind, first, buf, positions, keys, vals, m) is None,
    ensures
        fold_into(kind, first, buf, positions, keys, vals, n) is None,
    decreases n,
{
    if m < n {
        lemma_fold_none_stays(kind, first, buf, positions, keys, vals, m, (n - 1) as nat);
    }
}

/// Without division, every operation of `combine` is defined.
pub proof fn lemma_combine_defined_unless_div<K, V: Scalar>(
    kind: ArithOp,
    lk: Seq<K>,
    lv: Seq<V>,
    lf: Fingerprint,
    rk: Seq<K>,
    rv: Seq<V>,
    rf: Fingerprint,
)
    requires
        !(kind is Div),
    ensures
        combine_defined(kind, lk, lv, lf, rk, rv, rf),
{
    lemma_fold_defined_unless_div(kind, false, lv, last_positions(lk), rk, rv, rk.len());
    lemma_fold_defined_unless_div(kind, true, rv, last_positions(rk), lk, lv, lk.len());
}

proof fn lemma_fold_defined_unless_div<K, V: Scalar>(
    kind: ArithOp,
    first: bool,
    buf: Seq<V>,
    positions: Map<K, usize>,
    keys: Seq<K>,
    vals: Seq<V>,
    n: nat,
)
    requires
        !(kind is Div),
    ensures
        fold_defined(kind, first, buf, positions, keys, vals, n),
    decreases n,
{
    if n > 0 {
        lemma_fold_defined_unless_div(kind, first, buf, positions, keys, vals, (n - 1) as nat);
    }
}

/// The in-place outcome that `expected` describes: `Ok` with the values it
/// gives, or `IncompatibleKeys` with the values unchanged.
pub open spec fn inplace_outcome_matches<K, V>(
    r: Result<(), CoalignError>,
    before: Seq<V>,
    after: Seq<V>,
    expected: Option<(Seq<K>, Seq<V>, Fingerprint)>,
) -> bool {
    match expected {
        Some(e) => r is Ok && after == e.1,
        None => r == Err::<(), CoalignError>(CoalignError::IncompatibleKeys) && after == before,
    }
}

/// Keys in the key type's order (`KeyDomain::key_le`).
pub open spec fn keys_in_order<K: KeyDomain>(keys: Seq<K>) -> bool {
    forall|i: int, j: int|
        0 <= i < j < keys.len() ==> K::key_le(#[trigger] keys[i], #[trigger] keys[j])
}

/// `keys` and `vals` list the entries of `m`, each key once.
pub open spec fn entries_of<K, V>(keys: Seq<K>, vals: Seq<V>, m: Map<K, V>) -> bool {
    &&& keys.len() == vals.len()
    &&& keys.no_duplicates()
    &&& keys.to_set() == m.dom()
    &&& forall|i: int| 0 <= i < keys.len() ==> #[trigger] m[keys[i]] == vals[i]
}

/// Overwrites `dst` with the values of `src`.
fn copy_values<V: Copy>(dst: &mut [V], src: &[V])
    requires
        old(dst)@.len() == src@.len(),
    ensures
        final(dst)@ == src@,
{
    let n = src.len();
    let mut i: usize = 0;
    while i < n
        invariant
            n == src@.len(),
            dst@.len() == n,
            0 <= i <= n,
            forall|j: int| 0 <= j < i ==> #[trigger] dst@[j] == src@[j],
        decreases n - i,
    {
        dst[i] = src[i];
        i = i + 1;
    }
    assert(dst@ =~= src@);
}

/// The keys and values of `map`, in its iteration order.
fn map_entries<K: KeyDomain, V: Copy>(map: &HashMap<K, V>) -> (r: (Vec<K>, Vec<V>))
    ensures
        entries_of(r.0@, r.1@, map@),
{
    broadcast use vstd::std_specs::hash::group_hash_axioms;

    let ghost pairs = spec_hash_map_iter(map).remaining();
    let mut keys: Vec<K> = Vec::new();
    let mut values: Vec<V> = Vec::new();
    for (k, v) in it: K::map_iter(map)
        invariant
            it.seq() == pairs,
            keys@.len() == it.index(),
            values@.len() == it.index(),
            forall|j: int|
                0 <= j < it.index() ==> keys@[j] == *pairs[j].0 && values@[j] == *pairs[j].1,
    {
        keys.push(k.clone_key());
        values.push(*v);
    }
    proof {
        {
            assert(keys@.len() == pairs.len());
            assert forall|i: int| 0 <= i < keys@.len() implies #[trigger] map@[keys@[i]]
                == values@[i] by {
                assert(map@.contains_key(*pairs[i].0));
            }
            assert forall|i: int, j: int| 0 <= i < j < keys@.len() implies keys@[i]
                != keys@[j] by {
                assert(map@.contains_key(*pairs[i].0));
                assert(map@.contains_key(*pairs[j].0));
                if keys@[i] == keys@[j] {
                    assert(pairs[i] == pairs[j]);
                }
            }
            assert forall|k: K| #[trigger] keys@.to_set().contains(k) <==> map@.dom().contains(k) by {
                if map@.contains_key(k) {
                    assert(pairs.contains((&k, &map@[k])));
                    let w = choose|w: int| 0 <= w < pairs.len() && pairs[w] == (&k, &map@[k]);
                    assert(keys@[w] == k);
                }
                if keys@.to_set().contains(k) {
                    assert(keys@.contains(k));
                    let w = choose|w: int| 0 <= w < keys@.len() && keys@[w] == k;
                    assert(map@.contains_key(*pairs[w].0));
                }
            }
            assert(keys@.to_set() =~= map@.dom());
        }
    }
    (keys, values)
}

/// A mapping from keys to values, stored as a key container and a value
/// container of the same length.
#[derive(Debug)]
pub struct VectorMapping<K: KeyDomain, V, KC: KeyContainer<K>, VC: ValueContainer<V>> {
    ordering: OrderingContainer<K, KC>,
    values: VC,
    _marker: PhantomData<V>,
}

/// `r` is the outcome that `expected` describes: the mapping with those
/// keys, values and fingerprint, or `IncompatibleKeys`.
pub open spec fn outcome_matches<K: KeyDomain, V: Copy, KC: KeyContainer<K>>(
    r: Result<VectorMapping<K, V, KC, Vec<V>>, CoalignError>,
    expected: Option<(Seq<K>, Seq<V>, Fingerprint)>,
) -> bool {
    match expected {
        Some(e) => r matches Ok(m) && m.wf() && m.keys_view() == e.0 && m.values_view() == e.1
            && m.fingerprint_view() == e.2,
        None => r == Err::<VectorMapping<K, V, KC, Vec<V>>, CoalignError>(
            CoalignError::IncompatibleKeys,
        ),
    }
}

impl<K: KeyDomain, V, KC: KeyContainer<K>, VC: ValueContainer<V>> VectorMapping<K, V, KC, VC> {
    /// The values and the keys have the same length, and the fingerprint is
    /// one that the key type gives for the keys.
    pub open spec fn wf(self) -> bool {
        &&& self.values_view().len() == self.keys_view().len()
        &&& K::fingerprint_of(self.keys_view(), self.fingerprint_view())
    }

    /// The keys, in order.
    pub closed spec fn keys_view(self) -> Seq<K> {
        self.ordering.labels_view()
    }

    /// The values, in the order of the keys.
    pub closed spec fn values_view(self) -> Seq<V> {
        self.values.value_seq()
    }

    /// The fingerprint of the key order.
    pub closed spec fn fingerprint_view(self) -> Fingerprint {
        self.ordering.fingerprint_view()
    }
}

impl<K: KeyDomain, V: ValueDomain, KC: KeyContainer<K>, VC: ValueContainer<V>> VectorMapping<
    K,
    V,
    KC,
    VC,
> {
    /// The mapping of `keys[i]` to `values[i]`; both must have the same length.
    pub fn new(keys: KC, values: VC) -> (r: Self)
        requires
            keys.key_seq().len() == values.value_seq().len(),
        ensures
            r.wf(),
            r.keys_view() == keys.key_seq(),
            r.values_view() == values.value_seq(),
    {
        Self { ordering: OrderingContainer::new(keys), values, _marker: PhantomData }
    }

    fn with_ordering(ordering: &OrderingContainer<K, KC>, values: VC) -> (r: Self)
        requires
            ordering.labels_view().len() == values.value_seq().len(),
        ensures
            r.wf(),
            r.keys_view() == ordering.labels_view(),
            r.values_view() == values.value_seq(),
            r.fingerprint_view() == ordering.fingerprint_view(),
    {
        proof {
            use_type_invariant(ordering);
        }
        Self { ordering: ordering.duplicate(), values, _marker: PhantomData }
    }

    /// The value of the last occurrence of `key`, if `key` occurs.
    pub fn get(&self, key: &K) -> (r: Option<&V>)
        requires
            self.wf(),
        ensures
            match r {
                Some(v) => last_positions(self.keys_view()).contains_key(*key) && *v
                    == self.values_view()[last_positions(self.keys_view())[*key] as int],
                None => !last_positions(self.keys_view()).contains_key(*key),
            },
    {
        proof {
            use_type_invariant(&self.ordering);
            lemma_last_positions(self.keys_view());
        }
        match K::pos_get(&*self.ordering.pos, key) {
            Some(idx) => {
                proof {
                    assert(last_positions(self.keys_view()).contains_key(*key));
                }
                Some(&self.values.value_slice()[idx])
            },
            None => None,
        }
    }

    /// The value at position `idx`, if there is one.
    pub fn get_idx(&self, idx: usize) -> (r: Option<&V>)
        ensures
            match r {
                Some(v) => idx < self.values_view().len() && *v == self.values_view()[idx as int],
                None => idx >= self.values_view().len(),
            },
    {
        let vals = self.values.value_slice();
        if idx < vals.len() {
            Some(&vals[idx])
        } else {
            None
        }
    }

    /// The keys, in order.
    pub fn keys(&self) -> (r: &KC)
        ensures
            r.key_seq() == self.keys_view(),
    {
        &self.ordering.labels
    }

    /// The values, in the order of the keys.
    pub fn values(&self) -> (r: &VC)
        ensures
            r.value_seq() == self.values_view(),
    {
        &self.values
    }

    /// The number of entries.
    pub fn len(&self) -> (r: usize)
        ensures
            r == self.keys_view().len(),
    {
        self.ordering.labels.key_slice().len()
    }

    /// Whether `other` has the same key sequence, compared key by key.
    fn same_keys<VC2: ValueContainer<V>>(&self, other: &VectorMapping<K, V, KC, VC2>) -> (r: bool)
        ensures
            r == (self.keys_view() == other.keys_view()),
    {
        let a = self.ordering.labels.key_slice();
        let b = other.ordering.labels.key_slice();
        if a.len() != b.len() {
            assert(a@.len() != b@.len());
            return false;
        }
        let n = a.len();
        let mut i: usize = 0;
        while i < n
            invariant
                n == a@.len(),
                n == b@.len(),
                a@ == self.keys_view(),
                b@ == other.keys_view(),
                0 <= i <= n,
                forall|j: int| 0 <= j < i ==> a@[j] == b@[j],
            decreases n - i,
        {
            if !a[i].key_eq(&b[i]) {
                assert(a@[i as int] != b@[i as int]);
                return false;
            }
            i = i + 1;
        }
        assert(a@ =~= b@);
        true
    }

    /// Whether there are no entries.
    pub fn is_empty(&self) -> (r: bool)
        ensures
            r == (self.keys_view().len() == 0),
    {
        self.len() == 0
    }

    /// These values, rearranged into the key order of `target_order`.
    pub fn aligned_to<VC2: ValueContainer<V>>(&self, target_order: &VectorMapping<K, V, KC, VC2>) -> (r:
        Result<VectorMapping<K, V, KC, Vec<V>>, CoalignError>)
        requires
            self.wf(),
            self.keys_view().len() == target_order.keys_view().len(),
        ensures
            outcome_matches(
                r,
                match realign_by_positions(
                    target_order.keys_view(),
                    last_positions(self.keys_view()),
                    self.values_view(),
                ) {
                    Some(aligned) => Some(
                        (target_order.keys_view(), aligned, target_order.fingerprint_view()),
                    ),
                    None => None,
                },
            ),
    {
        proof {
            use_type_invariant(&self.ordering);
            lemma_last_positions(self.keys_view());
        }
        let reordered_vals = realign_values_hash(
            self.ordering.labels.key_slice(),
            target_order.ordering.labels.key_slice(),
            self.values.value_slice(),
            &*self.ordering.pos,
        )?;
        Ok(VectorMapping::with_ordering(&target_order.ordering, reordered_vals))
    }

    /// The ordering and the values, taken apart.
    pub fn into_parts(self) -> (r: (OrderingContainer<K, KC>, VC))
        ensures
            r.0.labels_view() == self.keys_view(),
            r.0.fingerprint_view() == self.fingerprint_view(),
            r.1.value_seq() == self.values_view(),
    {
        (self.ordering, self.values)
    }

    /// A mapping from an ordering and values of the same length.
    pub fn from_parts<VC2>(ordering: OrderingContainer<K, KC>, values: VC2) -> (r: VectorMapping<
        K,
        V,
        KC,
        VC2,
    >) where VC2: ValueContainer<V>
        requires
            ordering.labels_view().len() == values.value_seq().len(),
        ensures
            r.wf(),
            r.keys_view() == ordering.labels_view(),
            r.fingerprint_view() == ordering.fingerprint_view(),
            r.values_view() == values.value_seq(),
    {
        proof {
            use_type_invariant(&ordering);
        }
        VectorMapping { ordering, values, _marker: PhantomData }
    }

    fn op<O: VectorOp, VC2: ValueContainer<V>>(&self, rhs: &VectorMapping<K, V, KC, VC2>) -> (r:
        Result<VectorMapping<K, V, KC, Vec<V>>, CoalignError>)
        requires
            self.wf(),
            rhs.wf(),
            combine_defined(
                O::kind(),
                self.keys_view(),
                self.values_view(),
                self.fingerprint_view(),
                rhs.keys_view(),
                rhs.values_view(),
                rhs.fingerprint_view(),
            ),
        ensures
            outcome_matches(
                r,
                combine(
                    O::kind(),
                    self.keys_view(),
                    self.values_view(),
                    self.fingerprint_view(),
                    rhs.keys_view(),
                    rhs.values_view(),
                    rhs.fingerprint_view(),
                ),
            ),
    {
        if self.len() == rhs.len() {
            // equal fingerprints make equal keys likely; the keys decide
            if self.ordering.fingerprint == rhs.ordering.fingerprint && self.same_keys(rhs) {
                return Ok(
                    VectorMapping::with_ordering(
                        &self.ordering,
                        O::apply(self.values.value_slice(), rhs.values.value_slice()),
                    ),
                );
            }
            proof {
                use_type_invariant(&self.ordering);
                lemma_realign_same_keys(self.keys_view(), rhs.values_view());
            }
            match rhs.aligned_to(self) {
                Ok(rhs_aligned_to_lhs) => {
                    let new_vals = O::apply(
                        self.values.value_slice(),
                        rhs_aligned_to_lhs.values.value_slice(),
                    );
                    return Ok(VectorMapping::with_ordering(&self.ordering, new_vals));
                },
                Err(e) => {
                    // equal key sequences with repeated keys do not realign
                    if self.same_keys(rhs) {
                        return Ok(
                            VectorMapping::with_ordering(
                                &self.ordering,
                                O::apply(self.values.value_slice(), rhs.values.value_slice()),
                            ),
                        );
                    }
                    return Err(e);
                },
            }
        }
        // When the key sets differ in size, the smaller mapping's entries are
        // folded one by one into a copy of the larger mapping's values, with
        // this mapping's value on the left of the operation either way.
        if self.len() > rhs.len() {
            Self::op_large_small::<O, VC, VC2>(self, rhs, false)
        } else {
            Self::op_large_small::<O, VC2, VC>(rhs, self, true)
        }
    }

    /// The values of `large` with the entries of `small` folded in by key:
    /// `small value op large value` when `small_first`, the other way round
    /// otherwise.
    fn op_large_small<O: VectorOp, L: ValueContainer<V>, S: ValueContainer<V>>(
        large: &VectorMapping<K, V, KC, L>,
        small: &VectorMapping<K, V, KC, S>,
        small_first: bool,
    ) -> (r: Result<VectorMapping<K, V, KC, Vec<V>>, CoalignError>)
        requires
            large.wf(),
            small.wf(),
            fold_defined(
                O::kind(),
                small_first,
                large.values_view(),
                last_positions(large.keys_view()),
                small.keys_view(),
                small.values_view(),
                small.keys_view().len(),
            ),
        ensures
            outcome_matches(
                r,
                match fold_into(
                    O::kind(),
                    small_first,
                    large.values_view(),
                    last_positions(large.keys_view()),
                    small.keys_view(),
                    small.values_view(),
                    small.keys_view().len(),
                ) {
                    Some(vals) => Some((large.keys_view(), vals, large.fingerprint_view())),
                    None => None,
                },
            ),
    {
        proof {
            use_type_invariant(&large.ordering);
            lemma_last_positions(large.keys_view());
        }
        let ghost kind = O::kind();
        let ghost first = small_first;
        let ghost positions = last_positions(large.keys_view());
        let ghost lvals = large.values_view();
        let ghost skeys = small.keys_view();
        let ghost svals = small.values_view();
        let large_pos = &*large.ordering.pos;
        let mut buf = slice_to_vec(large.values.value_slice());
        let small_keys = small.ordering.labels.key_slice();
        let small_vals = small.values.value_slice();
        let n = small_keys.len();
        let mut i: usize = 0;
        while i < n
            invariant
                n == skeys.len(),
                skeys == small_keys@,
                svals == small_vals@,
                svals.len() == n,
                large_pos@ == positions,
                forall|k: K| #[trigger] positions.contains_key(k) ==> positions[k] < lvals.len(),
                0 <= i <= n,
                fold_into(kind, first, lvals, positions, skeys, svals, i as nat) == Some(buf@),
                fold_defined(kind, first, lvals, positions, skeys, svals, n as nat),
                kind == O::kind(),
                first == small_first,
                positions == last_positions(large.keys_view()),
                lvals == large.values_view(),
                skeys == small.keys_view(),
                svals == small.values_view(),
            decreases n - i,
        {
            proof {
                lemma_fold_len(kind, first, lvals, positions, skeys, svals, i as nat);
                lemma_fold_defined_prefix(
                    kind,
                    first,
                    lvals,
                    positions,
                    skeys,
                    svals,
                    (i + 1) as nat,
                    n as nat,
                );
            }
            let pos = match K::pos_get(large_pos, &small_keys[i]) {
                Some(p) => p,
                None => {
                    proof {
                        assert(fold_into(kind, first, lvals, positions, skeys, svals, (i + 1) as nat)
                            is None);
                        lemma_fold_none_stays(
                            kind,
                            first,
                            lvals,
                            positions,
                            skeys,
                            svals,
                            (i + 1) as nat,
                            n as nat,
                        );
                        assert(fold_into(kind, first, lvals, positions, skeys, svals, skeys.len()) is None);
                    }
                    return Err(CoalignError::IncompatibleKeys);
                },
            };
            let x = if small_first {
                O::apply_scalar_scalar(small_vals[i], buf[pos])
            } else {
                O::apply_scalar_scalar(buf[pos], small_vals[i])
            };
            buf.set(pos, x);
            i = i + 1;
        }
        proof {
            lemma_fold_len(kind, first, lvals, positions, skeys, svals, n as nat);
        }
        Ok(VectorMapping::with_ordering(&large.ordering, buf))
    }

    /// The entries of `map`, in the map's iteration order.
    #[must_use]
    pub fn from_map_unsorted(map: &HashMap<K, V>) -> (r: VectorMapping<K, V, Vec<K>, Vec<V>>)
        ensures
            r.wf(),
            entries_of(r.keys_view(), r.values_view(), map@),
    {
        let (keys, values) = map_entries(map);
        VectorMapping::new(keys, values)
    }

    /// Applies `O` with the right operand `rhs` to every value.
    pub fn op_scalar<O: VectorOp>(&self, rhs: V) -> (r: VectorMapping<K, V, KC, Vec<V>>)
        requires
            self.wf(),
            with_scalar_defined(O::kind(), self.values_view(), rhs),
        ensures
            r.wf(),
            r.keys_view() == self.keys_view(),
            r.fingerprint_view() == self.fingerprint_view(),
            r.values_view() == with_scalar(O::kind(), self.values_view(), rhs),
    {
        VectorMapping::with_ordering(&self.ordering, O::apply_scalar(self.values.value_slice(), rhs))
    }

    /// Combines the two mappings by key with `+`; see `combine`.
    pub fn add<VC2: ValueContainer<V>>(&self, rhs: &VectorMapping<K, V, KC, VC2>) -> (r: Result<
        VectorMapping<K, V, KC, Vec<V>>,
        CoalignError,
    >)
        requires
            self.wf(),
            rhs.wf(),
        ensures
            outcome_matches(
                r,
                combine(
                ArithOp::Add,
                self.keys_view(),
                self.values_view(),
                self.fingerprint_view(),
                rhs.keys_view(),
                rhs.values_view(),
                rhs.fingerprint_view(),
                ),
            ),
    {
        proof {
            lemma_combine_defined_unless_div(
                ArithOp::Add,
                self.keys_view(),
                self.values_view(),
                self.fingerprint_view(),
                rhs.keys_view(),
                rhs.values_view(),
                rhs.fingerprint_view(),
            );
        }
        self.op::<VectorAdd, VC2>(rhs)
    }

    /// Combines the two mappings by key with `-`; see `combine`.
    pub fn sub<VC2: ValueContainer<V>>(&self, rhs: &VectorMapping<K, V, KC, VC2>) -> (r: Result<
        VectorMapping<K, V, KC, Vec<V>>,
        CoalignError,
    >)
        requires
            self.wf(),
            rhs.wf(),
        ensures
            outcome_matches(
                r,
                combine(
                ArithOp::Sub,
                self.keys_view(),
                self.values_view(),
                self.fingerprint_view(),
                rhs.keys_view(),
                rhs.values_view(),
                rhs.fingerprint_view(),
                ),
            ),
    {
        proof {
            lemma_combine_defined_unless_div(
                ArithOp::Sub,
                self.keys_view(),
                self.values_view(),
                self.fingerprint_view(),
                rhs.keys_view(),
                rhs.values_view(),
                rhs.fingerprint_view(),
            );
        }
        self.op::<VectorSub, VC2>(rhs)
    }

    /// Combines the two mappings by key with `*`; see `combine`.
    pub fn mul<VC2: ValueContainer<V>>(&self, rhs: &VectorMapping<K, V, KC, VC2>) -> (r: Result<
        VectorMapping<K, V, KC, Vec<V>>,
        CoalignError,
    >)
        requires
            self.wf(),
            rhs.wf(),
        ensures
            outcome_matches(
                r,
                combine(
                ArithOp::Mul,
                self.keys_view(),
                self.values_view(),
                self.fingerprint_view(),
                rhs.keys_view(),
                rhs.values_view(),
                rhs.fingerprint_view(),
                ),
            ),
    {
        proof {
            lemma_combine_defined_unless_div(
                ArithOp::Mul,
                self.keys_view(),
                self.values_view(),
                self.fingerprint_view(),
                rhs.keys_view(),
                rhs.values_view(),
                rhs.fingerprint_view(),
            );
        }
        self.op::<VectorMul, VC2>(rhs)
    }

    /// Combines the two mappings by key with `/`; see `combine`.
    pub fn div<VC2: ValueContainer<V>>(&self, rhs: &VectorMapping<K, V, KC, VC2>) -> (r: Result<
        VectorMapping<K, V, KC, Vec<V>>,
        CoalignError,
    >)
        requires
            self.wf(),
            rhs.wf(),
            combine_defined(
                ArithOp::Div,
                self.keys_view(),
                self.values_view(),
                self.fingerprint_view(),
                rhs.keys_view(),
                rhs.values_view(),
                rhs.fingerprint_view(),
            ),
        ensures
            outcome_matches(
                r,
                combine(
                ArithOp::Div,
                self.keys_view(),
                self.values_view(),
                self.fingerprint_view(),
                rhs.keys_view(),
                rhs.values_view(),
                rhs.fingerprint_view(),
                ),
            ),
    {
        self.op::<VectorDiv, VC2>(rhs)
    }

    /// Applies `+ rhs` to every value.
    pub fn add_scalar(&self, rhs: V) -> (r: VectorMapping<K, V, KC, Vec<V>>)
        requires
            self.wf(),
        ensures
            r.wf(),
            r.keys_view() == self.keys_view(),
            r.fingerprint_view() == self.fingerprint_view(),
            r.values_view() == with_scalar(ArithOp::Add, self.values_view(), rhs),
    {
        self.op_scalar::<VectorAdd>(rhs)
    }

    /// Applies `- rhs` to every value.
    pub fn sub_scalar(&self, rhs: V) -> (r: VectorMapping<K, V, KC, Vec<V>>)
        requires
            self.wf(),
        ensures
            r.wf(),
            r.keys_view() == self.keys_view(),
            r.fingerprint_view() == self.fingerprint_view(),
            r.values_view() == with_scalar(ArithOp::Sub, self.values_view(), rhs),
    {
        self.op_scalar::<VectorSub>(rhs)
    }

    /// Applies `* rhs` to every value.
    pub fn mul_scalar(&self, rhs: V) -> (r: VectorMapping<K, V, KC, Vec<V>>)
        requires
            self.wf(),
        ensures
            r.wf(),
            r.keys_view() == self.keys_view(),
            r.fingerprint_view() == self.fingerprint_view(),
            r.values_view() == with_scalar(ArithOp::Mul, self.values_view(), rhs),
    {
        self.op_scalar::<VectorMul>(rhs)
    }

    /// Applies `/ rhs` to every value.
    pub fn div_scalar(&self, rhs: V) -> (r: VectorMapping<K, V, KC, Vec<V>>)
        requires
            self.wf(),
            with_scalar_defined(ArithOp::Div, self.values_view(), rhs),
        ensures
            r.wf(),
            r.keys_view() == self.keys_view(),
            r.fingerprint_view() == self.fingerprint_view(),
            r.values_view() == with_scalar(ArithOp::Div, self.values_view(), rhs),
    {
        self.op_scalar::<VectorDiv>(rhs)
    }

    /// Applies `O` with the left operand `lhs` to every value: `lhs op v`.
    pub(crate) fn scalar_op_first<O: VectorOp>(&self, lhs: V) -> (r: VectorMapping<K, V, KC, Vec<V>>)
        requires
            self.wf(),
            scalar_with_defined(O::kind(), lhs, self.values_view()),
        ensures
            r.wf(),
            r.keys_view() == self.keys_view(),
            r.fingerprint_view() == self.fingerprint_view(),
            r.values_view() == scalar_with(O::kind(), lhs, self.values_view()),
    {
        let src = self.values.value_slice();
        let mut out: Vec<V> = Vec::with_capacity(src.len());
        for i in 0..src.len()
            invariant
                src@ == self.values_view(),
                scalar_with_defined(O::kind(), lhs, src@),
                out@.len() == i,
                forall|j: int| 0 <= j < i ==> #[trigger] out@[j] == scalar_op(O::kind(), lhs, src@[j]),
        {
            out.push(O::apply_scalar_scalar(lhs, src[i]));
        }
        assert(out@ =~= scalar_with(O::kind(), lhs, self.values_view()));
        VectorMapping::with_ordering(&self.ordering, out)
    }
}

impl<K: KeyDomain, V: ValueDomain, KC: KeyContainer<K>, VC: MutValueContainer<V>> VectorMapping<
    K,
    V,
    KC,
    VC,
> {
    fn op_inplace<O: VectorOp, VC2: ValueContainer<V>>(
        &mut self,
        rhs: &VectorMapping<K, V, KC, VC2>,
    ) -> (r: Result<(), CoalignError>)
        requires
            old(self).wf(),
            rhs.wf(),
            rhs.keys_view().len() <= old(self).keys_view().len(),
            combine_defined(
                O::kind(),
                old(self).keys_view(),
                old(self).values_view(),
                old(self).fingerprint_view(),
                rhs.keys_view(),
                rhs.values_view(),
                rhs.fingerprint_view(),
            ),
        ensures
            final(self).wf(),
            final(self).keys_view() == old(self).keys_view(),
            final(self).fingerprint_view() == old(self).fingerprint_view(),
            inplace_outcome_matches(
                r,
                old(self).values_view(),
                final(self).values_view(),
                combine(
                    O::kind(),
                    old(self).keys_view(),
                    old(self).values_view(),
                    old(self).fingerprint_view(),
                    rhs.keys_view(),
                    rhs.values_view(),
                    rhs.fingerprint_view(),
                ),
            ),
    {
        let ghost before = self.values_view();
        if self.len() == rhs.len() && self.ordering.fingerprint == rhs.ordering.fingerprint
            && self.same_keys(rhs) {
            O::apply_inplace(self.values.value_slice_mut(), rhs.values.value_slice());
            assert(self.values_view() =~= elementwise(O::kind(), before, rhs.values_view()));
        } else if self.len() == rhs.len() {
            proof {
                use_type_invariant(&self.ordering);
                lemma_realign_same_keys(self.keys_view(), rhs.values_view());
            }
            match rhs.aligned_to(self) {
                Ok(rhs_aligned_to_lhs) => {
                    O::apply_inplace(
                        self.values.value_slice_mut(),
                        rhs_aligned_to_lhs.values.value_slice(),
                    );
                    assert(self.values_view() =~= elementwise(
                        O::kind(),
                        before,
                        rhs_aligned_to_lhs.values_view(),
                    ));
                },
                Err(e) => {
                    // equal key sequences with repeated keys do not realign
                    if self.same_keys(rhs) {
                        O::apply_inplace(self.values.value_slice_mut(), rhs.values.value_slice());
                        assert(self.values_view() =~= elementwise(
                            O::kind(),
                            before,
                            rhs.values_view(),
                        ));
                    } else {
                        return Err(e);
                    }
                },
            }
        } else {
            // fewer keys on the right: fold them into these values by key
            let combined = Self::op_large_small::<O, VC, VC2>(self, rhs, false)?;
            copy_values(self.values.value_slice_mut(), combined.values.value_slice());
        }
        Ok(())
    }

    fn op_scalar_inplace<O: VectorOp>(&mut self, rhs: V)
        requires
            old(self).wf(),
            with_scalar_defined(O::kind(), old(self).values_view(), rhs),
        ensures
            final(self).wf(),
            final(self).keys_view() == old(self).keys_view(),
            final(self).fingerprint_view() == old(self).fingerprint_view(),
            final(self).values_view() == with_scalar(O::kind(), old(self).values_view(), rhs),
    {
        O::apply_scalar_inplace(self.values.value_slice_mut(), rhs);
    }

    /// Combines `rhs` into these values by key with `+`; `rhs` may
    /// not have more keys than this mapping, whose keys stay as they are. On an
    /// error the values are left unchanged.
    pub fn add_inplace<VC2: ValueContainer<V>>(&mut self, rhs: &VectorMapping<K, V, KC, VC2>) -> (r:
        Result<(), CoalignError>)
        requires
            old(self).wf(),
            rhs.wf(),
            rhs.keys_view().len() <= old(self).keys_view().len(),
        ensures
            final(self).wf(),
            final(self).keys_view() == old(self).keys_view(),
            final(self).fingerprint_view() == old(self).fingerprint_view(),
            inplace_outcome_matches(
                r,
                old(self).values_view(),
                final(self).values_view(),
                combine(
                    ArithOp::Add,
                    old(self).keys_view(),
                    old(self).values_view(),
                    old(self).fingerprint_view(),
                    rhs.keys_view(),
                    rhs.values_view(),
                    rhs.fingerprint_view(),
                ),
            ),
    {
        proof {
            lemma_combine_defined_unless_div(
                ArithOp::Add,
                self.keys_view(),
                self.values_view(),
                self.fingerprint_view(),
                rhs.keys_view(),
                rhs.values_view(),
                rhs.fingerprint_view(),
            );
        }
        self.op_inplace::<VectorAdd, VC2>(rhs)
    }

    /// Combines `rhs` into these values by key with `-`; `rhs` may
    /// not have more keys than this mapping, whose keys stay as they are. On an
    /// error the values are left unchanged.
    pub fn sub_inplace<VC2: ValueContainer<V>>(&mut self, rhs: &VectorMapping<K, V, KC, VC2>) -> (r:
        Result<(), CoalignError>)
        requires
            old(self).wf(),
            rhs.wf(),
            rhs.keys_view().len() <= old(self).keys_view().len(),
        ensures
            final(self).wf(),
            final(self).keys_view() == old(self).keys_view(),
            final(self).fingerprint_view() == old(self).fingerprint_view(),
            inplace_outcome_matches(
                r,
                old(self).values_view(),
                final(self).values_view(),
                combine(
                    ArithOp::Sub,
                    old(self).keys_view(),
                    old(self).values_view(),
                    old(self).fingerprint_view(),
                    rhs.keys_view(),
                    rhs.values_view(),
                    rhs.fingerprint_view(),
                ),
            ),
    {
        proof {
            lemma_combine_defined_unless_div(
                ArithOp::Sub,
                self.keys_view(),
                self.values_view(),
                self.fingerprint_view(),
                rhs.keys_view(),
                rhs.values_view(),
                rhs.fingerprint_view(),
            );
        }
        self.op_inplace::<VectorSub, VC2>(rhs)
    }

    /// Combines `rhs` into these values by key with `*`; `rhs` may
    /// not have more keys than this mapping, whose keys stay as they are. On an
    /// error the values are left unchanged.
    pub fn mul_inplace<VC2: ValueContainer<V>>(&mut self, rhs: &VectorMapping<K, V, KC, VC2>) -> (r:
        Result<(), CoalignError>)
        requires
            old(self).wf(),
            rhs.wf(),
            rhs.keys_view().len() <= old(self).keys_view().len(),
        ensures
            final(self).wf(),
            final(self).keys_view() == old(self).keys_view(),
            final(self).fingerprint_view() == old(self).fingerprint_view(),
            inplace_outcome_matches(
                r,
                old(self).values_view(),
                final(self).values_view(),
                combine(
                    ArithOp::Mul,
                    old(self).keys_view(),
                    old(self).values_view(),
                    old(self).fingerprint_view(),
                    rhs.keys_view(),
                    rhs.values_view(),
                    rhs.fingerprint_view(),
                ),
            ),
    {
        proof {
            lemma_combine_defined_unless_div(
                ArithOp::Mul,
                self.keys_view(),
                self.values_view(),
                self.fingerprint_view(),
                rhs.keys_view(),
                rhs.values_view(),
                rhs.fingerprint_view(),
            );
        }
        self.op_inplace::<VectorMul, VC2>(rhs)
    }

    /// Combines `rhs` into these values by key with `/`; `rhs` may
    /// not have more keys than this mapping, whose keys stay as they are. On an
    /// error the values are left unchanged.
    pub fn div_inplace<VC2: ValueContainer<V>>(&mut self, rhs: &VectorMapping<K, V, KC, VC2>) -> (r:
        Result<(), CoalignError>)
        requires
            old(self).wf(),
            rhs.wf(),
            rhs.keys_view().len() <= old(self).keys_view().len(),
            combine_defined(
                ArithOp::Div,
                old(self).keys_view(),
                old(self).values_view(),
                old(self).fingerprint_view(),
                rhs.keys_view(),
                rhs.values_view(),
                rhs.fingerprint_view(),
            ),
        ensures
            final(self).wf(),
            final(self).keys_view() == old(self).keys_view(),
            final(self).fingerprint_view() == old(self).fingerprint_view(),
            inplace_outcome_matches(
                r,
                old(self).values_view(),
                final(self).values_view(),
                combine(
                    ArithOp::Div,
                    old(self).keys_view(),
                    old(self).values_view(),
                    old(self).fingerprint_view(),
                    rhs.keys_view(),
                    rhs.values_view(),
                    rhs.fingerprint_view(),
                ),
            ),
    {
        self.op_inplace::<VectorDiv, VC2>(rhs)
    }

    /// Applies `+ rhs` to every value in place.
    pub fn add_scalar_inplace(&mut self, rhs: V)
        requires
            old(self).wf(),
        ensures
            final(self).wf(),
            final(self).keys_view() == old(self).keys_view(),
            final(self).fingerprint_view() == old(self).fingerprint_view(),
            final(self).values_view() == with_scalar(ArithOp::Add, old(self).values_view(), rhs),
    {
        self.op_scalar_inplace::<VectorAdd>(rhs);
    }

    /// Applies `- rhs` to every value in place.
    pub fn sub_scalar_inplace(&mut self, rhs: V)
        requires
            old(self).wf(),
        ensures
            final(self).wf(),
            final(self).keys_view() == old(self).keys_view(),
            final(self).fingerprint_view() == old(self).fingerprint_view(),
            final(self).values_view() == with_scalar(ArithOp::Sub, old(self).values_view(), rhs),
    {
        self.op_scalar_inplace::<VectorSub>(rhs);
    }

    /// Applies `* rhs` to every value in place.
    pub fn mul_scalar_inplace(&mut self, rhs: V)
        requires
            old(self).wf(),
        ensures
            final(self).wf(),
            final(self).keys_view() == old(self).keys_view(),
            final(self).fingerprint_view() == old(self).fingerprint_view(),
            final(self).values_view() == with_scalar(ArithOp::Mul, old(self).values_view(), rhs),
    {
        self.op_scalar_inplace::<VectorMul>(rhs);
    }

    /// Applies `/ rhs` to every value in place.
    pub fn div_scalar_inplace(&mut self, rhs: V)
        requires
            old(self).wf(),
            with_scalar_defined(ArithOp::Div, old(self).values_view(), rhs),
        ensures
            final(self).wf(),
            final(self).keys_view() == old(self).keys_view(),
            final(self).fingerprint_view() == old(self).fingerprint_view(),
            final(self).values_view() == with_scalar(ArithOp::Div, old(self).values_view(), rhs),
    {
        self.op_scalar_inplace::<VectorDiv>(rhs);
    }
}

impl<K: KeyDomain + Ord, V: ValueDomain> VectorMapping<K, V, Vec<K>, Vec<V>> {
    /// The entries of `map`, ordered by key.
    #[must_use]
    pub fn from_map_sorted(map: &HashMap<K, V>) -> (r: Self)
        ensures
            r.wf(),
            entries_of(r.keys_view(), r.values_view(), map@),
            keys_in_order(r.keys_view()),
    {
        let (keys, values) = map_entries(map);
        let n = keys.len();
        let mut k_v_sorted: Vec<(K, V)> = Vec::new();
        let mut i: usize = 0;
        while i < n
            invariant
                n == keys@.len(),
                n == values@.len(),
                0 <= i <= n,
                k_v_sorted@.len() == i,
                forall|j: int| 0 <= j < i ==> #[trigger] k_v_sorted@[j] == (keys@[j], values@[j]),
            decreases n - i,
        {
            k_v_sorted.push((keys[i].clone_key(), values[i]));
            i = i + 1;
        }
        let ghost unsorted = k_v_sorted@;
        proof {
            assert(unsorted.no_duplicates()) by {
                assert forall|a: int, b: int| 0 <= a < b < unsorted.len() implies unsorted[a]
                    != unsorted[b] by {
                    assert(keys@[a] != keys@[b]);
                }
            }
            unsorted.lemma_multiset_has_no_duplicates();
        }
        K::sort_entries(&mut k_v_sorted);
        let ghost sorted = k_v_sorted@;
        proof {
            broadcast use vstd::seq_lib::group_to_multiset_ensures;

            sorted.lemma_multiset_has_no_duplicates_conv();
            assert(sorted.len() == sorted.to_multiset().len());
            assert(unsorted.len() == unsorted.to_multiset().len());
            assert(sorted.len() == n);
        }
        let mut sorted_keys: Vec<K> = Vec::new();
        let mut sorted_values: Vec<V> = Vec::new();
        let mut t: usize = 0;
        while t < n
            invariant
                sorted == k_v_sorted@,
                sorted.len() == n,
                0 <= t <= n,
                sorted_keys@.len() == t,
                sorted_values@.len() == t,
                forall|j: int|
                    0 <= j < t ==> #[trigger] sorted_keys@[j] == sorted[j].0 && sorted_values@[j]
                        == sorted[j].1,
            decreases n - t,
        {
            sorted_keys.push(k_v_sorted[t].0.clone_key());
            sorted_values.push(k_v_sorted[t].1);
            t = t + 1;
        }
        proof {
            broadcast use vstd::seq_lib::group_to_multiset_ensures;

            assert(sorted.len() == unsorted.len());
            // every sorted entry is an entry of the map
            assert forall|j: int| 0 <= j < n implies #[trigger] unsorted.contains(sorted[j]) by {
                assert(sorted.contains(sorted[j]));
                assert(sorted.to_multiset().count(sorted[j]) > 0);
            }
            assert forall|j: int| 0 <= j < n implies map@.contains_key(sorted[j].0) && map@[sorted[j].0]
                == sorted[j].1 by {
                assert(unsorted.contains(sorted[j]));
                let w = choose|w: int| 0 <= w < unsorted.len() && unsorted[w] == sorted[j];
                assert(keys@.to_set().contains(keys@[w]));
                assert(map@[keys@[w]] == values@[w]);
            }
            assert forall|a: int, b: int| 0 <= a < b < n implies sorted_keys@[a]
                != sorted_keys@[b] by {
                assert(sorted[a] != sorted[b]);
                assert(map@[sorted[a].0] == sorted[a].1);
                assert(map@[sorted[b].0] == sorted[b].1);
            }
            assert forall|k: K| #[trigger] sorted_keys@.to_set().contains(k) <==> map@.dom().contains(
                k,
            ) by {
                if map@.dom().contains(k) {
                    assert(keys@.to_set().contains(k));
                    assert(keys@.contains(k));
                    let w = choose|w: int| 0 <= w < keys@.len() && keys@[w] == k;
                    assert(unsorted[w] == (keys@[w], values@[w]));
                    assert(unsorted.contains(unsorted[w]));
                    assert(unsorted.to_multiset().count(unsorted[w]) > 0);
                    assert(sorted.contains(unsorted[w]));
                    let v = choose|v: int| 0 <= v < sorted.len() && sorted[v] == unsorted[w];
                    assert(sorted_keys@[v] == k);
                    assert(sorted_keys@.contains(k));
                }
                if sorted_keys@.to_set().contains(k) {
                    assert(sorted_keys@.contains(k));
                    let v = choose|v: int| 0 <= v < sorted_keys@.len() && sorted_keys@[v] == k;
                    assert(map@.contains_key(sorted[v].0));
                }
            }
            assert(sorted_keys@.to_set() =~= map@.dom());
            assert forall|j: int| 0 <= j < n implies #[trigger] map@[sorted_keys@[j]]
                == sorted_values@[j] by {
                assert(map@[sorted[j].0] == sorted[j].1);
            }
            assert forall|a: int, b: int| 0 <= a < b < sorted_keys@.len() implies K::key_le(
                #[trigger] sorted_keys@[a],
                #[trigger] sorted_keys@[b],
            ) by {
                assert(K::key_le(sorted[a].0, sorted[b].0));
            }
        }
        VectorMapping::new(sorted_keys, sorted_values)
    }
}

impl<K: KeyDomain, V: Copy, KC: KeyContainer<K>, VC: ValueContainer<V>> Clone for VectorMapping<
    K,
    V,
    KC,
    VC,
> {
    fn clone(&self) -> (r: Self)
        ensures
            r.keys_view() == self.keys_view(),
            r.values_view() == self.values_view(),
            r.fingerprint_view() == self.fingerprint_view(),
    {
        VectorMapping {
            ordering: self.ordering.duplicate(),
            values: self.values.clone_values(),
            _marker: PhantomData,
        }
    }
}

} // verus!