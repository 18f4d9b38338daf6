use std::collections::HashMap;

use vstd::prelude::*;

use crate::errors::CoalignError;
use crate::key_domain::KeyDomain;
use crate::vector_mapping::ValueDomain;

verus! {

/// Each key of `keys` mapped to the position of its last occurrence.
pub open spec fn last_positions<K>(keys: Seq<K>) -> Map<K, usize>
    decreases keys.len(),
{
    if keys.len() == 0 {
        Map::empty()
    } else {
        last_positions(keys.drop_last()).insert(keys.last(), (keys.len() - 1) as usize)
    }
}

/// Each key of `keys` mapped to the position of its first occurrence.
pub open spec fn first_positions<K>(keys: Seq<K>) -> Map<K, usize>
    decreases keys.len(),
{
    if keys.len() == 0 {
        Map::empty()
    } else {
        let earlier = first_positions(keys.drop_last());
        if earlier.contains_key(keys.last()) {
            earlier
        } else {
            earlier.insert(keys.last(), (keys.len() - 1) as usize)
        }
    }
}

/// The values that `positions` picks out for each key of `target`, in the
/// order of `target`; `None` when a key of `target` has no position or two
/// keys of `target` share one.
pub open spec fn realign_by_positions<K, V>(
    target: Seq<K>,
    positions: Map<K, usize>,
    values: Seq<V>,
) -> Option<Seq<V>> {
    if (forall|i: int| 0 <= i < target.len() ==> #[trigger] positions.contains_key(target[i])) && (
    forall|i: int, j: int|
        0 <= i < j < target.len() ==> #[trigger] positions[target[i]] != #[trigger] positions[target[j]])
    {
        Some(Seq::new(target.len(), |i: int| values[positions[target[i]] as int]))
    } else {
        None
    }
}

/// Realigning has got through the first `i` keys of `target` without
/// failing: each has a position, and no two share one.
pub open spec fn realigned_up_to<K>(target: Seq<K>, positions: Map<K, usize>, i: int) -> bool {
    &&& forall|t: int| 0 <= t < i ==> #[trigger] positions.contains_key(target[t])
    &&& forall|t: int, u: int|
        0 <= t < u < i ==> #[trigger] positions[target[t]] != #[trigger] positions[target[u]]
}

/// The last occurrence of each key: it is in range, holds the key, and no
/// later position holds it.
pub proof fn lemma_last_positions<K>(keys: Seq<K>)
    requires
        keys.len() <= usize::MAX,
    ensures
        forall|k: K| #[trigger] last_positions(keys).contains_key(k) <==> keys.contains(k),
        forall|k: K|
            #[trigger] last_positions(keys).contains_key(k) ==> {
                let p = last_positions(keys)[k] as int;
                &&& 0 <= p < keys.len()
                &&& keys[p] == k
                &&& forall|j: int| p < j < keys.len() ==> keys[j] != k
            },
    decreases keys.len(),
{
    if keys.len() > 0 {
        let n = keys.len() as int;
        let init = keys.drop_last();
        lemma_last_positions(init);
        let m = last_positions(keys);
        assert(m == last_positions(init).insert(keys.last(), (n - 1) as usize));
        assert forall|k: K| #[trigger] m.contains_key(k) <==> keys.contains(k) by {
            if k == keys.last() {
                assert(keys[n - 1] == k);
            } else {
                if keys.contains(k) {
                    let w = choose|w: int| 0 <= w < n && keys[w] == k;
                    assert(init[w] == k);
                }
                if init.contains(k) {
                    let w = choose|w: int| 0 <= w < n - 1 && init[w] == k;
                    assert(keys[w] == k);
                }
            }
        }
        assert forall|k: K| #[trigger] m.contains_key(k) implies {
            let p = m[k] as int;
            &&& 0 <= p < keys.len()
            &&& keys[p] == k
            &&& forall|j: int| p < j < keys.len() ==> keys[j] != k
        } by {
            if k != keys.last() {
                let p = m[k] as int;
                assert(init.contains(k));
                assert(keys[p] == init[p]);
                assert forall|j: int| p < j < n implies keys[j] != k by {
                    if j < n - 1 {
                        assert(init[j] == keys[j]);
                    }
                }
            }
        }
    }
}

/// The first occurrence of each key: it is in range, holds the key, and no
/// earlier position holds it.
pub proof fn lemma_first_positions<K>(keys: Seq<K>)
    requires
        keys.len() <= usize::MAX,
    ensures
        forall|k: K| #[trigger] first_positions(keys).contains_key(k) <==> keys.contains(k),
        forall|k: K|
            #[trigger] first_positions(keys).contains_key(k) ==> {
                let p = first_positions(keys)[k] as int;
                &&& 0 <= p < keys.len()
                &&& keys[p] == k
                &&& forall|j: int| 0 <= j < p ==> keys[j] != k
            },
    decreases keys.len(),
{
    if keys.len() > 0 {
        let n = keys.len() as int;
        let init = keys.drop_last();
        lemma_first_positions(init);
        let m = first_positions(keys);
        let earlier = first_positions(init);
        assert forall|k: K| #[trigger] m.contains_key(k) <==> keys.contains(k) by {
            if k == keys.last() {
                assert(keys[n - 1] == k);
            } else {
                if keys.contains(k) {
                    let w = choose|w: int| 0 <= w < n && keys[w] == k;
                    assert(init[w] == k);
                }
                if init.contains(k) {
                    let w = choose|w: int| 0 <= w < n - 1 && init[w] == k;
                    assert(keys[w] == k);
                }
            }
        }
        assert forall|k: K| #[trigger] m.contains_key(k) implies {
            let p = m[k] as int;
            &&& 0 <= p < keys.len()
            &&& keys[p] == k
            &&& forall|j: int| 0 <= j < p ==> keys[j] != k
        } by {
            if earlier.contains_key(k) {
                let p = earlier[k] as int;
                assert(m[k] == earlier[k]);
                assert(keys[p] == init[p]);
                assert forall|j: int| 0 <= j < p implies keys[j] != k by {
                    assert(init[j] == keys[j]);
                }
            } else {
                assert(k == keys.last());
                assert(m[k] == n - 1);
                assert forall|j: int| 0 <= j < n - 1 implies keys[j] != k by {
                    assert(init[j] == keys[j]);
                    if keys[j] == k {
                        assert(init.contains(k));
                    }
                }
            }
        }
    }
}

/// The position of the first occurrence of `key` in `keys`, if any.
fn first_position<K: KeyDomain>(keys: &[K], key: &K) -> (r: Option<usize>)
    ensures
        r == (if first_positions(keys@).contains_key(*key) {
            Some(first_positions(keys@)[*key])
        } else {
            None
        }),
{
    let n = keys.len();
    let mut j: usize = 0;
    while j < n
        invariant
            n == keys@.len(),
            0 <= j <= n,
            forall|t: int| 0 <= t < j ==> keys@[t] != *key,
        decreases n - j,
    {
        if keys[j].key_eq(key) {
            proof {
                lemma_first_positions(keys@);
                assert(keys@[j as int] == *key);
                assert(keys@.contains(*key));
                assert(first_positions(keys@).contains_key(*key));
                let p = first_positions(keys@)[*key] as int;
                assert(keys@[p] == *key);
                if p < j {
                    assert(keys@[p] != *key);
                }
                if p > j {
                    assert(keys@[j as int] != *key);
                }
            }
            return Some(j);
        }
        j = j + 1;
    }
    proof {
        lemma_first_positions(keys@);
        if first_positions(keys@).contains_key(*key) {
            let p = first_positions(keys@)[*key] as int;
            assert(keys@[p] == *key);
        }
    }
    None
}

/// `misaligned_values` corresponds to lhs' values,
/// this function aligns them to rhs' keys: each key of `rhs` is looked up by
/// a scan of `lhs` for its first occurrence. Fails with `IncompatibleKeys`
/// when a key of `rhs` is missing from `lhs` or two keys of `rhs` find the
/// same position.
pub fn realign_values_linear<K, V>(lhs: &[K], rhs: &[K], misaligned_values: &[V]) -> (r: Result<
    Vec<V>,
    CoalignError,
>) where K: KeyDomain, V: ValueDomain
    requires
        lhs@.len() == rhs@.len(),
        forall|i: int|
            0 <= i < rhs@.len() && realigned_up_to(rhs@, first_positions(lhs@), i)
                && #[trigger] first_positions(lhs@).contains_key(rhs@[i]) ==> first_positions(
                lhs@,
            )[rhs@[i]] < misaligned_values@.len(),
    ensures
        match realign_by_positions(rhs@, first_positions(lhs@), misaligned_values@) {
            Some(aligned) => r matches Ok(v) && v@ == aligned,
            None => r == Err::<Vec<V>, CoalignError>(CoalignError::IncompatibleKeys),
        },
{
    let ghost positions = first_positions(lhs@);
    let len = rhs.len();
    proof {
        lemma_first_positions(lhs@);
    }
    let mut reordered_vals: Vec<V> = Vec::new();
    let mut used: Vec<bool> = Vec::new();
    let mut f: usize = 0;
    while f < len
        invariant
            len == rhs@.len(),
            used@.len() == f,
            0 <= f <= len,
            forall|t: int| 0 <= t < f ==> !used@[t],
        decreases len - f,
    {
        used.push(false);
        f = f + 1;
    }
    let mut num_filled: usize = 0;
    let mut i: usize = 0;
    while i < len
        invariant
            len == rhs@.len(),
            len == lhs@.len(),
            forall|t: int|
                0 <= t < rhs@.len() && realigned_up_to(rhs@, positions, t)
                    && #[trigger] positions.contains_key(rhs@[t]) ==> positions[rhs@[t]]
                    < misaligned_values@.len(),
            positions == first_positions(lhs@),
            forall|k: K| #[trigger]
                positions.contains_key(k) ==> positions[k] < lhs@.len(),
            used@.len() == len,
            0 <= i <= len,
            num_filled == i,
            forall|t: int| 0 <= t < i ==> #[trigger] positions.contains_key(rhs@[t]),
            forall|t: int, u: int|
                0 <= t < u < i ==> #[trigger] positions[rhs@[t]] != #[trigger] positions[rhs@[u]],
            forall|p: int|
                0 <= p < len ==> (#[trigger] used@[p] <==> exists|t: int|
                    0 <= t < i && positions[rhs@[t]] == p),
            reordered_vals@ == Seq::new(
                i as nat,
                |t: int| misaligned_values@[positions[rhs@[t]] as int],
            ),
        decreases len - i,
    {
        let pos = match first_position(lhs, &rhs[i]) {
            Some(p) => p,
            None => {
                proof {
                    assert(!positions.contains_key(rhs@[i as int]));
                }
                return Err(CoalignError::IncompatibleKeys);
            },
        };
        if used[pos] {
            proof {
                let t = choose|t: int| 0 <= t < i && positions[rhs@[t]] == pos;
                assert(positions[rhs@[t]] == positions[rhs@[i as int]]);
            }
            return Err(CoalignError::IncompatibleKeys);
        }
        assert(realigned_up_to(rhs@, positions, i as int));
        used.set(pos, true);
        num_filled = num_filled + 1;
        reordered_vals.push(misaligned_values[pos]);
        proof {
            assert forall|p: int|
                0 <= p < len implies (#[trigger] used@[p] <==> exists|t: int|
                    0 <= t < i + 1 && positions[rhs@[t]] == p) by {
                if p == pos {
                    assert(positions[rhs@[i as int]] == p);
                }
            }
            assert forall|t: int, u: int|
                0 <= t < u < i + 1 implies #[trigger] positions[rhs@[t]]
                != #[trigger] positions[rhs@[u]] by {
                if u == i {
                    if positions[rhs@[t]] == positions[rhs@[u]] {
                        assert(used@[positions[rhs@[t]] as int]);
                    }
                }
            }
            assert(reordered_vals@ =~= Seq::new(
                (i + 1) as nat,
                |t: int| misaligned_values@[positions[rhs@[t]] as int],
            ));
        }
        i = i + 1;
    }
    if num_filled < len {
        return Err(CoalignError::IncompatibleKeys);
    }
    Ok(reordered_vals)
}

/// `misaligned_values` corresponds to lhs' values,
/// this function aligns them to rhs' keys: each key of `rhs` is looked up in
/// `pos_mapping_lhs`, the index of `lhs`. Fails with `IncompatibleKeys` when
/// a key of `rhs` has no position or two keys of `rhs` find the same one.
pub fn realign_values_hash<K, V>(
    lhs: &[K],
    rhs: &[K],
    misaligned_values: &[V],
    pos_mapping_lhs: &HashMap<K, usize, K::Hasher>,
) -> (r: Result<Vec<V>, CoalignError>) where K: KeyDomain, V: ValueDomain
    requires
        lhs@.len() == rhs@.len(),
        forall|t: int|
            0 <= t < rhs@.len() && realigned_up_to(rhs@, pos_mapping_lhs@, t)
                && #[trigger] pos_mapping_lhs@.contains_key(rhs@[t]) ==> {
                &&& pos_mapping_lhs@[rhs@[t]] < lhs@.len()
                &&& pos_mapping_lhs@[rhs@[t]] < misaligned_values@.len()
            },
    ensures
        match realign_by_positions(rhs@, pos_mapping_lhs@, misaligned_values@) {
            Some(aligned) => r matches Ok(v) && v@ == aligned,
            None => r == Err::<Vec<V>, CoalignError>(CoalignError::IncompatibleKeys),
        },
{
    let ghost positions = pos_mapping_lhs@;
    let len = rhs.len();
    let mut reordered_vals: Vec<V> = Vec::new();
    let mut used: Vec<bool> = Vec::new();
    let mut f: usize = 0;
    while f < len
        invariant
            len == rhs@.len(),
            used@.len() == f,
            0 <= f <= len,
            forall|t: int| 0 <= t < f ==> !used@[t],
        decreases len - f,
    {
        used.push(false);
        f = f + 1;
    }
    let mut num_filled: usize = 0;
    let mut i: usize = 0;
    while i < len
        invariant
            len == rhs@.len(),
            len == lhs@.len(),
            positions == pos_mapping_lhs@,
            forall|t: int|
                0 <= t < rhs@.len() && realigned_up_to(rhs@, positions, t)
                    && #[trigger] positions.contains_key(rhs@[t]) ==> {
                    &&& positions[rhs@[t]] < lhs@.len()
                    &&& positions[rhs@[t]] < misaligned_values@.len()
                },
            used@.len() == len,
            0 <= i <= len,
            num_filled == i,
            forall|t: int| 0 <= t < i ==> #[trigger] positions.contains_key(rhs@[t]),
            forall|t: int, u: int|
                0 <= t < u < i ==> #[trigger] positions[rhs@[t]] != #[trigger] positions[rhs@[u]],
            forall|p: int|
                0 <= p < len ==> (#[trigger] used@[p] <==> exists|t: int|
                    0 <= t < i && positions[rhs@[t]] == p),
            reordered_vals@ == Seq::new(
                i as nat,
                |t: int| misaligned_values@[positions[rhs@[t]] as int],
            ),
        decreases len - i,
    {
        let pos = match K::pos_get(pos_mapping_lhs, &rhs[i]) {
            Some(p) => p,
            None => {
                return Err(CoalignError::IncompatibleKeys);
            },
        };
        proof {
            assert(positions.contains_key(rhs@[i as int]));
            assert(realigned_up_to(rhs@, positions, i as int));
        }
        if used[pos] {
            proof {
                let t = choose|t: int| 0 <= t < i && positions[rhs@[t]] == pos;
                assert(positions[rhs@[t]] == positions[rhs@[i as int]]);
            }
            return Err(CoalignError::IncompatibleKeys);
        }
        assert(realigned_up_to(rhs@, positions, i as int));
        used.set(pos, true);
        num_filled = num_filled + 1;
        reordered_vals.push(misaligned_values[pos]);
        proof {
            assert forall|p: int|
                0 <= p < len implies (#[trigger] used@[p] <==> exists|t: int|
                    0 <= t < i + 1 && positions[rhs@[t]] == p) by {
                if p == pos {
                    assert(positions[rhs@[i as int]] == p);
                }
            }
            assert forall|t: int, u: int|
                0 <= t < u < i + 1 implies #[trigger] positions[rhs@[t]]
                != #[trigger] positions[rhs@[u]] by {
                if u == i {
                    if positions[rhs@[t]] == positions[rhs@[u]] {
                        assert(used@[positions[rhs@[t]] as int]);
                    }
                }
            }
            assert(reordered_vals@ =~= Seq::new(
                (i + 1) as nat,
                |t: int| misaligned_values@[positions[rhs@[t]] as int],
            ));
        }
        i = i + 1;
    }
    if num_filled < len {
        return Err(CoalignError::IncompatibleKeys);
    }
    Ok(reordered_vals)
}

/// Realigning values to the key sequence they already follow, where that
/// succeeds, leaves them as they are.
pub proof fn lemma_realign_same_keys<K, V>(keys: Seq<K>, vals: Seq<V>)
    requires
        keys.len() <= usize::MAX,
        keys.len() == vals.len(),
    ensures
        realign_by_positions(keys, last_positions(keys), vals) matches Some(aligned) ==> aligned
            == vals,
{
    if let Some(aligned) = realign_by_positions(keys, last_positions(keys), vals) {
        lemma_last_positions(keys);
        let m = last_positions(keys);
        assert forall|i: int| 0 <= i < keys.len() implies #[trigger] aligned[i] == vals[i] by {
            assert(keys.contains(keys[i]));
            assert(m.contains_key(keys[i]));
            let p = m[keys[i]] as int;
            assert(keys[p] == keys[i]);
            if p != i {
                assert(i < p);
                assert(m[keys[i]] == m[keys[p]]);
            }
            assert(aligned[i] == vals[m[keys[i]] as int]);
        }
        assert(aligned =~= vals);
    }
}

} // verus!
