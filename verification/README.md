# coalign

Arithmetic over keyed numeric mappings: "hash maps you can add together".
A `VectorMapping` stores its keys and values in two containers of the same
length. Two mappings are combined by key:

- the same key sequence: position by position (a matching fingerprint
  selects this path cheaply, the keys are then compared one by one);
- same number of keys in another order: the right values are realigned to the
  left keys, then combined position by position;
- one key set smaller than the other: the smaller mapping's entries are
  folded into the larger one by key, each shared key getting
  `left value op right value`; the result has the larger key set;
- otherwise: `CoalignError::IncompatibleKeys`.

Scalars combine with every value (`add_scalar`, ..., and the operators
`&m + s`, `s / &m`). In-place variants change the left mapping's values;
there the right mapping may not have more keys than the left.

The library is written in Verus and proved against its contracts.

## Layout

- `src/vector_mapping.rs`: the mapping, its ordering (keys, fingerprint,
  position index), the spec of combining (`combine`, `fold_into`) and the
  operations.
- `src/coalignment.rs`: realigning values from one key order to another, by
  scan or by the position index.
- `src/vector_ops.rs`: the `Scalar` value trait, the element-wise kernels and
  the operation types `VectorAdd`, `VectorSub`, `VectorMul`, `VectorDiv`.
- `src/primitive_scalars.rs`: `Scalar` for the integer types (wrapping `+`,
  `-`, `*`; `/` defined when it does not fail).
- `src/key_domain.rs`: the `KeyDomain` key trait and its implementations for
  integers, `&str`, `&[u8]` and `Arc<str>`.
- `src/byte_layout.rs`: how integer keys and framed string keys are laid out
  as bytes for their fingerprint.
- `src/operators.rs`: operator syntax with a scalar on either side.
- `src/conversions.rs`, `src/sorting.rs`: building a mapping from a `HashMap`,
  for every key type (`KeyDomain::map_iter` and `KeyDomain::sort_entries`).
- `src/hashing.rs`: the calls into `xxhash-rust`, `rustc-hash`, `bytemuck`
  and std that carry trusted contracts.
- `src/laws.rs`: properties across functions (combination by key,
  realignment, symmetry, in-place versus allocating).
- `app/lib.rs`: the error type with `std::error::Error` (via `thiserror`) and
  the floating-point value types, which stay unverified.
