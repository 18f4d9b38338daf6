//! Arithmetic over keyed numeric mappings: "hash maps you can add together".
//!
//! Keys and values are stored in two containers of the same length. Two
//! mappings are combined by key: when their keys come in the same order the
//! values are combined position by position, otherwise the values of one are
//! realigned to the key order of the other first, and when one key set is
//! smaller its entries are folded into the larger mapping by key.

pub mod byte_layout;
pub mod coalignment;
pub mod conversions;
pub mod errors;
pub mod hashing;
pub mod key_domain;
pub mod primitive_scalars;
mod sealed;
pub mod scalar_laws;
pub mod sorting;
pub mod vector_mapping;
pub mod vector_ops;

pub use vector_mapping::VectorMapping;
pub mod laws;
pub mod operators;
pub mod order_laws;
