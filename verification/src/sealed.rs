//! A trait that only this crate can implement, to keep the content-keyed key
//! types to the ones whose equality and hashing go by their contents.

use std::sync::Arc;

use vstd::prelude::*;

verus! {

/// Implemented by `&str`, `&[u8]` and `Arc<str>` only.
pub trait Sealed {

}

impl<'a> Sealed for &'a str {

}

impl<'a> Sealed for &'a [u8] {

}

impl Sealed for Arc<str> {

}

} // verus!
