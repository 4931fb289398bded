//! Keeps the families of marker types closed.
use vstd::prelude::*;

verus! {

/// Implemented by the types of this crate that stand for a boolean or a
/// list. The traits over those families have it as a supertrait, so that no
/// other type can join them.
pub trait Sealed {
}

/// A token for the list methods that only the list itself calls.
pub struct Key {}

impl Sealed for Key {
}

} // verus!
