//! Booleans, binary digits, unsigned integers of any size and heterogeneous
//! lists, with every operation specified and proved.
//!
//! * [`bool`] holds the two boolean marker types and the choice between two
//!   computations that one of them makes.
//! * [`num`] holds the binary digit and the unsigned integer made of a chain
//!   of digits, together with the arithmetic on it.
//! * [`list`] holds the heterogeneous list, which such an integer indexes.
use vstd::prelude::*;

pub mod bool;
pub mod list;
pub mod num;
mod seal;

verus! {

/// The marker for an operation that has no result, such as decrementing zero
/// or reading past the end of a list.
///
/// It carries no information. Operations that may have no result return it as
/// the error of a `Result`, and an operation that is handed one hands it on.
#[derive(Clone, Copy, Debug, PartialEq, Eq, Structural)]
pub struct Invalid;

} // verus!
