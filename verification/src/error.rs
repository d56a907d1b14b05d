//! Errors reported by the store's query operations.

use vstd::prelude::*;

verus! {

/// An error returned by a query over the store.
///
/// An absent identifier is not an error: `get` reports it with `None`.
#[derive(Clone, Copy, Debug, PartialEq, Eq, Structural)]
pub enum VectorError {
    /// A nearest-neighbour query was made against a store with no records.
    EmptyStore,
    /// Two vectors of unequal length were compared.
    DimensionMismatch,
}

} // verus!
