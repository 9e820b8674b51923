//! Buffers of elements of any type.

use vstd::prelude::*;

verus! {

/// A buffer of elements of type `A` in row-major order, with its dimensions
/// described by a value of type `D`.
pub struct Array<A, D> {
    pub dim: D,
    pub data: Vec<A>,
}

} // verus!
