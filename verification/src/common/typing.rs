//! The kinds of buffer that an observation or an action can be.

use crate::common::array::Array;
use crate::tensor::Tensor;
use vstd::prelude::*;

verus! {

/// A buffer of numbers, or a buffer of elements of another type.
pub enum NDArray<A, D> {
    Tensor(Tensor),
    Array(Array<A, D>),
}

} // verus!
