//! What every space offers, and the bounds that a space is built from.

use crate::tensor::{Device, Number, Tensor, TensorView};
use crate::utils::seeding::Generator;
use vstd::prelude::*;

verus! {

/// What is common to the spaces of observations and actions.
#[derive(Debug, Clone)]
pub struct Spacial {
    pub shape: Option<Vec<u32>>,
    pub dtype: Option<String>,
    pub rs_random: Generator,
    pub device: Option<Device>,
}

/// A space: the set of valid observations or actions of an environment, from
/// which elements of type `Elem` can be drawn and tested for membership.
pub trait Space<Elem> {
    /// Whether the space can draw elements yet.
    spec fn can_sample(&self) -> bool;

    /// Whether the elements can be mapped to flat vectors of numbers without
    /// loss.
    fn is_flattenable(&self) -> bool;

    /// Draws a random element, within `mask` where one is given.
    fn sample<Mask>(&self, mask: Option<Mask>) -> Elem
        requires
            self.can_sample(),
    ;

    /// Replaces the generator of the space by one made from `seed`, or from
    /// fresh entropy where none is given, and returns the seeds applied.
    fn seed(&mut self, seed: Option<usize>) -> Vec<usize>;

    /// Whether `x` is an element of the space.
    fn contains<T>(&self, x: T) -> bool;
}

/// A bound of a box: one number for every element, or a buffer that gives
/// each element its own.
pub enum Bound {
    Scalar(Number),
    Tensor(Tensor),
}

/// What a bound is.
pub enum BoundView {
    Scalar(Number),
    Tensor(TensorView),
}

impl View for Bound {
    type V = BoundView;

    open spec fn view(&self) -> BoundView {
        match self {
            Bound::Scalar(x) => BoundView::Scalar(*x),
            Bound::Tensor(t) => BoundView::Tensor(t@),
        }
    }
}

impl BoundView {
    /// The shape of the bound, where it is a buffer.
    pub open spec fn shape(self) -> Option<Seq<usize>> {
        match self {
            BoundView::Scalar(_) => None,
            BoundView::Tensor(t) => Some(t.shape),
        }
    }

    /// The buffer that the bound stands for in a space of the given shape:
    /// a scalar fills the shape, a buffer is taken as it is.
    pub open spec fn materialized(self, shape: Seq<usize>) -> TensorView {
        match self {
            BoundView::Scalar(x) => TensorView::full(x, shape),
            BoundView::Tensor(t) => t,
        }
    }
}

} // verus!
