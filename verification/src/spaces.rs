//! Spaces: the sets of valid observations and actions.

pub mod box_space;
pub mod space;
