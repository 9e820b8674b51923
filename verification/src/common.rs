//! Types shared across the crate.

pub mod array;
pub mod typing;
