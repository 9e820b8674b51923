//! Environments and their registration.

pub mod registration;
