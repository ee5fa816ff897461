//! The entities that the rest of the crate speaks of.

pub mod enums;
pub mod models;
