//! The provider's REST interface: what it sends and what is asked of it.

pub mod enums;
pub mod models;
pub mod repository;
