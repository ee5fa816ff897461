//! The operations that the crate offers and what they hand to their callers.

pub mod dtos;
pub mod git_repositories;
pub mod pull_requests;
pub mod traits;
