//! The open pull requests of all active repositories.

pub mod chronology;
pub mod get_open_pull_requests;
