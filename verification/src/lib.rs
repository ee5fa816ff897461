//! Discovery of the repositories of an organization and aggregation of the
//! open pull requests of every tracked repository.
//!
//! The crate holds the decisions of both operations as verified functions on
//! plain values: which remote calls to issue, what to keep of their outcomes,
//! how a pull request is summarised and in which order the summaries are
//! handed out. Issuing the calls is left to the caller.

pub mod domain;
pub mod fan_in;
pub mod text;
pub mod infrastructure;
pub mod application;
