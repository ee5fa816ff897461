//! The records of the directory of tracked repositories.

pub mod daos;
