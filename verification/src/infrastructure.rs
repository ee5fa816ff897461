//! What the crate knows of the services around it: the provider's wire
//! format and requests, the directory's records, the secret store's name.

pub mod azure_devops;
pub mod database;
pub mod secret_storage;
