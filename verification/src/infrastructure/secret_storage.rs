use vstd::prelude::*;

verus! {

/// Names the part of the system's keyring in which the secrets are kept.
#[derive(Debug, PartialEq, Eq)]
pub struct KeyringRepository {
    service_name: String,
}

impl KeyringRepository {
    /// The service identifier under which the secrets are stored.
    pub closed spec fn service(&self) -> String {
        self.service_name
    }

    /// Creates a new instance
    ///
    /// # Arguments
    ///
    /// * `service_name` - The service identifier to use for storing secrets
    pub fn new(service_name: String) -> (repository: Self)
        ensures
            repository.service() == service_name,
    {
        KeyringRepository { service_name }
    }

    /// The service identifier under which the secrets are stored.
    pub fn service_name(&self) -> (service_name: &str)
        ensures
            service_name@ == self.service()@,
    {
        self.service_name.as_str()
    }
}

} // verus!
