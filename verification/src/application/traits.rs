//! What the crate asks of the services around it.

use vstd::prelude::*;

verus! {

/// Why the secret store could not serve a request.
#[derive(Debug, PartialEq, Eq)]
pub struct SecretError {
    pub message: String,
}

/// Must be implemented by stores that keep secrets.
///
/// Nothing is assumed of what a store answers: it may fail at any time, and
/// what it holds may change between two calls. The three relations name the
/// answers that a store may give to a request. A store that says nothing of
/// them may give any answer; a store that is verified may say more. The
/// contracts of this crate speak of a store's answers through these
/// relations alone, and hold of every store whatever it says of them.
pub trait SecretRepository {
    /// Whether the store may give `answer` when it is asked for the secret
    /// that is kept under `key`.
    open spec fn may_answer(&self, key: Seq<char>, answer: Result<String, SecretError>) -> bool {
        true
    }

    /// Whether the store may give `answer` when it is asked to keep `value`
    /// under `key`.
    open spec fn may_keep(
        &self,
        key: Seq<char>,
        value: Seq<char>,
        answer: Result<(), SecretError>,
    ) -> bool {
        true
    }

    /// Whether the store may give `answer` when it is asked to remove the
    /// secret that is kept under `key`.
    open spec fn may_remove(&self, key: Seq<char>, answer: Result<(), SecretError>) -> bool {
        true
    }

    /// Retrieve the secret that is kept under `key`.
    fn get_secret(&self, key: &str) -> (answer: Result<String, SecretError>)
        ensures
            self.may_answer(key@, answer),
    ;

    /// Keep `value` under `key`.
    fn set_secret(&self, key: &str, value: &str) -> (answer: Result<(), SecretError>)
        ensures
            self.may_keep(key@, value@, answer),
    ;

    /// Remove the secret that is kept under `key`.
    fn delete_secret(&self, key: &str) -> (answer: Result<(), SecretError>)
        ensures
            self.may_remove(key@, answer),
    ;
}

/// Whether the store may answer with success when it is asked to keep
/// `value` under `key`.
pub open spec fn may_have_kept<S: SecretRepository>(
    store: S,
    key: Seq<char>,
    value: Seq<char>,
) -> bool {
    exists|answer: Result<(), SecretError>| #[trigger]
        store.may_keep(key, value, answer) && answer is Ok
}

} // verus!
