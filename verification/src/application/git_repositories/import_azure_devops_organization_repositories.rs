use crate::application::traits::{may_have_kept, SecretError, SecretRepository};
use crate::domain::models::GitRepository;
use vstd::prelude::*;

verus! {

/// Why an organization was not imported.
#[derive(Debug, PartialEq, Eq)]
pub enum ImportError<E> {
    /// The repositories of the organization could not be found out.
    Discovery(E),
    /// The secret store did not take the token.
    SecretStorage(SecretError),
}

/// The one secret that an import stores: the key of the first repository
/// that was found, which all the others share. Nothing is stored where no
/// repository was found.
pub open spec fn secret_key_of(git_repositories: Seq<GitRepository>) -> Option<String> {
    if git_repositories.len() > 0 {
        Some(git_repositories[0].pat_secret_key)
    } else {
        None
    }
}

/// The key under which an import stores the token, if it stores one.
pub fn secret_key(git_repositories: &Vec<GitRepository>) -> (key: Option<String>)
    ensures
        key == secret_key_of(git_repositories@),
{
    if git_repositories.len() > 0 {
        Some(git_repositories[0].pat_secret_key.clone())
    } else {
        None
    }
}

/// The repositories to persist, given what was found and the answer of the
/// secret store where it was asked: all that were found, unless the store
/// failed.
pub fn to_persist<E>(
    git_repositories: Vec<GitRepository>,
    answer: Option<Result<(), SecretError>>,
) -> (repositories: Result<Vec<GitRepository>, ImportError<E>>)
    ensures
        answer matches Some(Err(error)) ==> repositories == Err::<
            Vec<GitRepository>,
            ImportError<E>,
        >(ImportError::SecretStorage(error)),
        !(answer matches Some(Err(_))) ==> repositories == Ok::<
            Vec<GitRepository>,
            ImportError<E>,
        >(git_repositories),
{
    match answer {
        Some(Err(error)) => Err(ImportError::SecretStorage(error)),
        _ => Ok(git_repositories),
    }
}

/// Responsible for importing all git repositories from a single
/// Azure DevOps organization
pub struct DevOpsOrgaImporter<S: SecretRepository> {
    secret_repository: S,
}

impl<S: SecretRepository> DevOpsOrgaImporter<S> {
    /// The secret store that the importer works on.
    pub closed spec fn secrets(&self) -> S {
        self.secret_repository
    }

    /// Create a new instance of the importer that keeps tokens in
    /// `secret_repository`.
    pub fn new(secret_repository: S) -> (importer: Self)
        ensures
            importer.secrets() == secret_repository,
    {
        DevOpsOrgaImporter { secret_repository }
    }

    /// Decides what an import persists, given what was found out of the
    /// organization's repositories.
    ///
    /// Where the discovery failed, so does the import. Where no repository
    /// was found, nothing is stored and nothing is to persist. Else the
    /// secret store is asked once to keep `pat` under the key that the
    /// repositories share; if it does, all the repositories are to be
    /// persisted, each on its own and in the order given; if it fails, so
    /// does the import, with the store's error.
    pub fn import<E>(&self, discovery: Result<Vec<GitRepository>, E>, pat: &str) -> (repositories:
        Result<Vec<GitRepository>, ImportError<E>>)
        ensures
            discovery matches Err(error) ==> repositories == Err::<
                Vec<GitRepository>,
                ImportError<E>,
            >(ImportError::Discovery(error)),
            discovery matches Ok(found) ==> match repositories {
                Ok(repositories) => repositories == found && (found@.len() > 0 ==> may_have_kept(
                    self.secrets(),
                    found@[0].pat_secret_key@,
                    pat@,
                )),
                Err(ImportError::SecretStorage(error)) => found@.len() > 0
                    && self.secrets().may_keep(found@[0].pat_secret_key@, pat@, Err(error)),
                Err(ImportError::Discovery(_)) => false,
            },
    {
        let git_repositories = match discovery {
            Ok(git_repositories) => git_repositories,
            Err(error) => {
                return Err(ImportError::Discovery(error));
            },
        };
        let answer = match secret_key(&git_repositories) {
            Some(key) => {
                let answer = self.secret_repository.set_secret(key.as_str(), pat);
                assert(self.secrets().may_keep(git_repositories@[0].pat_secret_key@, pat@, answer));
                Some(answer)
            },
            None => None,
        };
        to_persist(git_repositories, answer)
    }
}

} // verus!
