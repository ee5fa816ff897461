use crate::application::traits::{may_have_kept, SecretError, SecretRepository};
use crate::domain::models::GitRepository;
use vstd::prelude::*;

verus! {

/// Why the token of a repository was not replaced.
#[derive(Debug, PartialEq, Eq)]
pub enum UpdatePatError<E> {
    /// The directory could not hand out the repository.
    RepositoryLookup(E),
    /// The secret store did not take the token.
    SecretStorage(SecretError),
}

/// What the command ends with, given the answer of the secret store.
pub fn stored<E>(answer: Result<(), SecretError>) -> (outcome: Result<(), UpdatePatError<E>>)
    ensures
        answer is Ok ==> outcome is Ok,
        answer matches Err(error) ==> outcome == Err::<(), UpdatePatError<E>>(
            UpdatePatError::SecretStorage(error),
        ),
{
    match answer {
        Ok(_) => Ok(()),
        Err(error) => Err(UpdatePatError::SecretStorage(error)),
    }
}

/// Responsible for updating the stored PAT for a single imported git repository
pub struct UpdatePatForGitRepositoryCommand<S: SecretRepository> {
    secret_repository: S,
}

impl<S: SecretRepository> UpdatePatForGitRepositoryCommand<S> {
    /// The secret store that the command works on.
    pub closed spec fn secrets(&self) -> S {
        self.secret_repository
    }

    /// Create a new instance of the command that writes to
    /// `secret_repository`.
    pub fn new(secret_repository: S) -> (command: Self)
        ensures
            command.secrets() == secret_repository,
    {
        UpdatePatForGitRepositoryCommand { secret_repository }
    }

    /// Replaces the token of a repository, given what the directory holds of
    /// it. Where the directory failed, so does the command, and the secret
    /// store is left alone. Else the store is asked to keep `pat` under the
    /// repository's secret key, and its answer decides: the command succeeds
    /// where the store does and fails with the store's error where it fails.
    pub fn execute<E>(&self, found: Result<GitRepository, E>, pat: &str) -> (outcome: Result<
        (),
        UpdatePatError<E>,
    >)
        ensures
            found matches Err(error) ==> outcome == Err::<(), UpdatePatError<E>>(
                UpdatePatError::RepositoryLookup(error),
            ),
            found matches Ok(git_repo) ==> match outcome {
                Ok(_) => may_have_kept(self.secrets(), git_repo.pat_secret_key@, pat@),
                Err(UpdatePatError::SecretStorage(error)) => self.secrets().may_keep(
                    git_repo.pat_secret_key@,
                    pat@,
                    Err(error),
                ),
                Err(UpdatePatError::RepositoryLookup(_)) => false,
            },
    {
        match found {
            Ok(git_repo) => {
                let answer = self.secret_repository.set_secret(
                    git_repo.pat_secret_key.as_str(),
                    pat,
                );
                assert(self.secrets().may_keep(git_repo.pat_secret_key@, pat@, answer));
                stored(answer)
            },
            Err(error) => Err(UpdatePatError::RepositoryLookup(error)),
        }
    }
}

} // verus!
