use crate::domain::models::GitRepository;
use vstd::prelude::*;

verus! {

/// The record of a repository after its active state was toggled: all as
/// before, but active where it was not and the other way round.
pub open spec fn toggled(git_repo: GitRepository) -> GitRepository {
    GitRepository { is_active: !git_repo.is_active, ..git_repo }
}

/// Toggling twice gives the record that was there before.
pub proof fn lemma_toggling_twice_restores(git_repo: GitRepository)
    ensures
        toggled(toggled(git_repo)) == git_repo,
        toggled(git_repo).is_active != git_repo.is_active,
{
}

/// Responsible for toggling the flag indicating whether an imported
/// git repository is considered `active` or not
pub struct ToggleGitRepositoryActiveStateCommand {}

impl ToggleGitRepositoryActiveStateCommand {
    /// Create a new instance of the command
    pub fn new() -> (command: Self) {
        ToggleGitRepositoryActiveStateCommand {  }
    }

    /// The record to write back to the directory, given what the directory
    /// holds of the repository: the same record with its active state
    /// toggled, or the directory's error.
    pub fn execute<E>(&self, found: Result<GitRepository, E>) -> (update: Result<GitRepository, E>)
        ensures
            found matches Ok(git_repo) ==> update == Ok::<GitRepository, E>(toggled(git_repo)),
            found matches Err(error) ==> update == Err::<GitRepository, E>(error),
    {
        match found {
            Ok(git_repo) => {
                let mut git_repo = git_repo;
                git_repo.is_active = !git_repo.is_active;
                Ok(git_repo)
            },
            Err(error) => Err(error),
        }
    }
}

} // verus!
