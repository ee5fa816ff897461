use crate::application::traits::{SecretError, SecretRepository};
use crate::domain::models::GitRepository;
use vstd::prelude::*;

verus! {

/// What is said where a repository to remove is not in the directory.
pub const NO_GIT_REPOSITORY_WITH_ID: &'static str = "No git repository with id found";

/// Why a repository was not removed.
#[derive(Debug, PartialEq, Eq)]
pub enum RemoveGitRepositoryError<E> {
    /// The directory could not list its repositories.
    RepositoryListing(E),
    /// The directory holds no repository with the identifier.
    NotFound,
}

/// Says that the directory holds no repository with the identifier that was
/// asked for.
#[derive(Clone, Copy, Debug, PartialEq, Eq, Structural)]
pub struct NoSuchRepository {}

/// Whether the directory holds a repository with the identifier.
pub open spec fn holds(git_repos: Seq<GitRepository>, id: u32) -> bool {
    exists|i: int| 0 <= i < git_repos.len() && (#[trigger] git_repos[i]).id == id
}

/// Whether `at` is the place of the first repository with the identifier.
pub open spec fn is_first_with(git_repos: Seq<GitRepository>, id: u32, at: int) -> bool {
    &&& 0 <= at < git_repos.len()
    &&& git_repos[at].id == id
    &&& forall|i: int| 0 <= i < at ==> (#[trigger] git_repos[i]).id != id
}

/// The test for a repository whose token is kept under `key`.
pub open spec fn kept_under(key: Seq<char>) -> spec_fn(GitRepository) -> bool {
    |git_repo: GitRepository| git_repo.pat_secret_key@ == key
}

/// How many repositories of the directory keep their token under `key`.
pub open spec fn references(git_repos: Seq<GitRepository>, key: Seq<char>) -> nat {
    git_repos.filter(kept_under(key)).len()
}

/// The place of the first repository with the identifier, if there is one.
pub fn find(git_repos: &Vec<GitRepository>, id: u32) -> (place: Option<usize>)
    ensures
        place matches Some(at) ==> is_first_with(git_repos@, id, at as int),
        place is Some <==> holds(git_repos@, id),
{
    let mut i: usize = 0;
    while i < git_repos.len()
        invariant
            i <= git_repos@.len(),
            forall|j: int| 0 <= j < i ==> (#[trigger] git_repos@[j]).id != id,
        decreases git_repos@.len() - i,
    {
        if git_repos[i].id == id {
            return Some(i);
        }
        i += 1;
    }
    None
}

/// Counts the repositories that keep their token under `key`.
pub fn count_references(git_repos: &Vec<GitRepository>, key: &String) -> (count: usize)
    ensures
        count == references(git_repos@, key@),
{
    let mut count: usize = 0;
    let mut i: usize = 0;
    while i < git_repos.len()
        invariant
            i <= git_repos@.len(),
            count == references(git_repos@.take(i as int), key@),
            count <= i,
        decreases git_repos@.len() - i,
    {
        proof {
            let seen = git_repos@.take(i as int);
            assert(git_repos@.take(i + 1) =~= seen.push(git_repos@[i as int]));
            seen.lemma_filter_push(git_repos@[i as int], kept_under(key@));
        }
        if git_repos[i].pat_secret_key == *key {
            count += 1;
        }
        i += 1;
    }
    proof {
        assert(git_repos@.take(git_repos@.len() as int) =~= git_repos@);
    }
    count
}

/// The secret that goes with a repository when it is removed: the key of
/// the repository's token where no other repository keeps its token under
/// it, none where another still does.
pub open spec fn secret_to_delete_of(git_repos: Seq<GitRepository>, at: int) -> Option<String> {
    if references(git_repos, git_repos[at].pat_secret_key@) == 1 {
        Some(git_repos[at].pat_secret_key)
    } else {
        None
    }
}

/// Decides which secret, if any, is deleted together with the repository
/// that has the identifier.
pub fn secret_to_delete(git_repos: &Vec<GitRepository>, id: u32) -> (key: Result<
    Option<String>,
    NoSuchRepository,
>)
    ensures
        key is Ok <==> holds(git_repos@, id),
        key matches Ok(key) ==> exists|at: int| #[trigger]
            is_first_with(git_repos@, id, at) && key == secret_to_delete_of(git_repos@, at),
{
    match find(git_repos, id) {
        Some(at) => {
            let target_repo = &git_repos[at];
            if count_references(git_repos, &target_repo.pat_secret_key) == 1 {
                Ok(Some(target_repo.pat_secret_key.clone()))
            } else {
                Ok(None)
            }
        },
        None => Err(NoSuchRepository {  }),
    }
}

/// Responsible for removing an imported git repository
pub struct RemoveGitRepositoryCommand<S: SecretRepository> {
    secret_repository: S,
}

impl<S: SecretRepository> RemoveGitRepositoryCommand<S> {
    /// The secret store that the command works on.
    pub closed spec fn secrets(&self) -> S {
        self.secret_repository
    }

    /// Create a new instance of the command that deletes from
    /// `secret_repository`.
    pub fn new(secret_repository: S) -> (command: Self)
        ensures
            command.secrets() == secret_repository,
    {
        RemoveGitRepositoryCommand { secret_repository }
    }

    /// Decides whether the repository with the identifier is removed from
    /// the directory, given the directory's listing, and deletes the secret
    /// that goes with it.
    ///
    /// Where the directory failed, or holds no such repository, the command
    /// fails, nothing is removed and the secret store is left alone. Else the
    /// repository is to be removed. Before that its secret is deleted from the
    /// secret store, but only where the repository is the last one with that
    /// key; whether the store succeeds in that does not matter. The command
    /// hands out the key of the secret that it asked the store to delete,
    /// or none where the secret stays because another repository still
    /// refers to it.
    pub fn execute<E>(&self, listing: Result<Vec<GitRepository>, E>, id: &u32) -> (outcome: Result<
        Option<String>,
        RemoveGitRepositoryError<E>,
    >)
        ensures
            listing matches Err(error) ==> outcome == Err::<
                Option<String>,
                RemoveGitRepositoryError<E>,
            >(RemoveGitRepositoryError::RepositoryListing(error)),
            listing matches Ok(git_repos) ==> {
                &&& outcome is Ok <==> holds(git_repos@, *id)
                &&& outcome is Err ==> outcome == Err::<
                    Option<String>,
                    RemoveGitRepositoryError<E>,
                >(RemoveGitRepositoryError::NotFound)
                &&& outcome matches Ok(deleted) ==> exists|at: int| #[trigger]
                    is_first_with(git_repos@, *id, at) && deleted == secret_to_delete_of(
                        git_repos@,
                        at,
                    )
            },
            outcome matches Ok(Some(key)) ==> exists|answer: Result<(), SecretError>| #[trigger]
                self.secrets().may_remove(key@, answer),
    {
        let git_repos = match listing {
            Ok(git_repos) => git_repos,
            Err(error) => {
                return Err(RemoveGitRepositoryError::RepositoryListing(error));
            },
        };
        match secret_to_delete(&git_repos, *id) {
            Ok(Some(key)) => {
                let answer = self.secret_repository.delete_secret(key.as_str());
                assert(self.secrets().may_remove(key@, answer));
                Ok(Some(key))
            },
            Ok(None) => Ok(None),
            Err(_) => Err(RemoveGitRepositoryError::NotFound),
        }
    }
}

/// A secret goes with a repository exactly when the repository is the last
/// one that keeps its token under the key: once the repository is removed, no
/// repository of the directory refers to a deleted secret, and no secret that
/// is kept lacks a repository that refers to it.
pub proof fn lemma_secret_goes_with_its_last_repository(git_repos: Seq<GitRepository>, at: int)
    requires
        0 <= at < git_repos.len(),
    ensures
        secret_to_delete_of(git_repos, at) is Some <==> references(
            git_repos.remove(at),
            git_repos[at].pat_secret_key@,
        ) == 0,
        references(git_repos, git_repos[at].pat_secret_key@) == references(
            git_repos.remove(at),
            git_repos[at].pat_secret_key@,
        ) + 1,
{
    let same = kept_under(git_repos[at].pat_secret_key@);
    let before = git_repos.take(at);
    let behind = git_repos.skip(at + 1);
    let one = seq![git_repos[at]];
    assert(git_repos =~= before + one + behind);
    assert(git_repos.remove(at) =~= before + behind);
    Seq::filter_distributes_over_add(before + one, behind, same);
    Seq::filter_distributes_over_add(before, one, same);
    Seq::filter_distributes_over_add(before, behind, same);
    assert(one.filter(same) =~= one) by {
        reveal_with_fuel(Seq::filter, 2);
    }
}

} // verus!
