use crate::application::dtos::{git_repository_dtos, shown_repository, GitRepositoryDto};
use crate::domain::models::GitRepository;
use vstd::prelude::*;

verus! {

/// Responsible for getting all imported git repositories
pub struct GitRepositoriesQuery {}

impl GitRepositoriesQuery {
    /// Create a new instance of the query
    pub fn new() -> (query: Self) {
        GitRepositoriesQuery {  }
    }

    /// What the query hands out, given the answer of the directory: the
    /// repositories of the listing as they are shown, in its order, or the
    /// directory's error.
    pub fn execute<E>(&self, listing: Result<Vec<GitRepository>, E>) -> (shown: Result<
        Vec<GitRepositoryDto>,
        E,
    >)
        ensures
            listing matches Ok(repositories) ==> shown matches Ok(dtos) && dtos@
                == git_repository_dtos(repositories@),
            listing matches Err(error) ==> shown == Err::<Vec<GitRepositoryDto>, E>(error),
    {
        let repositories = match listing {
            Ok(repositories) => repositories,
            Err(error) => {
                return Err(error);
            },
        };
        let mut dtos: Vec<GitRepositoryDto> = Vec::new();
        let mut i: usize = 0;
        while i < repositories.len()
            invariant
                i <= repositories@.len(),
                dtos@ == git_repository_dtos(repositories@.take(i as int)),
            decreases repositories@.len() - i,
        {
            let dto = GitRepositoryDto::from(&repositories[i]);
            proof {
                let seen = repositories@.take(i as int);
                assert(repositories@.take(i + 1) =~= seen.push(repositories@[i as int]));
                assert(git_repository_dtos(seen.push(repositories@[i as int]))
                    =~= git_repository_dtos(seen).push(shown_repository(repositories@[i as int])));
            }
            dtos.push(dto);
            i += 1;
        }
        proof {
            assert(repositories@.take(repositories@.len() as int) =~= repositories@);
        }
        Ok(dtos)
    }
}

} // verus!
