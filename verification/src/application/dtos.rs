//! What is handed to the presentation of repositories and pull requests.

use crate::domain::enums::GitProvider as DomainGitProvider;
use crate::domain::models::{GitRepository, PullRequest, Timestamp};
use vstd::prelude::*;
use vstd::std_specs::convert::FromSpecImpl;

verus! {

/// The provider of a repository, as it is shown.
#[derive(Clone, Copy, Debug, PartialEq, Eq, Structural)]
pub enum GitProvider {
    AzureDevOps,
}

impl From<DomainGitProvider> for GitProvider {
    fn from(value: DomainGitProvider) -> (provider: Self) {
        match value {
            DomainGitProvider::AzureDevOps => GitProvider::AzureDevOps,
        }
    }
}

impl FromSpecImpl<DomainGitProvider> for GitProvider {
    open spec fn obeys_from_spec() -> bool {
        true
    }

    open spec fn from_spec(value: DomainGitProvider) -> Self {
        shown_provider(value)
    }
}

/// How a provider is shown.
pub open spec fn shown_provider(value: DomainGitProvider) -> GitProvider {
    match value {
        DomainGitProvider::AzureDevOps => GitProvider::AzureDevOps,
    }
}

/// A tracked repository, as it is shown: all of its record but the key of
/// its secret.
#[derive(Debug, PartialEq, Eq)]
pub struct GitRepositoryDto {
    pub id: u32,
    pub name: String,
    pub context: String,
    pub git_provider: GitProvider,
    pub is_active: bool,
}

impl<'a> From<&'a GitRepository> for GitRepositoryDto {
    fn from(value: &'a GitRepository) -> (dto: Self) {
        GitRepositoryDto {
            id: value.id,
            name: value.name.clone(),
            context: value.context.clone(),
            git_provider: GitProvider::from(value.git_provider),
            is_active: value.is_active,
        }
    }
}

impl<'a> FromSpecImpl<&'a GitRepository> for GitRepositoryDto {
    open spec fn obeys_from_spec() -> bool {
        true
    }

    open spec fn from_spec(value: &'a GitRepository) -> Self {
        shown_repository(*value)
    }
}

/// What is shown of a repository.
pub open spec fn shown_repository(value: GitRepository) -> GitRepositoryDto {
    GitRepositoryDto {
        id: value.id,
        name: value.name,
        context: value.context,
        git_provider: shown_provider(value.git_provider),
        is_active: value.is_active,
    }
}

/// An open pull request, as it is shown.
#[derive(Debug, PartialEq, Eq)]
pub struct PullRequestDto {
    pub repository_name: String,
    pub title: String,
    pub merge_status: String,
    pub creator_name: String,
    pub creation_date: Timestamp,
    pub number_of_comments: usize,
    pub number_of_closed_comments: usize,
    pub link: String,
}

impl<'a> From<&'a PullRequest> for PullRequestDto {
    fn from(value: &'a PullRequest) -> (dto: Self) {
        PullRequestDto {
            repository_name: value.repository_name.clone(),
            title: value.title.clone(),
            merge_status: value.merge_status.clone(),
            creator_name: value.creator_name.clone(),
            creation_date: value.creation_date,
            number_of_comments: value.number_of_comments,
            number_of_closed_comments: value.number_of_closed_comments,
            link: value.link.clone(),
        }
    }
}

impl<'a> FromSpecImpl<&'a PullRequest> for PullRequestDto {
    open spec fn obeys_from_spec() -> bool {
        true
    }

    open spec fn from_spec(value: &'a PullRequest) -> Self {
        shown_pull_request(*value)
    }
}

/// What is shown of a pull request: all of it but the provider's number.
pub open spec fn shown_pull_request(value: PullRequest) -> PullRequestDto {
    PullRequestDto {
        repository_name: value.repository_name,
        title: value.title,
        merge_status: value.merge_status,
        creator_name: value.creator_name,
        creation_date: value.creation_date,
        number_of_comments: value.number_of_comments,
        number_of_closed_comments: value.number_of_closed_comments,
        link: value.link,
    }
}

impl Clone for PullRequestDto {
    fn clone(&self) -> (copy: Self)
        ensures
            copy == *self,
    {
        PullRequestDto {
            repository_name: self.repository_name.clone(),
            title: self.title.clone(),
            merge_status: self.merge_status.clone(),
            creator_name: self.creator_name.clone(),
            creation_date: self.creation_date,
            number_of_comments: self.number_of_comments,
            number_of_closed_comments: self.number_of_closed_comments,
            link: self.link.clone(),
        }
    }
}

/// What is shown of a list of repositories, item by item.
pub open spec fn git_repository_dtos(repositories: Seq<GitRepository>) -> Seq<GitRepositoryDto> {
    repositories.map_values(|repository: GitRepository| shown_repository(repository))
}

/// What is shown of a list of pull requests, item by item.
pub open spec fn pull_request_dtos(pull_requests: Seq<PullRequest>) -> Seq<PullRequestDto> {
    pull_requests.map_values(|pull_request: PullRequest| shown_pull_request(pull_request))
}

} // verus!
