use crate::domain::enums::GitProvider as DomainGitProvider;
use crate::domain::models::GitRepository;
use crate::text::same_text;
use vstd::prelude::*;
use vstd::std_specs::convert::FromSpecImpl;

verus! {

/// The provider of a repository, as the directory records it.
#[derive(Clone, Copy, Debug, PartialEq, Eq, Structural)]
pub enum GitProvider {
    AzureDevOps,
}

/// The provider that a recorded provider stands for.
pub open spec fn domain_provider(value: GitProvider) -> DomainGitProvider {
    match value {
        GitProvider::AzureDevOps => DomainGitProvider::AzureDevOps,
    }
}

/// How a provider is recorded.
pub open spec fn recorded_provider(value: DomainGitProvider) -> GitProvider {
    match value {
        DomainGitProvider::AzureDevOps => GitProvider::AzureDevOps,
    }
}

impl From<GitProvider> for DomainGitProvider {
    fn from(value: GitProvider) -> (provider: Self) {
        match value {
            GitProvider::AzureDevOps => DomainGitProvider::AzureDevOps,
        }
    }
}

impl FromSpecImpl<GitProvider> for DomainGitProvider {
    open spec fn obeys_from_spec() -> bool {
        true
    }

    open spec fn from_spec(value: GitProvider) -> Self {
        domain_provider(value)
    }
}

impl From<DomainGitProvider> for GitProvider {
    fn from(value: DomainGitProvider) -> (provider: Self) {
        match value {
            DomainGitProvider::AzureDevOps => GitProvider::AzureDevOps,
        }
    }
}

impl FromSpecImpl<DomainGitProvider> for GitProvider {
    open spec fn obeys_from_spec() -> bool {
        true
    }

    open spec fn from_spec(value: DomainGitProvider) -> Self {
        recorded_provider(value)
    }
}

impl GitProvider {
    /// The word that the directory writes for the provider.
    pub open spec fn name(self) -> Seq<char> {
        match self {
            GitProvider::AzureDevOps => "azuredevops"@,
        }
    }

    /// The provider that the directory writes as `name`, if there is one.
    pub open spec fn named(name: Seq<char>) -> Option<GitProvider> {
        if name == "azuredevops"@ {
            Some(GitProvider::AzureDevOps)
        } else {
            None
        }
    }

    /// The word that the directory writes for the provider.
    pub fn recorded_name(&self) -> (name: &'static str)
        ensures
            name@ == self.name(),
    {
        match self {
            GitProvider::AzureDevOps => "azuredevops",
        }
    }

    /// Reads the provider that the directory wrote. A word that stands for
    /// no provider gives `None`.
    pub fn from_recorded_name(name: &str) -> (provider: Option<GitProvider>)
        ensures
            provider == GitProvider::named(name@),
    {
        if same_text(name, "azuredevops") {
            Some(GitProvider::AzureDevOps)
        } else {
            None
        }
    }

    /// Every provider is read back from the word that is written for it.
    pub proof fn lemma_name_is_read_back(self)
        ensures
            GitProvider::named(self.name()) == Some(self),
    {
    }
}

/// A repository as the directory records it.
#[derive(Debug, PartialEq, Eq)]
pub struct GitRepositoryDao {
    pub id: u32,
    pub name: String,
    pub context: String,
    pub is_active: bool,
    pub git_provider: GitProvider,
    pub pat_secret_key: String,
}

/// The repository that a record stands for.
pub open spec fn domain_repository(value: GitRepositoryDao) -> GitRepository {
    GitRepository {
        id: value.id,
        name: value.name,
        context: value.context,
        git_provider: domain_provider(value.git_provider),
        is_active: value.is_active,
        pat_secret_key: value.pat_secret_key,
    }
}

/// The record of a repository.
pub open spec fn recorded_repository(value: GitRepository) -> GitRepositoryDao {
    GitRepositoryDao {
        id: value.id,
        name: value.name,
        context: value.context,
        is_active: value.is_active,
        git_provider: recorded_provider(value.git_provider),
        pat_secret_key: value.pat_secret_key,
    }
}

impl Clone for GitRepositoryDao {
    fn clone(&self) -> (copy: Self)
        ensures
            copy == *self,
    {
        GitRepositoryDao {
            id: self.id,
            name: self.name.clone(),
            context: self.context.clone(),
            is_active: self.is_active,
            git_provider: self.git_provider,
            pat_secret_key: self.pat_secret_key.clone(),
        }
    }
}

impl<'a> From<&'a GitRepositoryDao> for GitRepository {
    fn from(value: &'a GitRepositoryDao) -> (repository: Self) {
        GitRepository {
            id: value.id,
            name: value.name.clone(),
            context: value.context.clone(),
            git_provider: DomainGitProvider::from(value.git_provider),
            is_active: value.is_active,
            pat_secret_key: value.pat_secret_key.clone(),
        }
    }
}

impl<'a> FromSpecImpl<&'a GitRepositoryDao> for GitRepository {
    open spec fn obeys_from_spec() -> bool {
        true
    }

    open spec fn from_spec(value: &'a GitRepositoryDao) -> Self {
        domain_repository(*value)
    }
}

impl From<GitRepositoryDao> for GitRepository {
    fn from(value: GitRepositoryDao) -> (repository: Self) {
        GitRepository {
            id: value.id,
            name: value.name,
            context: value.context,
            git_provider: DomainGitProvider::from(value.git_provider),
            is_active: value.is_active,
            pat_secret_key: value.pat_secret_key,
        }
    }
}

impl FromSpecImpl<GitRepositoryDao> for GitRepository {
    open spec fn obeys_from_spec() -> bool {
        true
    }

    open spec fn from_spec(value: GitRepositoryDao) -> Self {
        domain_repository(value)
    }
}

impl From<GitRepository> for GitRepositoryDao {
    fn from(value: GitRepository) -> (dao: Self) {
        GitRepositoryDao {
            id: value.id,
            name: value.name,
            context: value.context,
            is_active: value.is_active,
            git_provider: GitProvider::from(value.git_provider),
            pat_secret_key: value.pat_secret_key,
        }
    }
}

impl FromSpecImpl<GitRepository> for GitRepositoryDao {
    open spec fn obeys_from_spec() -> bool {
        true
    }

    open spec fn from_spec(value: GitRepository) -> Self {
        recorded_repository(value)
    }
}

/// A repository that is recorded and read again is the repository that it
/// was, and a record that is read and recorded again is the record that it
/// was.
pub proof fn lemma_record_round_trip(repository: GitRepository, dao: GitRepositoryDao)
    ensures
        domain_repository(recorded_repository(repository)) == repository,
        recorded_repository(domain_repository(dao)) == dao,
{
}

} // verus!
