use super::enums::GitProvider;
use vstd::prelude::*;

verus! {

/// A point in time: whole seconds since the Unix epoch and the nanoseconds
/// into that second. Two timestamps are ordered by `seconds`, then `nanos`.
#[derive(Clone, Copy, Debug, PartialEq, Eq, Structural)]
pub struct Timestamp {
    pub seconds: i64,
    pub nanos: u32,
}

impl Timestamp {
    /// The position of the timestamp on a single axis: `a` is earlier than
    /// `b` exactly when `a.instant() < b.instant()`.
    pub open spec fn instant(self) -> int {
        self.seconds * 0x1_0000_0000 + self.nanos
    }

    /// Whether `self` is strictly later than `other`.
    pub fn is_after(&self, other: &Timestamp) -> (later: bool)
        ensures
            later == (self.instant() > other.instant()),
    {
        self.seconds > other.seconds || (self.seconds == other.seconds && self.nanos > other.nanos)
    }
}

/// A repository that is tracked locally.
#[derive(Debug, PartialEq, Eq)]
pub struct GitRepository {
    /// The unique identifier
    pub id: u32,
    /// The repository name
    pub name: String,
    /// The scope under which the provider knows the repository, written
    /// `organization/project`.
    pub context: String,
    /// The provider that hosts the repository
    pub git_provider: GitProvider,
    /// Only active repositories are queried for pull requests.
    pub is_active: bool,
    /// The key under which the access token is kept in the secret store
    pub pat_secret_key: String,
}

/// What a [`GitRepository`] holds, as mathematical values.
pub struct GitRepositoryView {
    pub id: u32,
    pub name: Seq<char>,
    pub context: Seq<char>,
    pub git_provider: GitProvider,
    pub is_active: bool,
    pub pat_secret_key: Seq<char>,
}

impl View for GitRepository {
    type V = GitRepositoryView;

    open spec fn view(&self) -> GitRepositoryView {
        GitRepositoryView {
            id: self.id,
            name: self.name@,
            context: self.context@,
            git_provider: self.git_provider,
            is_active: self.is_active,
            pat_secret_key: self.pat_secret_key@,
        }
    }
}

impl Clone for GitRepository {
    fn clone(&self) -> (copy: Self)
        ensures
            copy == *self,
    {
        GitRepository {
            id: self.id,
            name: self.name.clone(),
            context: self.context.clone(),
            git_provider: self.git_provider,
            is_active: self.is_active,
            pat_secret_key: self.pat_secret_key.clone(),
        }
    }
}

/// The views of a list of repositories, item by item.
pub open spec fn git_repository_views(repositories: Seq<GitRepository>) -> Seq<GitRepositoryView> {
    repositories.map_values(|repository: GitRepository| repository@)
}

/// An open pull request with what is known of its discussion.
#[derive(Debug, PartialEq, Eq)]
pub struct PullRequest {
    /// The number that the provider gave the pull request
    pub id: i32,
    /// The name of the repository that the pull request belongs to
    pub repository_name: String,
    /// The pull request title
    pub title: String,
    /// The label that describes the merge status
    pub merge_status: String,
    /// The display name of the user that created the pull request
    pub creator_name: String,
    /// When the pull request was created
    pub creation_date: Timestamp,
    /// The number of threads in which a person commented
    pub number_of_comments: usize,
    /// The number of those threads that are closed
    pub number_of_closed_comments: usize,
    /// Where the pull request can be looked at
    pub link: String,
}

/// What a [`PullRequest`] holds, as mathematical values.
pub struct PullRequestView {
    pub id: i32,
    pub repository_name: Seq<char>,
    pub title: Seq<char>,
    pub merge_status: Seq<char>,
    pub creator_name: Seq<char>,
    pub creation_date: Timestamp,
    pub number_of_comments: nat,
    pub number_of_closed_comments: nat,
    pub link: Seq<char>,
}

impl View for PullRequest {
    type V = PullRequestView;

    open spec fn view(&self) -> PullRequestView {
        PullRequestView {
            id: self.id,
            repository_name: self.repository_name@,
            title: self.title@,
            merge_status: self.merge_status@,
            creator_name: self.creator_name@,
            creation_date: self.creation_date,
            number_of_comments: self.number_of_comments as nat,
            number_of_closed_comments: self.number_of_closed_comments as nat,
            link: self.link@,
        }
    }
}

impl Clone for PullRequest {
    fn clone(&self) -> (copy: Self)
        ensures
            copy == *self,
    {
        PullRequest {
            id: self.id,
            repository_name: self.repository_name.clone(),
            title: self.title.clone(),
            merge_status: self.merge_status.clone(),
            creator_name: self.creator_name.clone(),
            creation_date: self.creation_date,
            number_of_comments: self.number_of_comments,
            number_of_closed_comments: self.number_of_closed_comments,
            link: self.link.clone(),
        }
    }
}

/// The views of a list of pull requests, item by item.
pub open spec fn pull_request_views(pull_requests: Seq<PullRequest>) -> Seq<PullRequestView> {
    pull_requests.map_values(|pull_request: PullRequest| pull_request@)
}

} // verus!
