use super::enums::{CommentType, PullRequestCommentThreadStatus};
use crate::domain::models::Timestamp;
use vstd::prelude::*;

verus! {

/// One comment of a thread.
#[derive(Debug, PartialEq, Eq)]
pub struct Comment {
    pub comment_type: CommentType,
}

/// A user as the provider names one.
#[derive(Debug, PartialEq, Eq)]
pub struct IdentityRef {
    pub display_name: String,
    pub id: String,
}

/// A repository as the provider lists it.
#[derive(Debug, PartialEq, Eq)]
pub struct GitRepository {
    pub id: String,
    pub name: String,
}

/// A label attached to a pull request.
#[derive(Debug, PartialEq, Eq)]
pub struct WebApiTagDefinition {
    pub id: String,
    pub name: String,
}

/// A project of an organization.
#[derive(Debug, PartialEq, Eq)]
pub struct TeamProjectReference {
    pub name: String,
}

/// A pull request as the provider lists it.
#[derive(Debug, PartialEq, Eq)]
pub struct PullRequest {
    pub created_by: IdentityRef,
    pub creation_date: Timestamp,
    pub labels: Vec<WebApiTagDefinition>,
    pub merge_status: String,
    pub pull_request_id: i32,
    pub repository: GitRepository,
    pub reviewers: Vec<IdentityRef>,
    pub status: String,
    pub title: String,
}

/// A thread of comments on a pull request.
#[derive(Debug, PartialEq, Eq)]
pub struct PullRequestCommentThread {
    pub comments: Vec<Comment>,
    pub status: PullRequestCommentThreadStatus,
}

/// The envelope in which the provider sends a list.
#[derive(Debug, PartialEq, Eq)]
pub struct Response<T> {
    pub value: Vec<T>,
}

impl Default for Comment {
    fn default() -> (comment: Self)
        ensures
            comment.comment_type == CommentType::Unknown,
    {
        Comment { comment_type: CommentType::Unknown }
    }
}

impl Default for IdentityRef {
    fn default() -> (identity: Self)
        ensures
            identity.display_name@ == Seq::<char>::empty(),
            identity.id@ == Seq::<char>::empty(),
    {
        IdentityRef { display_name: String::new(), id: String::new() }
    }
}

impl Default for GitRepository {
    fn default() -> (repository: Self)
        ensures
            repository.id@ == Seq::<char>::empty(),
            repository.name@ == Seq::<char>::empty(),
    {
        GitRepository { id: String::new(), name: String::new() }
    }
}

impl Default for WebApiTagDefinition {
    fn default() -> (label: Self)
        ensures
            label.id@ == Seq::<char>::empty(),
            label.name@ == Seq::<char>::empty(),
    {
        WebApiTagDefinition { id: String::new(), name: String::new() }
    }
}

impl Default for TeamProjectReference {
    fn default() -> (project: Self)
        ensures
            project.name@ == Seq::<char>::empty(),
    {
        TeamProjectReference { name: String::new() }
    }
}

impl Default for PullRequest {
    fn default() -> (pull_request: Self)
        ensures
            pull_request.created_by.display_name@ == Seq::<char>::empty(),
            pull_request.created_by.id@ == Seq::<char>::empty(),
            pull_request.creation_date == (Timestamp { seconds: 0, nanos: 0 }),
            pull_request.labels@ == Seq::<WebApiTagDefinition>::empty(),
            pull_request.merge_status@ == Seq::<char>::empty(),
            pull_request.pull_request_id == 0,
            pull_request.repository.id@ == Seq::<char>::empty(),
            pull_request.repository.name@ == Seq::<char>::empty(),
            pull_request.reviewers@ == Seq::<IdentityRef>::empty(),
            pull_request.status@ == Seq::<char>::empty(),
            pull_request.title@ == Seq::<char>::empty(),
    {
        PullRequest {
            created_by: IdentityRef::default(),
            creation_date: Timestamp { seconds: 0, nanos: 0 },
            labels: Vec::new(),
            merge_status: String::new(),
            pull_request_id: 0,
            repository: GitRepository::default(),
            reviewers: Vec::new(),
            status: String::new(),
            title: String::new(),
        }
    }
}

impl Default for PullRequestCommentThread {
    fn default() -> (thread: Self)
        ensures
            thread.comments@ == Seq::<Comment>::empty(),
            thread.status == PullRequestCommentThreadStatus::Unknown,
    {
        PullRequestCommentThread {
            comments: Vec::new(),
            status: PullRequestCommentThreadStatus::Unknown,
        }
    }
}

impl<T> Default for Response<T> {
    fn default() -> (response: Self)
        ensures
            response.value@ == Seq::<T>::empty(),
    {
        Response { value: Vec::new() }
    }
}

} // verus!
