//! The requests that are sent to the provider and what is made of the
//! answers.

use super::enums::CommentType;
use super::models::{
    GitRepository as AzureDevopsGitRepository, PullRequest as AzureDevopsPullRequest,
    PullRequestCommentThread, Response, TeamProjectReference,
};
use crate::domain::enums::GitProvider;
use crate::domain::models::{
    git_repository_views, pull_request_views, GitRepository, GitRepositoryView, PullRequest,
    PullRequestView,
};
use crate::fan_in::{
    concatenation, flatten, lemma_filter_map_passes_over, lemma_filter_map_regardless_of_order,
    FanIn,
};
use crate::text::{append_decimal, before, decimal, lemma_before_joined, text_before};
use base64::Engine;
use vstd::prelude::*;
use vstd::string::StringExecFns;
use vstd::utf8::encode_utf8;

verus! {

/// The version of the provider's interface that every request names.
pub const DEVOPS_API_VERSION: &'static str = "6.0";

/// The address under which the provider serves its interface.
pub const DEVOPS_API_BASE_URL: &'static str = "https://dev.azure.com";

/// The address of a resource of the provider's interface.
pub open spec fn request_url_of(path: Seq<char>) -> Seq<char> {
    "https://dev.azure.com"@ + "/"@ + path
}

/// The address of the resource at `path`.
pub fn request_url(path: &str) -> (url: String)
    ensures
        url@ == request_url_of(path@),
{
    let mut url = String::from_str(DEVOPS_API_BASE_URL);
    url.append("/");
    url.append(path);
    url
}

/// The name of the header that carries the version of the interface.
pub const API_VERSION_HEADER: &'static str = "api-version";

/// The standard base64 encoding, with padding, of a sequence of bytes.
pub uninterp spec fn base64_standard(input: Seq<u8>) -> Seq<char>;

/// Whether an input of `len` bytes is short enough for the length of its
/// encoding to be a `usize`.
pub open spec fn encodable(len: nat) -> bool {
    len / 3 * 4 + 4 <= usize::MAX
}

/// Encodes `input` with `base64::Engine::encode` of the engine
/// `base64::engine::general_purpose::STANDARD`. The encoder gives up on an
/// input whose encoded length is no `usize`; such an input is not accepted
/// here. The result is what the standard alphabet with padding makes of the
/// input, which this crate knows by name only.
#[verifier::external_body]
fn encode_base64(input: &[u8]) -> (encoded: String)
    requires
        encodable(input@.len()),
    ensures
        encoded@ == base64_standard(input@),
{
    base64::engine::general_purpose::STANDARD.encode(input)
}

/// The credentials that a token stands for: an empty user name, a colon and
/// the token, as bytes.
pub open spec fn credentials_of(pat: Seq<char>) -> Seq<u8> {
    encode_utf8(":"@ + pat)
}

/// The value of the header that authorizes a request with a token.
pub open spec fn basic_authorization_of(pat: Seq<char>) -> Seq<char> {
    "Basic "@ + base64_standard(credentials_of(pat))
}

/// The value of the header that authorizes a request with `pat`, or `None`
/// where the token is too long to be encoded.
pub fn basic_authorization(pat: &str) -> (value: Option<String>)
    ensures
        value is Some <==> encodable(credentials_of(pat@).len()),
        value matches Some(text) ==> text@ == basic_authorization_of(pat@),
{
    let mut credentials = String::from_str(":");
    credentials.append(pat);
    let bytes = credentials.as_str().as_bytes();
    if bytes.len() / 3 > (usize::MAX - 4) / 4 {
        return None;
    }
    let encoded = encode_base64(bytes);
    let mut value = String::from_str("Basic ");
    value.append(encoded.as_str());
    Some(value)
}

/// A request for a resource of the provider's interface: where it goes and
/// what authorizes it.
#[derive(Debug, PartialEq, Eq)]
pub struct GetRequest {
    /// The address of the resource
    pub url: String,
    /// The value of the header that authorizes the request
    pub authorization: String,
}

/// The request for the resource at `path`, authorized by `pat`, or `None`
/// where the token is too long to be encoded.
pub fn get_request(pat: &str, path: &str) -> (request: Option<GetRequest>)
    ensures
        request is Some <==> encodable(credentials_of(pat@).len()),
        request matches Some(request) ==> request.url@ == request_url_of(path@)
            && request.authorization@ == basic_authorization_of(pat@),
{
    match basic_authorization(pat) {
        Some(authorization) => Some(GetRequest { url: request_url(path), authorization }),
        None => None,
    }
}

/// The path under which the provider lists the pull requests of a
/// repository.
pub open spec fn pull_requests_path_of(context: Seq<char>, repository_name: Seq<char>) -> Seq<
    char,
> {
    context + "/_apis/git/repositories/"@ + repository_name + "/pullrequests"@
}

/// The path under which the provider lists the pull requests of a
/// repository.
pub fn pull_requests_path(context: &str, repository_name: &str) -> (path: String)
    ensures
        path@ == pull_requests_path_of(context@, repository_name@),
{
    let mut path = String::from_str(context);
    path.append("/_apis/git/repositories/");
    path.append(repository_name);
    path.append("/pullrequests");
    path
}

/// The path under which the provider lists the comment threads of a pull
/// request.
pub open spec fn pull_request_threads_path_of(
    context: Seq<char>,
    repository_name: Seq<char>,
    pull_request_id: int,
) -> Seq<char> {
    context + "/_apis/git/repositories/"@ + repository_name + "/pullRequests/"@ + decimal(
        pull_request_id,
    ) + "/threads"@
}

/// The path under which the provider lists the comment threads of a pull
/// request.
pub fn pull_request_threads_path(context: &str, repository_name: &str, pull_request_id: i32) -> (path:
    String)
    ensures
        path@ == pull_request_threads_path_of(context@, repository_name@, pull_request_id as int),
{
    let mut path = String::from_str(context);
    path.append("/_apis/git/repositories/");
    path.append(repository_name);
    path.append("/pullRequests/");
    append_decimal(&mut path, pull_request_id);
    path.append("/threads");
    path
}

/// The organization that a context names: what stands in it before its
/// first slash, and all of it where it holds none.
pub open spec fn organization_of(context: Seq<char>) -> Seq<char> {
    before(context, '/')
}

/// The organization that a context names.
pub fn organization(context: &str) -> (organization_name: String)
    ensures
        organization_name@ == organization_of(context@),
{
    text_before(context, '/')
}

/// Where a pull request can be looked at: under the organization of its
/// context, in its repository, by its number.
pub open spec fn pull_request_link_of(
    context: Seq<char>,
    repository_name: Seq<char>,
    pull_request_id: int,
) -> Seq<char> {
    "https://dev.azure.com/"@ + organization_of(context) + "/_git/"@ + repository_name
        + "/pullrequest/"@ + decimal(pull_request_id)
}

/// Where a pull request can be looked at.
pub fn pull_request_link(context: &str, repository_name: &str, pull_request_id: i32) -> (link:
    String)
    ensures
        link@ == pull_request_link_of(context@, repository_name@, pull_request_id as int),
{
    let organization_name = organization(context);
    let mut link = String::from_str("https://dev.azure.com/");
    link.append(organization_name.as_str());
    link.append("/_git/");
    link.append(repository_name);
    link.append("/pullrequest/");
    append_decimal(&mut link, pull_request_id);
    link
}

/// Whether a thread holds a comment that a person wrote.
pub open spec fn has_text_comment(thread: PullRequestCommentThread) -> bool {
    exists|i: int|
        0 <= i < thread.comments@.len() && (#[trigger] thread.comments@[i]).comment_type
            == CommentType::Text
}

/// The test for a thread in which a person commented.
pub open spec fn commented() -> spec_fn(PullRequestCommentThread) -> bool {
    |thread: PullRequestCommentThread| has_text_comment(thread)
}

/// The test for a thread that is closed.
pub open spec fn closed() -> spec_fn(PullRequestCommentThread) -> bool {
    |thread: PullRequestCommentThread| thread.status.is_closed()
}

/// The threads in which a person commented. Threads that hold nothing but
/// what the provider generated are left out.
pub open spec fn comment_threads(threads: Seq<PullRequestCommentThread>) -> Seq<
    PullRequestCommentThread,
> {
    threads.filter(commented())
}

/// The threads in which a person commented and that are closed.
pub open spec fn closed_comment_threads(threads: Seq<PullRequestCommentThread>) -> Seq<
    PullRequestCommentThread,
> {
    comment_threads(threads).filter(closed())
}

/// Whether a thread holds a comment that a person wrote.
pub fn is_comment_thread(thread: &PullRequestCommentThread) -> (found: bool)
    ensures
        found == has_text_comment(*thread),
{
    let mut i: usize = 0;
    while i < thread.comments.len()
        invariant
            i <= thread.comments@.len(),
            forall|j: int|
                0 <= j < i ==> (#[trigger] thread.comments@[j]).comment_type != CommentType::Text,
        decreases thread.comments@.len() - i,
    {
        if thread.comments[i].comment_type == CommentType::Text {
            return true;
        }
        i += 1;
    }
    false
}

/// How much of a pull request's discussion there is and how much of it is
/// settled.
#[derive(Clone, Copy, Debug, PartialEq, Eq, Structural)]
pub struct CommentStatistics {
    /// The number of threads in which a person commented
    pub number_of_comments: usize,
    /// The number of those threads that are closed
    pub number_of_closed_comments: usize,
}

/// Counts the threads in which a person commented and, among them, the
/// closed ones.
pub fn comment_statistics(threads: &Vec<PullRequestCommentThread>) -> (statistics:
    CommentStatistics)
    ensures
        statistics.number_of_comments == comment_threads(threads@).len(),
        statistics.number_of_closed_comments == closed_comment_threads(threads@).len(),
{
    let mut number_of_comments: usize = 0;
    let mut number_of_closed_comments: usize = 0;
    let mut i: usize = 0;
    while i < threads.len()
        invariant
            i <= threads@.len(),
            number_of_comments == comment_threads(threads@.take(i as int)).len(),
            number_of_closed_comments == closed_comment_threads(threads@.take(i as int)).len(),
            number_of_closed_comments <= number_of_comments <= i,
        decreases threads@.len() - i,
    {
        let thread = &threads[i];
        proof {
            let seen = threads@.take(i as int);
            assert(threads@.take(i + 1) =~= seen.push(*thread));
            seen.lemma_filter_push(*thread, commented());
            comment_threads(seen).lemma_filter_push(*thread, closed());
        }
        if is_comment_thread(thread) {
            number_of_comments += 1;
            if thread.status.closed() {
                number_of_closed_comments += 1;
            }
        }
        i += 1;
    }
    proof {
        assert(threads@.take(threads@.len() as int) =~= threads@);
    }
    CommentStatistics { number_of_comments, number_of_closed_comments }
}

/// What is shown of a pull request, given what the provider listed of it
/// and the threads of its discussion.
pub open spec fn summary_of(
    context: Seq<char>,
    repository_name: Seq<char>,
    pull_request: AzureDevopsPullRequest,
    threads: Seq<PullRequestCommentThread>,
) -> PullRequestView {
    PullRequestView {
        id: pull_request.pull_request_id,
        repository_name: repository_name,
        title: pull_request.title@,
        merge_status: pull_request.merge_status@,
        creator_name: pull_request.created_by.display_name@,
        creation_date: pull_request.creation_date,
        number_of_comments: comment_threads(threads).len(),
        number_of_closed_comments: closed_comment_threads(threads).len(),
        link: pull_request_link_of(
            context,
            repository_name,
            pull_request.pull_request_id as int,
        ),
    }
}

/// Puts together what is shown of a pull request.
pub fn summarize_pull_request(
    context: &str,
    repository_name: &str,
    pull_request: &AzureDevopsPullRequest,
    threads: &Vec<PullRequestCommentThread>,
) -> (summary: PullRequest)
    ensures
        summary@ == summary_of(context@, repository_name@, *pull_request, threads@),
{
    let statistics = comment_statistics(threads);
    PullRequest {
        id: pull_request.pull_request_id,
        repository_name: String::from_str(repository_name),
        title: pull_request.title.clone(),
        merge_status: pull_request.merge_status.clone(),
        creator_name: pull_request.created_by.display_name.clone(),
        creation_date: pull_request.creation_date,
        number_of_comments: statistics.number_of_comments,
        number_of_closed_comments: statistics.number_of_closed_comments,
        link: pull_request_link(context, repository_name, pull_request.pull_request_id),
    }
}

/// The paths of the thread listings to ask for, one for each pull request
/// of a repository's listing.
pub fn pull_request_threads_paths(
    context: &str,
    repository_name: &str,
    pull_requests: &Vec<AzureDevopsPullRequest>,
) -> (paths: Vec<String>)
    ensures
        paths@.len() == pull_requests@.len(),
        forall|i: int|
            0 <= i < paths@.len() ==> (#[trigger] paths@[i])@ == pull_request_threads_path_of(
                context@,
                repository_name@,
                pull_requests@[i].pull_request_id as int,
            ),
{
    let mut paths: Vec<String> = Vec::new();
    let mut i: usize = 0;
    while i < pull_requests.len()
        invariant
            i <= pull_requests@.len(),
            paths@.len() == i,
            forall|j: int|
                0 <= j < i ==> (#[trigger] paths@[j])@ == pull_request_threads_path_of(
                    context@,
                    repository_name@,
                    pull_requests@[j].pull_request_id as int,
                ),
        decreases pull_requests@.len() - i,
    {
        paths.push(
            pull_request_threads_path(context, repository_name, pull_requests[i].pull_request_id),
        );
        i += 1;
    }
    paths
}

/// What one pull request adds to the result, given how the listing of its
/// threads ended: its summary, or nothing where the listing failed.
pub open spec fn summarized<E>(context: Seq<char>, repository_name: Seq<char>) -> spec_fn(
    (AzureDevopsPullRequest, Result<Response<PullRequestCommentThread>, E>),
) -> Option<PullRequestView> {
    |arrival: (AzureDevopsPullRequest, Result<Response<PullRequestCommentThread>, E>)|
        match arrival.1 {
            Ok(response) => Some(summary_of(context, repository_name, arrival.0, response.value@)),
            Err(_) => None,
        }
}

/// What becomes of one pull request when the listing of its threads ends:
/// its summary, or the error of the listing.
pub fn summarized_outcome<E>(
    context: &str,
    repository_name: &str,
    arrival: (AzureDevopsPullRequest, Result<Response<PullRequestCommentThread>, E>),
) -> (outcome: Result<PullRequest, E>)
    ensures
        arrival.1 matches Ok(response) ==> outcome matches Ok(summary) && summary@ == summary_of(
            context@,
            repository_name@,
            arrival.0,
            response.value@,
        ),
        arrival.1 matches Err(error) ==> outcome == Err::<PullRequest, E>(error),
{
    let (pull_request, threads) = arrival;
    match threads {
        Ok(response) => Ok(
            summarize_pull_request(context, repository_name, &pull_request, &response.value),
        ),
        Err(error) => Err(error),
    }
}

/// The open pull requests of one repository. `arrivals` holds the pull
/// requests that the provider listed, each with the outcome of the listing of
/// its threads, in the order in which those listings ended. A pull request
/// whose threads could not be listed is left out; the others are summarised in
/// the order given.
pub fn get_open_pull_requests_in_repository<E>(
    context: &str,
    repository_name: &str,
    arrivals: Vec<(AzureDevopsPullRequest, Result<Response<PullRequestCommentThread>, E>)>,
) -> (pull_requests: Vec<PullRequest>)
    ensures
        pull_request_views(pull_requests@) == arrivals@.filter_map(
            summarized::<E>(context@, repository_name@),
        ),
{
    let mut fan_in: FanIn<PullRequest, E> = FanIn::new();
    let ghost all = arrivals@;
    let ghost summary = summarized::<E>(context@, repository_name@);
    proof {
        assert(pull_request_views(fan_in.completed()) =~= all.take(0).filter_map(summary));
    }
    for arrival in ended: arrivals.into_iter()
        invariant
            ended.seq() == all,
            summary == summarized::<E>(context@, repository_name@),
            pull_request_views(fan_in.completed()) == all.take(ended.index() as int).filter_map(
                summary,
            ),
    {
        let ghost before = fan_in.completed();
        let outcome = summarized_outcome(context, repository_name, arrival);
        let ghost ended_as = outcome;
        proof {
            all.lemma_filter_map_take_succ(summary, ended.index() as int);
            if let Ok(item) = ended_as {
                assert(pull_request_views(before.push(item)) =~= pull_request_views(before).push(
                    item@,
                ));
            }
        }
        fan_in.absorb(outcome);
    }
    proof {
        assert(all.take(all.len() as int) =~= all);
    }
    fan_in.into_completed()
}

/// The path under which the provider lists the projects of an organization.
pub open spec fn projects_path_of(organization_name: Seq<char>) -> Seq<char> {
    organization_name + "/_apis/projects"@
}

/// The path under which the provider lists the projects of an organization.
pub fn projects_path(organization_name: &str) -> (path: String)
    ensures
        path@ == projects_path_of(organization_name@),
{
    let mut path = String::from_str(organization_name);
    path.append("/_apis/projects");
    path
}

/// The path under which the provider lists the repositories of a project.
pub open spec fn git_repositories_path_of(
    organization_name: Seq<char>,
    project_name: Seq<char>,
) -> Seq<char> {
    organization_name + "/"@ + project_name + "/_apis/git/repositories"@
}

/// The path under which the provider lists the repositories of a project.
pub fn git_repositories_path(organization_name: &str, project_name: &str) -> (path: String)
    ensures
        path@ == git_repositories_path_of(organization_name@, project_name@),
{
    let mut path = String::from_str(organization_name);
    path.append("/");
    path.append(project_name);
    path.append("/_apis/git/repositories");
    path
}

/// The paths of the repository listings to ask for, one for each project of
/// an organization.
pub fn git_repositories_paths(organization_name: &str, projects: &Vec<TeamProjectReference>) -> (paths:
    Vec<String>)
    ensures
        paths@.len() == projects@.len(),
        forall|i: int|
            0 <= i < paths@.len() ==> (#[trigger] paths@[i])@ == git_repositories_path_of(
                organization_name@,
                projects@[i].name@,
            ),
{
    let mut paths: Vec<String> = Vec::new();
    let mut i: usize = 0;
    while i < projects.len()
        invariant
            i <= projects@.len(),
            paths@.len() == i,
            forall|j: int|
                0 <= j < i ==> (#[trigger] paths@[j])@ == git_repositories_path_of(
                    organization_name@,
                    projects@[j].name@,
                ),
        decreases projects@.len() - i,
    {
        paths.push(git_repositories_path(organization_name, projects[i].name.as_str()));
        i += 1;
    }
    paths
}

/// The scope of the repositories of a project.
pub open spec fn repository_context_of(
    organization_name: Seq<char>,
    project_name: Seq<char>,
) -> Seq<char> {
    organization_name + "/"@ + project_name
}

/// The key under which the token of an organization is kept. It depends on
/// the organization alone, so that all its repositories share one secret.
pub open spec fn pat_secret_key_of(organization_name: Seq<char>) -> Seq<char> {
    "azuredevops-"@ + organization_name
}

/// The key under which the token of an organization is kept.
pub fn pat_secret_key(organization_name: &str) -> (key: String)
    ensures
        key@ == pat_secret_key_of(organization_name@),
{
    let mut key = String::from_str("azuredevops-");
    key.append(organization_name);
    key
}

/// The record that is kept of a repository that was found in a project.
pub open spec fn tracked_of(
    organization_name: Seq<char>,
    project_name: Seq<char>,
    repository: AzureDevopsGitRepository,
) -> GitRepositoryView {
    GitRepositoryView {
        id: 0,
        name: repository.name@,
        context: repository_context_of(organization_name, project_name),
        git_provider: GitProvider::AzureDevOps,
        is_active: true,
        pat_secret_key: pat_secret_key_of(organization_name),
    }
}

/// The record that is kept of a repository that was found in a project.
pub fn to_git_repository(
    organization_name: &str,
    project_name: &str,
    repository: &AzureDevopsGitRepository,
) -> (records: GitRepository)
    ensures
        records@ == tracked_of(organization_name@, project_name@, *repository),
{
    let mut context = String::from_str(organization_name);
    context.append("/");
    context.append(project_name);
    GitRepository {
        id: 0,
        name: repository.name.clone(),
        context,
        git_provider: GitProvider::AzureDevOps,
        is_active: true,
        pat_secret_key: pat_secret_key(organization_name),
    }
}

/// The records of the repositories that a project lists.
pub open spec fn tracked_in(
    organization_name: Seq<char>,
    project_name: Seq<char>,
    repositories: Seq<AzureDevopsGitRepository>,
) -> Seq<GitRepositoryView> {
    repositories.map_values(
        |repository: AzureDevopsGitRepository|
            tracked_of(organization_name, project_name, repository),
    )
}

/// The records of the repositories that a project lists, in the order of the
/// listing.
pub fn to_git_repositories(
    organization_name: &str,
    project_name: &str,
    repositories: &Vec<AzureDevopsGitRepository>,
) -> (records: Vec<GitRepository>)
    ensures
        git_repository_views(records@) == tracked_in(
            organization_name@,
            project_name@,
            repositories@,
        ),
{
    let mut records: Vec<GitRepository> = Vec::new();
    let mut i: usize = 0;
    while i < repositories.len()
        invariant
            i <= repositories@.len(),
            git_repository_views(records@) == tracked_in(
                organization_name@,
                project_name@,
                repositories@.take(i as int),
            ),
        decreases repositories@.len() - i,
    {
        let ghost before = records@;
        let item = to_git_repository(organization_name, project_name, &repositories[i]);
        records.push(item);
        proof {
            assert(repositories@.take(i + 1) =~= repositories@.take(i as int).push(
                repositories@[i as int],
            ));
            assert(git_repository_views(before.push(item)) =~= git_repository_views(before).push(
                item@,
            ));
            assert(tracked_in(
                organization_name@,
                project_name@,
                repositories@.take(i as int).push(repositories@[i as int]),
            ) =~= tracked_in(
                organization_name@,
                project_name@,
                repositories@.take(i as int),
            ).push(tracked_of(organization_name@, project_name@, repositories@[i as int])));
        }
        i += 1;
    }
    proof {
        assert(repositories@.take(repositories@.len() as int) =~= repositories@);
    }
    records
}

/// What one project adds to the result, given how the listing of its
/// repositories ended: their records, or nothing where the listing failed.
pub open spec fn listed<E>(organization_name: Seq<char>) -> spec_fn(
    (TeamProjectReference, Result<Response<AzureDevopsGitRepository>, E>),
) -> Option<Seq<GitRepositoryView>> {
    |arrival: (TeamProjectReference, Result<Response<AzureDevopsGitRepository>, E>)|
        match arrival.1 {
            Ok(response) => Some(tracked_in(organization_name, arrival.0.name@, response.value@)),
            Err(_) => None,
        }
}

/// The records of all the repositories that were found in an organization.
pub open spec fn discovered<E>(
    organization_name: Seq<char>,
    arrivals: Seq<(TeamProjectReference, Result<Response<AzureDevopsGitRepository>, E>)>,
) -> Seq<GitRepositoryView> {
    arrivals.filter_map(listed::<E>(organization_name)).flatten()
}

/// What becomes of one project when the listing of its repositories ends:
/// the records of its repositories, or the error of the listing.
pub fn listed_outcome<E>(
    organization_name: &str,
    arrival: (TeamProjectReference, Result<Response<AzureDevopsGitRepository>, E>),
) -> (outcome: Result<Vec<GitRepository>, E>)
    ensures
        arrival.1 matches Ok(response) ==> outcome matches Ok(records) && git_repository_views(
            records@,
        ) == tracked_in(organization_name@, arrival.0.name@, response.value@),
        arrival.1 matches Err(error) ==> outcome == Err::<Vec<GitRepository>, E>(error),
{
    let (project, listing) = arrival;
    match listing {
        Ok(response) => Ok(
            to_git_repositories(organization_name, project.name.as_str(), &response.value),
        ),
        Err(error) => Err(error),
    }
}

/// The views of the items of all the lists, list after list.
proof fn lemma_views_of_concatenation(lists: Seq<Vec<GitRepository>>)
    ensures
        git_repository_views(concatenation(lists)) == lists.map_values(
            |list: Vec<GitRepository>| git_repository_views(list@),
        ).flatten(),
    decreases lists.len(),
{
    let views = |list: Vec<GitRepository>| git_repository_views(list@);
    let items = |list: Vec<GitRepository>| list@;
    if lists.len() == 0 {
        assert(git_repository_views(concatenation(lists)) =~= lists.map_values(views).flatten());
    } else {
        let front = lists.drop_last();
        let last = lists.last();
        lemma_views_of_concatenation(front);
        assert(lists =~= front.push(last));
        assert(lists.map_values(items) =~= front.map_values(items).push(last@));
        assert(lists.map_values(views) =~= front.map_values(views).push(
            git_repository_views(last@),
        ));
        front.map_values(items).lemma_flatten_push(last@);
        front.map_values(views).lemma_flatten_push(git_repository_views(last@));
        assert(git_repository_views(concatenation(front) + last@) =~= git_repository_views(
            concatenation(front),
        ) + git_repository_views(last@));
    }
}

/// The repositories of an organization. `arrivals` holds the projects that
/// the provider listed, each with the outcome of the listing of its
/// repositories, in the order in which those listings ended. A project whose
/// repositories could not be listed adds nothing; the repositories of the
/// others follow one another in the order given. All of them are active and
/// share the organization's secret key.
pub fn get_repositories_in_organization<E>(
    organization_name: &str,
    arrivals: Vec<(TeamProjectReference, Result<Response<AzureDevopsGitRepository>, E>)>,
) -> (repositories: Vec<GitRepository>)
    ensures
        git_repository_views(repositories@) == discovered(organization_name@, arrivals@),
        forall|i: int|
            0 <= i < repositories@.len() ==> {
                &&& (#[trigger] repositories@[i]).is_active
                &&& repositories@[i].pat_secret_key@ == pat_secret_key_of(organization_name@)
                &&& repositories@[i].git_provider == GitProvider::AzureDevOps
            },
{
    let mut fan_in: FanIn<Vec<GitRepository>, E> = FanIn::new();
    let ghost all = arrivals@;
    let ghost found = listed::<E>(organization_name@);
    let ghost views = |list: Vec<GitRepository>| git_repository_views(list@);
    proof {
        assert(fan_in.completed().map_values(views) =~= all.take(0).filter_map(found));
    }
    for arrival in ended: arrivals.into_iter()
        invariant
            ended.seq() == all,
            found == listed::<E>(organization_name@),
            views == |list: Vec<GitRepository>| git_repository_views(list@),
            fan_in.completed().map_values(views) == all.take(ended.index() as int).filter_map(
                found,
            ),
    {
        let ghost before = fan_in.completed();
        let outcome = listed_outcome(organization_name, arrival);
        let ghost ended_as = outcome;
        proof {
            all.lemma_filter_map_take_succ(found, ended.index() as int);
            if let Ok(records) = ended_as {
                assert(before.push(records).map_values(views) =~= before.map_values(views).push(
                    git_repository_views(records@),
                ));
            }
        }
        fan_in.absorb(outcome);
    }
    let ghost lists = fan_in.completed();
    let repositories = flatten(fan_in.into_completed());
    proof {
        assert(all.take(all.len() as int) =~= all);
        lemma_views_of_concatenation(lists);
        lemma_discovered_are_active_and_share_one_key(organization_name@, all);
        assert forall|i: int| 0 <= i < repositories@.len() implies {
            &&& (#[trigger] repositories@[i]).is_active
            &&& repositories@[i].pat_secret_key@ == pat_secret_key_of(organization_name@)
            &&& repositories@[i].git_provider == GitProvider::AzureDevOps
        } by {
            assert(git_repository_views(repositories@)[i] == repositories@[i]@);
        }
    }
    repositories
}

/// Every repository that is found in an organization is recorded as active,
/// with the one provider and under the one secret key of the organization.
pub proof fn lemma_discovered_are_active_and_share_one_key<E>(
    organization_name: Seq<char>,
    arrivals: Seq<(TeamProjectReference, Result<Response<AzureDevopsGitRepository>, E>)>,
)
    ensures
        forall|i: int|
            0 <= i < discovered(organization_name, arrivals).len() ==> {
                &&& (#[trigger] discovered(organization_name, arrivals)[i]).is_active
                &&& discovered(organization_name, arrivals)[i].pat_secret_key
                    == pat_secret_key_of(organization_name)
                &&& discovered(organization_name, arrivals)[i].git_provider
                    == GitProvider::AzureDevOps
                &&& discovered(organization_name, arrivals)[i].id == 0
            },
    decreases arrivals.len(),
{
    if arrivals.len() > 0 {
        let front = arrivals.drop_last();
        let found = listed::<E>(organization_name);
        lemma_discovered_are_active_and_share_one_key(organization_name, front);
        match found(arrivals.last()) {
            Some(records) => {
                assert(arrivals.filter_map(found) =~= front.filter_map(found).push(records));
                front.filter_map(found).lemma_flatten_push(records);
                assert forall|i: int|
                    0 <= i < discovered(organization_name, arrivals).len() implies {
                    &&& (#[trigger] discovered(organization_name, arrivals)[i]).is_active
                    &&& discovered(organization_name, arrivals)[i].pat_secret_key
                        == pat_secret_key_of(organization_name)
                    &&& discovered(organization_name, arrivals)[i].git_provider
                        == GitProvider::AzureDevOps
                    &&& discovered(organization_name, arrivals)[i].id == 0
                } by {
                    let before = discovered(organization_name, front);
                    if i < before.len() {
                        assert(discovered(organization_name, arrivals)[i] == before[i]);
                    } else {
                        assert(discovered(organization_name, arrivals)[i] == records[i
                            - before.len()]);
                    }
                }
            },
            None => {},
        }
    }
}

/// A pull request whose threads could not be listed is left out and the
/// others stay as they are: the result is what it would be had the provider
/// not listed that pull request.
pub proof fn lemma_failed_thread_listing_leaves_one_out<E>(
    context: Seq<char>,
    repository_name: Seq<char>,
    arrivals: Seq<(AzureDevopsPullRequest, Result<Response<PullRequestCommentThread>, E>)>,
    at: int,
)
    requires
        0 <= at < arrivals.len(),
        arrivals[at].1 is Err,
    ensures
        arrivals.filter_map(summarized::<E>(context, repository_name)) == arrivals.remove(
            at,
        ).filter_map(summarized::<E>(context, repository_name)),
{
    lemma_filter_map_passes_over(arrivals, summarized::<E>(context, repository_name), at);
}

/// A project whose repositories could not be listed adds nothing and the
/// others stay as they are: the result is what it would be had the provider
/// not listed that project.
pub proof fn lemma_failed_project_adds_nothing<E>(
    organization_name: Seq<char>,
    arrivals: Seq<(TeamProjectReference, Result<Response<AzureDevopsGitRepository>, E>)>,
    at: int,
)
    requires
        0 <= at < arrivals.len(),
        arrivals[at].1 is Err,
    ensures
        discovered(organization_name, arrivals) == discovered(
            organization_name,
            arrivals.remove(at),
        ),
{
    lemma_filter_map_passes_over(arrivals, listed::<E>(organization_name), at);
}

/// An organization without projects, or one none of whose projects could be
/// listed, has no repositories to record.
pub proof fn lemma_nothing_discovered<E>(
    organization_name: Seq<char>,
    arrivals: Seq<(TeamProjectReference, Result<Response<AzureDevopsGitRepository>, E>)>,
)
    requires
        forall|i: int| 0 <= i < arrivals.len() ==> (#[trigger] arrivals[i]).1 is Err,
    ensures
        discovered(organization_name, arrivals) == Seq::<GitRepositoryView>::empty(),
    decreases arrivals.len(),
{
    if arrivals.len() > 0 {
        lemma_nothing_discovered(organization_name, arrivals.drop_last());
        assert(arrivals.last().1 is Err);
    }
}

/// The order in which the listings of threads end does not change which
/// pull requests of a repository are summarised, nor how often.
pub proof fn lemma_summaries_regardless_of_arrival_order<E>(
    context: Seq<char>,
    repository_name: Seq<char>,
    first: Seq<(AzureDevopsPullRequest, Result<Response<PullRequestCommentThread>, E>)>,
    second: Seq<(AzureDevopsPullRequest, Result<Response<PullRequestCommentThread>, E>)>,
)
    requires
        first.to_multiset() == second.to_multiset(),
    ensures
        first.filter_map(summarized::<E>(context, repository_name)).to_multiset()
            == second.filter_map(summarized::<E>(context, repository_name)).to_multiset(),
{
    lemma_filter_map_regardless_of_order(
        first,
        second,
        summarized::<E>(context, repository_name),
    );
}

/// The context of a repository that was found in an organization names that
/// organization, whatever the project: the links of its pull requests lead
/// under the organization. This holds of every organization whose name is
/// without a slash.
pub proof fn lemma_context_names_its_organization(
    organization_name: Seq<char>,
    project_name: Seq<char>,
    repository_name: Seq<char>,
    pull_request_id: int,
)
    requires
        !organization_name.contains('/'),
    ensures
        organization_of(repository_context_of(organization_name, project_name))
            == organization_name,
        pull_request_link_of(
            repository_context_of(organization_name, project_name),
            repository_name,
            pull_request_id,
        ) == "https://dev.azure.com/"@ + organization_name + "/_git/"@ + repository_name
            + "/pullrequest/"@ + decimal(pull_request_id),
{
    reveal_strlit("/");
    assert("/"@ =~= seq!['/']);
    lemma_before_joined(organization_name, '/', project_name);
}

/// The summary of a pull request of a repository that was found in an
/// organization links to it under the organization alone, by the
/// repository's name and the pull request's number. This holds of every
/// organization whose name is without a slash; with a slash in the name the
/// context does not tell where the organization ends.
pub proof fn lemma_summary_links_under_the_organization(
    organization_name: Seq<char>,
    project_name: Seq<char>,
    repository_name: Seq<char>,
    pull_request: AzureDevopsPullRequest,
    threads: Seq<PullRequestCommentThread>,
)
    requires
        !organization_name.contains('/'),
    ensures
        summary_of(
            repository_context_of(organization_name, project_name),
            repository_name,
            pull_request,
            threads,
        ).link == "https://dev.azure.com/"@ + organization_name + "/_git/"@ + repository_name
            + "/pullrequest/"@ + decimal(pull_request.pull_request_id as int),
{
    lemma_context_names_its_organization(
        organization_name,
        project_name,
        repository_name,
        pull_request.pull_request_id as int,
    );
}

} // verus!
