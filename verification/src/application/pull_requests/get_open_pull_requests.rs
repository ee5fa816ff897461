//! The query for the open pull requests of all active repositories: what it
//! asks of the provider, and what it makes of the answers.

use super::chronology::{
    at_distinct_instants, chronological, created_at, in_creation_order,
    lemma_distinct_instants_fix_the_order, lemma_in_creation_order_is_chronological,
    lemma_in_creation_order_permutes, sort_by_creation_date,
};
use crate::application::git_repositories::toggle_git_repository_active_state::toggled;
use crate::application::dtos::{pull_request_dtos, shown_pull_request, PullRequestDto};
use crate::application::traits::{SecretError, SecretRepository};
use crate::domain::enums::GitProvider;
use crate::domain::models::{GitRepository, PullRequest};
use crate::fan_in::{
    collect_successes, concatenation, flatten, lemma_concatenation_of_joined,
    lemma_failure_takes_nothing_away, lemma_gathered_regardless_of_order,
    lemma_successes_of_joined, successes,
};
use vstd::prelude::*;

verus! {

/// One listing of open pull requests that is asked of the provider.
#[derive(Debug, PartialEq, Eq)]
pub struct OpenPullRequestsRequest {
    /// The token that authorizes the request
    pub pat: String,
    /// The scope of the repository
    pub context: String,
    /// The name of the repository
    pub repository_name: String,
    /// The provider that is asked
    pub git_provider: GitProvider,
}

/// Why the query ended before anything was asked of the provider.
#[derive(Debug, PartialEq, Eq)]
pub enum GetOpenPullRequestsError<E> {
    /// The directory could not list its repositories.
    RepositoryListing(E),
    /// The token of an active repository could not be had.
    SecretResolution(SecretError),
}

/// The test for a repository that takes part in the query.
pub open spec fn active() -> spec_fn(GitRepository) -> bool {
    |repository: GitRepository| repository.is_active
}

/// The repositories that take part in the query, in the order of the
/// directory's listing.
pub open spec fn active_repositories(repositories: Seq<GitRepository>) -> Seq<GitRepository> {
    repositories.filter(active())
}

/// Picks the repositories of a listing that take part in the query, in the
/// order of the listing.
pub fn active_among(repositories: Vec<GitRepository>) -> (taking_part: Vec<GitRepository>)
    ensures
        taking_part@ == active_repositories(repositories@),
{
    let mut taking_part: Vec<GitRepository> = Vec::new();
    let ghost all = repositories@;
    proof {
        assert(active_repositories(all.take(0)) =~= Seq::<GitRepository>::empty()) by {
            reveal(Seq::filter);
        }
    }
    for repository in listed: repositories.into_iter()
        invariant
            listed.seq() == all,
            taking_part@ == active_repositories(all.take(listed.index() as int)),
    {
        proof {
            let seen = all.take(listed.index() as int);
            assert(all.take(listed.index() + 1) =~= seen.push(repository));
            seen.lemma_filter_push(repository, active());
        }
        if repository.is_active {
            taking_part.push(repository);
        }
    }
    proof {
        assert(all.take(all.len() as int) =~= all);
    }
    taking_part
}

/// What the query asks of the secret store: the key of every active
/// repository, in the order of the listing. Nothing is asked for a
/// repository that is not active.
pub open spec fn secret_keys_of(repositories: Seq<GitRepository>) -> Seq<String> {
    active_repositories(repositories).map_values(
        |repository: GitRepository| repository.pat_secret_key,
    )
}

/// The keys under which the query asks the secret store for tokens.
pub fn secret_keys(repositories: &Vec<GitRepository>) -> (keys: Vec<String>)
    ensures
        keys@ == secret_keys_of(repositories@),
{
    let mut keys: Vec<String> = Vec::new();
    let mut i: usize = 0;
    proof {
        assert(secret_keys_of(repositories@.take(0)) =~= Seq::<String>::empty()) by {
            reveal(Seq::filter);
        }
    }
    while i < repositories.len()
        invariant
            i <= repositories@.len(),
            keys@ == secret_keys_of(repositories@.take(i as int)),
        decreases repositories@.len() - i,
    {
        proof {
            let seen = repositories@.take(i as int);
            let next = repositories@[i as int];
            assert(repositories@.take(i + 1) =~= seen.push(next));
            seen.lemma_filter_push(next, active());
            if next.is_active {
                assert(secret_keys_of(seen.push(next)) =~= secret_keys_of(seen).push(
                    next.pat_secret_key,
                ));
            }
        }
        if repositories[i].is_active {
            keys.push(repositories[i].pat_secret_key.clone());
        }
        i += 1;
    }
    proof {
        assert(repositories@.take(repositories@.len() as int) =~= repositories@);
    }
    keys
}

/// The request for the pull requests of `repository`, authorized by `pat`.
pub open spec fn request_of(repository: GitRepository, pat: String) -> OpenPullRequestsRequest {
    OpenPullRequestsRequest {
        pat,
        context: repository.context,
        repository_name: repository.name,
        git_provider: repository.git_provider,
    }
}

/// Whether `request` asks for the pull requests of `repository`.
pub open spec fn asks_for(request: OpenPullRequestsRequest, repository: GitRepository) -> bool {
    request == request_of(repository, request.pat)
}

/// What follows for a repository from the answer of the secret store: the
/// request to send with the token that was found, or the store's error.
pub fn request_for(repository: &GitRepository, secret: Result<String, SecretError>) -> (request:
    Result<OpenPullRequestsRequest, SecretError>)
    ensures
        secret matches Ok(pat) ==> request == Ok::<OpenPullRequestsRequest, SecretError>(
            request_of(*repository, pat),
        ),
        secret matches Err(error) ==> request == Err::<OpenPullRequestsRequest, SecretError>(
            error,
        ),
{
    match secret {
        Ok(pat) => Ok(
            OpenPullRequestsRequest {
                pat,
                context: repository.context.clone(),
                repository_name: repository.name.clone(),
                git_provider: repository.git_provider,
            },
        ),
        Err(error) => Err(error),
    }
}

/// Whether `at` is the place of the first repository for which the secret
/// store failed.
pub open spec fn is_first_failure(
    answers: Seq<(GitRepository, Result<String, SecretError>)>,
    at: int,
) -> bool {
    &&& 0 <= at < answers.len()
    &&& answers[at].1 is Err
    &&& forall|i: int| 0 <= i < at ==> (#[trigger] answers[i]).1 is Ok
}

/// What follows for the active repositories from the answers of the secret
/// store, each repository given with the answer for its token: where the
/// store answered for all of them, one request for each, in the order given;
/// else the error of the first for which it failed.
pub fn requests_for(answers: Vec<(GitRepository, Result<String, SecretError>)>) -> (requests:
    Result<Vec<OpenPullRequestsRequest>, SecretError>)
    ensures
        match requests {
            Ok(requests) => {
                &&& requests@.len() == answers@.len()
                &&& forall|i: int|
                    0 <= i < requests@.len() ==> (#[trigger] answers@[i]).1 == Ok::<
                        String,
                        SecretError,
                    >(requests@[i].pat) && asks_for(requests@[i], answers@[i].0)
            },
            Err(error) => exists|at: int| #[trigger]
                is_first_failure(answers@, at) && answers@[at].1 == Err::<String, SecretError>(
                    error,
                ),
        },
{
    let mut requests: Vec<OpenPullRequestsRequest> = Vec::new();
    let ghost all = answers@;
    for answer in given: answers.into_iter()
        invariant
            given.seq() == all,
            requests@.len() == given.index(),
            forall|i: int|
                0 <= i < requests@.len() ==> (#[trigger] all[i]).1 == Ok::<String, SecretError>(
                    requests@[i].pat,
                ) && asks_for(requests@[i], all[i].0),
    {
        let (repository, secret) = answer;
        match request_for(&repository, secret) {
            Ok(request) => {
                requests.push(request);
            },
            Err(error) => {
                assert(is_first_failure(all, given.index() as int));
                return Err(error);
            },
        }
    }
    Ok(requests)
}

/// What the query hands out, given the outcomes of the listings that were
/// asked for: the pull requests of the listings that succeeded, as they are
/// shown, in the order of their creation.
pub open spec fn merged<E>(arrivals: Seq<Result<Vec<PullRequest>, E>>) -> Seq<PullRequestDto> {
    in_creation_order(found(arrivals))
}

/// The pull requests of the listings that succeeded, as they are shown, in
/// the order in which the listings ended.
pub open spec fn found<E>(arrivals: Seq<Result<Vec<PullRequest>, E>>) -> Seq<PullRequestDto> {
    pull_request_dtos(concatenation(successes(arrivals)))
}

/// What one listing adds to the result: its pull requests, or nothing where
/// it failed.
pub open spec fn listing_of<E>() -> spec_fn(Result<Vec<PullRequest>, E>) -> Seq<PullRequest> {
    |arrival: Result<Vec<PullRequest>, E>|
        match arrival {
            Ok(pull_requests) => pull_requests@,
            Err(_) => Seq::empty(),
        }
}

/// Whether `answer` is one that the store may give when it is asked for the
/// token of `repository`, under the key that the repository's record holds.
pub open spec fn resolved_by<S: SecretRepository>(
    store: S,
    repository: GitRepository,
    answer: Result<String, SecretError>,
) -> bool {
    store.may_answer(repository.pat_secret_key@, answer)
}

/// Whether `error` is one with which the store may fail when it is asked
/// for the token of one of the repositories, under that repository's key.
pub open spec fn failed_for<S: SecretRepository>(
    store: S,
    repositories: Seq<GitRepository>,
    error: SecretError,
) -> bool {
    exists|at: int|
        0 <= at < repositories.len() && #[trigger] resolved_by(
            store,
            repositories[at],
            Err(error),
        )
}

/// Responsible for getting all open pull requests across all active
/// repositories.
pub struct GetOpenPullRequestsQuery<S: SecretRepository> {
    secret_repository: S,
}

impl<S: SecretRepository> GetOpenPullRequestsQuery<S> {
    /// The store from which the query takes its tokens.
    pub closed spec fn secrets(&self) -> S {
        self.secret_repository
    }

    /// Create a new instance of the query that takes its tokens from
    /// `secret_repository`.
    pub fn new(secret_repository: S) -> (query: Self)
        ensures
            query.secrets() == secret_repository,
    {
        GetOpenPullRequestsQuery { secret_repository }
    }

    /// Execute the query as far as the directory and the secret store
    /// carry: decides what to ask of the provider, given the answer of the
    /// directory. What the provider answers is handed to [`Self::merge`].
    ///
    /// Where the directory failed, so does the query, and nothing is asked.
    /// Else each active repository is asked for its pull requests, in the
    /// order of the listing, with the token that the secret store holds for
    /// it, which is looked up under the keys that [`secret_keys`] gives, each
    /// repository under its own; inactive repositories are passed over.
    /// Where the store fails for an active repository, it is not asked for
    /// another token, the query fails with the store's error and nothing is
    /// asked of the provider.
    pub fn execute<E>(&self, listing: Result<Vec<GitRepository>, E>) -> (requests: Result<
        Vec<OpenPullRequestsRequest>,
        GetOpenPullRequestsError<E>,
    >)
        ensures
            listing matches Err(error) ==> requests == Err::<
                Vec<OpenPullRequestsRequest>,
                GetOpenPullRequestsError<E>,
            >(GetOpenPullRequestsError::RepositoryListing(error)),
            listing is Ok ==> !(requests matches Err(
                GetOpenPullRequestsError::RepositoryListing(_),
            )),
            listing matches Ok(repositories) ==> requests matches Ok(requests) ==> requests@.len()
                == active_repositories(repositories@).len(),
            listing matches Ok(repositories) ==> requests matches Ok(requests) ==> forall|i: int|
                0 <= i < requests@.len() ==> asks_for(
                    #[trigger] requests@[i],
                    active_repositories(repositories@)[i],
                ),
            listing matches Ok(repositories) ==> requests matches Ok(requests) ==> forall|i: int|
                0 <= i < requests@.len() ==> resolved_by(
                    self.secrets(),
                    active_repositories(repositories@)[i],
                    Ok((#[trigger] requests@[i]).pat),
                ),
            listing matches Ok(repositories) ==> requests matches Err(
                GetOpenPullRequestsError::SecretResolution(error),
            ) ==> failed_for(self.secrets(), active_repositories(repositories@), error),
    {
        let repositories = match listing {
            Ok(repositories) => repositories,
            Err(error) => {
                return Err(GetOpenPullRequestsError::RepositoryListing(error));
            },
        };
        let ghost all = repositories@;
        let keys = secret_keys(&repositories);
        let taking_part = active_among(repositories);
        let mut answers: Vec<(GitRepository, Result<String, SecretError>)> = Vec::new();
        let mut failed = false;
        let count = keys.len();
        let mut at: usize = 0;
        for repository in listed: taking_part.into_iter()
            invariant
                listed.seq() == active_repositories(all),
                keys@ == secret_keys_of(all),
                count == keys@.len(),
                at == listed.index(),
                answers@.len() <= at,
                forall|i: int|
                    0 <= i < answers@.len() ==> resolved_by(
                        self.secrets(),
                        active_repositories(all)[i],
                        (#[trigger] answers@[i]).1,
                    ),
                !failed ==> {
                    &&& answers@.len() == at
                    &&& forall|i: int|
                        0 <= i < answers@.len() ==> (#[trigger] answers@[i]).1 is Ok
                            && answers@[i].0 == active_repositories(all)[i]
                },
                failed ==> {
                    &&& answers@.len() > 0
                    &&& answers@[answers@.len() - 1].1 is Err
                    &&& active_repositories(all).len() > 0
                },
        {
            assert(at < count);
            if !failed {
                let secret = self.secret_repository.get_secret(keys[at].as_str());
                assert(keys@[at as int] == active_repositories(all)[at as int].pat_secret_key);
                failed = secret.is_err();
                answers.push((repository, secret));
            }
            at += 1;
        }
        let ghost answered = answers@;
        match requests_for(answers) {
            Ok(requests) => {
                proof {
                    assert forall|i: int| 0 <= i < requests@.len() implies asks_for(
                        #[trigger] requests@[i],
                        active_repositories(all)[i],
                    ) by {
                        assert(answered[i].0 == active_repositories(all)[i]);
                    }
                    assert forall|i: int| 0 <= i < requests@.len() implies resolved_by(
                        self.secrets(),
                        active_repositories(all)[i],
                        Ok((#[trigger] requests@[i]).pat),
                    ) by {
                        assert(answered[i].1 == Ok::<String, SecretError>(requests@[i].pat));
                    }
                    assert(requests@.len() == active_repositories(all).len());
                }
                Ok(requests)
            },
            Err(error) => {
                proof {
                    let at = choose|at: int| #[trigger]
                        is_first_failure(answered, at) && answered[at].1 == Err::<
                            String,
                            SecretError,
                        >(error);
                    assert(0 <= at < active_repositories(all).len() && resolved_by(
                        self.secrets(),
                        active_repositories(all)[at],
                        Err(error),
                    ));
                    assert(failed_for(self.secrets(), active_repositories(all), error));
                }
                Err(GetOpenPullRequestsError::SecretResolution(error))
            },
        }
    }

    /// Puts together what the query hands out, given the outcomes of the
    /// listings that were asked for, in the order in which they ended.
    ///
    /// A listing that failed adds nothing and takes nothing away. The pull
    /// requests of the others are handed out as they are shown, the earliest
    /// created first; those created at the same instant keep the order in
    /// which they arrived.
    pub fn merge<E>(&self, arrivals: Vec<Result<Vec<PullRequest>, E>>) -> (pull_requests: Vec<
        PullRequestDto,
    >)
        ensures
            pull_requests@ == merged(arrivals@),
            chronological(pull_requests@),
            pull_requests@.to_multiset() == found(arrivals@).to_multiset(),
            forall|instant: int|
                #[trigger] pull_requests@.filter(created_at(instant)) == found(arrivals@).filter(
                    created_at(instant),
                ),
    {
        let found = flatten(collect_successes(arrivals));
        let mut shown: Vec<PullRequestDto> = Vec::new();
        let mut i: usize = 0;
        while i < found.len()
            invariant
                i <= found@.len(),
                shown@ == pull_request_dtos(found@.take(i as int)),
            decreases found@.len() - i,
        {
            shown.push(PullRequestDto::from(&found[i]));
            i += 1;
        }
        proof {
            assert(found@.take(found@.len() as int) =~= found@);
        }
        sort_by_creation_date(shown)
    }
}

/// The pull requests found in two runs of listings, one behind the other,
/// are those found in the first and, behind them, those found in the second.
pub proof fn lemma_found_of_joined<E>(
    first: Seq<Result<Vec<PullRequest>, E>>,
    second: Seq<Result<Vec<PullRequest>, E>>,
)
    ensures
        found(first + second) == found(first) + found(second),
{
    lemma_successes_of_joined(first, second);
    lemma_concatenation_of_joined(successes(first), successes(second));
}

/// The pull requests that are found are those of every listing, one listing
/// behind the other, where a listing that failed counts as an empty one.
pub proof fn lemma_found_is_union_of_listings<E>(arrivals: Seq<Result<Vec<PullRequest>, E>>)
    ensures
        found(arrivals) == pull_request_dtos(arrivals.map_values(listing_of::<E>()).flatten()),
    decreases arrivals.len(),
{
    let listings = arrivals.map_values(listing_of::<E>());
    if arrivals.len() > 0 {
        let front = arrivals.drop_last();
        let last = seq![arrivals.last()];
        lemma_found_is_union_of_listings(front);
        assert(arrivals =~= front + last);
        lemma_found_of_joined(front, last);
        let front_listings = front.map_values(listing_of::<E>());
        let last_listing = listing_of::<E>()(arrivals.last());
        assert(listings =~= front_listings.push(last_listing));
        front_listings.lemma_flatten_push(last_listing);
        assert(found(last) =~= pull_request_dtos(last_listing)) by {
            Seq::lemma_filter_map_singleton(arrivals.last(), crate::fan_in::kept::<Vec<PullRequest>, E>());
            match arrivals.last() {
                Ok(pull_requests) => {
                    let one = seq![pull_requests];
                    assert(one.map_values(|list: Vec<PullRequest>| list@) =~= seq![pull_requests@]);
                    seq![pull_requests@].lemma_flatten_singleton();
                },
                Err(_) => {},
            }
        }
    }
}

/// The query hands out exactly the pull requests of the listings that
/// succeeded, each as often as the listings hold it, and the earliest created
/// first. Where no listing failed, these are the open pull requests of every
/// active repository.
pub proof fn lemma_merged_is_ordered_union_of_listings<E>(
    arrivals: Seq<Result<Vec<PullRequest>, E>>,
)
    ensures
        chronological(merged(arrivals)),
        merged(arrivals).to_multiset() == pull_request_dtos(
            arrivals.map_values(listing_of::<E>()).flatten(),
        ).to_multiset(),
{
    lemma_found_is_union_of_listings(arrivals);
    lemma_in_creation_order_is_chronological(found(arrivals));
    lemma_in_creation_order_permutes(found(arrivals));
}

/// A listing that failed changes nothing: the query hands out what it would
/// hand out had the repository of that listing not been asked at all.
pub proof fn lemma_merged_skips_failed_listing<E>(
    arrivals: Seq<Result<Vec<PullRequest>, E>>,
    at: int,
)
    requires
        0 <= at < arrivals.len(),
        arrivals[at] is Err,
    ensures
        merged(arrivals) == merged(arrivals.remove(at)),
{
    lemma_failure_takes_nothing_away(arrivals, at);
}

/// Two runs of the query in which the same pull requests are found, each as
/// often in the one as in the other, hand out the same pull requests. Where
/// no two of them were created at the same instant, both runs hand them out
/// in one and the same order, whatever the order in which they were found.
pub proof fn lemma_merged_is_the_same_on_every_run<E>(
    first: Seq<Result<Vec<PullRequest>, E>>,
    second: Seq<Result<Vec<PullRequest>, E>>,
)
    requires
        found(first).to_multiset() == found(second).to_multiset(),
    ensures
        merged(first).to_multiset() == merged(second).to_multiset(),
        at_distinct_instants(found(first)) ==> merged(first) == merged(second),
{
    lemma_in_creation_order_permutes(found(first));
    lemma_in_creation_order_permutes(found(second));
    if at_distinct_instants(found(first)) {
        lemma_distinct_instants_fix_the_order(found(first), found(second));
    }
}

/// The order in which the listings end does not change which pull requests
/// the query hands out, nor how often. Where no two of them were created at
/// the same instant, it does not change their order either.
pub proof fn lemma_merged_regardless_of_arrival_order<E>(
    first: Seq<Result<Vec<PullRequest>, E>>,
    second: Seq<Result<Vec<PullRequest>, E>>,
)
    requires
        first.to_multiset() == second.to_multiset(),
    ensures
        merged(first).to_multiset() == merged(second).to_multiset(),
        at_distinct_instants(found(first)) ==> merged(first) == merged(second),
{
    lemma_found_regardless_of_arrival_order(first, second);
    lemma_merged_is_the_same_on_every_run(first, second);
}

/// The order in which the listings end does not change which pull requests
/// are found, nor how often.
proof fn lemma_found_regardless_of_arrival_order<E>(
    first: Seq<Result<Vec<PullRequest>, E>>,
    second: Seq<Result<Vec<PullRequest>, E>>,
)
    requires
        first.to_multiset() == second.to_multiset(),
    ensures
        found(first).to_multiset() == found(second).to_multiset(),
{
    let gather = |arrivals: Seq<Result<Vec<PullRequest>, E>>| found(arrivals);
    assert forall|head: Seq<Result<Vec<PullRequest>, E>>, tail: Seq<Result<Vec<PullRequest>, E>>|
     #[trigger] gather(head + tail) == gather(head) + gather(tail) by {
        lemma_found_of_joined(head, tail);
    }
    lemma_gathered_regardless_of_order(first, second, gather);
}

/// A repository that is not active is passed over: the query asks what it
/// would ask were the repository not in the directory.
pub proof fn lemma_inactive_repository_is_passed_over(repositories: Seq<GitRepository>, at: int)
    requires
        0 <= at < repositories.len(),
        !repositories[at].is_active,
    ensures
        active_repositories(repositories) == active_repositories(repositories.remove(at)),
{
    let before = repositories.take(at);
    let behind = repositories.skip(at + 1);
    let one = seq![repositories[at]];
    assert(repositories =~= before + one + behind);
    assert(repositories.remove(at) =~= before + behind);
    Seq::filter_distributes_over_add(before + one, behind, active());
    Seq::filter_distributes_over_add(before, one, active());
    Seq::filter_distributes_over_add(before, behind, active());
    assert(one.filter(active()) =~= Seq::<GitRepository>::empty()) by {
        reveal_with_fuel(Seq::filter, 2);
    }
    assert(before.filter(active()) + one.filter(active()) =~= before.filter(active()));
}

/// Once the active state of an active repository was toggled, the query
/// asks what it would ask were the repository not in the directory: no
/// request is made for it, and none of its pull requests is handed out.
pub proof fn lemma_toggled_off_repository_is_passed_over(
    repositories: Seq<GitRepository>,
    at: int,
)
    requires
        0 <= at < repositories.len(),
        repositories[at].is_active,
    ensures
        active_repositories(repositories.update(at, toggled(repositories[at])))
            == active_repositories(repositories.remove(at)),
{
    let after = repositories.update(at, toggled(repositories[at]));
    lemma_inactive_repository_is_passed_over(after, at);
    assert(after.remove(at) =~= repositories.remove(at));
}

} // verus!
