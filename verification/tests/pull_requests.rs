use pr_hub::application::dtos::PullRequestDto;
use pr_hub::application::git_repositories::toggle_git_repository_active_state::ToggleGitRepositoryActiveStateCommand;
use pr_hub::application::pull_requests::chronology::sort_by_creation_date;
use pr_hub::application::pull_requests::get_open_pull_requests::{
    active_among, request_for, requests_for, secret_keys, GetOpenPullRequestsError, GetOpenPullRequestsQuery, OpenPullRequestsRequest,
};
use pr_hub::application::traits::{SecretError, SecretRepository};
use pr_hub::domain::enums::GitProvider;
use pr_hub::domain::models::{GitRepository, PullRequest, Timestamp};
use std::cell::RefCell;

struct Secrets {
    known: Vec<(String, String)>,
    asked: RefCell<Vec<String>>,
}

impl Secrets {
    fn with(known: &[(&str, &str)]) -> Secrets {
        Secrets {
            known: known.iter().map(|(key, value)| (key.to_string(), value.to_string())).collect(),
            asked: RefCell::new(Vec::new()),
        }
    }
}

impl SecretRepository for Secrets {
    fn get_secret(&self, key: &str) -> Result<String, SecretError> {
        self.asked.borrow_mut().push(key.to_string());
        match self.known.iter().find(|(known, _)| known == key) {
            Some((_, value)) => Ok(value.clone()),
            None => Err(SecretError { message: format!("no secret under {}", key) }),
        }
    }

    fn set_secret(&self, _key: &str, _value: &str) -> Result<(), SecretError> {
        panic!("the query stores no secret")
    }

    fn delete_secret(&self, _key: &str) -> Result<(), SecretError> {
        panic!("the query deletes no secret")
    }
}

fn repository(id: u32, name: &str, context: &str, is_active: bool, key: &str) -> GitRepository {
    GitRepository {
        id,
        name: name.to_string(),
        context: context.to_string(),
        git_provider: GitProvider::AzureDevOps,
        is_active,
        pat_secret_key: key.to_string(),
    }
}

fn pull_request(id: i32, repository_name: &str, title: &str, seconds: i64, nanos: u32) -> PullRequest {
    PullRequest {
        id,
        repository_name: repository_name.to_string(),
        title: title.to_string(),
        merge_status: "succeeded".to_string(),
        creator_name: "Ada".to_string(),
        creation_date: Timestamp { seconds, nanos },
        number_of_comments: 3,
        number_of_closed_comments: 1,
        link: format!("https://dev.azure.com/contoso/_git/{}/pullrequest/{}", repository_name, id),
    }
}

fn shown(id: i32, repository_name: &str, title: &str, seconds: i64, nanos: u32) -> PullRequestDto {
    PullRequestDto {
        repository_name: repository_name.to_string(),
        title: title.to_string(),
        merge_status: "succeeded".to_string(),
        creator_name: "Ada".to_string(),
        creation_date: Timestamp { seconds, nanos },
        number_of_comments: 3,
        number_of_closed_comments: 1,
        link: format!("https://dev.azure.com/contoso/_git/{}/pullrequest/{}", repository_name, id),
    }
}

fn merge(arrivals: Vec<Result<Vec<PullRequest>, String>>) -> Vec<PullRequestDto> {
    GetOpenPullRequestsQuery::new(Secrets::with(&[])).merge(arrivals)
}

fn titles(pull_requests: &[PullRequestDto]) -> Vec<&str> {
    pull_requests.iter().map(|pull_request| pull_request.title.as_str()).collect()
}

#[test]
fn every_active_repository_is_asked_with_its_token() {
    let query = GetOpenPullRequestsQuery::new(Secrets::with(&[
        ("azuredevops-contoso", "token-c"),
        ("azuredevops-fabrikam", "token-f"),
    ]));
    let listing: Result<Vec<GitRepository>, String> = Ok(vec![
        repository(1, "web", "contoso/shop", true, "azuredevops-contoso"),
        repository(2, "api", "contoso/shop", true, "azuredevops-contoso"),
        repository(3, "docs", "fabrikam/site", true, "azuredevops-fabrikam"),
    ]);
    assert_eq!(
        query.execute(listing),
        Ok(vec![
            OpenPullRequestsRequest {
                pat: "token-c".to_string(),
                context: "contoso/shop".to_string(),
                repository_name: "web".to_string(),
                git_provider: GitProvider::AzureDevOps,
            },
            OpenPullRequestsRequest {
                pat: "token-c".to_string(),
                context: "contoso/shop".to_string(),
                repository_name: "api".to_string(),
                git_provider: GitProvider::AzureDevOps,
            },
            OpenPullRequestsRequest {
                pat: "token-f".to_string(),
                context: "fabrikam/site".to_string(),
                repository_name: "docs".to_string(),
                git_provider: GitProvider::AzureDevOps,
            },
        ])
    );
}

#[test]
fn a_failed_directory_listing_fails_the_query_and_nothing_is_asked() {
    let secrets = Secrets::with(&[("azuredevops-contoso", "token-c")]);
    let query = GetOpenPullRequestsQuery::new(secrets);
    let listing: Result<Vec<GitRepository>, String> = Err("database is locked".to_string());
    assert_eq!(
        query.execute(listing),
        Err(GetOpenPullRequestsError::RepositoryListing("database is locked".to_string()))
    );
}

#[test]
fn an_inactive_repository_is_neither_asked_nor_looked_up() {
    let secrets = Secrets::with(&[("key-a", "token-a"), ("key-b", "token-b")]);
    let listing: Result<Vec<GitRepository>, String> = Ok(vec![
        repository(1, "web", "contoso/shop", false, "key-a"),
        repository(2, "api", "contoso/shop", true, "key-b"),
        repository(3, "old", "contoso/attic", false, "key-missing"),
    ]);
    let requests = plan_and_report(secrets, listing);
    assert_eq!(requests.0.as_ref().map(|requests| requests.len()), Ok(1));
    assert_eq!(requests.0.unwrap()[0].repository_name, "api");
    assert_eq!(requests.1, vec!["key-b".to_string()]);
}

fn plan_and_report(
    secrets: Secrets,
    listing: Result<Vec<GitRepository>, String>,
) -> (Result<Vec<OpenPullRequestsRequest>, GetOpenPullRequestsError<String>>, Vec<String>) {
    let asked = std::rc::Rc::new(RefCell::new(Vec::new()));
    let recording = Recording { secrets, asked: asked.clone() };
    let query = GetOpenPullRequestsQuery::new(recording);
    let requests = query.execute(listing);
    let asked = asked.borrow().clone();
    (requests, asked)
}

struct Recording {
    secrets: Secrets,
    asked: std::rc::Rc<RefCell<Vec<String>>>,
}

impl SecretRepository for Recording {
    fn get_secret(&self, key: &str) -> Result<String, SecretError> {
        self.asked.borrow_mut().push(key.to_string());
        self.secrets.get_secret(key)
    }

    fn set_secret(&self, key: &str, value: &str) -> Result<(), SecretError> {
        self.secrets.set_secret(key, value)
    }

    fn delete_secret(&self, key: &str) -> Result<(), SecretError> {
        self.secrets.delete_secret(key)
    }
}

#[test]
fn a_failed_directory_listing_leaves_the_secret_store_alone() {
    let secrets = Secrets::with(&[("key-a", "token-a")]);
    let (requests, asked) = plan_and_report(secrets, Err("gone".to_string()));
    assert_eq!(requests, Err(GetOpenPullRequestsError::RepositoryListing("gone".to_string())));
    assert_eq!(asked, Vec::<String>::new());
}

#[test]
fn no_active_repository_means_nothing_to_ask() {
    let secrets = Secrets::with(&[]);
    let listing = Ok(vec![repository(1, "web", "contoso/shop", false, "key-a")]);
    let (requests, asked) = plan_and_report(secrets, listing);
    assert_eq!(requests, Ok(vec![]));
    assert_eq!(asked, Vec::<String>::new());

    let (requests, _) = plan_and_report(Secrets::with(&[]), Ok(vec![]));
    assert_eq!(requests, Ok(vec![]));
}

#[test]
fn a_token_that_cannot_be_had_fails_the_query() {
    let secrets = Secrets::with(&[("key-a", "token-a")]);
    let listing = Ok(vec![
        repository(1, "web", "contoso/shop", true, "key-a"),
        repository(2, "api", "contoso/shop", true, "key-b"),
        repository(3, "docs", "contoso/shop", true, "key-a"),
    ]);
    let (requests, asked) = plan_and_report(secrets, listing);
    assert_eq!(
        requests,
        Err(GetOpenPullRequestsError::SecretResolution(SecretError {
            message: "no secret under key-b".to_string()
        }))
    );
    assert_eq!(asked, vec!["key-a".to_string(), "key-b".to_string()]);
}

#[test]
fn request_for_takes_the_token_or_hands_the_error_on() {
    let web = repository(1, "web", "contoso/shop", true, "key-a");
    assert_eq!(
        request_for(&web, Ok("token-a".to_string())),
        Ok(OpenPullRequestsRequest {
            pat: "token-a".to_string(),
            context: "contoso/shop".to_string(),
            repository_name: "web".to_string(),
            git_provider: GitProvider::AzureDevOps,
        })
    );
    assert_eq!(
        request_for(&web, Err(SecretError { message: "locked".to_string() })),
        Err(SecretError { message: "locked".to_string() })
    );
}

#[test]
fn without_failures_the_result_is_the_union_in_the_order_of_creation() {
    let arrivals: Vec<Result<Vec<PullRequest>, String>> = vec![
        Ok(vec![pull_request(1, "web", "c", 30, 0), pull_request(2, "web", "a", 10, 0)]),
        Ok(vec![]),
        Ok(vec![pull_request(7, "api", "b", 20, 0)]),
        Ok(vec![pull_request(9, "docs", "d", 40, 0), pull_request(8, "docs", "_", 5, 0)]),
    ];
    let merged = merge(arrivals);
    assert_eq!(
        merged,
        vec![
            shown(8, "docs", "_", 5, 0),
            shown(2, "web", "a", 10, 0),
            shown(7, "api", "b", 20, 0),
            shown(1, "web", "c", 30, 0),
            shown(9, "docs", "d", 40, 0),
        ]
    );
}

#[test]
fn one_failed_listing_leaves_the_union_of_the_others() {
    let arrivals: Vec<Result<Vec<PullRequest>, String>> = vec![
        Ok(vec![pull_request(1, "web", "c", 30, 0)]),
        Err("503 from the provider".to_string()),
        Ok(vec![pull_request(7, "api", "b", 20, 0)]),
    ];
    let others: Vec<Result<Vec<PullRequest>, String>> = vec![
        Ok(vec![pull_request(1, "web", "c", 30, 0)]),
        Ok(vec![pull_request(7, "api", "b", 20, 0)]),
    ];
    let merged = merge(arrivals);
    assert_eq!(merged, vec![shown(7, "api", "b", 20, 0), shown(1, "web", "c", 30, 0)]);
    assert_eq!(merged, merge(others));
}

#[test]
fn only_failed_listings_give_an_empty_result() {
    let arrivals: Vec<Result<Vec<PullRequest>, String>> =
        vec![Err("a".to_string()), Err("b".to_string())];
    assert_eq!(merge(arrivals), vec![]);
    let none: Vec<Result<Vec<PullRequest>, String>> = vec![];
    assert_eq!(merge(none), vec![]);
}

#[test]
fn pull_requests_of_one_instant_keep_the_order_of_arrival() {
    let arrivals: Vec<Result<Vec<PullRequest>, String>> = vec![
        Ok(vec![pull_request(1, "web", "late", 50, 0), pull_request(2, "web", "tie-1", 20, 7)]),
        Ok(vec![pull_request(3, "api", "tie-2", 20, 7), pull_request(4, "api", "early", 20, 6)]),
        Ok(vec![pull_request(5, "docs", "tie-3", 20, 7)]),
    ];
    let merged = merge(arrivals);
    assert_eq!(titles(&merged), vec!["early", "tie-1", "tie-2", "tie-3", "late"]);
}

#[test]
fn nanoseconds_order_pull_requests_of_one_second() {
    let arrivals: Vec<Result<Vec<PullRequest>, String>> = vec![Ok(vec![
        pull_request(1, "web", "c", 100, 999_999_999),
        pull_request(2, "web", "a", 100, 0),
        pull_request(3, "web", "b", 100, 1),
        pull_request(4, "web", "d", 101, 0),
        pull_request(5, "web", "z", -1, 999_999_999),
    ])];
    let merged = merge(arrivals);
    assert_eq!(titles(&merged), vec!["z", "a", "b", "c", "d"]);
}

#[test]
fn running_the_query_twice_gives_the_same_result() {
    let arrivals = || -> Vec<Result<Vec<PullRequest>, String>> {
        vec![
            Ok(vec![pull_request(1, "web", "c", 30, 0), pull_request(2, "web", "a", 10, 0)]),
            Err("503".to_string()),
            Ok(vec![pull_request(7, "api", "b", 20, 0), pull_request(8, "api", "b2", 20, 0)]),
        ]
    };
    let first = merge(arrivals());
    let second = merge(arrivals());
    assert_eq!(first, second);
    assert_eq!(titles(&first), vec!["a", "b", "b2", "c"]);
}

#[test]
fn the_order_of_arrival_does_not_show_where_instants_differ() {
    let first: Vec<Result<Vec<PullRequest>, String>> = vec![
        Ok(vec![pull_request(1, "web", "c", 30, 0), pull_request(2, "web", "a", 10, 0)]),
        Err("503".to_string()),
        Ok(vec![pull_request(7, "api", "b", 20, 0)]),
    ];
    let second: Vec<Result<Vec<PullRequest>, String>> = vec![
        Ok(vec![pull_request(7, "api", "b", 20, 0)]),
        Ok(vec![pull_request(1, "web", "c", 30, 0), pull_request(2, "web", "a", 10, 0)]),
        Err("503".to_string()),
    ];
    assert_eq!(
        merge(first),
        merge(second)
    );
}

#[test]
fn toggling_a_repository_off_takes_it_out_of_the_next_query() {
    let web = repository(1, "web", "contoso/shop", true, "key-a");
    let api = repository(2, "api", "contoso/shop", true, "key-a");

    let before: Result<Vec<GitRepository>, String> = Ok(vec![web.clone(), api.clone()]);
    let (requests, _) = plan_and_report(Secrets::with(&[("key-a", "token-a")]), before);
    let names: Vec<String> =
        requests.unwrap().into_iter().map(|request| request.repository_name).collect();
    assert_eq!(names, vec!["web".to_string(), "api".to_string()]);

    let command = ToggleGitRepositoryActiveStateCommand::new();
    let found: Result<GitRepository, String> = Ok(web);
    let web = command.execute(found).unwrap();
    assert!(!web.is_active);

    let after: Result<Vec<GitRepository>, String> = Ok(vec![web, api]);
    let (requests, asked) = plan_and_report(Secrets::with(&[("key-a", "token-a")]), after);
    let names: Vec<String> =
        requests.unwrap().into_iter().map(|request| request.repository_name).collect();
    assert_eq!(names, vec!["api".to_string()]);
    assert_eq!(asked, vec!["key-a".to_string()]);
}

#[test]
fn sorting_orders_by_creation_and_keeps_ties_as_given() {
    let sorted = sort_by_creation_date(vec![
        shown(1, "web", "e", 9, 0),
        shown(2, "web", "b", 3, 5),
        shown(3, "web", "c", 3, 5),
        shown(4, "web", "a", 3, 4),
        shown(5, "web", "d", 3, 5),
    ]);
    assert_eq!(titles(&sorted), vec!["a", "b", "c", "d", "e"]);
}

#[test]
fn sorting_leaves_a_sorted_list_as_it_is() {
    let given = vec![shown(1, "web", "a", 1, 0), shown(2, "web", "b", 2, 0), shown(3, "web", "c", 3, 0)];
    assert_eq!(sort_by_creation_date(given.clone()), given);
    assert_eq!(sort_by_creation_date(vec![]), vec![]);
    assert_eq!(sort_by_creation_date(vec![shown(1, "web", "a", 1, 0)]), vec![shown(1, "web", "a", 1, 0)]);
}

#[test]
fn sorting_turns_a_descending_list_round() {
    let sorted = sort_by_creation_date(vec![
        shown(1, "web", "d", 40, 0),
        shown(2, "web", "c", 30, 0),
        shown(3, "web", "b", 20, 0),
        shown(4, "web", "a", 10, 0),
    ]);
    assert_eq!(titles(&sorted), vec!["a", "b", "c", "d"]);
}

#[test]
fn sorting_handles_the_ends_of_the_range() {
    let sorted = sort_by_creation_date(vec![
        shown(1, "web", "max", i64::MAX, u32::MAX),
        shown(2, "web", "min", i64::MIN, 0),
        shown(3, "web", "zero", 0, 0),
        shown(4, "web", "almost-max", i64::MAX, u32::MAX - 1),
    ]);
    assert_eq!(titles(&sorted), vec!["min", "zero", "almost-max", "max"]);
}

#[test]
fn requests_for_gives_one_request_for_each_answer() {
    let answers = vec![
        (repository(1, "web", "contoso/shop", true, "key-a"), Ok("token-a".to_string())),
        (repository(2, "api", "contoso/shop", true, "key-b"), Ok("token-b".to_string())),
    ];
    assert_eq!(
        requests_for(answers),
        Ok(vec![
            OpenPullRequestsRequest {
                pat: "token-a".to_string(),
                context: "contoso/shop".to_string(),
                repository_name: "web".to_string(),
                git_provider: GitProvider::AzureDevOps,
            },
            OpenPullRequestsRequest {
                pat: "token-b".to_string(),
                context: "contoso/shop".to_string(),
                repository_name: "api".to_string(),
                git_provider: GitProvider::AzureDevOps,
            },
        ])
    );
    assert_eq!(requests_for(vec![]), Ok(vec![]));
}

#[test]
fn requests_for_fails_with_the_first_error() {
    let answers = vec![
        (repository(1, "web", "contoso/shop", true, "key-a"), Ok("token-a".to_string())),
        (
            repository(2, "api", "contoso/shop", true, "key-b"),
            Err(SecretError { message: "first".to_string() }),
        ),
        (
            repository(3, "docs", "contoso/shop", true, "key-c"),
            Err(SecretError { message: "second".to_string() }),
        ),
    ];
    assert_eq!(requests_for(answers), Err(SecretError { message: "first".to_string() }));
}

#[test]
fn the_store_is_asked_for_the_keys_of_the_active_repositories_in_order() {
    let listing = vec![
        repository(1, "web", "contoso/shop", true, "key-a"),
        repository(2, "old", "contoso/attic", false, "key-old"),
        repository(3, "api", "contoso/shop", true, "key-b"),
        repository(4, "docs", "contoso/shop", true, "key-a"),
    ];
    assert_eq!(
        secret_keys(&listing),
        vec!["key-a".to_string(), "key-b".to_string(), "key-a".to_string()]
    );
    assert_eq!(secret_keys(&vec![]), Vec::<String>::new());
    assert_eq!(
        secret_keys(&vec![repository(2, "old", "contoso/attic", false, "key-old")]),
        Vec::<String>::new()
    );

    let (_, asked) = plan_and_report(
        Secrets::with(&[("key-a", "token-a"), ("key-b", "token-b")]),
        Ok(listing.clone()),
    );
    assert_eq!(asked, secret_keys(&listing));
}

#[test]
fn the_active_repositories_keep_the_order_of_the_listing() {
    let web = repository(1, "web", "contoso/shop", true, "key-a");
    let old = repository(2, "old", "contoso/attic", false, "key-old");
    let api = repository(3, "api", "contoso/shop", true, "key-b");
    assert_eq!(active_among(vec![web.clone(), old.clone(), api.clone()]), vec![web, api]);
    assert_eq!(active_among(vec![old]), vec![]);
    assert_eq!(active_among(vec![]), vec![]);
}
