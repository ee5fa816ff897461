use pr_hub::application::dtos::{GitProvider as ShownGitProvider, GitRepositoryDto, PullRequestDto};
use pr_hub::application::git_repositories::get_git_repositories::GitRepositoriesQuery;
use pr_hub::application::git_repositories::import_azure_devops_organization_repositories::{
    secret_key, to_persist, DevOpsOrgaImporter, ImportError,
};
use pr_hub::application::git_repositories::remove_git_repository::{
    count_references, find, secret_to_delete, NoSuchRepository, RemoveGitRepositoryCommand,
    RemoveGitRepositoryError, NO_GIT_REPOSITORY_WITH_ID,
};
use pr_hub::application::git_repositories::toggle_git_repository_active_state::ToggleGitRepositoryActiveStateCommand;
use pr_hub::application::git_repositories::update_pat_for_git_repository::{
    stored, UpdatePatError, UpdatePatForGitRepositoryCommand,
};
use pr_hub::application::traits::{SecretError, SecretRepository};
use pr_hub::domain::enums::GitProvider;
use pr_hub::domain::models::{GitRepository, PullRequest, Timestamp};
use pr_hub::infrastructure::azure_devops::models::{
    GitRepository as AzureDevopsGitRepository, Response, TeamProjectReference,
};
use pr_hub::infrastructure::azure_devops::repository::get_repositories_in_organization;
use pr_hub::infrastructure::database::daos::{GitProvider as RecordedGitProvider, GitRepositoryDao};
use pr_hub::infrastructure::secret_storage::KeyringRepository;
use std::cell::RefCell;
use std::rc::Rc;

#[derive(Debug, Clone, PartialEq, Eq)]
enum Call {
    Read(String),
    Write(String, String),
    Erase(String),
}

struct Store {
    calls: Rc<RefCell<Vec<Call>>>,
    fails: bool,
}

impl Store {
    fn working() -> (Store, Rc<RefCell<Vec<Call>>>) {
        let calls = Rc::new(RefCell::new(Vec::new()));
        (Store { calls: calls.clone(), fails: false }, calls)
    }

    fn failing() -> (Store, Rc<RefCell<Vec<Call>>>) {
        let calls = Rc::new(RefCell::new(Vec::new()));
        (Store { calls: calls.clone(), fails: true }, calls)
    }

    fn answer<T>(&self, value: T) -> Result<T, SecretError> {
        if self.fails {
            Err(SecretError { message: "keyring is locked".to_string() })
        } else {
            Ok(value)
        }
    }
}

impl SecretRepository for Store {
    fn get_secret(&self, key: &str) -> Result<String, SecretError> {
        self.calls.borrow_mut().push(Call::Read(key.to_string()));
        self.answer("secret".to_string())
    }

    fn set_secret(&self, key: &str, value: &str) -> Result<(), SecretError> {
        self.calls.borrow_mut().push(Call::Write(key.to_string(), value.to_string()));
        self.answer(())
    }

    fn delete_secret(&self, key: &str) -> Result<(), SecretError> {
        self.calls.borrow_mut().push(Call::Erase(key.to_string()));
        self.answer(())
    }
}

fn repository(id: u32, name: &str, is_active: bool, key: &str) -> GitRepository {
    GitRepository {
        id,
        name: name.to_string(),
        context: "contoso/shop".to_string(),
        git_provider: GitProvider::AzureDevOps,
        is_active,
        pat_secret_key: key.to_string(),
    }
}

fn remote_repository(name: &str) -> AzureDevopsGitRepository {
    AzureDevopsGitRepository { id: format!("id-{}", name), name: name.to_string() }
}

#[test]
fn importing_three_repositories_stores_one_secret_and_persists_all() {
    let arrivals: Vec<(TeamProjectReference, Result<Response<AzureDevopsGitRepository>, String>)> = vec![
        (
            TeamProjectReference { name: "shop".to_string() },
            Ok(Response { value: vec![remote_repository("web")] }),
        ),
        (
            TeamProjectReference { name: "blog".to_string() },
            Ok(Response { value: vec![remote_repository("posts"), remote_repository("theme")] }),
        ),
    ];
    let discovered = get_repositories_in_organization("contoso", arrivals);
    let (store, calls) = Store::working();
    let importer = DevOpsOrgaImporter::new(store);
    let discovery: Result<Vec<GitRepository>, String> = Ok(discovered.clone());
    let persisted = importer.import(discovery, "token-c").unwrap();
    assert_eq!(persisted.len(), 3);
    assert_eq!(persisted, discovered);
    assert!(persisted.iter().all(|record| record.pat_secret_key == "azuredevops-contoso"));
    assert_eq!(
        *calls.borrow(),
        vec![Call::Write("azuredevops-contoso".to_string(), "token-c".to_string())]
    );
}

#[test]
fn importing_an_organization_without_repositories_stores_no_secret() {
    let (store, calls) = Store::working();
    let importer = DevOpsOrgaImporter::new(store);
    let discovery: Result<Vec<GitRepository>, String> = Ok(vec![]);
    assert_eq!(importer.import(discovery, "token-c"), Ok(vec![]));
    assert_eq!(*calls.borrow(), vec![]);
}

#[test]
fn a_failed_discovery_fails_the_import_and_stores_nothing() {
    let (store, calls) = Store::working();
    let importer = DevOpsOrgaImporter::new(store);
    let discovery: Result<Vec<GitRepository>, String> = Err("401".to_string());
    assert_eq!(importer.import(discovery, "token-c"), Err(ImportError::Discovery("401".to_string())));
    assert_eq!(*calls.borrow(), vec![]);
}

#[test]
fn a_secret_that_cannot_be_stored_fails_the_import() {
    let (store, calls) = Store::failing();
    let importer = DevOpsOrgaImporter::new(store);
    let discovery: Result<Vec<GitRepository>, String> =
        Ok(vec![repository(0, "web", true, "azuredevops-contoso")]);
    assert_eq!(
        importer.import(discovery, "token-c"),
        Err(ImportError::SecretStorage(SecretError { message: "keyring is locked".to_string() }))
    );
    assert_eq!(calls.borrow().len(), 1);
}

#[test]
fn the_secret_of_an_import_is_the_key_of_the_first_repository() {
    assert_eq!(secret_key(&vec![]), None);
    assert_eq!(
        secret_key(&vec![repository(0, "web", true, "key-a"), repository(0, "api", true, "key-b")]),
        Some("key-a".to_string())
    );
}

#[test]
fn to_persist_hands_out_all_unless_the_store_failed() {
    let found = vec![repository(0, "web", true, "key-a")];
    let kept: Result<Vec<GitRepository>, ImportError<String>> = to_persist(found.clone(), Some(Ok(())));
    assert_eq!(kept, Ok(found.clone()));
    let none: Result<Vec<GitRepository>, ImportError<String>> = to_persist(vec![], None);
    assert_eq!(none, Ok(vec![]));
    let failed: Result<Vec<GitRepository>, ImportError<String>> =
        to_persist(found, Some(Err(SecretError { message: "full".to_string() })));
    assert_eq!(failed, Err(ImportError::SecretStorage(SecretError { message: "full".to_string() })));
}

#[test]
fn removing_the_last_repository_of_a_key_deletes_the_secret() {
    let (store, calls) = Store::working();
    let command = RemoveGitRepositoryCommand::new(store);
    let listing: Result<Vec<GitRepository>, String> = Ok(vec![
        repository(1, "web", true, "key-a"),
        repository(2, "api", true, "key-b"),
    ]);
    assert_eq!(command.execute(listing, &2), Ok(Some("key-b".to_string())));
    assert_eq!(*calls.borrow(), vec![Call::Erase("key-b".to_string())]);
}

#[test]
fn removing_a_repository_whose_key_is_shared_keeps_the_secret() {
    let (store, calls) = Store::working();
    let command = RemoveGitRepositoryCommand::new(store);
    let listing: Result<Vec<GitRepository>, String> = Ok(vec![
        repository(1, "web", true, "key-a"),
        repository(2, "api", false, "key-a"),
        repository(3, "docs", true, "key-b"),
    ]);
    assert_eq!(command.execute(listing, &1), Ok(None));
    assert_eq!(*calls.borrow(), vec![]);
}

#[test]
fn removing_goes_on_where_the_secret_cannot_be_deleted() {
    let (store, calls) = Store::failing();
    let command = RemoveGitRepositoryCommand::new(store);
    let listing: Result<Vec<GitRepository>, String> = Ok(vec![repository(1, "web", true, "key-a")]);
    assert_eq!(command.execute(listing, &1), Ok(Some("key-a".to_string())));
    assert_eq!(*calls.borrow(), vec![Call::Erase("key-a".to_string())]);
}

#[test]
fn removing_an_unknown_repository_fails_and_deletes_nothing() {
    let (store, calls) = Store::working();
    let command = RemoveGitRepositoryCommand::new(store);
    let listing: Result<Vec<GitRepository>, String> = Ok(vec![repository(1, "web", true, "key-a")]);
    assert_eq!(command.execute(listing, &9), Err(RemoveGitRepositoryError::NotFound));
    assert_eq!(*calls.borrow(), vec![]);
    assert_eq!(NO_GIT_REPOSITORY_WITH_ID, "No git repository with id found");
}

#[test]
fn removing_fails_where_the_directory_fails() {
    let (store, calls) = Store::working();
    let command = RemoveGitRepositoryCommand::new(store);
    let listing: Result<Vec<GitRepository>, String> = Err("io".to_string());
    assert_eq!(
        command.execute(listing, &1),
        Err(RemoveGitRepositoryError::RepositoryListing("io".to_string()))
    );
    assert_eq!(*calls.borrow(), vec![]);
}

#[test]
fn find_gives_the_first_place_with_the_identifier() {
    let git_repos = vec![
        repository(5, "web", true, "key-a"),
        repository(7, "api", true, "key-a"),
        repository(7, "docs", true, "key-b"),
    ];
    assert_eq!(find(&git_repos, 5), Some(0));
    assert_eq!(find(&git_repos, 7), Some(1));
    assert_eq!(find(&git_repos, 6), None);
    assert_eq!(find(&vec![], 0), None);
}

#[test]
fn references_are_counted_by_key() {
    let git_repos = vec![
        repository(1, "web", true, "key-a"),
        repository(2, "api", false, "key-a"),
        repository(3, "docs", true, "key-b"),
    ];
    assert_eq!(count_references(&git_repos, &"key-a".to_string()), 2);
    assert_eq!(count_references(&git_repos, &"key-b".to_string()), 1);
    assert_eq!(count_references(&git_repos, &"key-c".to_string()), 0);
}

#[test]
fn the_secret_to_delete_is_the_key_that_nobody_else_uses() {
    let git_repos = vec![
        repository(1, "web", true, "key-a"),
        repository(2, "api", false, "key-a"),
        repository(3, "docs", true, "key-b"),
    ];
    assert_eq!(secret_to_delete(&git_repos, 1), Ok(None));
    assert_eq!(secret_to_delete(&git_repos, 2), Ok(None));
    assert_eq!(secret_to_delete(&git_repos, 3), Ok(Some("key-b".to_string())));
    assert_eq!(secret_to_delete(&git_repos, 4), Err(NoSuchRepository {}));
}

#[test]
fn toggling_flips_the_active_state_and_nothing_else() {
    let command = ToggleGitRepositoryActiveStateCommand::new();
    let found: Result<GitRepository, String> = Ok(repository(1, "web", true, "key-a"));
    assert_eq!(command.execute(found), Ok(repository(1, "web", false, "key-a")));
    let found: Result<GitRepository, String> = Ok(repository(1, "web", false, "key-a"));
    assert_eq!(command.execute(found), Ok(repository(1, "web", true, "key-a")));
}

#[test]
fn toggling_twice_gives_the_record_back() {
    let command = ToggleGitRepositoryActiveStateCommand::new();
    let found: Result<GitRepository, String> = Ok(repository(1, "web", true, "key-a"));
    let once = command.execute(found);
    assert_eq!(command.execute(once), Ok(repository(1, "web", true, "key-a")));
}

#[test]
fn toggling_fails_where_the_directory_fails() {
    let command = ToggleGitRepositoryActiveStateCommand::new();
    let found: Result<GitRepository, String> = Err("no row".to_string());
    assert_eq!(command.execute(found), Err("no row".to_string()));
}

#[test]
fn updating_the_token_stores_it_under_the_key_of_the_repository() {
    let (store, calls) = Store::working();
    let command = UpdatePatForGitRepositoryCommand::new(store);
    let found: Result<GitRepository, String> = Ok(repository(1, "web", true, "key-a"));
    assert_eq!(command.execute(found, "new-token"), Ok(()));
    assert_eq!(*calls.borrow(), vec![Call::Write("key-a".to_string(), "new-token".to_string())]);
}

#[test]
fn updating_the_token_fails_where_the_store_fails() {
    let (store, _) = Store::failing();
    let command = UpdatePatForGitRepositoryCommand::new(store);
    let found: Result<GitRepository, String> = Ok(repository(1, "web", true, "key-a"));
    assert_eq!(
        command.execute(found, "new-token"),
        Err(UpdatePatError::SecretStorage(SecretError { message: "keyring is locked".to_string() }))
    );
}

#[test]
fn updating_the_token_of_an_unknown_repository_leaves_the_store_alone() {
    let (store, calls) = Store::working();
    let command = UpdatePatForGitRepositoryCommand::new(store);
    let found: Result<GitRepository, String> = Err("no row".to_string());
    assert_eq!(
        command.execute(found, "new-token"),
        Err(UpdatePatError::RepositoryLookup("no row".to_string()))
    );
    assert_eq!(*calls.borrow(), vec![]);
}

#[test]
fn stored_maps_the_answer_of_the_store() {
    let done: Result<(), UpdatePatError<String>> = stored(Ok(()));
    assert_eq!(done, Ok(()));
    let failed: Result<(), UpdatePatError<String>> = stored(Err(SecretError { message: "x".to_string() }));
    assert_eq!(failed, Err(UpdatePatError::SecretStorage(SecretError { message: "x".to_string() })));
}

#[test]
fn the_repositories_query_shows_the_listing_in_its_order() {
    let query = GitRepositoriesQuery::new();
    let listing: Result<Vec<GitRepository>, String> =
        Ok(vec![repository(2, "api", false, "key-a"), repository(1, "web", true, "key-b")]);
    assert_eq!(
        query.execute(listing),
        Ok(vec![
            GitRepositoryDto {
                id: 2,
                name: "api".to_string(),
                context: "contoso/shop".to_string(),
                git_provider: ShownGitProvider::AzureDevOps,
                is_active: false,
            },
            GitRepositoryDto {
                id: 1,
                name: "web".to_string(),
                context: "contoso/shop".to_string(),
                git_provider: ShownGitProvider::AzureDevOps,
                is_active: true,
            },
        ])
    );
    let empty: Result<Vec<GitRepository>, String> = Ok(vec![]);
    assert_eq!(query.execute(empty), Ok(vec![]));
}

#[test]
fn the_repositories_query_fails_where_the_directory_fails() {
    let query = GitRepositoriesQuery::new();
    let listing: Result<Vec<GitRepository>, String> = Err("io".to_string());
    assert_eq!(query.execute(listing), Err("io".to_string()));
}

#[test]
fn a_repository_is_shown_without_the_key_of_its_secret() {
    let dto = GitRepositoryDto::from(&repository(4, "web", true, "key-a"));
    assert_eq!(
        dto,
        GitRepositoryDto {
            id: 4,
            name: "web".to_string(),
            context: "contoso/shop".to_string(),
            git_provider: ShownGitProvider::AzureDevOps,
            is_active: true,
        }
    );
    assert_eq!(ShownGitProvider::from(GitProvider::AzureDevOps), ShownGitProvider::AzureDevOps);
}

#[test]
fn a_pull_request_is_shown_with_all_but_its_number() {
    let pull_request = PullRequest {
        id: 42,
        repository_name: "web".to_string(),
        title: "Fix the cart".to_string(),
        merge_status: "conflicts".to_string(),
        creator_name: "Ada".to_string(),
        creation_date: Timestamp { seconds: 1_700_000_000, nanos: 5 },
        number_of_comments: 4,
        number_of_closed_comments: 2,
        link: "https://dev.azure.com/contoso/_git/web/pullrequest/42".to_string(),
    };
    assert_eq!(
        PullRequestDto::from(&pull_request),
        PullRequestDto {
            repository_name: "web".to_string(),
            title: "Fix the cart".to_string(),
            merge_status: "conflicts".to_string(),
            creator_name: "Ada".to_string(),
            creation_date: Timestamp { seconds: 1_700_000_000, nanos: 5 },
            number_of_comments: 4,
            number_of_closed_comments: 2,
            link: "https://dev.azure.com/contoso/_git/web/pullrequest/42".to_string(),
        }
    );
    assert_eq!(pull_request.clone(), pull_request);
    let dto = PullRequestDto::from(&pull_request);
    assert_eq!(dto.clone(), dto);
}

#[test]
fn a_record_and_its_repository_stand_for_one_another() {
    let dao = GitRepositoryDao {
        id: 3,
        name: "web".to_string(),
        context: "contoso/shop".to_string(),
        is_active: false,
        git_provider: RecordedGitProvider::AzureDevOps,
        pat_secret_key: "key-a".to_string(),
    };
    let expected = GitRepository {
        id: 3,
        name: "web".to_string(),
        context: "contoso/shop".to_string(),
        git_provider: GitProvider::AzureDevOps,
        is_active: false,
        pat_secret_key: "key-a".to_string(),
    };
    assert_eq!(GitRepository::from(&dao), expected);
    assert_eq!(GitRepository::from(dao.clone()), expected);
    assert_eq!(GitRepositoryDao::from(expected.clone()), dao);
    assert_eq!(GitRepositoryDao::from(GitRepository::from(dao.clone())), dao);
    assert_eq!(expected.clone(), expected);
}

#[test]
fn the_provider_is_recorded_by_its_name() {
    assert_eq!(RecordedGitProvider::AzureDevOps.recorded_name(), "azuredevops");
    assert_eq!(
        RecordedGitProvider::from_recorded_name("azuredevops"),
        Some(RecordedGitProvider::AzureDevOps)
    );
    assert_eq!(RecordedGitProvider::from_recorded_name("AzureDevOps"), None);
    assert_eq!(RecordedGitProvider::from_recorded_name(""), None);
    assert_eq!(RecordedGitProvider::from(GitProvider::AzureDevOps), RecordedGitProvider::AzureDevOps);
    assert_eq!(GitProvider::from(RecordedGitProvider::AzureDevOps), GitProvider::AzureDevOps);
}

#[test]
fn the_keyring_is_named_by_its_service() {
    let keyring = KeyringRepository::new("pr-hub".to_string());
    assert_eq!(keyring.service_name(), "pr-hub");
    assert_eq!(KeyringRepository::new(String::new()).service_name(), "");
}

#[test]
fn a_timestamp_is_after_another_by_seconds_then_nanoseconds() {
    let early = Timestamp { seconds: 9, nanos: 999_999_999 };
    let late = Timestamp { seconds: 10, nanos: 0 };
    assert!(late.is_after(&early));
    assert!(!early.is_after(&late));
    assert!(!late.is_after(&late));
    let later = Timestamp { seconds: 10, nanos: 1 };
    assert!(later.is_after(&late));
    assert!(!late.is_after(&later));
    let before_epoch = Timestamp { seconds: -1, nanos: 500 };
    assert!(Timestamp { seconds: 0, nanos: 0 }.is_after(&before_epoch));
    assert!(!before_epoch.is_after(&Timestamp { seconds: 0, nanos: 0 }));
}

#[test]
fn of_two_repositories_under_one_key_removing_one_deletes_no_secret() {
    let (store, calls) = Store::working();
    let command = RemoveGitRepositoryCommand::new(store);
    let listing: Result<Vec<GitRepository>, String> =
        Ok(vec![repository(1, "web", true, "k"), repository(2, "api", true, "k")]);
    assert_eq!(command.execute(listing, &1), Ok(None));
    assert_eq!(*calls.borrow(), vec![]);
}

#[test]
fn of_two_repositories_under_two_keys_removing_one_deletes_its_own_secret() {
    let (store, calls) = Store::working();
    let command = RemoveGitRepositoryCommand::new(store);
    let listing: Result<Vec<GitRepository>, String> =
        Ok(vec![repository(1, "web", true, "k"), repository(2, "api", true, "j")]);
    assert_eq!(command.execute(listing, &1), Ok(Some("k".to_string())));
    assert_eq!(*calls.borrow(), vec![Call::Erase("k".to_string())]);
}
