use capsule::api::{ApplicationCreateResponse, CapsuleApi};
use capsule::cmd_create_application::{ensure_remote, handle, has_capsule_remote, is_git_repository};
use capsule::CliError;
use git2::Repository as Git;
use tempdir::TempDir;

struct MockCapsuleApi;

impl CapsuleApi for MockCapsuleApi {
    fn create_application(
        &self,
        name: Option<String>,
    ) -> Result<ApplicationCreateResponse, CliError> {
        assert!(name.is_none());
        Ok(ApplicationCreateResponse {
            name: "first_capsule_application".to_string(),
            url: "https://first-capsule-application.capsuleapp.cyou".to_string(),
            git_repo: "https://git.capsuleapp.cyou/first_capsule_user/first-capsule-application.git"
                .to_string(),
        })
    }
}

fn mock_create_application_api() -> MockCapsuleApi {
    MockCapsuleApi
}

struct FailingApi;

impl CapsuleApi for FailingApi {
    fn create_application(
        &self,
        _name: Option<String>,
    ) -> Result<ApplicationCreateResponse, CliError> {
        Err(CliError { message: "The server response status 500.".to_string() })
    }
}

fn dir_str(dir: &TempDir) -> String {
    dir.path().to_str().unwrap().to_string()
}

#[test]
fn should_create_application_if_application_directory_is_not_a_git_repository() {
    let application_directory = TempDir::new(".").unwrap();

    let mock_api = mock_create_application_api();

    let result = handle(&dir_str(&application_directory), None, &mock_api);

    assert_eq!(result.is_ok(), true);
    let response = result.ok().unwrap();
    assert_eq!(response.name, "first_capsule_application");
    assert_eq!(response.url, "https://first-capsule-application.capsuleapp.cyou");
    assert_eq!(
        response.git_repo,
        "https://git.capsuleapp.cyou/first_capsule_user/first-capsule-application.git"
    );
    assert_eq!(is_git_repository(&dir_str(&application_directory)), false);
}

#[test]
fn should_create_application_if_application_directory_is_a_git_repository() {
    let application_directory = TempDir::new(".").unwrap();

    let _ = Git::init(application_directory.path());

    let mock_api = mock_create_application_api();

    let result = handle(&dir_str(&application_directory), None, &mock_api);
    assert_eq!(result.is_ok(), true);

    let response = result.ok().unwrap();
    assert_eq!(response.name, "first_capsule_application");
    assert_eq!(response.name, "first_capsule_application");
    assert_eq!(response.url, "https://first-capsule-application.capsuleapp.cyou");
    assert_eq!(
        response.git_repo,
        "https://git.capsuleapp.cyou/first_capsule_user/first-capsule-application.git"
    );
}

#[test]
fn should_add_remote_git_repository_if_application_directory_is_a_git_repository() {
    let application_directory = TempDir::new(".").unwrap();

    let git_repo = Git::init(application_directory.path()).unwrap();

    let mock_api = mock_create_application_api();

    let _ = handle(&dir_str(&application_directory), None, &mock_api);

    let capsule_remote = git_repo.find_remote("capsule").unwrap();
    assert_eq!(capsule_remote.name().unwrap().unwrap(), "capsule");
    assert_eq!(
        capsule_remote.url().unwrap(),
        "https://git.capsuleapp.cyou/first_capsule_user/first-capsule-application.git"
    );
}

#[test]
fn should_create_application_if_git_remote_repository_was_present() {
    let application_directory = TempDir::new(".").unwrap();

    let git_repo = Git::init(application_directory.path()).unwrap();
    git_repo
        .remote(
            "capsule",
            "https://git.capsuleapp.cyou/first_capsule_user/first_capsule_application",
        )
        .expect("could not add git remote");

    let mock_api = mock_create_application_api();

    let result = handle(&dir_str(&application_directory), None, &mock_api);

    assert_eq!(result.is_ok(), true);
}

#[test]
fn existing_capsule_remote_is_left_untouched() {
    let application_directory = TempDir::new(".").unwrap();

    let git_repo = Git::init(application_directory.path()).unwrap();
    git_repo
        .remote("capsule", "https://example.test/already-there.git")
        .expect("could not add git remote");

    let mock_api = mock_create_application_api();

    let result = handle(&dir_str(&application_directory), None, &mock_api);
    assert!(result.is_ok());

    let capsule_remote = git_repo.find_remote("capsule").unwrap();
    assert_eq!(capsule_remote.url().unwrap(), "https://example.test/already-there.git");
    let remotes = git_repo.remotes().unwrap();
    assert_eq!(remotes.len(), 1);
}

#[test]
fn repository_gets_exactly_one_capsule_remote() {
    let application_directory = TempDir::new(".").unwrap();

    let git_repo = Git::init(application_directory.path()).unwrap();

    let mock_api = mock_create_application_api();
    let result = handle(&dir_str(&application_directory), None, &mock_api);
    assert!(result.is_ok());

    let remotes = git_repo.remotes().unwrap();
    assert_eq!(remotes.len(), 1);
    let capsule_remote = git_repo.find_remote("capsule").unwrap();
    assert_eq!(
        capsule_remote.url().unwrap(),
        "https://git.capsuleapp.cyou/first_capsule_user/first-capsule-application.git"
    );
}

#[test]
fn the_capsule_remote_is_found_among_listed_names() {
    assert!(!has_capsule_remote(&vec![]));
    assert!(!has_capsule_remote(&vec![Some("origin".to_string()), None]));
    assert!(has_capsule_remote(&vec![
        Some("origin".to_string()),
        None,
        Some("capsule".to_string()),
    ]));
    assert!(!has_capsule_remote(&vec![Some("Capsule".to_string())]));
}

#[test]
fn ensure_remote_is_a_no_op_outside_a_repository() {
    let application_directory = TempDir::new(".").unwrap();

    let result = ensure_remote(
        &dir_str(&application_directory),
        "https://git.capsuleapp.cyou/somewhere.git",
    );
    assert!(result.is_ok());
    assert_eq!(is_git_repository(&dir_str(&application_directory)), false);
}

#[test]
fn failing_api_call_leaves_the_repository_alone() {
    let application_directory = TempDir::new(".").unwrap();
    let git_repo = Git::init(application_directory.path()).unwrap();

    let result = handle(&dir_str(&application_directory), None, &FailingApi);
    assert!(result.is_err());
    assert_eq!(result.err().unwrap().message, "The server response status 500.");
    assert!(git_repo.find_remote("capsule").is_err());
}
