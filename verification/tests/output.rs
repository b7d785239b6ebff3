use capsule::api::{ApplicationCreateResponse, CapsuleApi};
use capsule::cmd_create_application::handle;
use capsule::output::{progress_prefix, render_output, render_result};
use capsule::CliError;
use tempdir::TempDir;

struct FixedApi;

impl CapsuleApi for FixedApi {
    fn create_application(
        &self,
        name: Option<String>,
    ) -> Result<ApplicationCreateResponse, CliError> {
        assert!(name.is_none());
        Ok(ApplicationCreateResponse {
            name: "first_capsule_application".to_string(),
            url: "https://first-capsule-application.capsuleapp.cyou".to_string(),
            git_repo: "https://git.capsuleapp.cyou/first-capsule-application.git".to_string(),
        })
    }
}

#[test]
fn should_print_url_and_git_repo_if_create_application_successfully() {
    let application_directory = TempDir::new(".").unwrap();
    let dir = application_directory.path().to_str().unwrap().to_string();

    let mut output_strings = progress_prefix();
    let result = handle(&dir, None, &FixedApi);
    output_strings.push_str(&render_result(&result));
    let lines: Vec<&str> = output_strings.split("\n").collect();

    assert_eq!(lines[0], "Creating application... done, first_capsule_application");
    assert_eq!(lines[1], "url: https://first-capsule-application.capsuleapp.cyou");
    assert_eq!(lines[2], "git: https://git.capsuleapp.cyou/first-capsule-application.git");
}

#[test]
fn a_failure_is_printed_after_the_progress_prefix() {
    let result = Err(CliError { message: "The server response status 500.".to_string() });
    assert_eq!(
        render_output(&result),
        "Creating application... The server response status 500.\n"
    );
}

#[test]
fn a_success_is_printed_as_three_lines() {
    let result = Ok(ApplicationCreateResponse {
        name: "x".to_string(),
        url: "u".to_string(),
        git_repo: "g".to_string(),
    });
    assert_eq!(render_output(&result), "Creating application... done, x\nurl: u\ngit: g\n");
}

#[test]
fn the_whole_output_is_the_prefix_then_the_result_text() {
    let result = Err(CliError { message: "boom".to_string() });
    let mut composed = progress_prefix();
    composed.push_str(&render_result(&result));
    assert_eq!(composed, render_output(&result));
}
