//! The create-application workflow: one remote call, then a
//! best-effort registration of a `"capsule"` remote in the local
//! repository.

use vstd::prelude::*;
use crate::CliError;
use crate::api::{ApplicationCreateResponse, CapsuleApi};

verus! {

/// Declares git2::Repository, the handle to an opened repository, so
/// that values of it can be carried through; nothing inside is seen.
#[verifier::external_type_specification]
#[verifier::external_body]
pub struct ExRepository(git2::Repository);

/// Declares git2::Error, the failure the repository calls return.
#[verifier::external_type_specification]
#[verifier::external_body]
pub struct ExGitError(git2::Error);

/// Relies on std::path::Path::exists: whether the named entry exists
/// directly under the given directory on disk.
#[verifier::external_body]
fn directory_entry_exists(directory: &str, entry: &str) -> bool {
    std::path::PathBuf::new().join(directory).join(entry).exists()
}

/// Whether the directory is a version-controlled working copy: a
/// `.git` entry exists directly under it. A pure existence check, not
/// a deep repository validation; the answer rests on the disk, so no
/// more can be stated.
pub fn is_git_repository(application_directory: &str) -> bool {
    directory_entry_exists(application_directory, ".git")
}

/// Relies on git2::Repository::open: opens the repository at the given
/// path, failing if none is there.
#[verifier::external_body]
fn open_repository(application_directory: &str) -> Result<git2::Repository, git2::Error> {
    git2::Repository::open(application_directory)
}

/// Relies on git2::Repository::remotes: lists the names of the
/// repository's configured remotes; a name that is not valid text
/// comes through as `None`.
#[verifier::external_body]
fn remote_names(repo: &git2::Repository) -> Result<Vec<Option<String>>, git2::Error> {
    match repo.remotes() {
        Ok(names) => Ok(names
            .iter()
            .map(|name| match name {
                Ok(Some(s)) => Some(s.to_string()),
                Ok(None) => None,
                Err(_) => None,
            })
            .collect()),
        Err(e) => Err(e),
    }
}

/// Relies on git2::Repository::remote: records a remote with the given
/// name and URL in the repository's configuration.
#[verifier::external_body]
fn add_remote(repo: &git2::Repository, name: &str, url: &str) -> Result<(), git2::Error> {
    match repo.remote(name, url) {
        Ok(_) => Ok(()),
        Err(e) => Err(e),
    }
}

/// Relies on git2::Error::message: the failure's human-readable text.
#[verifier::external_body]
fn git_error_message(e: &git2::Error) -> String {
    e.message().to_string()
}

/// Whether one listed remote name is `"capsule"`.
pub open spec fn is_capsule_name(name: Option<String>) -> bool {
    name matches Some(n) && n@ == "capsule"@
}

/// Whether the listed remote names contain one named `"capsule"`.
pub open spec fn spec_has_capsule(names: Seq<Option<String>>) -> bool {
    exists|i: int| 0 <= i < names.len() && #[trigger] is_capsule_name(names[i])
}

/// Decides whether a `"capsule"` remote is already recorded, given the
/// names the repository listed.
pub fn has_capsule_remote(names: &Vec<Option<String>>) -> (b: bool)
    ensures
        b == spec_has_capsule(names@),
{
    let target = String::from_str("capsule");
    let mut i: usize = 0;
    while i < names.len()
        invariant
            i <= names.len(),
            target@ == "capsule"@,
            forall|j: int| 0 <= j < i ==> !is_capsule_name(names@[j]),
        decreases names.len() - i,
    {
        match &names[i] {
            Some(n) => {
                if n.eq(&target) {
                    assert(is_capsule_name(names@[i as int]));
                    return true;
                }
            },
            None => {},
        }
        i = i + 1;
    }
    false
}

/// Makes sure the directory's repository, if it is one, has a remote
/// named `"capsule"`. A directory without version-control metadata is
/// left alone and counts as success; an existing `"capsule"` remote is
/// never overwritten; only when none exists is one added, pointing at
/// `remote_url`. Every outcome here depends on the repository on disk,
/// so nothing more than the error conversion is promised; the decision
/// itself is `has_capsule_remote`, which carries the exact contract.
pub fn ensure_remote(application_directory: &str, remote_url: &str) -> Result<(), CliError> {
    if !is_git_repository(application_directory) {
        return Ok(());
    }
    let repo = match open_repository(application_directory) {
        Ok(repo) => repo,
        Err(e) => {
            return Err(CliError { message: git_error_message(&e) });
        },
    };
    let names = match remote_names(&repo) {
        Ok(names) => names,
        Err(e) => {
            return Err(CliError { message: git_error_message(&e) });
        },
    };
    if !has_capsule_remote(&names) {
        match add_remote(&repo, "capsule", remote_url) {
            Ok(()) => {},
            Err(e) => {
                return Err(CliError { message: git_error_message(&e) });
            },
        }
    }
    Ok(())
}

/// The whole workflow: create the application through the given
/// interface, and only on success try to register the `"capsule"`
/// remote; a failure of either step is the overall failure, and the
/// response comes back unchanged: an `Ok` result is exactly a
/// response the interface returned for this very input. Success
/// cannot be promised (the service and the disk decide); what
/// interprets their results carries the exact contracts.
pub fn handle<A: CapsuleApi>(
    application_directory: &str,
    application_name: Option<String>,
    api: &A,
) -> (r: Result<ApplicationCreateResponse, CliError>)
    ensures
        r matches Ok(resp) ==> call_ensures(
            A::create_application,
            (api, application_name),
            Ok(resp),
        ),
{
    let create_response = match api.create_application(application_name) {
        Ok(response) => response,
        Err(e) => {
            return Err(e);
        },
    };
    match ensure_remote(application_directory, create_response.git_repo.as_str()) {
        Ok(()) => Ok(create_response),
        Err(e) => Err(e),
    }
}

} // verus!
