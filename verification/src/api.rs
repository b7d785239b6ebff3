//! The application-creation interface and its response record.

use vstd::prelude::*;
use crate::CliError;

verus! {

/// The record a successful creation returns: the application's name,
/// its hosted URL, and the URL of its source repository. The fields are
/// copied through from the server's response unchanged.
pub struct ApplicationCreateResponse {
    pub name: String,
    pub url: String,
    pub git_repo: String,
}

/// The one operation of the remote service: create an application,
/// optionally under a given name. Implementations live outside the
/// library (a real transport, or a test double); nothing can be
/// promised of what they return, so the contract is empty and callers
/// state what holds of every outcome.
pub trait CapsuleApi {
    fn create_application(&self, name: Option<String>) -> Result<
        ApplicationCreateResponse,
        CliError,
    >;
}

} // verus!
