//! Client-side logic for creating a remote application resource.
//!
//! The library holds the verified core of a small command-line client:
//! the wire format of the creation request and response, the
//! interpretation of the server's status code, the decision whether a
//! local repository needs a `"capsule"` remote, and the rendering of the
//! command's output. The surrounding process (argument parsing, the
//! HTTP transport, standard output) lives outside the library and hands
//! it plain values.

use vstd::prelude::*;

pub mod api;
pub mod cmd_create_application;
pub mod http;
pub mod output;

verus! {

/// A failure of any step of the workflow: the transport, the server's
/// status code, the response body, or the local repository. It carries
/// only a human-readable message; callers branch on presence alone.
pub struct CliError {
    pub message: String,
}

} // verus!
