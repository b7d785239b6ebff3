//! Rendering of the command's output lines.

use vstd::prelude::*;
use crate::CliError;
use crate::api::ApplicationCreateResponse;

verus! {

/// The progress line's prefix, written before the workflow runs.
pub open spec fn spec_progress_prefix() -> Seq<char> {
    "Creating application... "@
}

/// The text written once the workflow has returned: the error's
/// message, or the three result lines.
pub open spec fn spec_result_text(r: Result<ApplicationCreateResponse, CliError>) -> Seq<char> {
    match r {
        Ok(resp) => "done, "@ + resp.name@ + "\n"@ + "url: "@ + resp.url@ + "\n"@ + "git: "@
            + resp.git_repo@ + "\n"@,
        Err(e) => e.message@ + "\n"@,
    }
}

/// The full text the create command writes: the progress prefix, then
/// the outcome's text.
pub open spec fn spec_command_output(r: Result<ApplicationCreateResponse, CliError>) -> Seq<
    char,
> {
    spec_progress_prefix() + spec_result_text(r)
}

/// Renders the progress prefix.
pub fn progress_prefix() -> (out: String)
    ensures
        out@ == spec_progress_prefix(),
{
    String::from_str("Creating application... ")
}

/// Renders what follows the progress prefix for the given outcome.
pub fn render_result(r: &Result<ApplicationCreateResponse, CliError>) -> (out: String)
    ensures
        out@ == spec_result_text(*r),
{
    let mut out = String::new();
    match r {
        Ok(resp) => {
            out.append("done, ");
            out.append(resp.name.as_str());
            out.append("\n");
            out.append("url: ");
            out.append(resp.url.as_str());
            out.append("\n");
            out.append("git: ");
            out.append(resp.git_repo.as_str());
            out.append("\n");
        },
        Err(e) => {
            out.append(e.message.as_str());
            out.append("\n");
        },
    }
    proof {
        assert(out@ =~= spec_result_text(*r));
    }
    out
}

/// Renders the create command's whole output for the given outcome.
pub fn render_output(r: &Result<ApplicationCreateResponse, CliError>) -> (out: String)
    ensures
        out@ == spec_command_output(*r),
{
    let mut out = progress_prefix();
    let rest = render_result(r);
    out.append(rest.as_str());
    out
}

} // verus!
