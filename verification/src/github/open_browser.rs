//! Opening an issue or pull request with `gh ... view --web`.
use vstd::prelude::*;

use crate::text::{decimal, decimal_string, push_line, push_str, string_views};

use super::command::{failure_text, spec_failure_text};
use super::types::GitHubBrowserTarget;

verus! {

/// `gh` subcommand for a target.
pub open spec fn browser_kind(target: GitHubBrowserTarget) -> Seq<char> {
    match target {
        GitHubBrowserTarget::Issue(_) => "issue"@,
        GitHubBrowserTarget::PullRequest(_) => "pr"@,
    }
}

/// Arguments of `gh` that open the target in the browser.
pub open spec fn spec_browser_view_args(target: GitHubBrowserTarget) -> Seq<Seq<char>> {
    let n = match target {
        GitHubBrowserTarget::Issue(n) => n,
        GitHubBrowserTarget::PullRequest(n) => n,
    };
    seq![browser_kind(target), "view"@, decimal(n as nat), "--web"@]
}

fn owned(s: &str) -> (r: String)
    ensures
        r@ == s@,
{
    let mut out = String::new();
    push_str(&mut out, s);
    out
}

pub fn browser_view_args(target: GitHubBrowserTarget) -> (r: Vec<String>)
    ensures
        string_views(r@) == spec_browser_view_args(target),
{
    let (kind, number) = match target {
        GitHubBrowserTarget::Issue(n) => ("issue", n),
        GitHubBrowserTarget::PullRequest(n) => ("pr", n),
    };
    let mut args: Vec<String> = Vec::new();
    push_line(&mut args, owned(kind));
    push_line(&mut args, owned("view"));
    push_line(&mut args, decimal_string(number as u64));
    push_line(&mut args, owned("--web"));
    args
}

/// Error text of a failed `gh <kind> view --web`.
pub fn format_browser_failure(kind: &str, stderr: &str, stdout: &str) -> (r: String)
    ensures
        r@ == spec_failure_text(stderr@, stdout@, "gh "@ + kind@ + " view --web failed"@),
{
    let mut fallback = owned("gh ");
    push_str(&mut fallback, kind);
    push_str(&mut fallback, " view --web failed");
    failure_text(stderr, stdout, fallback.as_str())
}

} // verus!
