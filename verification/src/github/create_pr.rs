//! Creating a pull request with `gh pr create`: checking the request, the
//! arguments of the run, and reading its answer.
use vstd::prelude::*;

use crate::text::{push_line, push_str, str_chars, string_from_chars, string_views, trim, trim_chars};

use super::command::{gh_not_found_message, spec_gh_not_found_message};
use super::types::{IssueActionResult, PrCreateRequest};

verus! {

/// A failed action with `message`.
pub open spec fn action_failure(result: IssueActionResult, message: Seq<char>) -> bool {
    &&& !result.success
    &&& result.error matches Some(e) && e@ == message
    &&& result.detail is None
}

/// Arguments of `gh` that open the pull request; `--base` only when a base
/// branch was given.
pub open spec fn pr_create_args(request: PrCreateRequest) -> Seq<Seq<char>> {
    let head = seq!["pr"@, "create"@, "--title"@, request.title@, "--body"@, request.body@];
    match request.base {
        Some(b) => head + seq!["--base"@, b@],
        None => head,
    }
}

fn owned(s: &str) -> (r: String)
    ensures
        r@ == s@,
{
    let mut out = String::new();
    push_str(&mut out, s);
    out
}

fn copy(s: &String) -> (r: String)
    ensures
        r@ == s@,
{
    string_from_chars(str_chars(s.as_str()).as_slice())
}

/// Checks a request before anything runs: a blank title is refused, then
/// a missing `gh`; otherwise the arguments of the run.
pub fn prepare_pr_create(command: &str, request: &PrCreateRequest, command_found: bool) -> (r: Result<
    Vec<String>,
    IssueActionResult,
>)
    ensures
        trim(request.title@).len() == 0 ==> (r matches Err(res) && action_failure(res, "PR title cannot be empty"@)),
        trim(request.title@).len() > 0 && !command_found ==> (r matches Err(res) && action_failure(
            res,
            spec_gh_not_found_message(command@),
        )),
        trim(request.title@).len() > 0 && command_found ==> (r matches Ok(args) && string_views(args@)
            == pr_create_args(*request)),
{
    let title = trim_chars(str_chars(request.title.as_str()).as_slice());
    if title.len() == 0 {
        return Err(IssueActionResult { success: false, error: Some(owned("PR title cannot be empty")), detail: None });
    }
    if !command_found {
        return Err(IssueActionResult { success: false, error: Some(gh_not_found_message(command)), detail: None });
    }
    let mut args: Vec<String> = Vec::new();
    push_line(&mut args, owned("pr"));
    push_line(&mut args, owned("create"));
    push_line(&mut args, owned("--title"));
    push_line(&mut args, copy(&request.title));
    push_line(&mut args, owned("--body"));
    push_line(&mut args, copy(&request.body));
    if let Some(base) = &request.base {
        push_line(&mut args, owned("--base"));
        push_line(&mut args, copy(base));
    }
    Ok(args)
}

/// Result of a successful run: the trimmed output, or "Pull request
/// created" when there is none.
pub fn pr_create_succeeded(stdout: &str) -> (r: IssueActionResult)
    ensures
        r.success,
        r.error is None,
        r.detail matches Some(d) && d@ == if trim(stdout@).len() > 0 { trim(stdout@) } else { "Pull request created"@ },
{
    let trimmed = trim_chars(str_chars(stdout).as_slice());
    let detail = if trimmed.len() == 0 {
        owned("Pull request created")
    } else {
        string_from_chars(trimmed.as_slice())
    };
    IssueActionResult { success: true, error: None, detail: Some(detail) }
}

} // verus!
