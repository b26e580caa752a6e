//! Creating an issue with `gh issue create`: checking the request, the
//! arguments of the run, and reading its answer.
use vstd::prelude::*;

use crate::text::{
    after_last, after_last_chars, decimal, decimal_string, parse_u32, parse_u32_chars, push_line, push_str,
    str_chars, string_from_chars, string_views, trim, trim_chars,
};

use super::command::{gh_not_found_message, spec_gh_not_found_message};
use super::types::{IssueActionResult, IssueCreateRequest, IssueCreateResult};

verus! {

/// Issue number in what `gh issue create` printed: the number after the
/// last "/issues/" of the trimmed text, or the whole text as a number.
pub open spec fn spec_issue_number_from_create_output(output: Seq<char>) -> Option<u32> {
    let t = trim(output);
    match parse_u32(after_last(t, "/issues/"@)) {
        Some(n) => Some(n),
        None => parse_u32(t),
    }
}

pub fn parse_issue_number_from_create_output(output: &str) -> (r: Option<u32>)
    ensures
        r == spec_issue_number_from_create_output(output@),
{
    let chars = str_chars(output);
    let trimmed = trim_chars(chars.as_slice());
    let pat = str_chars("/issues/");
    proof {
        reveal_strlit("/issues/");
    }
    let suffix = after_last_chars(trimmed.as_slice(), pat.as_slice());
    match parse_u32_chars(suffix.as_slice()) {
        Some(n) => Some(n),
        None => parse_u32_chars(trimmed.as_slice()),
    }
}

/// A failed creation with `message`.
pub open spec fn issue_create_failure(result: IssueCreateResult, message: Seq<char>) -> bool {
    &&& !result.result.success
    &&& result.result.error matches Some(e) && e@ == message
    &&& result.result.detail is None
    &&& result.number is None
}

fn failed(message: String) -> (r: IssueCreateResult)
    ensures
        issue_create_failure(r, message@),
{
    IssueCreateResult {
        result: IssueActionResult { success: false, error: Some(message), detail: None },
        number: None,
    }
}

/// Arguments of `gh` that create the issue, with title and body trimmed.
pub open spec fn issue_create_args(request: IssueCreateRequest) -> Seq<Seq<char>> {
    seq!["issue"@, "create"@, "--title"@, trim(request.title@), "--body"@, trim(request.body@)]
}

fn owned(s: &str) -> (r: String)
    ensures
        r@ == s@,
{
    let mut out = String::new();
    push_str(&mut out, s);
    out
}

/// Checks a request before anything runs: a blank title is refused, then
/// a missing `gh`; otherwise the arguments of the run.
pub fn prepare_issue_create(command: &str, request: &IssueCreateRequest, command_found: bool) -> (r: Result<
    Vec<String>,
    IssueCreateResult,
>)
    ensures
        trim(request.title@).len() == 0 ==> (r matches Err(res) && issue_create_failure(
            res,
            "Issue title cannot be empty"@,
        )),
        trim(request.title@).len() > 0 && !command_found ==> (r matches Err(res) && issue_create_failure(
            res,
            spec_gh_not_found_message(command@),
        )),
        trim(request.title@).len() > 0 && command_found ==> (r matches Ok(args) && string_views(args@)
            == issue_create_args(*request)),
{
    let title = trim_chars(str_chars(request.title.as_str()).as_slice());
    if title.len() == 0 {
        return Err(failed(owned("Issue title cannot be empty")));
    }
    if !command_found {
        return Err(failed(gh_not_found_message(command)));
    }
    let body = trim_chars(str_chars(request.body.as_str()).as_slice());
    let mut args: Vec<String> = Vec::new();
    push_line(&mut args, owned("issue"));
    push_line(&mut args, owned("create"));
    push_line(&mut args, owned("--title"));
    push_line(&mut args, string_from_chars(title.as_slice()));
    push_line(&mut args, owned("--body"));
    push_line(&mut args, string_from_chars(body.as_slice()));
    Ok(args)
}

/// Result of a successful run: the issue number read from the output,
/// and the trimmed output as detail ("Created issue #N" when it is empty).
pub fn issue_create_succeeded(stdout: &str) -> (r: IssueCreateResult)
    ensures
        r.result.success,
        r.result.error is None,
        r.number == spec_issue_number_from_create_output(stdout@),
        trim(stdout@).len() > 0 ==> (r.result.detail matches Some(d) && d@ == trim(stdout@)),
        trim(stdout@).len() == 0 ==> match spec_issue_number_from_create_output(stdout@) {
            Some(n) => r.result.detail matches Some(d) && d@ == "Created issue #"@ + decimal(n as nat),
            None => r.result.detail is None,
        },
{
    let trimmed = trim_chars(str_chars(stdout).as_slice());
    let number = parse_issue_number_from_create_output(stdout);
    let detail = if trimmed.len() == 0 {
        match number {
            Some(n) => {
                let mut d = owned("Created issue #");
                let digits = decimal_string(n as u64);
                push_str(&mut d, digits.as_str());
                Some(d)
            },
            None => None,
        }
    } else {
        Some(string_from_chars(trimmed.as_slice()))
    };
    IssueCreateResult { result: IssueActionResult { success: true, error: None, detail }, number }
}

/// Result of a run that failed with `message`.
pub fn issue_create_failed(message: String) -> (r: IssueCreateResult)
    ensures
        issue_create_failure(r, message@),
{
    failed(message)
}

} // verus!
