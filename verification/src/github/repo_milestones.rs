//! Listing the open milestones of the repository through `gh api`.
use vstd::prelude::*;

use crate::text::{push_str, str_chars, string_from_chars, trim, trim_chars};

use super::command::{failure_text, spec_failure_text};

verus! {

/// API path of the open milestones of `repo` ("owner/name").
pub open spec fn spec_milestones_endpoint(repo: Seq<char>) -> Seq<char> {
    "repos/"@ + repo + "/milestones?state=open&per_page=100"@
}

pub fn milestones_endpoint(repo: &str) -> (r: String)
    ensures
        r@ == spec_milestones_endpoint(repo@),
{
    let mut s = String::new();
    push_str(&mut s, "repos/");
    push_str(&mut s, repo);
    push_str(&mut s, "/milestones?state=open&per_page=100");
    s
}

/// Error text of a failed milestone listing.
pub fn format_milestone_list_failure(stderr: &str, stdout: &str) -> (r: String)
    ensures
        r@ == spec_failure_text(stderr@, stdout@, "gh milestone list failed"@),
{
    failure_text(stderr, stdout, "gh milestone list failed")
}

/// The repository named by `gh repo view`: its trimmed output, which must
/// not be blank.
pub fn repo_name_from_output(stdout: &str) -> (r: Result<String, String>)
    ensures
        trim(stdout@).len() > 0 ==> (r matches Ok(name) && name@ == trim(stdout@)),
        trim(stdout@).len() == 0 ==> (r matches Err(e)
            && e@ == "Could not resolve GitHub repository for current directory"@),
{
    let t = trim_chars(str_chars(stdout).as_slice());
    if t.len() == 0 {
        let mut e = String::new();
        push_str(&mut e, "Could not resolve GitHub repository for current directory");
        return Err(e);
    }
    Ok(string_from_chars(t.as_slice()))
}

} // verus!
