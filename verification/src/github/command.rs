//! Messages shared by the `gh` command runners.
use vstd::prelude::*;

use crate::text::{push_str, str_chars, string_from_chars, trim, trim_chars};

verus! {

/// "GitHub CLI (`command`) not found on PATH".
pub open spec fn spec_gh_not_found_message(command: Seq<char>) -> Seq<char> {
    "GitHub CLI ("@ + command + ") not found on PATH"@
}

pub fn gh_not_found_message(command: &str) -> (r: String)
    ensures
        r@ == spec_gh_not_found_message(command@),
{
    let mut s = String::new();
    push_str(&mut s, "GitHub CLI (");
    push_str(&mut s, command);
    push_str(&mut s, ") not found on PATH");
    s
}

/// Trimmed standard error when it says anything, else trimmed standard
/// output when it does, else `fallback`.
pub open spec fn spec_failure_text(stderr: Seq<char>, stdout: Seq<char>, fallback: Seq<char>) -> Seq<char> {
    if trim(stderr).len() > 0 {
        trim(stderr)
    } else if trim(stdout).len() > 0 {
        trim(stdout)
    } else {
        fallback
    }
}

/// Message for a failed `gh` run from what it printed.
pub fn failure_text(stderr: &str, stdout: &str, fallback: &str) -> (r: String)
    ensures
        r@ == spec_failure_text(stderr@, stdout@, fallback@),
{
    let err = trim_chars(str_chars(stderr).as_slice());
    if err.len() > 0 {
        return string_from_chars(err.as_slice());
    }
    let out = trim_chars(str_chars(stdout).as_slice());
    if out.len() > 0 {
        return string_from_chars(out.as_slice());
    }
    let mut s = String::new();
    push_str(&mut s, fallback);
    s
}

} // verus!
