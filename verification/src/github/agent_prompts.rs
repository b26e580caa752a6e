//! Prompts that hand an issue or a pull request to the agent.
use vstd::prelude::*;

use crate::text::{decimal, decimal_string, push_char, push_chars, push_str, str_chars, trim, trim_chars};

use super::types::IssueDetail;

verus! {

/// Characters of an issue body kept in a prompt.
pub const BODY_EXCERPT_MAX_CHARS: usize = 400;

/// Text of the issue prompt: the request, then the trimmed description
/// when there is a non-blank one.
pub open spec fn spec_issue_agent_prompt(number: u32, title: Seq<char>, body: Option<Seq<char>>) -> Seq<char> {
    let head = "Please help me work on GitHub issue #"@ + decimal(number as nat) + ": "@ + title
        + "\n\nReview the issue context and suggest an implementation approach.\n"@;
    match body {
        Some(b) => if trim(b).len() > 0 {
            head + "\nIssue description:\n"@ + trim(b) + seq!['\n']
        } else {
            head
        },
        None => head,
    }
}

pub fn format_issue_agent_prompt(number: u32, title: &str, body_excerpt: Option<&str>) -> (r: String)
    ensures
        r@ == spec_issue_agent_prompt(
            number,
            title@,
            match body_excerpt {
                Some(b) => Some(b@),
                None => None,
            },
        ),
{
    let mut prompt = String::new();
    push_str(&mut prompt, "Please help me work on GitHub issue #");
    let digits = decimal_string(number as u64);
    push_str(&mut prompt, digits.as_str());
    push_str(&mut prompt, ": ");
    push_str(&mut prompt, title);
    push_str(&mut prompt, "\n\nReview the issue context and suggest an implementation approach.\n");
    if let Some(body) = body_excerpt {
        let chars = str_chars(body);
        let trimmed = trim_chars(chars.as_slice());
        if trimmed.len() > 0 {
            push_str(&mut prompt, "\nIssue description:\n");
            push_chars(&mut prompt, trimmed.as_slice());
            push_char(&mut prompt, '\n');
        }
    }
    prompt
}

/// Text of the pull-request review prompt.
pub open spec fn spec_pr_agent_prompt(number: u32, title: Seq<char>) -> Seq<char> {
    "Please help me review GitHub PR #"@ + decimal(number as nat) + ": "@ + title
        + "\n\nSummarize the changes and suggest improvements.\n"@
}

pub fn format_pr_agent_prompt(number: u32, title: &str) -> (r: String)
    ensures
        r@ == spec_pr_agent_prompt(number, title@),
{
    let mut prompt = String::new();
    push_str(&mut prompt, "Please help me review GitHub PR #");
    let digits = decimal_string(number as u64);
    push_str(&mut prompt, digits.as_str());
    push_str(&mut prompt, ": ");
    push_str(&mut prompt, title);
    push_str(&mut prompt, "\n\nSummarize the changes and suggest improvements.\n");
    prompt
}

/// At most `max` characters of `text`; a longer text is cut and ends with
/// an ellipsis.
pub open spec fn spec_truncate_excerpt(text: Seq<char>, max: nat) -> Seq<char> {
    if text.len() <= max {
        text
    } else {
        text.take(max as int).push('\u{2026}')
    }
}

/// The trimmed issue body, cut to the excerpt size; none when the body is
/// missing or blank.
pub open spec fn spec_issue_body_excerpt(body: Option<Seq<char>>) -> Option<Seq<char>> {
    match body {
        Some(b) => if trim(b).len() == 0 {
            None
        } else {
            Some(spec_truncate_excerpt(trim(b), BODY_EXCERPT_MAX_CHARS as nat))
        },
        None => None,
    }
}

pub fn issue_body_excerpt_from_detail(detail: &IssueDetail) -> (r: Option<String>)
    ensures
        match r {
            Some(s) => spec_issue_body_excerpt(
                match detail.body {
                    Some(b) => Some(b@),
                    None => None,
                },
            ) == Some(s@),
            None => spec_issue_body_excerpt(
                match detail.body {
                    Some(b) => Some(b@),
                    None => None,
                },
            ) is None,
        },
{
    match &detail.body {
        None => None,
        Some(body) => {
            let chars = str_chars(body.as_str());
            let trimmed = trim_chars(chars.as_slice());
            if trimmed.len() == 0 {
                return None;
            }
            let mut out = String::new();
            if trimmed.len() <= BODY_EXCERPT_MAX_CHARS {
                push_chars(&mut out, trimmed.as_slice());
            } else {
                let mut i: usize = 0;
                while i < BODY_EXCERPT_MAX_CHARS
                    invariant
                        i <= BODY_EXCERPT_MAX_CHARS < trimmed@.len(),
                        out@ == trimmed@.take(i as int),
                    decreases BODY_EXCERPT_MAX_CHARS - i,
                {
                    push_char(&mut out, trimmed[i]);
                    i = i + 1;
                    assert(out@ =~= trimmed@.take(i as int));
                }
                push_char(&mut out, '\u{2026}');
            }
            Some(out)
        },
    }
}

} // verus!
