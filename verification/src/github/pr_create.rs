//! The three-step prompt that gathers a new pull request.
use vstd::prelude::*;

use crate::text::{str_chars, string_from_chars, trim, trim_chars};

use super::state::{GitHubPrCreatePrompt, GitHubPrCreateStep};
use super::types::PrCreateRequest;

verus! {

/// What an answer to the prompt leads to.
#[derive(Debug, Clone, PartialEq, Eq)]
pub enum PrCreatePromptAdvance {
    Continue(GitHubPrCreatePrompt),
    Submit(PrCreateRequest),
}

/// Takes the answer to the current step: the title (trimmed, not blank),
/// then the body (as typed), then the base branch (trimmed; blank means
/// the default branch), which submits the request.
pub fn advance_pr_create_prompt(prompt: GitHubPrCreatePrompt, input: &str) -> (r: Result<
    PrCreatePromptAdvance,
    &'static str,
>)
    ensures
        prompt.step == GitHubPrCreateStep::Title && trim(input@).len() == 0 ==> (r matches Err(e)
            && e@ == "PR title cannot be empty"@),
        prompt.step == GitHubPrCreateStep::Title && trim(input@).len() > 0 ==> (r matches Ok(
            PrCreatePromptAdvance::Continue(p),
        ) && p.step == GitHubPrCreateStep::Body && p.title@ == trim(input@) && p.body@ == prompt.body@),
        prompt.step == GitHubPrCreateStep::Body ==> (r matches Ok(PrCreatePromptAdvance::Continue(p))
            && p.step == GitHubPrCreateStep::Base && p.title@ == prompt.title@ && p.body@ == input@),
        prompt.step == GitHubPrCreateStep::Base ==> (r matches Ok(PrCreatePromptAdvance::Submit(req))
            && req.title@ == prompt.title@ && req.body@ == prompt.body@ && (if trim(input@).len() == 0 {
            req.base is None
        } else {
            req.base matches Some(b) && b@ == trim(input@)
        })),
{
    let mut prompt = prompt;
    match prompt.step {
        GitHubPrCreateStep::Title => {
            let chars = str_chars(input);
            let title = trim_chars(chars.as_slice());
            if title.len() == 0 {
                return Err("PR title cannot be empty");
            }
            prompt.title = string_from_chars(title.as_slice());
            prompt.step = GitHubPrCreateStep::Body;
            Ok(PrCreatePromptAdvance::Continue(prompt))
        },
        GitHubPrCreateStep::Body => {
            let chars = str_chars(input);
            prompt.body = string_from_chars(chars.as_slice());
            prompt.step = GitHubPrCreateStep::Base;
            Ok(PrCreatePromptAdvance::Continue(prompt))
        },
        GitHubPrCreateStep::Base => {
            let chars = str_chars(input);
            let base = trim_chars(chars.as_slice());
            let base = if base.len() == 0 {
                None
            } else {
                Some(string_from_chars(base.as_slice()))
            };
            Ok(PrCreatePromptAdvance::Submit(PrCreateRequest { title: prompt.title, body: prompt.body, base }))
        },
    }
}

} // verus!
