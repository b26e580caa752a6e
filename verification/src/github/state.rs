//! What the GitHub panes hold between events.
use vstd::prelude::*;

use super::types::{GitHubLeftPane, Issue, PullRequest};

verus! {

/// Lists, selections and scroll positions of the GitHub panes.
#[derive(Debug, Clone, PartialEq, Eq)]
pub struct GitHubState {
    pub auth_ok: bool,
    pub left_pane: GitHubLeftPane,
    pub issues: Vec<Issue>,
    pub prs: Vec<PullRequest>,
    pub selected_issue: Option<u32>,
    pub selected_pr: Option<u32>,
    pub issues_scroll_offset: usize,
    pub prs_scroll_offset: usize,
}

impl Default for GitHubState {
    fn default() -> (r: Self)
        ensures
            !r.auth_ok,
            r.left_pane == GitHubLeftPane::Issues,
            r.issues@.len() == 0,
            r.prs@.len() == 0,
            r.selected_issue is None,
            r.selected_pr is None,
            r.issues_scroll_offset == 0,
            r.prs_scroll_offset == 0,
    {
        GitHubState {
            auth_ok: false,
            left_pane: GitHubLeftPane::Issues,
            issues: Vec::new(),
            prs: Vec::new(),
            selected_issue: None,
            selected_pr: None,
            issues_scroll_offset: 0,
            prs_scroll_offset: 0,
        }
    }
}

/// Step of the pull-request creation prompt.
#[derive(Debug, Clone, Copy, PartialEq, Eq, Structural)]
pub enum GitHubPrCreateStep {
    Title,
    Body,
    Base,
}

/// Answers gathered so far by the pull-request creation prompt.
#[derive(Debug, Clone, PartialEq, Eq)]
pub struct GitHubPrCreatePrompt {
    pub step: GitHubPrCreateStep,
    pub title: String,
    pub body: String,
}

impl Default for GitHubPrCreatePrompt {
    fn default() -> (r: Self)
        ensures
            r.step == GitHubPrCreateStep::Title,
            r.title@.len() == 0,
            r.body@.len() == 0,
    {
        GitHubPrCreatePrompt { step: GitHubPrCreateStep::Title, title: String::new(), body: String::new() }
    }
}

} // verus!
