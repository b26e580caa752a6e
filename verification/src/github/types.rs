use vstd::prelude::*;

use crate::selection::{ring_index, ring_move};
use crate::text::str_eq;

verus! {

/// Seconds an issue list stays fresh.
pub const ISSUE_LIST_CACHE_SECS: u64 = 60;
/// Seconds a pull-request list stays fresh.
pub const PR_LIST_CACHE_SECS: u64 = 60;

#[derive(Debug, Clone, Copy, PartialEq, Eq, Structural)]
pub enum IssueState {
    Open,
    Closed,
}

impl IssueState {
    /// `CLOSED` is closed; anything else counts as open.
    pub fn parse(raw: &str) -> (r: Self)
        ensures
            r == if raw@ == "CLOSED"@ { IssueState::Closed } else { IssueState::Open },
    {
        if str_eq(raw, "CLOSED") {
            IssueState::Closed
        } else {
            IssueState::Open
        }
    }

    pub fn label(self) -> (r: &'static str)
        ensures
            r@ == spec_issue_state_label(self),
    {
        match self {
            IssueState::Open => "open",
            IssueState::Closed => "closed",
        }
    }
}

pub open spec fn spec_issue_state_label(s: IssueState) -> Seq<char> {
    match s {
        IssueState::Open => "open"@,
        IssueState::Closed => "closed"@,
    }
}

#[derive(Debug, Clone, PartialEq, Eq)]
pub struct Issue {
    pub number: u32,
    pub title: String,
    pub state: IssueState,
    pub labels: Vec<String>,
    pub assignees: Vec<String>,
}

#[derive(Debug, Clone, PartialEq, Eq)]
pub struct IssueListLoadResult {
    pub issues: Vec<Issue>,
    pub error: Option<String>,
}

#[derive(Debug, Clone, Copy, PartialEq, Eq, Structural)]
pub enum PrState {
    Open,
    Draft,
    Merged,
    Closed,
}

pub open spec fn spec_pr_state_label(s: PrState) -> Seq<char> {
    match s {
        PrState::Open => "open"@,
        PrState::Draft => "draft"@,
        PrState::Merged => "merged"@,
        PrState::Closed => "closed"@,
    }
}

impl PrState {
    /// Drafts are drafts whatever the state; `MERGED` and `CLOSED` map to
    /// their states; anything else is open.
    pub fn parse(raw: &str, is_draft: bool) -> (r: Self)
        ensures
            r == if is_draft {
                PrState::Draft
            } else if raw@ == "MERGED"@ {
                PrState::Merged
            } else if raw@ == "CLOSED"@ {
                PrState::Closed
            } else {
                PrState::Open
            },
    {
        if is_draft {
            return PrState::Draft;
        }
        if str_eq(raw, "MERGED") {
            PrState::Merged
        } else if str_eq(raw, "CLOSED") {
            PrState::Closed
        } else {
            PrState::Open
        }
    }

    pub fn label(self) -> (r: &'static str)
        ensures
            r@ == spec_pr_state_label(self),
    {
        match self {
            PrState::Open => "open",
            PrState::Draft => "draft",
            PrState::Merged => "merged",
            PrState::Closed => "closed",
        }
    }
}

#[derive(Debug, Clone, PartialEq, Eq)]
pub struct PullRequest {
    pub number: u32,
    pub title: String,
    pub state: PrState,
    pub author: String,
    pub is_draft: bool,
}

#[derive(Debug, Clone, PartialEq, Eq)]
pub struct PrListLoadResult {
    pub prs: Vec<PullRequest>,
    pub error: Option<String>,
}

#[derive(Debug, Clone, Copy, PartialEq, Eq, Structural)]
pub enum GitHubAuthErrorKind {
    NotInstalled,
    NotAuthenticated,
    CommandFailed,
}

#[derive(Debug, Clone, PartialEq, Eq)]
pub struct GitHubAuthCheckResult {
    pub auth_ok: bool,
    pub error_kind: Option<GitHubAuthErrorKind>,
    pub message: String,
}

#[derive(Debug, Clone, PartialEq, Eq)]
pub struct IssueComment {
    pub author: String,
    pub body: String,
    pub created_at: String,
}

#[derive(Debug, Clone, PartialEq, Eq)]
pub struct IssueDetail {
    pub number: u32,
    pub title: String,
    pub state: IssueState,
    pub author: String,
    pub labels: Vec<String>,
    pub assignees: Vec<String>,
    pub body: Option<String>,
    pub display_lines: Vec<String>,
}

#[derive(Debug, Clone, PartialEq, Eq)]
pub struct IssueDetailLoadResult {
    pub detail: Option<IssueDetail>,
    pub error: Option<String>,
}

#[derive(Debug, Clone, PartialEq, Eq)]
pub struct PrDetail {
    pub number: u32,
    pub title: String,
    pub state: PrState,
    pub author: String,
    pub display_lines: Vec<String>,
}

#[derive(Debug, Clone, PartialEq, Eq)]
pub struct PrDetailLoadResult {
    pub detail: Option<PrDetail>,
    pub error: Option<String>,
}

#[derive(Debug, Clone, PartialEq, Eq)]
pub struct IssueActionResult {
    pub success: bool,
    pub error: Option<String>,
    pub detail: Option<String>,
}

#[derive(Debug, Clone, PartialEq, Eq)]
pub struct IssueCreateRequest {
    pub title: String,
    pub body: String,
}

#[derive(Debug, Clone, PartialEq, Eq)]
pub struct IssueCreateResult {
    pub result: IssueActionResult,
    pub number: Option<u32>,
}

/// What to open in the browser.
#[derive(Debug, Clone, Copy, PartialEq, Eq, Structural)]
pub enum GitHubBrowserTarget {
    Issue(u32),
    PullRequest(u32),
}

impl GitHubBrowserTarget {
    pub fn label(self) -> (r: &'static str)
        ensures
            r@ == (match self {
                GitHubBrowserTarget::Issue(_) => "issue"@,
                GitHubBrowserTarget::PullRequest(_) => "pull request"@,
            }),
    {
        match self {
            GitHubBrowserTarget::Issue(_) => "issue",
            GitHubBrowserTarget::PullRequest(_) => "pull request",
        }
    }

    pub fn number(self) -> (r: u32)
        ensures
            r == (match self {
                GitHubBrowserTarget::Issue(n) => n,
                GitHubBrowserTarget::PullRequest(n) => n,
            }),
    {
        match self {
            GitHubBrowserTarget::Issue(number) => number,
            GitHubBrowserTarget::PullRequest(number) => number,
        }
    }
}

#[derive(Debug, Clone, PartialEq, Eq)]
pub struct RepoLabel {
    pub name: String,
    pub description: String,
}

#[derive(Debug, Clone, PartialEq, Eq)]
pub struct RepoLabelsLoadResult {
    pub labels: Vec<RepoLabel>,
    pub error: Option<String>,
}

#[derive(Debug, Clone, PartialEq, Eq)]
pub struct RepoMilestone {
    pub number: u32,
    pub title: String,
    pub description: String,
}

#[derive(Debug, Clone, PartialEq, Eq)]
pub struct RepoMilestonesLoadResult {
    pub milestones: Vec<RepoMilestone>,
    pub error: Option<String>,
}

/// Milestone chooser for one issue.
#[derive(Debug, Clone, PartialEq, Eq)]
pub struct MilestonePickerState {
    pub issue_number: u32,
    pub milestones: Vec<RepoMilestone>,
    pub cursor: usize,
    pub loading: bool,
    pub applying: bool,
    pub error: Option<String>,
}

impl MilestonePickerState {
    pub fn new(issue_number: u32) -> (r: Self)
        ensures
            r.issue_number == issue_number,
            r.milestones@.len() == 0,
            r.cursor == 0,
            r.loading,
            !r.applying,
            r.error is None,
    {
        MilestonePickerState {
            issue_number,
            milestones: Vec::new(),
            cursor: 0,
            loading: true,
            applying: false,
            error: None,
        }
    }

    /// Moves the cursor around the list, wrapping at both ends.
    pub fn move_cursor(&mut self, delta: i32)
        ensures
            final(self).milestones == old(self).milestones,
            final(self).cursor == if old(self).milestones@.len() == 0 {
                0
            } else {
                ring_index(old(self).cursor as int, delta as int, old(self).milestones@.len() as int)
            },
    {
        if self.milestones.len() == 0 {
            self.cursor = 0;
            return;
        }
        self.cursor = ring_move(self.cursor, delta, self.milestones.len());
    }

    pub fn selected_milestone(&self) -> (r: Option<&RepoMilestone>)
        ensures
            self.cursor < self.milestones@.len() ==> r == Some(&self.milestones@[self.cursor as int]),
            self.cursor >= self.milestones@.len() ==> r is None,
    {
        if self.cursor < self.milestones.len() {
            Some(&self.milestones[self.cursor])
        } else {
            None
        }
    }
}

/// Label chooser for one issue; `selected[i]` is the mark of `labels[i]`.
#[derive(Debug, Clone, PartialEq, Eq)]
pub struct LabelPickerState {
    pub issue_number: u32,
    pub existing_labels: Vec<String>,
    pub labels: Vec<RepoLabel>,
    pub cursor: usize,
    pub selected: Vec<bool>,
    pub loading: bool,
    pub applying: bool,
    pub error: Option<String>,
}

/// Names of marked labels not already on the issue, in list order.
pub open spec fn spec_labels_to_add(
    labels: Seq<RepoLabel>,
    selected: Seq<bool>,
    existing: Seq<String>,
    k: int,
) -> Seq<Seq<char>>
    decreases k,
{
    if k <= 0 {
        Seq::empty()
    } else {
        let rest = spec_labels_to_add(labels, selected, existing, k - 1);
        let name = labels[k - 1].name@;
        if selected[k - 1] && !(exists|e: int| 0 <= e < existing.len() && existing[e]@ == name) {
            rest.push(name)
        } else {
            rest
        }
    }
}

impl LabelPickerState {
    pub fn new(issue_number: u32, existing_labels: Vec<String>) -> (r: Self)
        ensures
            r.issue_number == issue_number,
            r.existing_labels == existing_labels,
            r.labels@.len() == 0,
            r.cursor == 0,
            r.selected@.len() == 0,
            r.loading,
            !r.applying,
            r.error is None,
    {
        LabelPickerState {
            issue_number,
            existing_labels,
            labels: Vec::new(),
            cursor: 0,
            selected: Vec::new(),
            loading: true,
            applying: false,
            error: None,
        }
    }

    /// Moves the cursor around the list, wrapping at both ends.
    pub fn move_cursor(&mut self, delta: i32)
        ensures
            final(self).labels == old(self).labels,
            final(self).selected == old(self).selected,
            final(self).cursor == if old(self).labels@.len() == 0 {
                0
            } else {
                ring_index(old(self).cursor as int, delta as int, old(self).labels@.len() as int)
            },
    {
        if self.labels.len() == 0 {
            self.cursor = 0;
            return;
        }
        self.cursor = ring_move(self.cursor, delta, self.labels.len());
    }

    /// Flips the mark under the cursor, if there is one.
    pub fn toggle_cursor(&mut self)
        ensures
            final(self).cursor == old(self).cursor,
            final(self).labels == old(self).labels,
            old(self).cursor < old(self).selected@.len() ==> final(self).selected@ == old(self).selected@.update(
                old(self).cursor as int,
                !old(self).selected@[old(self).cursor as int],
            ),
            old(self).cursor >= old(self).selected@.len() ==> final(self).selected@ == old(self).selected@,
    {
        if self.cursor < self.selected.len() {
            let c = self.cursor;
            let v = self.selected[c];
            self.selected.set(c, !v);
        }
    }

    /// Marked labels that the issue does not have yet.
    pub fn labels_to_add(&self) -> (r: Vec<String>)
        ensures
            ({
                let k = if self.labels@.len() < self.selected@.len() { self.labels@.len() } else { self.selected@.len() };
                let want = spec_labels_to_add(self.labels@, self.selected@, self.existing_labels@, k as int);
                r@.len() == want.len() && forall|i: int| 0 <= i < r@.len() ==> #[trigger] r@[i]@ == want[i]
            }),
    {
        let k = if self.labels.len() < self.selected.len() { self.labels.len() } else { self.selected.len() };
        let mut out: Vec<String> = Vec::new();
        let mut i: usize = 0;
        while i < k
            invariant
                i <= k,
                k <= self.labels@.len(),
                k <= self.selected@.len(),
                ({
                    let want = spec_labels_to_add(self.labels@, self.selected@, self.existing_labels@, i as int);
                    out@.len() == want.len() && forall|j: int| 0 <= j < out@.len() ==> #[trigger] out@[j]@ == want[j]
                }),
            decreases k - i,
        {
            if self.selected[i] {
                let name = &self.labels[i].name;
                let mut found = false;
                let mut e: usize = 0;
                while e < self.existing_labels.len()
                    invariant
                        e <= self.existing_labels@.len(),
                        found == (exists|x: int| 0 <= x < e && self.existing_labels@[x]@ == name@),
                    decreases self.existing_labels.len() - e,
                {
                    if str_eq(self.existing_labels[e].as_str(), name.as_str()) {
                        found = true;
                    }
                    e = e + 1;
                }
                if !found {
                    out.push(name.clone());
                }
            }
            i = i + 1;
        }
        out
    }
}

#[derive(Debug, Clone, PartialEq, Eq)]
pub struct PrCreateRequest {
    pub title: String,
    pub body: String,
    pub base: Option<String>,
}

/// Which list the GH left pane shows.
#[derive(Debug, Clone, Copy, PartialEq, Eq, Structural)]
pub enum GitHubLeftPane {
    Issues,
    Prs,
    Branches,
}

impl GitHubLeftPane {
    pub fn index(self) -> (r: usize)
        ensures
            r == (match self {
                GitHubLeftPane::Issues => 0usize,
                GitHubLeftPane::Prs => 1usize,
                GitHubLeftPane::Branches => 2usize,
            }),
    {
        match self {
            GitHubLeftPane::Issues => 0,
            GitHubLeftPane::Prs => 1,
            GitHubLeftPane::Branches => 2,
        }
    }
}

impl Default for GitHubLeftPane {
    fn default() -> (r: Self)
        ensures
            r == GitHubLeftPane::Issues,
    {
        GitHubLeftPane::Issues
    }
}

} // verus!
