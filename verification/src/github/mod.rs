//! GitHub domain types shared by events, state, and services.
pub mod agent_prompts;
pub mod browser;
pub mod command;
pub mod context_menu;
pub mod create_issue;
pub mod create_pr;
pub mod detail;
pub mod labels;
pub mod milestones;
pub mod open_browser;
pub mod pr_create;
pub mod repo_milestones;
pub mod selection;
pub mod state;
pub mod types;

pub use agent_prompts::{format_issue_agent_prompt, format_pr_agent_prompt, issue_body_excerpt_from_detail};
pub use browser::{
    browser_target_kind, missing_browser_target_message, page_scroll_issue_detail, resolve_browser_target,
    scroll_issue_detail, GitHubBrowserKind,
};
pub use context_menu::{GhContextMenuAction, GhContextMenuState, GhContextTarget};
pub use labels::apply_label_picker_load;
pub use milestones::apply_milestone_picker_load;
pub use pr_create::{advance_pr_create_prompt, PrCreatePromptAdvance};
pub use selection::{
    ensure_issue_selection, ensure_pr_selection, issue_at_viewport, issue_move_selection, issue_select_row,
    issue_selected_row_index, pr_at_viewport, pr_move_selection, pr_select_row, pr_selected_row_index,
    pull_request_is_mergeable, selected_pull_request,
};
pub use state::{GitHubPrCreatePrompt, GitHubPrCreateStep, GitHubState};
pub use types::{
    GitHubAuthCheckResult, GitHubAuthErrorKind, GitHubBrowserTarget, GitHubLeftPane, Issue,
    IssueActionResult, IssueComment, IssueCreateRequest, IssueCreateResult, IssueDetail,
    IssueDetailLoadResult, IssueListLoadResult, IssueState, LabelPickerState,
    MilestonePickerState, PrCreateRequest, PrDetail, PrDetailLoadResult, PrListLoadResult,
    PrState, PullRequest, RepoLabel, RepoLabelsLoadResult, RepoMilestone,
    RepoMilestonesLoadResult, ISSUE_LIST_CACHE_SECS, PR_LIST_CACHE_SECS,
};
