//! Which issue or pull request "open in browser" means, and scrolling of
//! the detail view.
use vstd::prelude::*;

use crate::navigation::{LeftNavTab, MainTab, NavigationState};
use crate::selection::clamp_int;

use super::state::GitHubState;
use super::types::{GitHubBrowserTarget, GitHubLeftPane};

verus! {

#[derive(Debug, Clone, Copy, PartialEq, Eq, Structural)]
pub enum GitHubBrowserKind {
    Issue,
    PullRequest,
}

/// Pull requests when the PR tab is shown or the GH left pane lists pull
/// requests; issues otherwise.
pub open spec fn spec_browser_target_kind(navigation: NavigationState, github: GitHubState) -> GitHubBrowserKind {
    if navigation.main_tab == MainTab::Prs || (navigation.left_tab == LeftNavTab::Gh
        && github.left_pane == GitHubLeftPane::Prs) {
        GitHubBrowserKind::PullRequest
    } else {
        GitHubBrowserKind::Issue
    }
}

pub fn browser_target_kind(navigation: &NavigationState, github: &GitHubState) -> (r: GitHubBrowserKind)
    ensures
        r == spec_browser_target_kind(*navigation, *github),
{
    if navigation.main_tab == MainTab::Prs || (navigation.left_tab == LeftNavTab::Gh
        && github.left_pane == GitHubLeftPane::Prs) {
        GitHubBrowserKind::PullRequest
    } else {
        GitHubBrowserKind::Issue
    }
}

/// The selected item of the kind in view; nothing without authentication.
pub fn resolve_browser_target(navigation: &NavigationState, github: &GitHubState) -> (r: Option<GitHubBrowserTarget>)
    ensures
        !github.auth_ok ==> r is None,
        github.auth_ok ==> r == match spec_browser_target_kind(*navigation, *github) {
            GitHubBrowserKind::PullRequest => match github.selected_pr {
                Some(n) => Some(GitHubBrowserTarget::PullRequest(n)),
                None => None,
            },
            GitHubBrowserKind::Issue => match github.selected_issue {
                Some(n) => Some(GitHubBrowserTarget::Issue(n)),
                None => None,
            },
        },
{
    if !github.auth_ok {
        return None;
    }
    match browser_target_kind(navigation, github) {
        GitHubBrowserKind::PullRequest => match github.selected_pr {
            Some(n) => Some(GitHubBrowserTarget::PullRequest(n)),
            None => None,
        },
        GitHubBrowserKind::Issue => match github.selected_issue {
            Some(n) => Some(GitHubBrowserTarget::Issue(n)),
            None => None,
        },
    }
}

/// Hint shown when there is nothing to open.
pub fn missing_browser_target_message(navigation: &NavigationState, github: &GitHubState) -> (r: &'static str)
    ensures
        r@ == match spec_browser_target_kind(*navigation, *github) {
            GitHubBrowserKind::PullRequest => "Select a pull request in the GH left list first"@,
            GitHubBrowserKind::Issue => "Select an issue in the GH left list first"@,
        },
{
    match browser_target_kind(navigation, github) {
        GitHubBrowserKind::PullRequest => "Select a pull request in the GH left list first",
        GitHubBrowserKind::Issue => "Select an issue in the GH left list first",
    }
}

/// Largest scroll offset that still fills the viewport.
pub open spec fn max_detail_offset(line_count: usize, viewport_rows: usize) -> int {
    if line_count > viewport_rows { line_count - viewport_rows } else { 0 }
}

/// Scrolls the detail view by `delta` lines, kept within the content;
/// an empty viewport changes nothing.
pub fn scroll_issue_detail(scroll_offset: &mut usize, delta: i32, line_count: usize, viewport_rows: usize)
    requires
        viewport_rows > 0 ==> *old(scroll_offset) <= i32::MAX
            && max_detail_offset(line_count, viewport_rows) <= i32::MAX
            && i32::MIN <= *old(scroll_offset) + delta <= i32::MAX,
    ensures
        viewport_rows == 0 ==> *final(scroll_offset) == *old(scroll_offset),
        viewport_rows > 0 ==> *final(scroll_offset) == clamp_int(
            *old(scroll_offset) + delta,
            0,
            max_detail_offset(line_count, viewport_rows),
        ),
{
    if viewport_rows == 0 {
        return;
    }
    let max_offset = line_count.saturating_sub(viewport_rows);
    let current = *scroll_offset as i32;
    let next = current + delta;
    if next < 0 {
        *scroll_offset = 0;
    } else if next as usize > max_offset {
        *scroll_offset = max_offset;
    } else {
        *scroll_offset = next as usize;
    }
}

/// Lines moved by one page: the viewport less one line, at least one.
pub open spec fn detail_page(viewport_rows: usize) -> int {
    if viewport_rows <= 1 {
        1
    } else if viewport_rows - 1 > i32::MAX {
        1
    } else {
        viewport_rows - 1
    }
}

/// Scrolls the detail view by `delta` pages.
pub fn page_scroll_issue_detail(scroll_offset: &mut usize, delta: i32, line_count: usize, viewport_rows: usize)
    requires
        viewport_rows > 0 ==> *old(scroll_offset) <= i32::MAX
            && max_detail_offset(line_count, viewport_rows) <= i32::MAX
            && i32::MIN <= delta * detail_page(viewport_rows) <= i32::MAX
            && i32::MIN <= *old(scroll_offset) + delta * detail_page(viewport_rows) <= i32::MAX,
    ensures
        viewport_rows == 0 ==> *final(scroll_offset) == *old(scroll_offset),
        viewport_rows > 0 ==> *final(scroll_offset) == clamp_int(
            *old(scroll_offset) + delta * detail_page(viewport_rows),
            0,
            max_detail_offset(line_count, viewport_rows),
        ),
{
    if viewport_rows == 0 {
        return;
    }
    let rows = viewport_rows - 1;
    let page: i32 = if rows <= 1 {
        1
    } else if rows > i32::MAX as usize {
        1
    } else {
        rows as i32
    };
    assert(page == detail_page(viewport_rows));
    scroll_issue_detail(scroll_offset, delta * page, line_count, viewport_rows);
}

} // verus!
