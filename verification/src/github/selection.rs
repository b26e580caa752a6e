//! Selection and scrolling in the issue and pull-request lists.
//!
//! A selection is kept by item number, so it survives a reload of the list;
//! the list position of the selected number is its first occurrence.
use vstd::prelude::*;

use crate::selection::{clamp_int, clamp_move, scroll_offset_for_row, spec_scroll_offset_for_row};

use super::state::GitHubState;
use super::types::{Issue, PrState, PullRequest};

verus! {

/// `i` is the first position of `n` in `nums`.
pub open spec fn is_first_pos(nums: Seq<u32>, n: u32, i: int) -> bool {
    &&& 0 <= i < nums.len()
    &&& nums[i] == n
    &&& forall|j: int| 0 <= j < i ==> nums[j] != n
}

/// First position of `n` in `nums`, if it occurs.
pub open spec fn first_pos(nums: Seq<u32>, n: u32) -> Option<int> {
    if exists|i: int| is_first_pos(nums, n, i) {
        Some(choose|i: int| is_first_pos(nums, n, i))
    } else {
        None
    }
}

/// Numbers of the listed issues, in list order.
pub open spec fn issue_numbers(s: Seq<Issue>) -> Seq<u32> {
    s.map_values(|i: Issue| i.number)
}

/// Numbers of the listed pull requests, in list order.
pub open spec fn pr_numbers(s: Seq<PullRequest>) -> Seq<u32> {
    s.map_values(|p: PullRequest| p.number)
}

/// Row of the selected number, or `None` when nothing listed is selected.
pub open spec fn selected_pos(nums: Seq<u32>, selected: Option<u32>) -> Option<int> {
    match selected {
        Some(n) => first_pos(nums, n),
        None => None,
    }
}

/// Row that a relative move starts from: the selected row, else the top.
pub open spec fn cursor_row(nums: Seq<u32>, selected: Option<u32>) -> int {
    match selected_pos(nums, selected) {
        Some(i) => i,
        None => 0,
    }
}

/// Index `offset + viewport_index`, saturated at `usize::MAX`.
pub open spec fn viewport_row(offset: usize, viewport_index: usize) -> int {
    if offset + viewport_index > usize::MAX { usize::MAX as int } else { offset + viewport_index }
}

proof fn lemma_first_pos_unique(nums: Seq<u32>, n: u32, i: int)
    requires
        is_first_pos(nums, n, i),
    ensures
        first_pos(nums, n) == Some(i),
{
    let k = choose|k: int| is_first_pos(nums, n, k);
    assert(is_first_pos(nums, n, k));
    if k < i {
        assert(nums[k] != n);
    } else if i < k {
        assert(nums[i] != n);
    }
}

proof fn lemma_first_pos_absent(nums: Seq<u32>, n: u32)
    requires
        forall|j: int| 0 <= j < nums.len() ==> nums[j] != n,
    ensures
        first_pos(nums, n) is None,
{
    if exists|i: int| is_first_pos(nums, n, i) {
        let k = choose|k: int| is_first_pos(nums, n, k);
        assert(nums[k] == n);
    }
}

/// First list position of issue `number`.
fn issue_position(issues: &Vec<Issue>, number: u32) -> (r: Option<usize>)
    ensures
        match r {
            Some(i) => first_pos(issue_numbers(issues@), number) == Some(i as int),
            None => first_pos(issue_numbers(issues@), number) is None,
        },
{
    let ghost nums = issue_numbers(issues@);
    let mut i: usize = 0;
    while i < issues.len()
        invariant
            i <= issues@.len(),
            nums == issue_numbers(issues@),
            forall|j: int| 0 <= j < i ==> nums[j] != number,
        decreases issues@.len() - i,
    {
        if issues[i].number == number {
            proof {
                assert(nums[i as int] == number);
                lemma_first_pos_unique(nums, number, i as int);
            }
            return Some(i);
        }
        i = i + 1;
    }
    proof {
        lemma_first_pos_absent(nums, number);
    }
    None
}

/// First list position of pull request `number`.
fn pr_position(prs: &Vec<PullRequest>, number: u32) -> (r: Option<usize>)
    ensures
        match r {
            Some(i) => first_pos(pr_numbers(prs@), number) == Some(i as int),
            None => first_pos(pr_numbers(prs@), number) is None,
        },
{
    let ghost nums = pr_numbers(prs@);
    let mut i: usize = 0;
    while i < prs.len()
        invariant
            i <= prs@.len(),
            nums == pr_numbers(prs@),
            forall|j: int| 0 <= j < i ==> nums[j] != number,
        decreases prs@.len() - i,
    {
        if prs[i].number == number {
            proof {
                assert(nums[i as int] == number);
                lemma_first_pos_unique(nums, number, i as int);
            }
            return Some(i);
        }
        i = i + 1;
    }
    proof {
        lemma_first_pos_absent(nums, number);
    }
    None
}

/// Keeps a selection that is still listed; otherwise selects the first
/// issue and scrolls to the top (or clears both when the list is empty).
pub fn ensure_issue_selection(state: &mut GitHubState)
    ensures
        final(state).issues == old(state).issues,
        final(state).prs == old(state).prs,
        final(state).selected_pr == old(state).selected_pr,
        final(state).prs_scroll_offset == old(state).prs_scroll_offset,
        final(state).auth_ok == old(state).auth_ok,
        final(state).left_pane == old(state).left_pane,
        old(state).issues@.len() == 0 ==> final(state).selected_issue is None
            && final(state).issues_scroll_offset == 0,
        old(state).issues@.len() > 0 && selected_pos(issue_numbers(old(state).issues@), old(state).selected_issue) is Some
            ==> final(state).selected_issue == old(state).selected_issue
            && final(state).issues_scroll_offset == old(state).issues_scroll_offset,
        old(state).issues@.len() > 0 && selected_pos(issue_numbers(old(state).issues@), old(state).selected_issue) is None
            ==> final(state).selected_issue == Some(old(state).issues@[0].number)
            && final(state).issues_scroll_offset == 0,
{
    if state.issues.len() == 0 {
        state.selected_issue = None;
        state.issues_scroll_offset = 0;
        return;
    }
    if let Some(number) = state.selected_issue {
        if issue_position(&state.issues, number).is_some() {
            return;
        }
    }
    state.selected_issue = Some(state.issues[0].number);
    state.issues_scroll_offset = 0;
}

/// Moves the issue selection by `delta` rows, clamped to the list, and
/// scrolls so the new row is visible. Nothing happens on an empty list or
/// an empty viewport.
pub fn issue_move_selection(state: &mut GitHubState, delta: i32, viewport_rows: usize)
    requires
        old(state).issues@.len() > 0 && viewport_rows > 0 ==> old(state).issues@.len() <= i32::MAX + 1
            && cursor_row(issue_numbers(old(state).issues@), old(state).selected_issue) + delta <= i32::MAX,
    ensures
        final(state).issues == old(state).issues,
        final(state).prs == old(state).prs,
        final(state).selected_pr == old(state).selected_pr,
        final(state).prs_scroll_offset == old(state).prs_scroll_offset,
        final(state).auth_ok == old(state).auth_ok,
        final(state).left_pane == old(state).left_pane,
        old(state).issues@.len() == 0 || viewport_rows == 0 ==> *final(state) == *old(state),
        old(state).issues@.len() > 0 && viewport_rows > 0 ==> ({
            let nums = issue_numbers(old(state).issues@);
            let next = clamp_int(cursor_row(nums, old(state).selected_issue) + delta, 0, nums.len() - 1);
            &&& final(state).selected_issue == Some(nums[next])
            &&& final(state).issues_scroll_offset == spec_scroll_offset_for_row(
                next as nat,
                old(state).issues_scroll_offset as nat,
                viewport_rows as nat,
            )
        }),
{
    if state.issues.len() == 0 || viewport_rows == 0 {
        return;
    }
    let current = match state.selected_issue {
        Some(number) => match issue_position(&state.issues, number) {
            Some(i) => i,
            None => 0,
        },
        None => 0,
    };
    let next = clamp_move(current, delta, state.issues.len());
    let number = state.issues[next].number;
    state.selected_issue = Some(number);
    state.issues_scroll_offset = scroll_offset_for_row(next, state.issues_scroll_offset, viewport_rows);
}

/// Selects the issue at `row_index` and scrolls it into view; a row past
/// the end changes nothing.
pub fn issue_select_row(state: &mut GitHubState, row_index: usize, viewport_rows: usize)
    ensures
        row_index >= old(state).issues@.len() ==> *final(state) == *old(state),
        row_index < old(state).issues@.len() ==> *final(state) == (GitHubState {
            selected_issue: Some(old(state).issues@[row_index as int].number),
            issues_scroll_offset: spec_scroll_offset_for_row(
                row_index as nat,
                old(state).issues_scroll_offset as nat,
                viewport_rows as nat,
            ) as usize,
            ..*old(state)
        }),
{
    if row_index >= state.issues.len() {
        return;
    }
    let number = state.issues[row_index].number;
    state.selected_issue = Some(number);
    state.issues_scroll_offset = scroll_offset_for_row(row_index, state.issues_scroll_offset, viewport_rows);
}

/// Issue shown on row `viewport_index` of the visible window.
pub fn issue_at_viewport(state: &GitHubState, viewport_index: usize) -> (r: Option<&Issue>)
    ensures
        ({
            let k = viewport_row(state.issues_scroll_offset, viewport_index);
            r == if k < state.issues@.len() { Some(&state.issues@[k]) } else { None }
        }),
{
    let k = state.issues_scroll_offset.saturating_add(viewport_index);
    if k < state.issues.len() {
        Some(&state.issues[k])
    } else {
        None
    }
}

/// List row of the selected issue.
pub fn issue_selected_row_index(state: &GitHubState) -> (r: Option<usize>)
    ensures
        match r {
            Some(i) => selected_pos(issue_numbers(state.issues@), state.selected_issue) == Some(i as int),
            None => selected_pos(issue_numbers(state.issues@), state.selected_issue) is None,
        },
{
    match state.selected_issue {
        Some(number) => issue_position(&state.issues, number),
        None => None,
    }
}

/// Keeps a selection that is still listed; otherwise selects the first
/// pull request and scrolls to the top (or clears both when the list is empty).
pub fn ensure_pr_selection(state: &mut GitHubState)
    ensures
        final(state).issues == old(state).issues,
        final(state).prs == old(state).prs,
        final(state).selected_issue == old(state).selected_issue,
        final(state).issues_scroll_offset == old(state).issues_scroll_offset,
        final(state).auth_ok == old(state).auth_ok,
        final(state).left_pane == old(state).left_pane,
        old(state).prs@.len() == 0 ==> final(state).selected_pr is None
            && final(state).prs_scroll_offset == 0,
        old(state).prs@.len() > 0 && selected_pos(pr_numbers(old(state).prs@), old(state).selected_pr) is Some
            ==> final(state).selected_pr == old(state).selected_pr
            && final(state).prs_scroll_offset == old(state).prs_scroll_offset,
        old(state).prs@.len() > 0 && selected_pos(pr_numbers(old(state).prs@), old(state).selected_pr) is None
            ==> final(state).selected_pr == Some(old(state).prs@[0].number)
            && final(state).prs_scroll_offset == 0,
{
    if state.prs.len() == 0 {
        state.selected_pr = None;
        state.prs_scroll_offset = 0;
        return;
    }
    if let Some(number) = state.selected_pr {
        if pr_position(&state.prs, number).is_some() {
            return;
        }
    }
    state.selected_pr = Some(state.prs[0].number);
    state.prs_scroll_offset = 0;
}

/// Moves the pull-request selection by `delta` rows, clamped to the list,
/// and scrolls so the new row is visible. Nothing happens on an empty list
/// or an empty viewport.
pub fn pr_move_selection(state: &mut GitHubState, delta: i32, viewport_rows: usize)
    requires
        old(state).prs@.len() > 0 && viewport_rows > 0 ==> old(state).prs@.len() <= i32::MAX + 1
            && cursor_row(pr_numbers(old(state).prs@), old(state).selected_pr) + delta <= i32::MAX,
    ensures
        final(state).issues == old(state).issues,
        final(state).prs == old(state).prs,
        final(state).selected_issue == old(state).selected_issue,
        final(state).issues_scroll_offset == old(state).issues_scroll_offset,
        final(state).auth_ok == old(state).auth_ok,
        final(state).left_pane == old(state).left_pane,
        old(state).prs@.len() == 0 || viewport_rows == 0 ==> *final(state) == *old(state),
        old(state).prs@.len() > 0 && viewport_rows > 0 ==> ({
            let nums = pr_numbers(old(state).prs@);
            let next = clamp_int(cursor_row(nums, old(state).selected_pr) + delta, 0, nums.len() - 1);
            &&& final(state).selected_pr == Some(nums[next])
            &&& final(state).prs_scroll_offset == spec_scroll_offset_for_row(
                next as nat,
                old(state).prs_scroll_offset as nat,
                viewport_rows as nat,
            )
        }),
{
    if state.prs.len() == 0 || viewport_rows == 0 {
        return;
    }
    let current = match state.selected_pr {
        Some(number) => match pr_position(&state.prs, number) {
            Some(i) => i,
            None => 0,
        },
        None => 0,
    };
    let next = clamp_move(current, delta, state.prs.len());
    let number = state.prs[next].number;
    state.selected_pr = Some(number);
    state.prs_scroll_offset = scroll_offset_for_row(next, state.prs_scroll_offset, viewport_rows);
}

/// Selects the pull request at `row_index` and scrolls it into view; a row
/// past the end changes nothing.
pub fn pr_select_row(state: &mut GitHubState, row_index: usize, viewport_rows: usize)
    ensures
        row_index >= old(state).prs@.len() ==> *final(state) == *old(state),
        row_index < old(state).prs@.len() ==> *final(state) == (GitHubState {
            selected_pr: Some(old(state).prs@[row_index as int].number),
            prs_scroll_offset: spec_scroll_offset_for_row(
                row_index as nat,
                old(state).prs_scroll_offset as nat,
                viewport_rows as nat,
            ) as usize,
            ..*old(state)
        }),
{
    if row_index >= state.prs.len() {
        return;
    }
    let number = state.prs[row_index].number;
    state.selected_pr = Some(number);
    state.prs_scroll_offset = scroll_offset_for_row(row_index, state.prs_scroll_offset, viewport_rows);
}

/// Pull request shown on row `viewport_index` of the visible window.
pub fn pr_at_viewport(state: &GitHubState, viewport_index: usize) -> (r: Option<&PullRequest>)
    ensures
        ({
            let k = viewport_row(state.prs_scroll_offset, viewport_index);
            r == if k < state.prs@.len() { Some(&state.prs@[k]) } else { None }
        }),
{
    let k = state.prs_scroll_offset.saturating_add(viewport_index);
    if k < state.prs.len() {
        Some(&state.prs[k])
    } else {
        None
    }
}

/// List row of the selected pull request.
pub fn pr_selected_row_index(state: &GitHubState) -> (r: Option<usize>)
    ensures
        match r {
            Some(i) => selected_pos(pr_numbers(state.prs@), state.selected_pr) == Some(i as int),
            None => selected_pos(pr_numbers(state.prs@), state.selected_pr) is None,
        },
{
    match state.selected_pr {
        Some(number) => pr_position(&state.prs, number),
        None => None,
    }
}

/// The selected pull request, if it is listed.
pub fn selected_pull_request(state: &GitHubState) -> (r: Option<&PullRequest>)
    ensures
        match selected_pos(pr_numbers(state.prs@), state.selected_pr) {
            Some(i) => r == Some(&state.prs@[i]),
            None => r is None,
        },
{
    match pr_selected_row_index(state) {
        Some(i) => Some(&state.prs[i]),
        None => None,
    }
}

/// Only open pull requests that are not drafts can be merged.
pub fn pull_request_is_mergeable(pr: &PullRequest) -> (r: bool)
    ensures
        r == (pr.state == PrState::Open && !pr.is_draft),
{
    pr.state == PrState::Open && !pr.is_draft
}

} // verus!
