use kiwi_core::github::agent_prompts::BODY_EXCERPT_MAX_CHARS;
use kiwi_core::github::create_issue::{
    issue_create_succeeded, parse_issue_number_from_create_output, prepare_issue_create,
};
use kiwi_core::github::create_pr::prepare_pr_create;
use kiwi_core::github::{
    advance_pr_create_prompt, browser_target_kind, format_issue_agent_prompt,
    format_pr_agent_prompt, issue_body_excerpt_from_detail, resolve_browser_target,
    scroll_issue_detail, GhContextMenuAction, GhContextMenuState, GhContextTarget,
    GitHubBrowserKind, GitHubBrowserTarget, GitHubLeftPane, GitHubPrCreatePrompt,
    GitHubPrCreateStep, GitHubState, IssueCreateRequest, IssueDetail, IssueState,
    PrCreatePromptAdvance, PrCreateRequest,
};
use kiwi_core::navigation::{LeftNavTab, MainTab, NavCommand, NavigationState};

fn detail_with_body(body: Option<String>) -> IssueDetail {
    IssueDetail {
        number: 1,
        title: "Test".to_string(),
        state: IssueState::Open,
        author: "dev".to_string(),
        labels: Vec::new(),
        assignees: Vec::new(),
        body,
        display_lines: Vec::new(),
    }
}

#[test]
fn format_issue_agent_prompt_uses_title() {
    let prompt = format_issue_agent_prompt(42, "Add context menu", None);
    assert!(prompt.contains("#42"));
    assert!(prompt.contains("Add context menu"));
}

#[test]
fn format_issue_agent_prompt_includes_body_excerpt() {
    let prompt = format_issue_agent_prompt(42, "Add context menu", Some("Fix GH list UX"));
    assert!(prompt.contains("Issue description:"));
    assert!(prompt.contains("Fix GH list UX"));
}

#[test]
fn issue_body_excerpt_from_detail_returns_none_when_no_body() {
    assert!(issue_body_excerpt_from_detail(&detail_with_body(None)).is_none());
}

#[test]
fn issue_body_excerpt_from_detail_returns_none_for_whitespace_body() {
    assert!(issue_body_excerpt_from_detail(&detail_with_body(Some("   ".to_string()))).is_none());
}

#[test]
fn issue_body_excerpt_from_detail_truncates_long_body() {
    let body = "a".repeat(500);
    let excerpt = issue_body_excerpt_from_detail(&detail_with_body(Some(body))).expect("excerpt");
    assert!(excerpt.ends_with('…'));
    assert!(excerpt.chars().count() <= BODY_EXCERPT_MAX_CHARS + 1);
}

#[test]
fn issue_body_excerpt_trims_short_body() {
    let excerpt = issue_body_excerpt_from_detail(&detail_with_body(Some("  short \n".to_string())));
    assert_eq!(excerpt, Some("short".to_string()));
}

#[test]
fn format_pr_agent_prompt_uses_title() {
    let prompt = format_pr_agent_prompt(7, "GUI follow-up");
    assert!(prompt.contains("#7"));
    assert!(prompt.contains("GUI follow-up"));
}

#[test]
fn scroll_issue_detail_clamps_to_content() {
    let mut offset = 0;
    scroll_issue_detail(&mut offset, 100, 10, 4);
    assert_eq!(offset, 6);
    scroll_issue_detail(&mut offset, -100, 10, 4);
    assert_eq!(offset, 0);
}

#[test]
fn resolve_browser_target_returns_selected_issue() {
    let mut navigation = NavigationState::default();
    let mut github = GitHubState::default();
    github.auth_ok = true;
    github.selected_issue = Some(42);
    navigation.apply(NavCommand::SelectMainTab(MainTab::Issues));

    let target = resolve_browser_target(&navigation, &github).expect("target");
    assert_eq!(target, GitHubBrowserTarget::Issue(42));
}

#[test]
fn resolve_browser_target_returns_selected_pr_on_prs_tab() {
    let mut navigation = NavigationState::default();
    let mut github = GitHubState::default();
    github.auth_ok = true;
    github.selected_pr = Some(17);
    navigation.apply(NavCommand::SelectMainTab(MainTab::Prs));

    let target = resolve_browser_target(&navigation, &github).expect("target");
    assert_eq!(target, GitHubBrowserTarget::PullRequest(17));
}

#[test]
fn resolve_browser_target_needs_auth() {
    let mut navigation = NavigationState::default();
    let mut github = GitHubState::default();
    github.selected_issue = Some(42);
    navigation.apply(NavCommand::SelectMainTab(MainTab::Issues));
    assert!(resolve_browser_target(&navigation, &github).is_none());
}

#[test]
fn browser_target_kind_follows_gh_left_hub() {
    let mut navigation = NavigationState::default();
    let mut github = GitHubState::default();
    github.left_pane = GitHubLeftPane::Prs;
    navigation.apply(NavCommand::SelectLeftTab(LeftNavTab::Gh));
    assert_eq!(browser_target_kind(&navigation, &github), GitHubBrowserKind::PullRequest);
}

#[test]
fn issue_menu_includes_github_actions() {
    let menu = GhContextMenuState::new(GhContextTarget::Issue { list_index: 0 }, 10, 5, false);
    assert_eq!(menu.items.len(), 7);
    assert!(menu.items.contains(&GhContextMenuAction::CreateBranch));
    assert!(menu.items.contains(&GhContextMenuAction::Comment));
    assert!(menu.items.contains(&GhContextMenuAction::AddLabels));
    assert!(menu.items.contains(&GhContextMenuAction::AssignMilestone));
    assert!(menu.items.contains(&GhContextMenuAction::OpenInBrowser));
}

#[test]
fn pr_menu_includes_merge_when_available() {
    let menu = GhContextMenuState::new(GhContextTarget::PullRequest { list_index: 0 }, 10, 5, true);
    assert_eq!(menu.items.len(), 4);
    assert!(menu.items.contains(&GhContextMenuAction::Merge));
    assert!(menu.items.contains(&GhContextMenuAction::OpenInBrowser));
}

#[test]
fn pr_menu_omits_merge_when_unavailable() {
    let menu = GhContextMenuState::new(GhContextTarget::PullRequest { list_index: 0 }, 10, 5, false);
    assert_eq!(menu.items.len(), 3);
    assert!(!menu.items.contains(&GhContextMenuAction::Merge));
    assert!(!menu.items.contains(&GhContextMenuAction::CreateBranch));
    assert!(!menu.items.contains(&GhContextMenuAction::Comment));
    assert!(menu.items.contains(&GhContextMenuAction::OpenInBrowser));
}

#[test]
fn context_menu_cursor_wraps_around() {
    let mut menu = GhContextMenuState::new(GhContextTarget::PullRequest { list_index: 0 }, 10, 5, false);
    menu.move_cursor(-1);
    assert_eq!(menu.cursor, 2);
    menu.move_cursor(10);
    assert_eq!(menu.cursor, 0);
    assert_eq!(menu.selected_action(), Some(menu.items[0]));
    assert_eq!(menu.menu_height(), 5);
}

#[test]
fn parse_issue_number_from_url() {
    assert_eq!(
        parse_issue_number_from_create_output("https://github.com/owner/repo/issues/42"),
        Some(42)
    );
}

#[test]
fn parse_issue_number_from_plain_number() {
    assert_eq!(parse_issue_number_from_create_output("99"), Some(99));
}

#[test]
fn parse_issue_number_rejects_non_numbers() {
    assert_eq!(parse_issue_number_from_create_output("created!"), None);
    assert_eq!(parse_issue_number_from_create_output(""), None);
}

#[test]
fn create_issue_rejects_empty_title_without_subprocess() {
    let result = prepare_issue_create(
        "gh-nonexistent-kiwi-test",
        &IssueCreateRequest {
            title: "   ".to_string(),
            body: String::new(),
        },
        false,
    )
    .expect_err("empty title");
    assert!(!result.result.success);
    assert_eq!(result.result.error.as_deref(), Some("Issue title cannot be empty"));
}

#[test]
fn issue_create_reports_missing_command_and_success() {
    let request = IssueCreateRequest {
        title: "Bug".to_string(),
        body: String::new(),
    };
    let missing = prepare_issue_create("gh-missing", &request, false).expect_err("missing");
    assert!(missing.result.error.expect("error").contains("gh-missing"));
    let args = prepare_issue_create("gh", &request, true).expect("args");
    assert!(args.contains(&"Bug".to_string()));
    let done = issue_create_succeeded("https://github.com/o/r/issues/7\n");
    assert!(done.result.success);
    assert_eq!(done.number, Some(7));
}

#[test]
fn create_pull_request_rejects_empty_title_without_subprocess() {
    let result = prepare_pr_create(
        "gh-nonexistent-kiwi-test",
        &PrCreateRequest {
            title: "   ".to_string(),
            body: String::new(),
            base: None,
        },
        false,
    )
    .expect_err("empty title");
    assert!(!result.success);
}

#[test]
fn advance_prompt_steps_through_title_body_base() {
    let prompt = GitHubPrCreatePrompt::default();
    let PrCreatePromptAdvance::Continue(body_step) =
        advance_pr_create_prompt(prompt, "Fix login").expect("title")
    else {
        panic!("expected continue after title");
    };
    assert_eq!(body_step.step, GitHubPrCreateStep::Body);
    assert_eq!(body_step.title, "Fix login");

    let PrCreatePromptAdvance::Continue(base_step) =
        advance_pr_create_prompt(body_step, "Fixes #42").expect("body")
    else {
        panic!("expected continue after body");
    };
    assert_eq!(base_step.step, GitHubPrCreateStep::Base);

    let PrCreatePromptAdvance::Submit(request) =
        advance_pr_create_prompt(base_step, "main").expect("base")
    else {
        panic!("expected submit after base");
    };
    assert_eq!(request.title, "Fix login");
    assert_eq!(request.body, "Fixes #42");
    assert_eq!(request.base.as_deref(), Some("main"));
}

#[test]
fn advance_prompt_allows_empty_base() {
    let prompt = GitHubPrCreatePrompt {
        step: GitHubPrCreateStep::Base,
        title: "Title".to_string(),
        body: "Body".to_string(),
    };
    let PrCreatePromptAdvance::Submit(request) =
        advance_pr_create_prompt(prompt, "   ").expect("submit")
    else {
        panic!("expected submit");
    };
    assert!(request.base.is_none());
}

#[test]
fn advance_prompt_rejects_empty_title() {
    assert!(advance_pr_create_prompt(GitHubPrCreatePrompt::default(), "  ").is_err());
}
