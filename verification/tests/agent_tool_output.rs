use kiwi_core::agent::commit::{CommandOutcome, CommandOutput};
use kiwi_core::agent::tool_executor::ExecutionResult;
use kiwi_core::agent::tool_output::{
    cargo_build_args, cargo_build_content, cargo_check_args, cargo_test_args, current_branch_line,
    directory_entry_line, directory_listing, github_issue_list_args, github_pr_list_args,
    key_file_section, project_context_text, recent_commits_line, KeyFile,
    git_diff_result, git_status_result, search_matches_result, shell_capture_content,
    shell_capture_result, truncate_output, truncated_result, MAX_FILE_BYTES,
    MAX_SHELL_CAPTURE_OUTPUT_BYTES,
};

fn strings(items: &[&str]) -> Vec<String> {
    items.iter().map(|s| s.to_string()).collect()
}

fn content(result: &ExecutionResult) -> (&str, bool) {
    match result {
        ExecutionResult::Done { content, is_error } => (content.as_str(), *is_error),
        other => panic!("unexpected {other:?}"),
    }
}

#[test]
fn truncate_output_keeps_text_that_fits() {
    assert_eq!(truncate_output("hello", 5, "output"), "hello");
    assert_eq!(truncate_output("", 0, "output"), "");
}

#[test]
fn truncate_output_cuts_at_the_byte_limit() {
    assert_eq!(
        truncate_output("abcdef", 3, "output"),
        "abc\n\n[... output truncated at 3 bytes ...]"
    );
    // "é" takes two bytes: the cut after it falls at byte 3.
    assert_eq!(
        truncate_output("aé bc", 3, "diff"),
        "aé\n\n[... diff truncated at 3 bytes ...]"
    );
}

#[test]
fn large_file_read_is_truncated() {
    let big = "x".repeat(MAX_FILE_BYTES + 10);
    let result = truncated_result(&big, MAX_FILE_BYTES, "output", false);
    let (text, is_error) = content(&result);
    assert!(!is_error);
    assert!(text.starts_with(&"x".repeat(MAX_FILE_BYTES)));
    assert!(text.ends_with("[... output truncated at 100000 bytes ...]"));
}

#[test]
fn shell_capture_content_reports_sections() {
    assert_eq!(
        shell_capture_content(Some(0), "hi  \n", ""),
        "exit code: 0\n\n--- stdout ---\nhi\n"
    );
    assert_eq!(
        shell_capture_content(Some(2), "", "boom\n"),
        "exit code: 2\n\n--- stderr ---\nboom\n"
    );
    assert_eq!(shell_capture_content(None, " ", "\n"), "exit code: -1\n(no output)\n");
    let result = shell_capture_result(&shell_capture_content(Some(1), "out", "err"), false);
    assert_eq!(
        result,
        ExecutionResult::Done {
            content: "exit code: 1\n\n--- stdout ---\nout\n\n--- stderr ---\nerr".to_string(),
            is_error: true,
        }
    );
}

#[test]
fn shell_capture_result_truncates_large_output() {
    let big = "y".repeat(MAX_SHELL_CAPTURE_OUTPUT_BYTES * 2);
    let result = shell_capture_result(&shell_capture_content(Some(0), &big, ""), true);
    let (text, is_error) = content(&result);
    assert!(!is_error);
    assert!(text.contains("[... output truncated at 20000 bytes ...]"));
}

#[test]
fn git_status_and_diff_results() {
    assert_eq!(
        content(&git_status_result(true, " \n".to_string(), String::new())),
        ("No changes — working tree is clean.", false)
    );
    assert_eq!(
        content(&git_status_result(true, " M a.rs\n".to_string(), String::new())),
        (" M a.rs\n", false)
    );
    assert_eq!(
        content(&git_status_result(false, String::new(), "fatal: not a repo".to_string())),
        ("fatal: not a repo", true)
    );
    assert_eq!(content(&git_diff_result(true, "\n")), ("No uncommitted changes.", false));
    assert_eq!(content(&git_diff_result(false, "+x\n")), ("+x\n", true));
}

#[test]
fn search_and_listing_texts() {
    assert_eq!(content(&search_matches_result("foo", "")), ("No matches for 'foo'.", false));
    assert_eq!(content(&search_matches_result("foo", "a.rs:1:foo\n")), ("a.rs:1:foo\n", false));
    assert_eq!(directory_listing(&vec![]), "(empty directory)");
    assert_eq!(directory_listing(&strings(&["src/", "  lib.rs"])), "src/\n  lib.rs");
}

#[test]
fn cargo_arguments_and_reports() {
    assert_eq!(cargo_check_args(None), Ok(strings(&["check", "--message-format=short"])));
    assert_eq!(
        cargo_check_args(Some("kiwi_core")),
        Ok(strings(&["check", "--message-format=short", "-p", "kiwi_core"]))
    );
    assert_eq!(cargo_check_args(Some("  ")), Err("package name must not be empty".to_string()));
    assert_eq!(
        cargo_build_args(Some("app"), true),
        Ok(strings(&["build", "--message-format=short", "--release", "-p", "app"]))
    );
    assert_eq!(
        cargo_test_args(Some("parse"), Some("core")),
        Ok(strings(&["test", "-p", "core", "parse", "--", "--nocapture"]))
    );
    assert_eq!(cargo_test_args(None, None), Ok(strings(&["test", "--", "--nocapture"])));
    assert_eq!(cargo_test_args(Some(" "), None), Err("filter must not be empty".to_string()));
    assert_eq!(
        cargo_test_args(Some(" "), Some("")),
        Err("package name must not be empty".to_string())
    );
    assert_eq!(cargo_build_content(true, "ok"), "cargo build passed\n\nok");
    assert_eq!(cargo_build_content(false, ""), "cargo build failed\n\n");
}

#[test]
fn github_list_arguments() {
    assert_eq!(
        github_issue_list_args(5, Some("bug"), None),
        strings(&["issue", "list", "--json", "number,title,state,labels,milestone", "--limit", "5", "--label", "bug"])
    );
    assert_eq!(
        github_issue_list_args(20, None, Some("v1")),
        strings(&["issue", "list", "--json", "number,title,state,labels,milestone", "--limit", "20", "--milestone", "v1"])
    );
    assert_eq!(
        github_pr_list_args(10, Some("main")),
        strings(&["pr", "list", "--json", "number,title,state,headRefName,baseRefName", "--limit", "10", "--base", "main"])
    );
}

#[test]
fn project_context_pieces() {
    let ran = |success: bool, stdout: &str, stderr: &str| {
        CommandOutcome::Ran(CommandOutput {
            success,
            code: Some(if success { 0 } else { 1 }),
            stdout: stdout.to_string(),
            stderr: stderr.to_string(),
        })
    };
    assert_eq!(current_branch_line(&ran(true, "main\n", "")), "main");
    assert_eq!(current_branch_line(&ran(true, "\n", "")), "(detached HEAD)");
    assert_eq!(
        recent_commits_line(&ran(false, "", "fatal: bad\n")),
        "Unable to read commits: fatal: bad"
    );
    assert_eq!(
        current_branch_line(&CommandOutcome::SpawnFailed("no git".to_string())),
        "git not available: no git"
    );
    assert_eq!(directory_entry_line(1, "src", true), "src/");
    assert_eq!(directory_entry_line(3, "lib.rs", false), "    lib.rs");
    assert_eq!(key_file_section("Cargo.toml", &KeyFile::Missing), "\n### Cargo.toml\n(not present)\n");
    assert_eq!(
        key_file_section("README.md", &KeyFile::Text("# Title".to_string())),
        "\n### README.md\n# Title\n"
    );
    assert_eq!(
        key_file_section("a", &KeyFile::Unreadable("denied".to_string())),
        "\n### a\n(unable to read: denied)\n"
    );
    let text = project_context_text(
        "main",
        "abc fix",
        &Ok(strings(&["src/"])),
        &strings(&["\n### a\n(not present)\n"]),
    );
    assert_eq!(
        text,
        "Project context\n\n## Branch\nmain\n\n## Recent commits\nabc fix\n\n## Directory structure\nsrc/\n\n## Key files\n\n### a\n(not present)"
    );
}
