use kiwi_core::agent::file_edit::{plan_patch, read_range_text, PatchPlan};
use kiwi_core::agent::tool_executor::ExecutionResult;

fn done(text: &str, is_error: bool) -> ExecutionResult {
    ExecutionResult::Done {
        content: text.to_string(),
        is_error,
    }
}

#[test]
fn patch_file_replaces_unique_match() {
    let plan = plan_patch("edit.rs", "fn old_name() {}\n", "old_name", "new_name");
    assert_eq!(
        plan,
        PatchPlan::Write {
            updated: "fn new_name() {}\n".to_string(),
            message: "Patched 'edit.rs' at line 1.".to_string(),
        }
    );
}

#[test]
fn patch_reports_line_of_match() {
    let plan = plan_patch("a.rs", "x\ny\nzz\n", "zz", "w");
    assert_eq!(
        plan,
        PatchPlan::Write {
            updated: "x\ny\nw\n".to_string(),
            message: "Patched 'a.rs' at line 3.".to_string(),
        }
    );
}

#[test]
fn patch_file_rejects_ambiguous_match() {
    let plan = plan_patch("dup.rs", "foo\nfoo\n", "foo", "bar");
    match plan {
        PatchPlan::Refuse(message) => {
            assert!(message.contains("2 times"));
            assert!(message.contains("surrounding context"));
        }
        other => panic!("unexpected {other:?}"),
    }
}

#[test]
fn patch_counts_non_overlapping_matches() {
    assert_eq!(
        plan_patch("p", "aaa", "aa", "b"),
        PatchPlan::Write {
            updated: "ba".to_string(),
            message: "Patched 'p' at line 1.".to_string(),
        }
    );
}

#[test]
fn patch_with_empty_pattern() {
    assert_eq!(
        plan_patch("p", "", "", "new"),
        PatchPlan::Write {
            updated: "new".to_string(),
            message: "Patched 'p' at line 1.".to_string(),
        }
    );
    assert_eq!(
        plan_patch("p", "ab", "", "x"),
        PatchPlan::Refuse(
            "old_str matches 3 times in 'p'. Include more surrounding context to make it unique."
                .to_string()
        )
    );
}

#[test]
fn patch_file_errors_when_old_str_not_found() {
    assert_eq!(
        plan_patch("miss.rs", "fn main() {}\n", "missing_text", "replacement"),
        PatchPlan::Refuse(
            "old_str not found in 'miss.rs'. Re-read the file to get the exact text to replace."
                .to_string()
        )
    );
}

#[test]
fn read_file_range_returns_numbered_lines() {
    assert_eq!(read_range_text("lines.txt", "a\nb\nc\n", 2, Some(3)), done("2: b\n3: c", false));
}

#[test]
fn read_file_range_reads_to_eof_when_end_line_omitted() {
    assert_eq!(
        read_range_text("tail.txt", "one\ntwo\nthree\n", 2, None),
        done("2: two\n3: three", false)
    );
}

#[test]
fn read_file_range_truncates_at_500_lines() {
    let body = (1..=600)
        .map(|n| format!("line {n}"))
        .collect::<Vec<_>>()
        .join("\n");
    let ExecutionResult::Done { content, is_error } = read_range_text("big.txt", &body, 1, None) else {
        panic!("expected a result");
    };
    assert!(!is_error);
    assert!(content.contains("500: line 500"));
    assert!(content.contains("truncated at 500 lines"));
    assert!(!content.contains("501: line 501"));
}

#[test]
fn read_file_range_errors_when_start_beyond_eof() {
    assert_eq!(
        read_range_text("short.txt", "only\n", 5, None),
        done("start_line 5 is beyond end of file (1 lines).", true)
    );
}

#[test]
fn read_file_range_other_errors() {
    assert_eq!(read_range_text("e.txt", "", 1, None), done("'e.txt' is empty.", true));
    assert_eq!(
        read_range_text("f.txt", "a\nb\nc", 3, Some(2)),
        done("end_line 2 must be >= start_line 3.", true)
    );
    assert_eq!(read_range_text("f.txt", "a\nb\nc", 2, Some(99)), done("2: b\n3: c", false));
}
