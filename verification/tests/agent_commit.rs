use kiwi_core::agent::commit::{
    git_commit_next, git_commit_start, CommandOutcome, CommandOutput, GitCommitAction,
    GitCommitStage,
};
use kiwi_core::agent::tool_executor::ExecutionResult;

fn ran(success: bool, code: Option<i32>, stdout: &str, stderr: &str) -> CommandOutcome {
    CommandOutcome::Ran(CommandOutput {
        success,
        code,
        stdout: stdout.to_string(),
        stderr: stderr.to_string(),
    })
}

fn args_of(action: &GitCommitAction) -> Vec<String> {
    match action {
        GitCommitAction::Run { args, .. } => args.clone(),
        GitCommitAction::Finish(_) => panic!("expected a command"),
    }
}

fn done(text: &str, is_error: bool) -> GitCommitAction {
    GitCommitAction::Finish(ExecutionResult::Done {
        content: text.to_string(),
        is_error,
    })
}

#[test]
fn git_commit_stages_all_and_returns_hash() {
    let start = git_commit_start(true);
    assert_eq!(args_of(&start), vec!["add", "-A"]);
    let check = git_commit_next(GitCommitStage::Staging, "msg", ran(true, Some(0), "", ""));
    assert_eq!(args_of(&check), vec!["diff", "--cached", "--quiet"]);
    let commit = git_commit_next(GitCommitStage::CheckingStaged, "msg", ran(false, Some(1), "", ""));
    assert_eq!(args_of(&commit), vec!["commit", "-m", "msg"]);
    let head = git_commit_next(
        GitCommitStage::Committing,
        "msg",
        ran(true, Some(0), "[main abc123] msg\n", ""),
    );
    let GitCommitAction::Run { stage, args } = head else {
        panic!("expected rev-parse");
    };
    assert_eq!(args, vec!["rev-parse", "HEAD"]);
    let finished = git_commit_next(stage, "msg", ran(true, Some(0), "abc123def\n", ""));
    assert_eq!(finished, done("[main abc123] msg\ncommit: abc123def", false));
}

#[test]
fn git_commit_clean_tree_returns_error() {
    let start = git_commit_start(false);
    assert_eq!(args_of(&start), vec!["diff", "--cached", "--quiet"]);
    let clean = git_commit_next(GitCommitStage::CheckingStaged, "msg", ran(true, Some(0), "", ""));
    assert_eq!(clean, done("Nothing to commit — working tree is clean.", true));
}

#[test]
fn git_commit_reports_failures() {
    assert_eq!(
        git_commit_next(GitCommitStage::Staging, "m", CommandOutcome::SpawnFailed("no git".to_string())),
        done("git not available: no git", true)
    );
    assert_eq!(
        git_commit_next(GitCommitStage::Staging, "m", ran(false, Some(128), "", " fatal: x \n")),
        done("fatal: x", true)
    );
    assert_eq!(
        git_commit_next(GitCommitStage::CheckingStaged, "m", ran(false, Some(2), "", "")),
        done("git diff --cached failed (exit Some(2))", true)
    );
    assert_eq!(
        git_commit_next(GitCommitStage::CheckingStaged, "m", ran(false, None, "", "")),
        done("git diff --cached failed (exit None)", true)
    );
    assert_eq!(
        git_commit_next(GitCommitStage::Committing, "m", CommandOutcome::SpawnFailed("boom".to_string())),
        done("git commit failed: boom", true)
    );
    assert_eq!(
        git_commit_next(
            GitCommitStage::ReadingHead { output: String::new() },
            "m",
            ran(false, Some(1), "", "")
        ),
        done("", false)
    );
    assert_eq!(
        git_commit_next(
            GitCommitStage::ReadingHead { output: String::new() },
            "m",
            ran(true, Some(0), "abc\n", "")
        ),
        done("commit: abc", false)
    );
}
