//! The `git.commit` tool as a sequence of git commands: optionally stage
//! everything, refuse a clean index, commit, then read the new commit's hash.
//!
//! The application runs each command it is asked to run in the repository
//! and hands back what came of it; the decisions are made here.
use vstd::prelude::*;

use super::tool_executor::{format_git_output, spec_git_output, ExecutionResult};
use crate::text::{decimal, push_char, push_decimal, push_str, str_chars, string_views, trim, trim_str};

verus! {

/// What a finished command gave back.
#[derive(Debug, Clone, PartialEq, Eq)]
pub struct CommandOutput {
    pub success: bool,
    /// Exit code; none when a signal ended the process.
    pub code: Option<i32>,
    pub stdout: String,
    pub stderr: String,
}

/// What came of asking to run a command.
#[derive(Debug, Clone, PartialEq, Eq)]
pub enum CommandOutcome {
    Ran(CommandOutput),
    /// The command could not be started; the system's message.
    SpawnFailed(String),
}

/// The command a commit is waiting on.
#[derive(Debug, Clone, PartialEq, Eq)]
pub enum GitCommitStage {
    /// `git add -A`.
    Staging,
    /// `git diff --cached --quiet`, which exits 1 when something is staged.
    CheckingStaged,
    /// `git commit -m <message>`.
    Committing,
    /// `git rev-parse HEAD`, with the commit's own output kept.
    ReadingHead { output: String },
}

/// What to do next.
#[derive(Debug, PartialEq, Eq)]
pub enum GitCommitAction {
    /// Run `git` with these arguments and report back for `stage`.
    Run { stage: GitCommitStage, args: Vec<String> },
    /// The tool is done.
    Finish(ExecutionResult),
}

/// `a` finishes with this text and error flag.
pub open spec fn finishes(a: GitCommitAction, text: Seq<char>, is_error: bool) -> bool {
    a matches GitCommitAction::Finish(ExecutionResult::Done { content, is_error: e }) && content@ == text && e
        == is_error
}

/// `a` runs `git` with `args` for a stage other than reading the head.
pub open spec fn runs(a: GitCommitAction, stage: GitCommitStage, args: Seq<Seq<char>>) -> bool {
    a matches GitCommitAction::Run { stage: s, args: xs } && s == stage && string_views(xs@) == args
}

/// Decimal text of a signed exit code.
pub open spec fn code_text(c: i32) -> Seq<char> {
    if c < 0 {
        seq!['-'] + decimal((-c) as nat)
    } else {
        decimal(c as nat)
    }
}

/// An optional exit code as debug output shows it.
pub open spec fn debug_code(c: Option<i32>) -> Seq<char> {
    match c {
        Some(x) => "Some("@ + code_text(x) + ")"@,
        None => "None"@,
    }
}

/// The first command of a commit.
pub open spec fn commit_start(stage_all: bool, a: GitCommitAction) -> bool {
    if stage_all {
        runs(a, GitCommitStage::Staging, seq!["add"@, "-A"@])
    } else {
        runs(a, GitCommitStage::CheckingStaged, seq!["diff"@, "--cached"@, "--quiet"@])
    }
}

/// What follows `outcome` at `stage` of committing with `message`.
pub open spec fn commit_next(stage: GitCommitStage, message: Seq<char>, outcome: CommandOutcome, a: GitCommitAction) -> bool {
    match stage {
        GitCommitStage::Staging => match outcome {
            CommandOutcome::Ran(o) => if o.success {
                runs(a, GitCommitStage::CheckingStaged, seq!["diff"@, "--cached"@, "--quiet"@])
            } else {
                finishes(a, spec_git_output(o.stdout@, o.stderr@), true)
            },
            CommandOutcome::SpawnFailed(e) => finishes(a, "git not available: "@ + e@, true),
        },
        GitCommitStage::CheckingStaged => match outcome {
            CommandOutcome::Ran(o) => if o.code == Some(0i32) {
                finishes(a, "Nothing to commit — working tree is clean."@, true)
            } else if o.code == Some(1i32) {
                runs(a, GitCommitStage::Committing, seq!["commit"@, "-m"@, message])
            } else {
                finishes(a, "git diff --cached failed (exit "@ + debug_code(o.code) + ")"@, true)
            },
            CommandOutcome::SpawnFailed(e) => finishes(a, "git not available: "@ + e@, true),
        },
        GitCommitStage::Committing => match outcome {
            CommandOutcome::Ran(o) => if o.success {
                a matches GitCommitAction::Run { stage: GitCommitStage::ReadingHead { output }, args }
                    && output@ == spec_git_output(o.stdout@, o.stderr@) && string_views(args@) == seq![
                    "rev-parse"@,
                    "HEAD"@,
                ]
            } else {
                finishes(a, spec_git_output(o.stdout@, o.stderr@), true)
            },
            CommandOutcome::SpawnFailed(e) => finishes(a, "git commit failed: "@ + e@, true),
        },
        GitCommitStage::ReadingHead { output } => match outcome {
            CommandOutcome::Ran(o) => if o.success {
                finishes(
                    a,
                    output@ + (if output@.len() > 0 {
                        seq!['\n']
                    } else {
                        Seq::empty()
                    }) + "commit: "@ + trim(o.stdout@),
                    false,
                )
            } else {
                finishes(a, output@, false)
            },
            CommandOutcome::SpawnFailed(_) => finishes(a, output@, false),
        },
    }
}

fn owned(s: &str) -> (r: String)
    ensures
        r@ == s@,
{
    let mut o = String::new();
    push_str(&mut o, s);
    o
}

fn finish(content: String, is_error: bool) -> (a: GitCommitAction)
    ensures
        finishes(a, content@, is_error),
{
    GitCommitAction::Finish(ExecutionResult::Done { content, is_error })
}

fn prefixed(prefix: &str, rest: &str) -> (r: String)
    ensures
        r@ == prefix@ + rest@,
{
    let mut s = owned(prefix);
    push_str(&mut s, rest);
    s
}

fn run(stage: GitCommitStage, parts: &[&str]) -> (a: GitCommitAction)
    ensures
        a matches GitCommitAction::Run { stage: s, args } && s == stage && args@.len() == parts@.len() && forall|
            i: int,
        |
            0 <= i < parts@.len() ==> (#[trigger] args@[i])@ == parts@[i]@,
{
    let mut args: Vec<String> = Vec::new();
    let mut i: usize = 0;
    while i < parts.len()
        invariant
            i <= parts@.len(),
            args@.len() == i,
            forall|j: int| 0 <= j < i ==> (#[trigger] args@[j])@ == parts@[j]@,
        decreases parts.len() - i,
    {
        args.push(owned(parts[i]));
        i = i + 1;
    }
    GitCommitAction::Run { stage, args }
}

fn push_code(s: &mut String, c: i32)
    ensures
        final(s)@ == old(s)@ + code_text(c),
{
    if c < 0 {
        push_char(s, '-');
        let m: i64 = -(c as i64);
        push_decimal(s, m as u64);
    } else {
        push_decimal(s, c as u64);
    }
}

/// The first command of `git.commit`: stage everything when asked, else
/// check that something is staged.
pub fn git_commit_start(stage_all: bool) -> (a: GitCommitAction)
    ensures
        commit_start(stage_all, a),
{
    proof {
        reveal_strlit("add");
        reveal_strlit("-A");
        reveal_strlit("diff");
        reveal_strlit("--cached");
        reveal_strlit("--quiet");
    }
    if stage_all {
        let a = run(GitCommitStage::Staging, &["add", "-A"]);
        proof {
            let xs = a->Run_args@;
            assert(string_views(xs) =~= seq!["add"@, "-A"@]);
        }
        a
    } else {
        let a = run(GitCommitStage::CheckingStaged, &["diff", "--cached", "--quiet"]);
        proof {
            let xs = a->Run_args@;
            assert(string_views(xs) =~= seq!["diff"@, "--cached"@, "--quiet"@]);
        }
        a
    }
}

/// The next step of `git.commit` with `message`, given what came of the
/// command run at `stage`.
pub fn git_commit_next(stage: GitCommitStage, message: &str, outcome: CommandOutcome) -> (a: GitCommitAction)
    ensures
        commit_next(stage, message@, outcome, a),
{
    match stage {
        GitCommitStage::Staging => match outcome {
            CommandOutcome::Ran(o) => {
                if o.success {
                    proof {
                        reveal_strlit("diff");
                        reveal_strlit("--cached");
                        reveal_strlit("--quiet");
                    }
                    let a = run(GitCommitStage::CheckingStaged, &["diff", "--cached", "--quiet"]);
                    proof {
                        assert(string_views(a->Run_args@) =~= seq!["diff"@, "--cached"@, "--quiet"@]);
                    }
                    a
                } else {
                    finish(format_git_output(o.stdout.as_str(), o.stderr.as_str()), true)
                }
            },
            CommandOutcome::SpawnFailed(e) => finish(prefixed("git not available: ", e.as_str()), true),
        },
        GitCommitStage::CheckingStaged => match outcome {
            CommandOutcome::Ran(o) => {
                match o.code {
                    Some(0) => finish(owned("Nothing to commit — working tree is clean."), true),
                    Some(1) => {
                        let mut args: Vec<String> = Vec::new();
                        args.push(owned("commit"));
                        args.push(owned("-m"));
                        args.push(owned(message));
                        proof {
                            assert(string_views(args@) =~= seq!["commit"@, "-m"@, message@]);
                        }
                        GitCommitAction::Run { stage: GitCommitStage::Committing, args }
                    },
                    other => {
                        let mut text = owned("git diff --cached failed (exit ");
                        match other {
                            Some(c) => {
                                push_str(&mut text, "Some(");
                                push_code(&mut text, c);
                                push_str(&mut text, ")");
                            },
                            None => {
                                push_str(&mut text, "None");
                            },
                        }
                        push_str(&mut text, ")");
                        let ghost expected = "git diff --cached failed (exit "@ + debug_code(o.code) + ")"@;
                        assert(text@ =~= expected);
                        finish(text, true)
                    },
                }
            },
            CommandOutcome::SpawnFailed(e) => finish(prefixed("git not available: ", e.as_str()), true),
        },
        GitCommitStage::Committing => match outcome {
            CommandOutcome::Ran(o) => {
                if o.success {
                    proof {
                        reveal_strlit("rev-parse");
                        reveal_strlit("HEAD");
                    }
                    let output = format_git_output(o.stdout.as_str(), o.stderr.as_str());
                    let a = run(GitCommitStage::ReadingHead { output }, &["rev-parse", "HEAD"]);
                    proof {
                        assert(string_views(a->Run_args@) =~= seq!["rev-parse"@, "HEAD"@]);
                    }
                    a
                } else {
                    finish(format_git_output(o.stdout.as_str(), o.stderr.as_str()), true)
                }
            },
            CommandOutcome::SpawnFailed(e) => finish(prefixed("git commit failed: ", e.as_str()), true),
        },
        GitCommitStage::ReadingHead { output } => match outcome {
            CommandOutcome::Ran(o) => {
                if o.success {
                    let mut content = output;
                    let ghost before = content@;
                    if str_chars(content.as_str()).len() > 0 {
                        push_char(&mut content, '\n');
                    }
                    push_str(&mut content, "commit: ");
                    let hash = trim_str(o.stdout.as_str());
                    push_str(&mut content, hash.as_str());
                    let ghost expected = before + (if before.len() > 0 {
                        seq!['\n']
                    } else {
                        Seq::empty()
                    }) + "commit: "@ + trim(o.stdout@);
                    assert(content@ =~= expected);
                    finish(content, false)
                } else {
                    finish(output, false)
                }
            },
            CommandOutcome::SpawnFailed(_) => finish(output, false),
        },
    }
}

} // verus!
