//! Texts the local tools hand back: output cut at a byte limit, the report
//! of a captured shell command, git and cargo results, and the arguments
//! of the cargo commands.
use vstd::prelude::*;

use super::commit::CommandOutcome;
use super::tool_executor::{first_n_lines, spec_first_n_lines, ExecutionResult};
use crate::text::{
    decimal, join, join_strings, push_chars, push_decimal, push_str, slice_sub, str_chars, string_from_chars,
    string_views, trim, trim_chars, trim_end, trim_end_chars,
};

verus! {

/// Bytes read from a file before the rest is cut.
pub const MAX_FILE_BYTES: usize = 100000;

/// Bytes of `cargo check` output kept.
pub const MAX_CARGO_OUTPUT_BYTES: usize = 10000;

/// Bytes of `cargo build` output kept.
pub const MAX_CARGO_BUILD_OUTPUT_BYTES: usize = 20000;

/// Bytes of `cargo test` output kept.
pub const MAX_CARGO_TEST_OUTPUT_BYTES: usize = 20000;

/// Bytes of a captured shell command's report kept.
pub const MAX_SHELL_CAPTURE_OUTPUT_BYTES: usize = 20000;

/// Bytes that `c` takes in UTF-8.
pub open spec fn utf8_width(c: char) -> nat {
    if (c as u32) < 0x80 {
        1
    } else if (c as u32) < 0x800 {
        2
    } else if (c as u32) < 0x10000 {
        3
    } else {
        4
    }
}

/// Bytes that `s` takes in UTF-8.
pub open spec fn utf8_len(s: Seq<char>) -> nat
    decreases s.len(),
{
    if s.len() == 0 {
        0
    } else {
        utf8_len(s.drop_last()) + utf8_width(s.last())
    }
}

/// Byte offset `limit` of `s` falls between two of its characters.
pub open spec fn on_char_boundary(s: Seq<char>, limit: nat) -> bool {
    exists|k: int| 0 <= k <= s.len() && #[trigger] utf8_len(s.take(k)) == limit
}

/// `s` can be cut at `limit` bytes: it is no longer, or the cut falls
/// between characters.
pub open spec fn can_truncate(s: Seq<char>, limit: nat) -> bool {
    utf8_len(s) <= limit || on_char_boundary(s, limit)
}

/// The first `limit` bytes of `s`, on a character boundary.
pub open spec fn byte_prefix(s: Seq<char>, limit: nat) -> Seq<char> {
    s.take(choose|k: int| 0 <= k <= s.len() && utf8_len(s.take(k)) == limit)
}

/// `s` when it fits in `limit` bytes; else its first `limit` bytes and a
/// note that the `what` was cut.
pub open spec fn truncated(s: Seq<char>, limit: nat, what: Seq<char>) -> Seq<char> {
    if utf8_len(s) <= limit {
        s
    } else {
        byte_prefix(s, limit) + "\n\n[... "@ + what + " truncated at "@ + decimal(limit) + " bytes ...]"@
    }
}

proof fn lemma_utf8_take_step(s: Seq<char>, k: int)
    requires
        0 <= k < s.len(),
    ensures
        utf8_len(s.take(k + 1)) == utf8_len(s.take(k)) + utf8_width(s[k]),
{
    assert(s.take(k + 1).drop_last() =~= s.take(k));
}

proof fn lemma_utf8_take_increases(s: Seq<char>, j: int, k: int)
    requires
        0 <= j < k <= s.len(),
    ensures
        utf8_len(s.take(j)) < utf8_len(s.take(k)),
    decreases k - j,
{
    lemma_utf8_take_step(s, k - 1);
    if j < k - 1 {
        lemma_utf8_take_increases(s, j, k - 1);
    }
}

fn char_width(c: char) -> (r: usize)
    ensures
        r == utf8_width(c),
{
    let u = c as u32;
    if u < 0x80 {
        1
    } else if u < 0x800 {
        2
    } else if u < 0x10000 {
        3
    } else {
        4
    }
}

/// `content` cut at `limit` bytes, with a note naming the `what` that was
/// cut; unchanged when it fits.
pub fn truncate_output(content: &str, limit: usize, what: &str) -> (r: String)
    requires
        can_truncate(content@, limit as nat),
    ensures
        r@ == truncated(content@, limit as nat, what@),
{
    let v = str_chars(content);
    let mut i: usize = 0;
    let mut acc: usize = 0;
    let mut full = false;
    while i < v.len() && !full
        invariant
            v@ == content@,
            i <= v@.len(),
            acc == utf8_len(v@.take(i as int)),
            acc <= limit,
            full ==> i < v@.len() && utf8_width(v@[i as int]) > limit - acc,
        decreases v.len() - i + (if full { 0int } else { 1int }),
    {
        let w = char_width(v[i]);
        if w > limit - acc {
            full = true;
        } else {
            proof {
                lemma_utf8_take_step(v@, i as int);
            }
            acc = acc + w;
            i = i + 1;
        }
    }
    if !full {
        assert(v@.take(i as int) =~= content@);
        return string_from_chars(v.as_slice());
    }
    proof {
        lemma_utf8_take_step(v@, i as int);
        if i + 1 < v@.len() {
            lemma_utf8_take_increases(v@, i + 1, v@.len() as int);
        }
        assert(v@.take(v@.len() as int) =~= content@);
        assert(utf8_len(content@) > limit);
        let k = choose|k: int| 0 <= k <= content@.len() && utf8_len(content@.take(k)) == limit as nat;
        if k < i {
            lemma_utf8_take_increases(v@, k, i as int);
        } else if k > i {
            if k > i + 1 {
                lemma_utf8_take_increases(v@, i + 1, k);
            }
        }
        assert(k == i);
    }
    let mut out = string_from_chars(slice_sub(v.as_slice(), 0, i).as_slice());
    push_str(&mut out, "\n\n[... ");
    push_str(&mut out, what);
    push_str(&mut out, " truncated at ");
    push_decimal(&mut out, limit as u64);
    push_str(&mut out, " bytes ...]");
    out
}

/// A finished tool result with `content` cut at `limit` bytes.
pub fn truncated_result(content: &str, limit: usize, what: &str, is_error: bool) -> (r: ExecutionResult)
    requires
        can_truncate(content@, limit as nat),
    ensures
        r matches ExecutionResult::Done { content: c, is_error: e } && c@ == truncated(content@, limit as nat, what@)
            && e == is_error,
{
    ExecutionResult::Done { content: truncate_output(content, limit, what), is_error }
}

/// An integer in decimal, with a minus sign when negative.
pub open spec fn signed_decimal(i: int) -> Seq<char> {
    if i < 0 {
        seq!['-'] + decimal((-i) as nat)
    } else {
        decimal(i as nat)
    }
}

/// A section of the shell report: nothing when the stream is blank.
pub open spec fn capture_section(title: Seq<char>, text: Seq<char>) -> Seq<char> {
    if trim(text).len() > 0 {
        title + trim_end(text) + seq!['\n']
    } else {
        Seq::empty()
    }
}

/// The report of a captured shell command: its exit code (-1 when it has
/// none), then its standard output and error when not blank, or a note
/// that it printed nothing.
pub open spec fn spec_shell_capture_content(code: Option<i32>, stdout: Seq<char>, stderr: Seq<char>) -> Seq<char> {
    let c: int = match code {
        Some(c) => c as int,
        None => -1,
    };
    "exit code: "@ + signed_decimal(c) + seq!['\n'] + capture_section("\n--- stdout ---\n"@, stdout)
        + capture_section("\n--- stderr ---\n"@, stderr) + if trim(stdout).len() == 0 && trim(stderr).len() == 0 {
        "(no output)\n"@
    } else {
        Seq::empty()
    }
}

fn push_section(out: &mut String, title: &str, text: &str)
    ensures
        final(out)@ == old(out)@ + capture_section(title@, text@),
{
    let v = str_chars(text);
    let t = trim_chars(v.as_slice());
    if t.len() > 0 {
        push_str(out, title);
        let e = trim_end_chars(v.as_slice());
        push_chars(out, e.as_slice());
        crate::text::push_char(out, '\n');
    }
}

/// The report of a captured shell command, before it is cut to size.
pub fn shell_capture_content(code: Option<i32>, stdout: &str, stderr: &str) -> (r: String)
    ensures
        r@ == spec_shell_capture_content(code, stdout@, stderr@),
{
    let mut out = String::new();
    push_str(&mut out, "exit code: ");
    let c: i32 = match code {
        Some(c) => c,
        None => -1,
    };
    if c < 0 {
        crate::text::push_char(&mut out, '-');
        let m: i64 = -(c as i64);
        push_decimal(&mut out, m as u64);
    } else {
        push_decimal(&mut out, c as u64);
    }
    crate::text::push_char(&mut out, '\n');
    push_section(&mut out, "\n--- stdout ---\n", stdout);
    push_section(&mut out, "\n--- stderr ---\n", stderr);
    let so = trim_chars(str_chars(stdout).as_slice());
    let se = trim_chars(str_chars(stderr).as_slice());
    if so.len() == 0 && se.len() == 0 {
        push_str(&mut out, "(no output)\n");
    }
    out
}

/// What a captured shell command gives back: its report cut to size and
/// without trailing whitespace; an error when the command failed.
pub fn shell_capture_result(content: &str, success: bool) -> (r: ExecutionResult)
    requires
        can_truncate(content@, MAX_SHELL_CAPTURE_OUTPUT_BYTES as nat),
    ensures
        r matches ExecutionResult::Done { content: c, is_error: e } && c@ == trim_end(
            truncated(content@, MAX_SHELL_CAPTURE_OUTPUT_BYTES as nat, "output"@),
        ) && e == !success,
{
    let cut = truncate_output(content, MAX_SHELL_CAPTURE_OUTPUT_BYTES, "output");
    let t = trim_end_chars(str_chars(cut.as_str()).as_slice());
    ExecutionResult::Done { content: string_from_chars(t.as_slice()), is_error: !success }
}

/// What `git status --short` gives back: the listing, a note when the tree
/// is clean, or the error output when git failed.
pub fn git_status_result(success: bool, stdout: String, stderr: String) -> (r: ExecutionResult)
    ensures
        r matches ExecutionResult::Done { content: c, is_error: e } && e == !success && c@ == if !success {
            stderr@
        } else if trim(stdout@).len() == 0 {
            "No changes — working tree is clean."@
        } else {
            stdout@
        },
{
    if !success {
        return ExecutionResult::Done { content: stderr, is_error: true };
    }
    let t = trim_chars(str_chars(stdout.as_str()).as_slice());
    if t.len() == 0 {
        let mut c = String::new();
        push_str(&mut c, "No changes — working tree is clean.");
        ExecutionResult::Done { content: c, is_error: false }
    } else {
        ExecutionResult::Done { content: stdout, is_error: false }
    }
}

/// What `git diff HEAD` gives back: the diff cut to size, or a note when
/// there is nothing uncommitted; an error when git failed.
pub fn git_diff_result(success: bool, diff: &str) -> (r: ExecutionResult)
    requires
        trim(diff@).len() == 0 || can_truncate(diff@, MAX_FILE_BYTES as nat),
    ensures
        r matches ExecutionResult::Done { content: c, is_error: e } && e == !success && c@ == if trim(diff@).len()
            == 0 {
            "No uncommitted changes."@
        } else {
            truncated(diff@, MAX_FILE_BYTES as nat, "diff"@)
        },
{
    let t = trim_chars(str_chars(diff).as_slice());
    if t.len() == 0 {
        let mut c = String::new();
        push_str(&mut c, "No uncommitted changes.");
        ExecutionResult::Done { content: c, is_error: !success }
    } else {
        ExecutionResult::Done { content: truncate_output(diff, MAX_FILE_BYTES, "diff"), is_error: !success }
    }
}

/// What a content search gives back: the matches cut to size, or a note
/// that `query` matched nothing.
pub fn search_matches_result(query: &str, found: &str) -> (r: ExecutionResult)
    requires
        trim(found@).len() == 0 || can_truncate(found@, MAX_FILE_BYTES as nat),
    ensures
        r matches ExecutionResult::Done { content: c, is_error: e } && !e && c@ == if trim(found@).len() == 0 {
            "No matches for '"@ + query@ + "'."@
        } else {
            truncated(found@, MAX_FILE_BYTES as nat, "output"@)
        },
{
    let t = trim_chars(str_chars(found).as_slice());
    if t.len() == 0 {
        let mut c = String::new();
        push_str(&mut c, "No matches for '");
        push_str(&mut c, query);
        push_str(&mut c, "'.");
        ExecutionResult::Done { content: c, is_error: false }
    } else {
        ExecutionResult::Done { content: truncate_output(found, MAX_FILE_BYTES, "output"), is_error: false }
    }
}

/// The `cargo build` report before it is cut to size: whether it passed,
/// then its output.
pub fn cargo_build_content(success: bool, raw: &str) -> (r: String)
    ensures
        r@ == (if success {
            "cargo build passed"@
        } else {
            "cargo build failed"@
        }) + "\n\n"@ + raw@,
{
    let mut out = String::new();
    if success {
        push_str(&mut out, "cargo build passed");
    } else {
        push_str(&mut out, "cargo build failed");
    }
    push_str(&mut out, "\n\n");
    push_str(&mut out, raw);
    out
}

/// A directory listing: its lines, or a note when there are none.
pub fn directory_listing(lines: &Vec<String>) -> (r: String)
    ensures
        r@ == if lines@.len() == 0 {
            "(empty directory)"@
        } else {
            join(string_views(lines@), "\n"@)
        },
{
    if lines.len() == 0 {
        let mut c = String::new();
        push_str(&mut c, "(empty directory)");
        c
    } else {
        join_strings(lines, "\n")
    }
}

fn text_of(s: &str) -> (r: String)
    ensures
        r@ == s@,
{
    let mut o = String::new();
    push_str(&mut o, s);
    o
}

/// Arguments of a cargo command with `-p package` added when given; a
/// blank package name is refused.
pub open spec fn with_package(args: Seq<Seq<char>>, package: Option<Seq<char>>) -> Result<Seq<Seq<char>>, Seq<char>> {
    match package {
        Some(p) => if trim(p).len() == 0 {
            Err("package name must not be empty"@)
        } else {
            Ok(args + seq!["-p"@, p])
        },
        None => Ok(args),
    }
}

/// `r` holds, as strings, the arguments or the error of `spec`.
pub open spec fn args_match(r: Result<Vec<String>, String>, spec: Result<Seq<Seq<char>>, Seq<char>>) -> bool {
    match r {
        Ok(v) => spec == Ok::<Seq<Seq<char>>, Seq<char>>(string_views(v@)),
        Err(e) => spec == Err::<Seq<Seq<char>>, Seq<char>>(e@),
    }
}

fn add_package(args: &mut Vec<String>, package: Option<&str>) -> (r: Result<(), String>)
    ensures
        match package {
            Some(p) => if trim(p@).len() == 0 {
                r matches Err(e) && e@ == "package name must not be empty"@
            } else {
                r is Ok && string_views(final(args)@) == string_views(old(args)@) + seq!["-p"@, p@]
            },
            None => r is Ok && final(args)@ == old(args)@,
        },
{
    match package {
        Some(p) => {
            if trim_chars(str_chars(p).as_slice()).len() == 0 {
                return Err(text_of("package name must not be empty"));
            }
            let ghost before = string_views(args@);
            args.push(text_of("-p"));
            args.push(text_of(p));
            assert(string_views(args@) =~= before + seq!["-p"@, p@]);
            Ok(())
        },
        None => Ok(()),
    }
}

/// Arguments of `cargo check` for `package`.
pub open spec fn spec_cargo_check_args(package: Option<Seq<char>>) -> Result<Seq<Seq<char>>, Seq<char>> {
    with_package(seq!["check"@, "--message-format=short"@], package)
}

pub fn cargo_check_args(package: Option<&str>) -> (r: Result<Vec<String>, String>)
    ensures
        args_match(r, spec_cargo_check_args(crate::config::document::opt_text(package))),
{
    let mut args: Vec<String> = Vec::new();
    args.push(text_of("check"));
    args.push(text_of("--message-format=short"));
    assert(string_views(args@) =~= seq!["check"@, "--message-format=short"@]);
    match add_package(&mut args, package) {
        Ok(()) => Ok(args),
        Err(e) => Err(e),
    }
}

/// Arguments of `cargo build` for `package`, in release mode when asked.
pub open spec fn spec_cargo_build_args(package: Option<Seq<char>>, release: bool) -> Result<Seq<Seq<char>>, Seq<char>> {
    with_package(
        seq!["build"@, "--message-format=short"@] + if release {
            seq!["--release"@]
        } else {
            Seq::empty()
        },
        package,
    )
}

pub fn cargo_build_args(package: Option<&str>, release: bool) -> (r: Result<Vec<String>, String>)
    ensures
        args_match(r, spec_cargo_build_args(crate::config::document::opt_text(package), release)),
{
    let mut args: Vec<String> = Vec::new();
    args.push(text_of("build"));
    args.push(text_of("--message-format=short"));
    if release {
        args.push(text_of("--release"));
        assert(string_views(args@) =~= seq!["build"@, "--message-format=short"@] + seq!["--release"@]);
    } else {
        assert(string_views(args@) =~= seq!["build"@, "--message-format=short"@] + Seq::<Seq<char>>::empty());
    }
    match add_package(&mut args, package) {
        Ok(()) => Ok(args),
        Err(e) => Err(e),
    }
}

/// Arguments of `cargo test` for `package` and `filter`; a blank package
/// name is refused first, then a blank filter.
pub open spec fn spec_cargo_test_args(filter: Option<Seq<char>>, package: Option<Seq<char>>) -> Result<
    Seq<Seq<char>>,
    Seq<char>,
> {
    match with_package(seq!["test"@], package) {
        Err(e) => Err(e),
        Ok(a) => match filter {
            Some(f) => if trim(f).len() == 0 {
                Err("filter must not be empty"@)
            } else {
                Ok(a + seq![f] + seq!["--"@, "--nocapture"@])
            },
            None => Ok(a + seq!["--"@, "--nocapture"@]),
        },
    }
}

pub fn cargo_test_args(filter: Option<&str>, package: Option<&str>) -> (r: Result<Vec<String>, String>)
    ensures
        args_match(
            r,
            spec_cargo_test_args(crate::config::document::opt_text(filter), crate::config::document::opt_text(package)),
        ),
{
    let mut args: Vec<String> = Vec::new();
    args.push(text_of("test"));
    assert(string_views(args@) =~= seq!["test"@]);
    match add_package(&mut args, package) {
        Ok(()) => {},
        Err(e) => {
            return Err(e);
        },
    }
    let ghost a = string_views(args@);
    match filter {
        Some(f) => {
            if trim_chars(str_chars(f).as_slice()).len() == 0 {
                return Err(text_of("filter must not be empty"));
            }
            args.push(text_of(f));
        },
        None => {},
    }
    let ghost b = string_views(args@);
    args.push(text_of("--"));
    args.push(text_of("--nocapture"));
    assert(string_views(args@) =~= b + seq!["--"@, "--nocapture"@]);
    proof {
        if filter is Some {
            assert(b =~= a + seq![filter->0@]);
        } else {
            assert(b =~= a);
        }
    }
    Ok(args)
}

/// Arguments of `gh issue list` with at most `limit` issues, filtered by
/// label and milestone when given.
pub open spec fn spec_issue_list_args(limit: u32, label: Option<Seq<char>>, milestone: Option<Seq<char>>) -> Seq<
    Seq<char>,
> {
    seq!["issue"@, "list"@, "--json"@, "number,title,state,labels,milestone"@, "--limit"@, decimal(limit as nat)]
        + match label {
        Some(l) => seq!["--label"@, l],
        None => Seq::empty(),
    } + match milestone {
        Some(m) => seq!["--milestone"@, m],
        None => Seq::empty(),
    }
}

fn push_pair(args: &mut Vec<String>, flag: &str, value: Option<&str>)
    ensures
        string_views(final(args)@) == string_views(old(args)@) + match value {
            Some(v) => seq![flag@, v@],
            None => Seq::<Seq<char>>::empty(),
        },
{
    let ghost before = string_views(args@);
    match value {
        Some(v) => {
            args.push(text_of(flag));
            args.push(text_of(v));
            assert(string_views(args@) =~= before + seq![flag@, v@]);
        },
        None => {
            assert(string_views(args@) =~= before + Seq::<Seq<char>>::empty());
        },
    }
}

pub fn github_issue_list_args(limit: u32, label: Option<&str>, milestone: Option<&str>) -> (r: Vec<String>)
    ensures
        string_views(r@) == spec_issue_list_args(
            limit,
            crate::config::document::opt_text(label),
            crate::config::document::opt_text(milestone),
        ),
{
    let mut args: Vec<String> = Vec::new();
    args.push(text_of("issue"));
    args.push(text_of("list"));
    args.push(text_of("--json"));
    args.push(text_of("number,title,state,labels,milestone"));
    args.push(text_of("--limit"));
    args.push(crate::text::decimal_string(limit as u64));
    push_pair(&mut args, "--label", label);
    push_pair(&mut args, "--milestone", milestone);
    args
}

/// Arguments of `gh pr list` with at most `limit` pull requests, filtered
/// by base branch when given.
pub open spec fn spec_pr_list_args(limit: u32, base: Option<Seq<char>>) -> Seq<Seq<char>> {
    seq!["pr"@, "list"@, "--json"@, "number,title,state,headRefName,baseRefName"@, "--limit"@, decimal(limit as nat)]
        + match base {
        Some(b) => seq!["--base"@, b],
        None => Seq::empty(),
    }
}

pub fn github_pr_list_args(limit: u32, base: Option<&str>) -> (r: Vec<String>)
    ensures
        string_views(r@) == spec_pr_list_args(limit, crate::config::document::opt_text(base)),
{
    let mut args: Vec<String> = Vec::new();
    args.push(text_of("pr"));
    args.push(text_of("list"));
    args.push(text_of("--json"));
    args.push(text_of("number,title,state,headRefName,baseRefName"));
    args.push(text_of("--limit"));
    args.push(crate::text::decimal_string(limit as u64));
    push_pair(&mut args, "--base", base);
    args
}

/// One line of project context from a git command: its trimmed output, or
/// `empty` when it printed nothing; `failure` with the error output when it
/// failed; a note when git could not be run.
pub open spec fn spec_git_info_line(outcome: CommandOutcome, empty: Seq<char>, failure: Seq<char>) -> Seq<char> {
    match outcome {
        CommandOutcome::Ran(out) => if out.success {
            if trim(out.stdout@).len() == 0 {
                empty
            } else {
                trim(out.stdout@)
            }
        } else {
            failure + ": "@ + trim(out.stderr@)
        },
        CommandOutcome::SpawnFailed(e) => "git not available: "@ + e@,
    }
}

fn git_info_line(outcome: &CommandOutcome, empty: &str, failure: &str) -> (r: String)
    ensures
        r@ == spec_git_info_line(*outcome, empty@, failure@),
{
    match outcome {
        CommandOutcome::Ran(out) => {
            if out.success {
                let t = trim_chars(str_chars(out.stdout.as_str()).as_slice());
                if t.len() == 0 {
                    text_of(empty)
                } else {
                    string_from_chars(t.as_slice())
                }
            } else {
                let mut s = text_of(failure);
                push_str(&mut s, ": ");
                let t = trim_chars(str_chars(out.stderr.as_str()).as_slice());
                push_chars(&mut s, t.as_slice());
                s
            }
        },
        CommandOutcome::SpawnFailed(e) => {
            let mut s = text_of("git not available: ");
            push_str(&mut s, e.as_str());
            s
        },
    }
}

/// The current branch from `git branch --show-current`.
pub fn current_branch_line(outcome: &CommandOutcome) -> (r: String)
    ensures
        r@ == spec_git_info_line(*outcome, "(detached HEAD)"@, "Unable to read branch"@),
{
    git_info_line(outcome, "(detached HEAD)", "Unable to read branch")
}

/// The recent commits from `git log --oneline -10`.
pub fn recent_commits_line(outcome: &CommandOutcome) -> (r: String)
    ensures
        r@ == spec_git_info_line(*outcome, "(no commits)"@, "Unable to read commits"@),
{
    git_info_line(outcome, "(no commits)", "Unable to read commits")
}

/// A line of a directory listing: indented two spaces per level below the
/// first, directories marked with a slash.
pub open spec fn spec_entry_line(depth: nat, name: Seq<char>, is_dir: bool) -> Seq<char> {
    Seq::new((if depth > 0 { 2 * (depth - 1) } else { 0 }) as nat, |i: int| ' ') + name + if is_dir {
        "/"@
    } else {
        Seq::empty()
    }
}

pub fn directory_entry_line(depth: usize, name: &str, is_dir: bool) -> (r: String)
    ensures
        r@ == spec_entry_line(depth as nat, name@, is_dir),
{
    let levels: usize = if depth > 0 { depth - 1 } else { 0 };
    let mut out = String::new();
    let mut i: usize = 0;
    while i < levels
        invariant
            i <= levels,
            levels == if depth > 0 { depth - 1 } else { 0 },
            out@ == Seq::new((2 * i) as nat, |k: int| ' '),
        decreases levels - i,
    {
        crate::text::push_char(&mut out, ' ');
        crate::text::push_char(&mut out, ' ');
        assert(out@ =~= Seq::new((2 * (i + 1)) as nat, |k: int| ' '));
        i = i + 1;
    }
    push_str(&mut out, name);
    if is_dir {
        push_str(&mut out, "/");
    }
    out
}

/// A key file of the project as read for its context.
#[derive(Debug, PartialEq, Eq)]
pub enum KeyFile {
    /// There is no such file.
    Missing,
    /// It could not be read; the system's message.
    Unreadable(String),
    /// Its text.
    Text(String),
}

/// Lines of a key file shown in the project context.
pub const PROJECT_CONTEXT_FILE_PREVIEW_LINES: usize = 20;

/// The section of the project context for one key file: its first lines,
/// or a note that it is missing or unreadable.
pub open spec fn spec_key_file_section(name: Seq<char>, file: KeyFile) -> Seq<char> {
    "\n### "@ + name + seq!['\n'] + match file {
        KeyFile::Missing => "(not present)\n"@,
        KeyFile::Unreadable(e) => "(unable to read: "@ + e@ + ")\n"@,
        KeyFile::Text(t) => {
            let p = spec_first_n_lines(t@, PROJECT_CONTEXT_FILE_PREVIEW_LINES as nat);
            if p.len() > 0 && p.last() == '\n' {
                p
            } else {
                p.push('\n')
            }
        },
    }
}

pub fn key_file_section(name: &str, file: &KeyFile) -> (r: String)
    ensures
        r@ == spec_key_file_section(name@, *file),
{
    let mut out = text_of("\n### ");
    push_str(&mut out, name);
    crate::text::push_char(&mut out, '\n');
    match file {
        KeyFile::Missing => push_str(&mut out, "(not present)\n"),
        KeyFile::Unreadable(e) => {
            push_str(&mut out, "(unable to read: ");
            push_str(&mut out, e.as_str());
            push_str(&mut out, ")\n");
        },
        KeyFile::Text(t) => {
            let p = first_n_lines(t.as_str(), PROJECT_CONTEXT_FILE_PREVIEW_LINES);
            let pv = str_chars(p.as_str());
            push_str(&mut out, p.as_str());
            if !(pv.len() > 0 && pv[pv.len() - 1] == '\n') {
                crate::text::push_char(&mut out, '\n');
            }
        },
    }
    out
}

/// The project context the agent asks for: branch, recent commits, the
/// directory listing (or why there is none), then the key-file sections,
/// without trailing whitespace.
pub open spec fn spec_project_context(
    branch: Seq<char>,
    commits: Seq<char>,
    listing: Result<Seq<Seq<char>>, Seq<char>>,
    sections: Seq<Seq<char>>,
) -> Seq<char> {
    trim_end(
        "Project context\n\n## Branch\n"@ + branch + seq!['\n'] + "\n## Recent commits\n"@ + commits + seq!['\n']
            + "\n## Directory structure\n"@ + match listing {
            Ok(ls) => if ls.len() == 0 {
                "(empty directory)\n"@
            } else {
                join(ls, "\n"@) + seq!['\n']
            },
            Err(m) => m + seq!['\n'],
        } + "\n## Key files\n"@ + join(sections, ""@),
    )
}

pub fn project_context_text(
    branch: &str,
    commits: &str,
    listing: &Result<Vec<String>, String>,
    sections: &Vec<String>,
) -> (r: String)
    ensures
        r@ == spec_project_context(
            branch@,
            commits@,
            match listing {
                Ok(ls) => Ok::<Seq<Seq<char>>, Seq<char>>(string_views(ls@)),
                Err(m) => Err::<Seq<Seq<char>>, Seq<char>>(m@),
            },
            string_views(sections@),
        ),
{
    let ghost lv = match listing {
        Ok(ls) => Ok::<Seq<Seq<char>>, Seq<char>>(string_views(ls@)),
        Err(m) => Err::<Seq<Seq<char>>, Seq<char>>(m@),
    };
    let mut out = text_of("Project context\n\n## Branch\n");
    push_str(&mut out, branch);
    crate::text::push_char(&mut out, '\n');
    push_str(&mut out, "\n## Recent commits\n");
    push_str(&mut out, commits);
    crate::text::push_char(&mut out, '\n');
    push_str(&mut out, "\n## Directory structure\n");
    match listing {
        Ok(ls) => {
            if ls.len() == 0 {
                push_str(&mut out, "(empty directory)\n");
            } else {
                let j = join_strings(ls, "\n");
                push_str(&mut out, j.as_str());
                crate::text::push_char(&mut out, '\n');
            }
        },
        Err(m) => {
            push_str(&mut out, m.as_str());
            crate::text::push_char(&mut out, '\n');
        },
    }
    let ghost mid = out@;
    assert(mid =~= "Project context\n\n## Branch\n"@ + branch@ + seq!['\n'] + "\n## Recent commits\n"@ + commits@
        + seq!['\n'] + "\n## Directory structure\n"@ + match lv {
        Ok(ls) => if ls.len() == 0 {
            "(empty directory)\n"@
        } else {
            join(ls, "\n"@) + seq!['\n']
        },
        Err(m) => m + seq!['\n'],
    });
    push_str(&mut out, "\n## Key files\n");
    let all = join_strings(sections, "");
    push_str(&mut out, all.as_str());
    assert(out@ =~= mid + "\n## Key files\n"@ + join(string_views(sections@), ""@));
    let t = trim_end_chars(str_chars(out.as_str()).as_slice());
    string_from_chars(t.as_slice())
}

} // verus!
