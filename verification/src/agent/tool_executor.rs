//! What the local tool runner reports back to the agent: path checks, and
//! the text made of command output.
use vstd::prelude::*;

use crate::path::spec_path_join;
use crate::text::{
    is_suffix, chars_ends_with, slice_sub,
    chars_contains_seq, chars_starts_with, has_sub, is_prefix, parse_usize, parse_usize_chars, is_blank,
    decimal, decimal_string, join, join_strings, lines, push_str, split_chars, split_lines, split_pieces,
    str_chars, string_from_chars, string_views, trim, trim_chars, trim_end, lemma_split_pieces_len,
};

verus! {

/// Result of running a tool.
#[derive(Debug, PartialEq, Eq)]
pub enum ExecutionResult {
    /// The tool finished; its text goes back to the model.
    Done { content: String, is_error: bool },
    /// The command is to be run in the terminal pane instead.
    ShellRun { command: String },
}

fn owned(s: &str) -> (r: String)
    ensures
        r@ == s@,
{
    let mut o = String::new();
    push_str(&mut o, s);
    o
}

/// A relative path may not be absolute nor climb out with `..`.
pub open spec fn spec_safe_join(root: Seq<char>, relative: Seq<char>) -> Result<Seq<char>, Seq<char>> {
    if relative.len() > 0 && relative[0] == '/' {
        Err("absolute paths are not allowed"@)
    } else if split_pieces(relative, '/').contains(".."@) {
        Err("path traversal ('..') is not allowed"@)
    } else {
        Ok(spec_path_join(root, relative))
    }
}

/// Joins `relative` under `repo_root`, refusing absolute paths and `..`.
pub fn safe_join(repo_root: &str, relative: &str) -> (r: Result<String, String>)
    ensures
        match r {
            Ok(p) => spec_safe_join(repo_root@, relative@) == Ok::<Seq<char>, Seq<char>>(p@),
            Err(e) => spec_safe_join(repo_root@, relative@) == Err::<Seq<char>, Seq<char>>(e@),
        },
{
    let v = str_chars(relative);
    if v.len() > 0 && v[0] == '/' {
        return Err(owned("absolute paths are not allowed"));
    }
    let pieces = split_chars(v.as_slice(), '/');
    let dots = str_chars("..");
    let mut i: usize = 0;
    while i < pieces.len()
        invariant
            i <= pieces@.len(),
            dots@ == ".."@,
            !(relative@.len() > 0 && relative@[0] == '/'),
            pieces@.len() == split_pieces(relative@, '/').len(),
            forall|k: int| 0 <= k < pieces@.len() ==> #[trigger] pieces@[k]@ == split_pieces(relative@, '/')[k],
            forall|k: int| 0 <= k < i ==> split_pieces(relative@, '/')[k] != ".."@,
        decreases pieces.len() - i,
    {
        if crate::text::chars_eq(pieces[i].as_slice(), dots.as_slice()) {
            assert(split_pieces(relative@, '/')[i as int] == ".."@);
            assert(split_pieces(relative@, '/').contains(".."@));
            return Err(owned("path traversal ('..') is not allowed"));
        }
        i = i + 1;
    }
    Ok(crate::path::path_join(repo_root, relative))
}

/// Trimmed standard output and error, one per line when both say something.
pub open spec fn spec_git_output(stdout: Seq<char>, stderr: Seq<char>) -> Seq<char> {
    let o = trim(stdout);
    let e = trim(stderr);
    if o.len() > 0 && e.len() > 0 {
        o + seq!['\n'] + e
    } else if o.len() > 0 {
        o
    } else {
        e
    }
}

pub fn format_git_output(stdout: &str, stderr: &str) -> (r: String)
    ensures
        r@ == spec_git_output(stdout@, stderr@),
{
    let o = trim_chars(str_chars(stdout).as_slice());
    let e = trim_chars(str_chars(stderr).as_slice());
    let mut out = string_from_chars(o.as_slice());
    if o.len() > 0 && e.len() > 0 {
        crate::text::push_char(&mut out, '\n');
        crate::text::push_chars(&mut out, e.as_slice());
        assert(out@ =~= trim(stdout@) + seq!['\n'] + trim(stderr@));
        out
    } else if o.len() > 0 {
        out
    } else {
        string_from_chars(e.as_slice())
    }
}

/// The first `n` lines of `content`, joined by newlines.
pub open spec fn spec_first_n_lines(content: Seq<char>, n: nat) -> Seq<char> {
    let ls = lines(content);
    join(if n < ls.len() { ls.take(n as int) } else { ls }, seq!['\n'])
}

pub fn first_n_lines(content: &str, n: usize) -> (r: String)
    ensures
        r@ == spec_first_n_lines(content@, n as nat),
{
    let ls = split_lines(str_chars(content).as_slice());
    let mut kept: Vec<String> = Vec::new();
    let mut i: usize = 0;
    let limit = if n < ls.len() { n } else { ls.len() };
    while i < limit
        invariant
            i <= limit <= ls@.len(),
            limit == if n < ls@.len() { n as int } else { ls@.len() as int },
            ls@.len() == lines(content@).len(),
            forall|k: int| 0 <= k < ls@.len() ==> #[trigger] ls@[k]@ == lines(content@)[k],
            string_views(kept@) == lines(content@).take(i as int),
        decreases limit - i,
    {
        let ghost before = string_views(kept@);
        kept.push(string_from_chars(ls[i].as_slice()));
        assert(string_views(kept@) =~= before.push(ls@[i as int]@));
        assert(lines(content@).take(i + 1) =~= lines(content@).take(i as int).push(lines(content@)[i as int]));
        i = i + 1;
    }
    proof {
        if limit == ls@.len() {
            assert(lines(content@).take(i as int) =~= lines(content@));
        }
        reveal_strlit("\n");
    }
    let r = join_strings(&kept, "\n");
    assert("\n"@ =~= seq!['\n']);
    r
}

/// A label as `gh` lists it.
#[derive(Debug, Clone, PartialEq, Eq)]
pub struct GhLabelRow {
    pub name: String,
}

/// A milestone as `gh` lists it.
#[derive(Debug, Clone, PartialEq, Eq)]
pub struct GhMilestoneRow {
    pub title: String,
}

/// An issue as `gh issue list` reports it.
#[derive(Debug, Clone, PartialEq, Eq)]
pub struct GhIssueRow {
    pub number: u32,
    pub title: String,
    pub state: String,
    pub labels: Vec<GhLabelRow>,
    pub milestone: Option<GhMilestoneRow>,
}

/// A pull request as `gh pr list` reports it.
#[derive(Debug, Clone, PartialEq, Eq)]
pub struct GhPrRow {
    pub number: u32,
    pub title: String,
    pub state: String,
    pub head_ref_name: String,
    pub base_ref_name: String,
}

/// Names of labels, in order.
pub open spec fn label_names(ls: Seq<GhLabelRow>) -> Seq<Seq<char>> {
    ls.map_values(|l: GhLabelRow| l.name@)
}

/// "`k+1`. #N [STATE] title [labels] (milestone: M)" and a newline.
pub open spec fn issue_line(k: nat, row: GhIssueRow) -> Seq<char> {
    let labels = if row.labels@.len() == 0 {
        Seq::empty()
    } else {
        " ["@ + join(label_names(row.labels@), ", "@) + "]"@
    };
    let milestone = match row.milestone {
        Some(m) => " (milestone: "@ + m.title@ + ")"@,
        None => Seq::empty(),
    };
    decimal(k + 1) + ". #"@ + decimal(row.number as nat) + " ["@ + row.state@ + "] "@ + row.title@ + labels
        + milestone + seq!['\n']
}

/// Lines of the first `n` issues.
pub open spec fn issue_lines(rows: Seq<GhIssueRow>, n: nat) -> Seq<char>
    decreases n,
{
    if n == 0 {
        Seq::empty()
    } else {
        issue_lines(rows, (n - 1) as nat) + issue_line((n - 1) as nat, rows[n - 1])
    }
}

/// The numbered issue list under a count, or a note that there is none.
pub open spec fn spec_issues_list(rows: Seq<GhIssueRow>) -> Seq<char> {
    if rows.len() == 0 {
        "No issues found."@
    } else {
        trim_end("GitHub issues ("@ + decimal(rows.len()) + "):\n"@ + issue_lines(rows, rows.len()))
    }
}

fn issue_line_exec(k: usize, row: &GhIssueRow) -> (r: String)
    requires
        k < u64::MAX,
    ensures
        r@ == issue_line(k as nat, *row),
{
    let mut s = decimal_string((k as u64) + 1);
    push_str(&mut s, ". #");
    push_str(&mut s, decimal_string(row.number as u64).as_str());
    push_str(&mut s, " [");
    push_str(&mut s, row.state.as_str());
    push_str(&mut s, "] ");
    push_str(&mut s, row.title.as_str());
    if row.labels.len() > 0 {
        let mut names: Vec<String> = Vec::new();
        let mut i: usize = 0;
        while i < row.labels.len()
            invariant
                i <= row.labels@.len(),
                string_views(names@) == label_names(row.labels@).take(i as int),
            decreases row.labels@.len() - i,
        {
            let ghost before = string_views(names@);
            let name = string_from_chars(str_chars(row.labels[i].name.as_str()).as_slice());
            assert(name@ == label_names(row.labels@)[i as int]);
            names.push(name);
            assert(string_views(names@) =~= before.push(name@));
            assert(label_names(row.labels@).take(i + 1) =~= label_names(row.labels@).take(i as int).push(
                label_names(row.labels@)[i as int],
            ));
            i = i + 1;
        }
        assert(label_names(row.labels@).take(i as int) =~= label_names(row.labels@));
        push_str(&mut s, " [");
        push_str(&mut s, join_strings(&names, ", ").as_str());
        push_str(&mut s, "]");
    }
    if let Some(m) = &row.milestone {
        push_str(&mut s, " (milestone: ");
        push_str(&mut s, m.title.as_str());
        push_str(&mut s, ")");
    }
    crate::text::push_char(&mut s, '\n');
    assert(s@ =~= issue_line(k as nat, *row));
    s
}

/// Lists issues for the model, numbered from one.
pub fn format_github_issues_list(issues: &[GhIssueRow]) -> (r: String)
    ensures
        r@ == spec_issues_list(issues@),
{
    if issues.len() == 0 {
        return owned("No issues found.");
    }
    let mut out = owned("GitHub issues (");
    push_str(&mut out, decimal_string(issues.len() as u64).as_str());
    push_str(&mut out, "):\n");
    let ghost head = out@;
    let mut i: usize = 0;
    while i < issues.len()
        invariant
            i <= issues@.len(),
            issues@.len() <= usize::MAX,
            out@ == head + issue_lines(issues@, i as nat),
        decreases issues.len() - i,
    {
        let line = issue_line_exec(i, &issues[i]);
        push_str(&mut out, line.as_str());
        i = i + 1;
        assert(out@ =~= head + issue_lines(issues@, i as nat));
    }
    let v = str_chars(out.as_str());
    string_from_chars(crate::text::trim_end_chars(v.as_slice()).as_slice())
}

/// "`k+1`. #N [STATE] title (head -> base)" and a newline.
pub open spec fn pr_line(k: nat, row: GhPrRow) -> Seq<char> {
    decimal(k + 1) + ". #"@ + decimal(row.number as nat) + " ["@ + row.state@ + "] "@ + row.title@ + " ("@
        + row.head_ref_name@ + " -> "@ + row.base_ref_name@ + ")"@ + seq!['\n']
}

/// Lines of the first `n` pull requests.
pub open spec fn pr_lines(rows: Seq<GhPrRow>, n: nat) -> Seq<char>
    decreases n,
{
    if n == 0 {
        Seq::empty()
    } else {
        pr_lines(rows, (n - 1) as nat) + pr_line((n - 1) as nat, rows[n - 1])
    }
}

/// The numbered pull-request list under a count, or a note that there is none.
pub open spec fn spec_prs_list(rows: Seq<GhPrRow>) -> Seq<char> {
    if rows.len() == 0 {
        "No pull requests found."@
    } else {
        trim_end("GitHub pull requests ("@ + decimal(rows.len()) + "):\n"@ + pr_lines(rows, rows.len()))
    }
}

/// Lists pull requests for the model, numbered from one.
pub fn format_github_prs_list(prs: &[GhPrRow]) -> (r: String)
    ensures
        r@ == spec_prs_list(prs@),
{
    if prs.len() == 0 {
        return owned("No pull requests found.");
    }
    let mut out = owned("GitHub pull requests (");
    push_str(&mut out, decimal_string(prs.len() as u64).as_str());
    push_str(&mut out, "):\n");
    let ghost head = out@;
    let mut i: usize = 0;
    while i < prs.len()
        invariant
            i <= prs@.len(),
            prs@.len() <= usize::MAX,
            out@ == head + pr_lines(prs@, i as nat),
        decreases prs.len() - i,
    {
        let row = &prs[i];
        let mut s = decimal_string((i as u64) + 1);
        push_str(&mut s, ". #");
        push_str(&mut s, decimal_string(row.number as u64).as_str());
        push_str(&mut s, " [");
        push_str(&mut s, row.state.as_str());
        push_str(&mut s, "] ");
        push_str(&mut s, row.title.as_str());
        push_str(&mut s, " (");
        push_str(&mut s, row.head_ref_name.as_str());
        push_str(&mut s, " -> ");
        push_str(&mut s, row.base_ref_name.as_str());
        push_str(&mut s, ")");
        crate::text::push_char(&mut s, '\n');
        assert(s@ =~= pr_line(i as nat, prs@[i as int]));
        push_str(&mut out, s.as_str());
        i = i + 1;
        assert(out@ =~= head + pr_lines(prs@, i as nat));
    }
    let v = str_chars(out.as_str());
    string_from_chars(crate::text::trim_end_chars(v.as_slice()).as_slice())
}

/// A compiler error line of `cargo --message-format=short`.
pub open spec fn spec_is_error_line(l: Seq<char>) -> bool {
    has_sub(l, ": error:"@) || has_sub(l, ": error["@) || is_prefix("error:"@, l)
}

/// A compiler warning line.
pub open spec fn spec_is_warning_line(l: Seq<char>) -> bool {
    has_sub(l, ": warning:"@) || is_prefix("warning:"@, l)
}

pub fn is_cargo_error_line(line: &str) -> (r: bool)
    ensures
        r == spec_is_error_line(line@),
{
    let v = str_chars(line);
    chars_contains_seq(v.as_slice(), str_chars(": error:").as_slice()) || chars_contains_seq(
        v.as_slice(),
        str_chars(": error[").as_slice(),
    ) || chars_starts_with(v.as_slice(), str_chars("error:").as_slice())
}

pub fn is_cargo_warning_line(line: &str) -> (r: bool)
    ensures
        r == spec_is_warning_line(line@),
{
    let v = str_chars(line);
    chars_contains_seq(v.as_slice(), str_chars(": warning:").as_slice()) || chars_starts_with(
        v.as_slice(),
        str_chars("warning:").as_slice(),
    )
}

/// Kind of an output line: an error, a warning, other text, or blank.
#[derive(Debug, Clone, Copy, PartialEq, Eq, Structural)]
pub enum LineKind {
    Error,
    Warning,
    Other,
    Blank,
}

pub open spec fn spec_line_kind(l: Seq<char>) -> LineKind {
    if spec_is_error_line(l) {
        LineKind::Error
    } else if spec_is_warning_line(l) {
        LineKind::Warning
    } else if trim(l).len() > 0 {
        LineKind::Other
    } else {
        LineKind::Blank
    }
}

/// The lines of kind `k`, in order.
pub open spec fn lines_of_kind(ls: Seq<Seq<char>>, k: LineKind) -> Seq<Seq<char>>
    decreases ls.len(),
{
    if ls.len() == 0 {
        Seq::empty()
    } else if spec_line_kind(ls.last()) == k {
        lines_of_kind(ls.drop_last(), k).push(ls.last())
    } else {
        lines_of_kind(ls.drop_last(), k)
    }
}

fn line_kind(line: &str) -> (r: LineKind)
    ensures
        r == spec_line_kind(line@),
{
    if is_cargo_error_line(line) {
        LineKind::Error
    } else if is_cargo_warning_line(line) {
        LineKind::Warning
    } else if !is_blank(line) {
        LineKind::Other
    } else {
        LineKind::Blank
    }
}

/// The lines of `text` sorted into errors, warnings and other text.
fn sort_lines(text: &str) -> (r: (Vec<String>, Vec<String>, Vec<String>))
    ensures
        string_views(r.0@) == lines_of_kind(lines(text@), LineKind::Error),
        string_views(r.1@) == lines_of_kind(lines(text@), LineKind::Warning),
        string_views(r.2@) == lines_of_kind(lines(text@), LineKind::Other),
{
    let ls = split_lines(str_chars(text).as_slice());
    let ghost lv = lines(text@);
    let mut errors: Vec<String> = Vec::new();
    let mut warnings: Vec<String> = Vec::new();
    let mut other: Vec<String> = Vec::new();
    let mut i: usize = 0;
    while i < ls.len()
        invariant
            i <= ls@.len(),
            lv == lines(text@),
            ls@.len() == lv.len(),
            forall|k: int| 0 <= k < ls@.len() ==> #[trigger] ls@[k]@ == lv[k],
            string_views(errors@) == lines_of_kind(lv.take(i as int), LineKind::Error),
            string_views(warnings@) == lines_of_kind(lv.take(i as int), LineKind::Warning),
            string_views(other@) == lines_of_kind(lv.take(i as int), LineKind::Other),
        decreases ls.len() - i,
    {
        proof {
            assert(lv.take(i + 1).drop_last() =~= lv.take(i as int));
            assert(lv.take(i + 1).last() == ls@[i as int]@);
        }
        let line = string_from_chars(ls[i].as_slice());
        match line_kind(line.as_str()) {
            LineKind::Error => crate::text::push_line(&mut errors, line),
            LineKind::Warning => crate::text::push_line(&mut warnings, line),
            LineKind::Other => crate::text::push_line(&mut other, line),
            LineKind::Blank => {},
        }
        i = i + 1;
    }
    assert(lv.take(i as int) =~= lv);
    (errors, warnings, other)
}

/// Numbers of error lines and of warning lines.
pub fn count_cargo_diagnostics(text: &str) -> (r: (usize, usize))
    ensures
        r.0 == lines_of_kind(lines(text@), LineKind::Error).len(),
        r.1 == lines_of_kind(lines(text@), LineKind::Warning).len(),
{
    let (errors, warnings, _) = sort_lines(text);
    (errors.len(), warnings.len())
}

/// A titled section of lines, when there are any.
pub open spec fn section(title: Seq<char>, ls: Seq<Seq<char>>) -> Seq<char> {
    if ls.len() == 0 {
        Seq::empty()
    } else {
        "\n\n--- "@ + title + " ---\n"@ + join(ls, seq!['\n'])
    }
}

fn push_section(out: &mut String, title: &str, ls: &Vec<String>)
    ensures
        final(out)@ == old(out)@ + section(title@, string_views(ls@)),
{
    if ls.len() > 0 {
        push_str(out, "\n\n--- ");
        push_str(out, title);
        push_str(out, " ---\n");
        push_str(out, join_strings(ls, "\n").as_str());
        proof {
            reveal_strlit("\n");
            assert("\n"@ =~= seq!['\n']);
        }
    } else {
        assert(old(out)@ + section(title@, string_views(ls@)) =~= old(out)@);
    }
}

/// The `cargo check` report: a verdict with the counts, then the error,
/// warning and other lines in sections.
pub open spec fn spec_cargo_check_output(raw: Seq<char>, errors: nat, warnings: nat) -> Seq<char> {
    let ls = lines(raw);
    let status = if errors > 0 {
        "finished with errors"@
    } else if warnings > 0 {
        "finished with warnings"@
    } else {
        "passed"@
    };
    "cargo check "@ + status + " ("@ + decimal(errors) + " error(s), "@ + decimal(warnings) + " warning(s))"@
        + section("errors"@, lines_of_kind(ls, LineKind::Error)) + section(
        "warnings"@,
        lines_of_kind(ls, LineKind::Warning),
    ) + section("output"@, lines_of_kind(ls, LineKind::Other))
}

pub fn format_cargo_check_output(raw: &str, error_count: usize, warning_count: usize) -> (r: String)
    ensures
        r@ == spec_cargo_check_output(raw@, error_count as nat, warning_count as nat),
{
    let (errors, warnings, other) = sort_lines(raw);
    let status = if error_count > 0 {
        "finished with errors"
    } else if warning_count > 0 {
        "finished with warnings"
    } else {
        "passed"
    };
    let mut content = owned("cargo check ");
    push_str(&mut content, status);
    push_str(&mut content, " (");
    push_str(&mut content, decimal_string(error_count as u64).as_str());
    push_str(&mut content, " error(s), ");
    push_str(&mut content, decimal_string(warning_count as u64).as_str());
    push_str(&mut content, " warning(s))");
    push_section(&mut content, "errors", &errors);
    push_section(&mut content, "warnings", &warnings);
    push_section(&mut content, "output", &other);
    assert(content@ =~= spec_cargo_check_output(raw@, error_count as nat, warning_count as nat));
    content
}

/// A part of a test summary like "3 passed" gives its count for `suffix`.
pub open spec fn summary_count(part: Seq<char>, suffix: Seq<char>) -> Option<usize> {
    let t = trim(part);
    if is_suffix(suffix, t) {
        parse_usize(t.take(t.len() - suffix.len()))
    } else {
        None
    }
}

/// The count of the first part that reads as one for `suffix`.
pub open spec fn first_count(parts: Seq<Seq<char>>, suffix: Seq<char>) -> Option<usize>
    decreases parts.len(),
{
    if parts.len() == 0 {
        None
    } else {
        match summary_count(parts[0], suffix) {
            Some(v) => Some(v),
            None => first_count(parts.drop_first(), suffix),
        }
    }
}

/// Passed and failed counts of a "test result: " line (0 when absent).
pub open spec fn spec_test_summary(line: Seq<char>) -> Option<(usize, usize)> {
    if is_prefix("test result: "@, line) {
        let parts = split_pieces(line.skip(13), ';');
        Some(
            (
                match first_count(parts, " passed"@) {
                    Some(v) => v,
                    None => 0,
                },
                match first_count(parts, " failed"@) {
                    Some(v) => v,
                    None => 0,
                },
            ),
        )
    } else {
        None
    }
}

fn count_in_parts(parts: &Vec<Vec<char>>, suffix: &str) -> (r: Option<usize>)
    ensures
        r == first_count(parts@.map_values(|p: Vec<char>| p@), suffix@),
{
    let ghost pv = parts@.map_values(|p: Vec<char>| p@);
    let sfx = str_chars(suffix);
    let mut i: usize = 0;
    assert(pv.skip(0) =~= pv);
    while i < parts.len()
        invariant
            i <= parts@.len(),
            pv == parts@.map_values(|p: Vec<char>| p@),
            sfx@ == suffix@,
            first_count(pv, suffix@) == first_count(pv.skip(i as int), suffix@),
        decreases parts.len() - i,
    {
        assert(pv.skip(i as int)[0] == parts@[i as int]@);
        assert(pv.skip(i as int).drop_first() =~= pv.skip(i + 1));
        let t = crate::text::trim_chars(parts[i].as_slice());
        if chars_ends_with(t.as_slice(), sfx.as_slice()) {
            let digits = slice_sub(t.as_slice(), 0, t.len() - sfx.len());
            assert(digits@ =~= t@.take(t@.len() - sfx@.len()));
            match parse_usize_chars(digits.as_slice()) {
                Some(v) => return Some(v),
                None => {},
            }
        }
        i = i + 1;
    }
    None
}

/// Reads the passed and failed counts of a `test result:` line.
pub fn parse_cargo_test_summary(line: &str) -> (r: Option<(usize, usize)>)
    ensures
        r == spec_test_summary(line@),
{
    let v = str_chars(line);
    let prefix = str_chars("test result: ");
    proof {
        reveal_strlit("test result: ");
    }
    if !chars_starts_with(v.as_slice(), prefix.as_slice()) {
        return None;
    }
    let rest = slice_sub(v.as_slice(), 13, v.len());
    assert(rest@ =~= line@.skip(13));
    let parts = split_chars(rest.as_slice(), ';');
    assert(parts@.map_values(|p: Vec<char>| p@) =~= split_pieces(line@.skip(13), ';'));
    let passed = match count_in_parts(&parts, " passed") {
        Some(n) => n,
        None => 0,
    };
    let failed = match count_in_parts(&parts, " failed") {
        Some(n) => n,
        None => 0,
    };
    Some((passed, failed))
}

/// The last line of `ls` that starts a test summary.
pub open spec fn last_summary(ls: Seq<Seq<char>>) -> Option<Seq<char>>
    decreases ls.len(),
{
    if ls.len() == 0 {
        None
    } else if is_prefix("test result: "@, ls.last()) {
        Some(ls.last())
    } else {
        last_summary(ls.drop_last())
    }
}

/// A failed test line.
pub open spec fn is_failure_line(l: Seq<char>) -> bool {
    is_prefix("test "@, l) && has_sub(l, " ... FAILED"@)
}

/// Other output worth showing: not a failure, not blank, not a summary.
pub open spec fn is_test_other_line(l: Seq<char>) -> bool {
    !is_failure_line(l) && trim(l).len() > 0 && !is_prefix("test result: "@, l)
}

/// The lines satisfying `failure` (else the other lines), in order.
pub open spec fn test_lines(ls: Seq<Seq<char>>, failure: bool) -> Seq<Seq<char>>
    decreases ls.len(),
{
    if ls.len() == 0 {
        Seq::empty()
    } else if (failure && is_failure_line(ls.last())) || (!failure && is_test_other_line(ls.last())) {
        test_lines(ls.drop_last(), failure).push(ls.last())
    } else {
        test_lines(ls.drop_last(), failure)
    }
}

/// The `cargo test` report: the verdict with the counts of the last
/// summary line (and that line), then failures and other output.
pub open spec fn spec_cargo_test_output(raw: Seq<char>, success: bool) -> Seq<char> {
    let ls = lines(raw);
    let summary = last_summary(ls);
    let counts = match summary {
        Some(l) => match spec_test_summary(l) {
            Some(c) => c,
            None => (0usize, 0usize),
        },
        None => (0usize, 0usize),
    };
    let status = if success { "passed"@ } else { "failed"@ };
    let head = "cargo test "@ + status + " ("@ + decimal(counts.0 as nat) + " passed, "@ + decimal(counts.1 as nat)
        + " failed)"@;
    let head = match summary {
        Some(l) => head + "\nSummary: "@ + l,
        None => head,
    };
    head + section("failures"@, test_lines(ls, true)) + section("output"@, test_lines(ls, false))
}

fn is_summary_line(l: &[char]) -> (r: bool)
    ensures
        r == is_prefix("test result: "@, l@),
{
    chars_starts_with(l, str_chars("test result: ").as_slice())
}

pub fn format_cargo_test_output(raw: &str, success: bool) -> (r: String)
    ensures
        r@ == spec_cargo_test_output(raw@, success),
{
    let ls = split_lines(str_chars(raw).as_slice());
    let ghost lv = lines(raw@);
    let mut summary: Option<String> = None;
    let mut failures: Vec<String> = Vec::new();
    let mut other: Vec<String> = Vec::new();
    let mut i: usize = 0;
    while i < ls.len()
        invariant
            i <= ls@.len(),
            lv == lines(raw@),
            ls@.len() == lv.len(),
            forall|k: int| 0 <= k < ls@.len() ==> #[trigger] ls@[k]@ == lv[k],
            match summary {
                Some(x) => last_summary(lv.take(i as int)) == Some(x@),
                None => last_summary(lv.take(i as int)) is None,
            },
            string_views(failures@) == test_lines(lv.take(i as int), true),
            string_views(other@) == test_lines(lv.take(i as int), false),
        decreases ls.len() - i,
    {
        proof {
            assert(lv.take(i + 1).drop_last() =~= lv.take(i as int));
            assert(lv.take(i + 1).last() == ls@[i as int]@);
        }
        let l = &ls[i];
        if is_summary_line(l.as_slice()) {
            summary = Some(string_from_chars(l.as_slice()));
        }
        let is_test = chars_starts_with(l.as_slice(), str_chars("test ").as_slice());
        let failed = is_test && chars_contains_seq(l.as_slice(), str_chars(" ... FAILED").as_slice());
        if failed {
            crate::text::push_line(&mut failures, string_from_chars(l.as_slice()));
        } else if trim_chars(l.as_slice()).len() > 0 && !is_summary_line(l.as_slice()) {
            crate::text::push_line(&mut other, string_from_chars(l.as_slice()));
        }
        i = i + 1;
    }
    assert(lv.take(i as int) =~= lv);
    let (passed, failed) = match &summary {
        Some(l) => match parse_cargo_test_summary(l.as_str()) {
            Some(c) => c,
            None => (0, 0),
        },
        None => (0, 0),
    };
    let mut content = owned("cargo test ");
    push_str(&mut content, if success { "passed" } else { "failed" });
    push_str(&mut content, " (");
    push_str(&mut content, decimal_string(passed as u64).as_str());
    push_str(&mut content, " passed, ");
    push_str(&mut content, decimal_string(failed as u64).as_str());
    push_str(&mut content, " failed)");
    if let Some(l) = &summary {
        push_str(&mut content, "\nSummary: ");
        push_str(&mut content, l.as_str());
    }
    push_section(&mut content, "failures", &failures);
    push_section(&mut content, "output", &other);
    assert(content@ =~= spec_cargo_test_output(raw@, success));
    content
}

} // verus!
