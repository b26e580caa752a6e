//! The issue detail view: what `gh issue view` reported, laid out as lines.
use vstd::prelude::*;

use crate::text::{
    decimal, decimal_string, join, join_strings, lemma_split_pieces_len, lines, push_char_lines, push_line,
    push_str, split_chars, split_lines, split_pieces, str_chars, string_from_chars, string_views, trim,
    trim_bounds,
};

use super::command::{failure_text, spec_failure_text};
use super::types::{IssueComment, IssueDetail, IssueState, spec_issue_state_label};

verus! {

/// An issue as `gh issue view --json` describes it, before layout.
#[derive(Debug, Clone, PartialEq, Eq)]
pub struct IssueDetailDraft {
    pub number: u32,
    pub title: String,
    pub state: IssueState,
    pub author: String,
    pub labels: Vec<String>,
    pub assignees: Vec<String>,
    pub body: String,
    pub comments: Vec<IssueComment>,
}

/// Fields `gh issue view` is asked for.
pub const ISSUE_VIEW_FIELDS: &'static str = "number,title,body,state,labels,assignees,comments,author,createdAt";

/// Lines of a body: its lines, or "(empty)" when it is blank.
pub open spec fn body_lines(body: Seq<char>) -> Seq<Seq<char>> {
    if trim(body).len() == 0 {
        seq!["(empty)"@]
    } else {
        lines(body)
    }
}

/// For each comment: a blank line, "@author · date", and its body lines.
pub open spec fn comment_lines(cs: Seq<IssueComment>) -> Seq<Seq<char>>
    decreases cs.len(),
{
    if cs.len() == 0 {
        Seq::empty()
    } else {
        let c = cs.last();
        comment_lines(cs.drop_last()) + seq![Seq::empty(), "@"@ + c.author@ + " \u{b7} "@ + c.created_at@]
            + body_lines(c.body@)
    }
}

/// Header, labels and assignees when there are any, the body, and the
/// comments.
pub open spec fn spec_display_lines(d: IssueDetailDraft) -> Seq<Seq<char>> {
    let head = seq![
        "#"@ + decimal(d.number as nat) + " "@ + d.title@,
        "State: "@ + spec_issue_state_label(d.state) + " \u{b7} Author: "@ + d.author@,
    ];
    let labels = if d.labels@.len() > 0 {
        seq!["Labels: "@ + join(string_views(d.labels@), ", "@)]
    } else {
        Seq::empty()
    };
    let assignees = if d.assignees@.len() > 0 {
        seq!["Assignees: "@ + join(string_views(d.assignees@), ", "@)]
    } else {
        Seq::empty()
    };
    let body = seq![Seq::empty(), "\u{2014} Body \u{2014}"@, Seq::empty()] + body_lines(d.body@) + seq![
        Seq::empty(),
    ];
    let comments = if d.comments@.len() == 0 {
        seq!["\u{2014} Comments \u{2014}"@, "(none)"@]
    } else {
        seq!["\u{2014} Comments ("@ + decimal(d.comments@.len()) + ") \u{2014}"@] + comment_lines(d.comments@)
    };
    head + labels + assignees + body + comments
}

fn extend_body_lines(out: &mut Vec<String>, body: &str)
    ensures
        string_views(final(out)@) == string_views(old(out)@) + body_lines(body@),
{
    let chars = str_chars(body);
    let (a, b) = trim_bounds(chars.as_slice());
    if a == b {
        let mut s = String::new();
        push_str(&mut s, "(empty)");
        push_line(out, s);
        assert(body_lines(body@) =~= seq![s@]);
        return;
    }
    let ls = split_lines(chars.as_slice());
    push_char_lines(out, &ls);
    assert(ls@.map_values(|c: Vec<char>| c@) =~= lines(body@));
}

/// Lays an issue out for the detail view.
#[verifier::rlimit(40)]
pub fn build_display_lines(detail: &IssueDetailDraft) -> (r: Vec<String>)
    ensures
        string_views(r@) == spec_display_lines(*detail),
{
    let mut out: Vec<String> = Vec::new();
    let mut l1 = String::new();
    push_str(&mut l1, "#");
    let n = decimal_string(detail.number as u64);
    push_str(&mut l1, n.as_str());
    push_str(&mut l1, " ");
    push_str(&mut l1, detail.title.as_str());
    push_line(&mut out, l1);
    let mut l2 = String::new();
    push_str(&mut l2, "State: ");
    push_str(&mut l2, detail.state.label());
    push_str(&mut l2, " \u{b7} Author: ");
    push_str(&mut l2, detail.author.as_str());
    push_line(&mut out, l2);
    let ghost after_head = string_views(out@);
    if detail.labels.len() > 0 {
        let mut l = String::new();
        push_str(&mut l, "Labels: ");
        let j = join_strings(&detail.labels, ", ");
        push_str(&mut l, j.as_str());
        push_line(&mut out, l);
    }
    if detail.assignees.len() > 0 {
        let mut l = String::new();
        push_str(&mut l, "Assignees: ");
        let j = join_strings(&detail.assignees, ", ");
        push_str(&mut l, j.as_str());
        push_line(&mut out, l);
    }
    let ghost after_people = string_views(out@);
    push_line(&mut out, String::new());
    let mut b = String::new();
    push_str(&mut b, "\u{2014} Body \u{2014}");
    push_line(&mut out, b);
    push_line(&mut out, String::new());
    extend_body_lines(&mut out, detail.body.as_str());
    push_line(&mut out, String::new());
    let ghost after_body = string_views(out@);
    if detail.comments.len() == 0 {
        let mut c = String::new();
        push_str(&mut c, "\u{2014} Comments \u{2014}");
        push_line(&mut out, c);
        let mut none = String::new();
        push_str(&mut none, "(none)");
        push_line(&mut out, none);
    } else {
        let mut c = String::new();
        push_str(&mut c, "\u{2014} Comments (");
        let k = decimal_string(detail.comments.len() as u64);
        push_str(&mut c, k.as_str());
        push_str(&mut c, ") \u{2014}");
        push_line(&mut out, c);
        let ghost before_comments = string_views(out@);
        let mut i: usize = 0;
        while i < detail.comments.len()
            invariant
                i <= detail.comments@.len(),
                string_views(out@) == before_comments + comment_lines(detail.comments@.take(i as int)),
            decreases detail.comments@.len() - i,
        {
            let comment = &detail.comments[i];
            push_line(&mut out, String::new());
            let mut h = String::new();
            push_str(&mut h, "@");
            push_str(&mut h, comment.author.as_str());
            push_str(&mut h, " \u{b7} ");
            push_str(&mut h, comment.created_at.as_str());
            push_line(&mut out, h);
            extend_body_lines(&mut out, comment.body.as_str());
            proof {
                assert(detail.comments@.take(i + 1).drop_last() =~= detail.comments@.take(i as int));
                assert(detail.comments@.take(i + 1).last() == detail.comments@[i as int]);
            }
            i = i + 1;
            assert(string_views(out@) =~= before_comments + comment_lines(detail.comments@.take(i as int)));
        }
        assert(detail.comments@.take(i as int) =~= detail.comments@);
    }
    assert(string_views(out@) =~= spec_display_lines(*detail));
    out
}

/// The date part of an ISO timestamp: what precedes the first `T`.
pub open spec fn spec_comment_date(raw: Seq<char>) -> Seq<char> {
    split_pieces(raw, 'T')[0]
}

pub fn format_comment_date(raw: &str) -> (r: String)
    ensures
        r@ == spec_comment_date(raw@),
{
    let chars = str_chars(raw);
    let pieces = split_chars(chars.as_slice(), 'T');
    proof {
        lemma_split_pieces_len(chars@, 'T');
    }
    string_from_chars(pieces[0].as_slice())
}

/// Error text of a failed `gh issue view`.
pub fn format_issue_detail_failure(stderr: &str, stdout: &str) -> (r: String)
    ensures
        r@ == spec_failure_text(stderr@, stdout@, "gh issue view failed"@),
{
    failure_text(stderr, stdout, "gh issue view failed")
}

/// Arguments of `gh` that describe issue `number` as JSON.
pub fn issue_view_args(number: u32) -> (r: Vec<String>)
    ensures
        string_views(r@) == seq!["issue"@, "view"@, decimal(number as nat), "--json"@, ISSUE_VIEW_FIELDS@],
{
    let mut args: Vec<String> = Vec::new();
    let mut a = String::new();
    push_str(&mut a, "issue");
    push_line(&mut args, a);
    let mut v = String::new();
    push_str(&mut v, "view");
    push_line(&mut args, v);
    push_line(&mut args, decimal_string(number as u64));
    let mut j = String::new();
    push_str(&mut j, "--json");
    push_line(&mut args, j);
    let mut f = String::new();
    push_str(&mut f, ISSUE_VIEW_FIELDS);
    push_line(&mut args, f);
    args
}

/// The detail record of a draft: its fields and its laid-out lines.
pub fn issue_detail_from_draft(draft: IssueDetailDraft) -> (r: IssueDetail)
    ensures
        r.number == draft.number,
        r.title == draft.title,
        r.state == draft.state,
        r.author == draft.author,
        r.labels == draft.labels,
        r.assignees == draft.assignees,
        r.body == Some(draft.body),
        string_views(r.display_lines@) == spec_display_lines(draft),
{
    let display_lines = build_display_lines(&draft);
    IssueDetail {
        number: draft.number,
        title: draft.title,
        state: draft.state,
        author: draft.author,
        labels: draft.labels,
        assignees: draft.assignees,
        body: Some(draft.body),
        display_lines,
    }
}

} // verus!
