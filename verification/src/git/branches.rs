//! Local branches and the detail shown for one.
use vstd::prelude::*;

use super::patch::{lex_lt, path_lt};
use crate::text::{
    all_digits, decimal, decimal_string, digits_value, law_decimal_reads_back, push_line, push_str, string_views,
};

verus! {

#[derive(Debug, Clone, PartialEq, Eq)]
pub struct BranchEntry {
    pub name: String,
    pub is_current: bool,
}

#[derive(Debug, Clone, PartialEq, Eq)]
pub struct BranchDetail {
    pub name: String,
    pub is_current: bool,
    pub tip_sha: String,
    pub tip_subject: String,
    pub tip_author: String,
    pub tip_date: String,
}

/// Lines of the branch detail: name and status, the upstream counts for
/// the current branch when it has diverged, then the tip commit.
pub open spec fn spec_branch_lines(d: BranchDetail, ahead: u32, behind: u32) -> Seq<Seq<char>> {
    let head = seq![
        "Branch: "@ + d.name@,
        if d.is_current { "Status: current branch"@ } else { "Status: local branch"@ },
    ];
    let upstream = if d.is_current && (ahead > 0 || behind > 0) {
        seq!["Upstream: \u{2191}"@ + decimal(ahead as nat) + " \u{2193}"@ + decimal(behind as nat)]
    } else {
        Seq::empty()
    };
    head + upstream + seq![
        Seq::empty(),
        "Tip: "@ + d.tip_sha@,
        d.tip_subject@,
        "Author: "@ + d.tip_author@,
        "Date: "@ + d.tip_date@,
    ]
}

fn labelled(label: &str, value: &str) -> (r: String)
    ensures
        r@ == label@ + value@,
{
    let mut s = String::new();
    push_str(&mut s, label);
    push_str(&mut s, value);
    s
}

impl BranchDetail {
    pub fn display_lines(&self, ahead: u32, behind: u32) -> (r: Vec<String>)
        ensures
            string_views(r@) == spec_branch_lines(*self, ahead, behind),
    {
        let mut lines: Vec<String> = Vec::new();
        push_line(&mut lines, labelled("Branch: ", self.name.as_str()));
        if self.is_current {
            push_line(&mut lines, labelled("Status: current branch", ""));
        } else {
            push_line(&mut lines, labelled("Status: local branch", ""));
        }
        if self.is_current && (ahead > 0 || behind > 0) {
            let mut s = labelled("Upstream: \u{2191}", decimal_string(ahead as u64).as_str());
            push_str(&mut s, " \u{2193}");
            push_str(&mut s, decimal_string(behind as u64).as_str());
            push_line(&mut lines, s);
        }
        push_line(&mut lines, String::new());
        push_line(&mut lines, labelled("Tip: ", self.tip_sha.as_str()));
        push_line(&mut lines, labelled("", self.tip_subject.as_str()));
        push_line(&mut lines, labelled("Author: ", self.tip_author.as_str()));
        push_line(&mut lines, labelled("Date: ", self.tip_date.as_str()));
        proof {
            reveal_strlit("");
        }
        assert(string_views(lines@) =~= spec_branch_lines(*self, ahead, behind));
        lines
    }
}

/// `a` is listed before `b`: the current branch first, then by name.
pub open spec fn branch_before(a: BranchEntry, b: BranchEntry) -> bool {
    (a.is_current && !b.is_current) || (a.is_current == b.is_current && lex_lt(a.name@, b.name@))
}

/// No branch is listed after one that should follow it.
pub open spec fn branches_sorted(s: Seq<BranchEntry>) -> bool {
    forall|i: int, j: int| 0 <= i < j < s.len() ==> !branch_before(#[trigger] s[j], #[trigger] s[i])
}

pub(crate) proof fn lemma_lex_irreflexive(a: Seq<char>)
    ensures
        !lex_lt(a, a),
    decreases a.len(),
{
    if a.len() > 0 {
        lemma_lex_irreflexive(a.drop_first());
    }
}

proof fn lemma_lex_asymmetric(a: Seq<char>, b: Seq<char>)
    ensures
        lex_lt(a, b) ==> !lex_lt(b, a),
    decreases a.len(),
{
    if a.len() > 0 && b.len() > 0 && a[0] == b[0] {
        lemma_lex_asymmetric(a.drop_first(), b.drop_first());
    }
}

pub(crate) proof fn lemma_lex_transitive(a: Seq<char>, b: Seq<char>, c: Seq<char>)
    ensures
        lex_lt(a, b) && lex_lt(b, c) ==> lex_lt(a, c),
    decreases a.len(),
{
    if a.len() > 0 && b.len() > 0 && c.len() > 0 {
        lemma_lex_transitive(a.drop_first(), b.drop_first(), c.drop_first());
    }
}

proof fn lemma_lex_total(a: Seq<char>, b: Seq<char>)
    ensures
        !lex_lt(a, b) && !lex_lt(b, a) ==> a == b,
    decreases a.len(),
{
    if a.len() > 0 && b.len() > 0 {
        lemma_lex_total(a.drop_first(), b.drop_first());
        if a[0] == b[0] && a.drop_first() == b.drop_first() {
            assert(a =~= seq![a[0]] + a.drop_first());
            assert(b =~= seq![b[0]] + b.drop_first());
        }
    } else if a.len() == 0 && b.len() == 0 {
        assert(a =~= b);
    }
}

/// Listing order is a strict order, total up to equal names and flags.
proof fn lemma_branch_order(a: BranchEntry, b: BranchEntry, c: BranchEntry)
    ensures
        !branch_before(a, a),
        branch_before(a, b) ==> !branch_before(b, a),
        branch_before(a, b) && branch_before(b, c) ==> branch_before(a, c),
        !branch_before(a, b) && !branch_before(b, a) ==> a.is_current == b.is_current && a.name@ == b.name@,
{
    lemma_lex_irreflexive(a.name@);
    lemma_lex_asymmetric(a.name@, b.name@);
    lemma_lex_transitive(a.name@, b.name@, c.name@);
    lemma_lex_total(a.name@, b.name@);
}

fn entry_before(a: &BranchEntry, b: &BranchEntry) -> (r: bool)
    ensures
        r == branch_before(*a, *b),
{
    if a.is_current != b.is_current {
        a.is_current
    } else {
        path_lt(a.name.as_str(), b.name.as_str())
    }
}

/// Orders branches for listing: the current branch first, then by name.
pub fn sort_branch_entries(entries: &mut Vec<BranchEntry>)
    ensures
        final(entries)@.to_multiset() == old(entries)@.to_multiset(),
        branches_sorted(final(entries)@),
{
    broadcast use vstd::seq_lib::group_to_multiset_ensures, vstd::multiset::group_multiset_axioms,
        vstd::multiset::group_multiset_properties;

    let mut sorted: Vec<BranchEntry> = Vec::new();
    let ghost orig = entries@;
    assert(orig.to_multiset() =~= sorted@.to_multiset().add(entries@.to_multiset())) by {
        assert(sorted@.to_multiset() =~= vstd::multiset::Multiset::empty());
    }
    while entries.len() > 0
        invariant
            orig.to_multiset() == sorted@.to_multiset().add(entries@.to_multiset()),
            branches_sorted(sorted@),
        decreases entries@.len(),
    {
        let ghost before_rest = entries@;
        let x = entries.remove(0);
        let ghost t = sorted@;
        let mut k: usize = 0;
        while k < sorted.len() && !entry_before(&x, &sorted[k])
            invariant
                k <= sorted@.len(),
                t == sorted@,
                forall|m: int| 0 <= m < k ==> !branch_before(x, #[trigger] t[m]),
            decreases sorted.len() - k,
        {
            k = k + 1;
        }
        sorted.insert(k, x);
        proof {
            let r = sorted@;
            assert(r =~= t.insert(k as int, x));
            assert forall|i: int, j: int| 0 <= i < j < r.len() implies !branch_before(#[trigger] r[j], #[trigger] r[i]) by {
                if j < k {
                    assert(r[i] == t[i] && r[j] == t[j]);
                } else if j == k {
                    assert(r[i] == t[i]);
                } else if i < k {
                    assert(r[i] == t[i] && r[j] == t[j - 1]);
                } else if i == k {
                    assert(r[j] == t[j - 1]);
                    assert(branch_before(x, t[k as int]));
                    lemma_branch_order(x, t[k as int], t[j - 1]);
                    lemma_branch_order(t[j - 1], t[k as int], x);
                    lemma_branch_order(t[k as int], t[j - 1], x);
                    if k as int == j - 1 {
                    } else {
                        assert(!branch_before(t[j - 1], t[k as int]));
                    }
                    lemma_branch_order(t[j - 1], x, t[k as int]);
                } else {
                    assert(r[i] == t[i - 1] && r[j] == t[j - 1]);
                }
            }
            assert(before_rest.remove(0) == entries@);
            assert(before_rest[0] == x);
            assert(before_rest.contains(x));
            vstd::seq_lib::to_multiset_contains(before_rest, x);
            vstd::seq_lib::to_multiset_remove(before_rest, 0);
            assert(before_rest.to_multiset().count(x) > 0);
            assert(before_rest.remove(0).to_multiset() == before_rest.to_multiset().remove(x));
            vstd::seq_lib::to_multiset_insert(t, k as int, x);
            assert(t.insert(k as int, x).to_multiset() == t.to_multiset().insert(x));
            assert(entries@.to_multiset().insert(x) =~= before_rest.to_multiset());
            assert(orig.to_multiset() =~= sorted@.to_multiset().add(entries@.to_multiset()));
        }
    }
    assert(entries@.to_multiset() =~= vstd::multiset::Multiset::empty());
    *entries = sorted;
}

/// For the current branch out of step with its upstream, the third line
/// gives the commits ahead right after the up arrow and the commits behind
/// right after the down arrow; any other branch, or one in step, has no
/// upstream line and the blank line comes third.
pub proof fn law_upstream_line_counts(d: BranchDetail, ahead: u32, behind: u32)
    ensures
        d.is_current && (ahead > 0 || behind > 0) ==> {
            &&& spec_branch_lines(d, ahead, behind).len() == 8
            &&& spec_branch_lines(d, ahead, behind)[2] == "Upstream: \u{2191}"@ + decimal(ahead as nat) + " \u{2193}"@
                + decimal(behind as nat)
        },
        !(d.is_current && (ahead > 0 || behind > 0)) ==> {
            &&& spec_branch_lines(d, ahead, behind).len() == 7
            &&& spec_branch_lines(d, ahead, behind)[2] == Seq::<char>::empty()
        },
{
}


/// On the upstream line of the current branch, the digits right after the
/// up arrow read as the commits ahead and the digits right after the down
/// arrow read as the commits behind.
pub proof fn law_upstream_line_reads_counts(d: BranchDetail, ahead: u32, behind: u32)
    requires
        d.is_current,
        ahead > 0 || behind > 0,
    ensures
        exists|a: Seq<char>, b: Seq<char>|
            #![trigger digits_value(a), digits_value(b)]
            spec_branch_lines(d, ahead, behind)[2] == "Upstream: \u{2191}"@ + a + " \u{2193}"@ + b && all_digits(a)
                && digits_value(a) == ahead && all_digits(b) && digits_value(b) == behind,
{
    law_upstream_line_counts(d, ahead, behind);
    law_decimal_reads_back(ahead as nat);
    law_decimal_reads_back(behind as nat);
    let a = decimal(ahead as nat);
    let b = decimal(behind as nat);
    assert(digits_value(a) == ahead && digits_value(b) == behind);
}

} // verus!
