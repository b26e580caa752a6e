//! What the file tools make of a file's text: a unique-match patch, and a
//! numbered line range. Reading and writing the file is the application's.
use vstd::prelude::*;

use super::tool_executor::ExecutionResult;
use crate::text::{
    chars_occur_at, decimal, join, join_strings, lines, occurs_at, push_char, push_decimal, push_str,
    split_lines, str_chars, string_from_chars, string_views,
};

verus! {

/// Non-overlapping occurrences of a non-empty `p` in `s` from position `i`,
/// taken leftmost first.
pub open spec fn count_from(s: Seq<char>, p: Seq<char>, i: int) -> nat
    decreases s.len() - i,
{
    if i < 0 || p.len() == 0 || i + p.len() > s.len() {
        0
    } else if occurs_at(s, p, i) {
        1 + count_from(s, p, i + p.len())
    } else {
        count_from(s, p, i + 1)
    }
}

/// First position at or after `i` where `p` occurs, or -1.
pub open spec fn first_from(s: Seq<char>, p: Seq<char>, i: int) -> int
    decreases s.len() - i,
{
    if i < 0 || i >= s.len() || i + p.len() > s.len() {
        -1
    } else if occurs_at(s, p, i) {
        i
    } else {
        first_from(s, p, i + 1)
    }
}

/// How many times `str::match_indices` finds `p` in `s`: an empty pattern
/// matches at every character boundary.
pub open spec fn spec_match_count(s: Seq<char>, p: Seq<char>) -> nat {
    if p.len() == 0 {
        s.len() + 1
    } else {
        count_from(s, p, 0)
    }
}

/// Where the first match starts.
pub open spec fn spec_first_match(s: Seq<char>, p: Seq<char>) -> int {
    if p.len() == 0 {
        0
    } else {
        first_from(s, p, 0)
    }
}

/// Occurrences of the character `c` in `s`.
pub open spec fn count_char(s: Seq<char>, c: char) -> nat
    decreases s.len(),
{
    if s.len() == 0 {
        0
    } else {
        count_char(s.drop_last(), c) + if s.last() == c {
            1nat
        } else {
            0nat
        }
    }
}

/// What to do with a file for `file.patch`.
#[derive(Debug, PartialEq, Eq)]
pub enum PatchPlan {
    /// Write `updated` back; report `message` once written.
    Write { updated: String, message: String },
    /// Leave the file alone and report this error.
    Refuse(String),
}

/// The plan for replacing `old` by `new` in the text `s` of file `path`:
/// only a match that occurs exactly once is replaced.
pub open spec fn patch_plan(path: Seq<char>, s: Seq<char>, old: Seq<char>, new: Seq<char>, r: PatchPlan) -> bool {
    let n = spec_match_count(s, old);
    if n == 0 {
        r matches PatchPlan::Refuse(m) && m@ == "old_str not found in '"@ + path
            + "'. Re-read the file to get the exact text to replace."@
    } else if n == 1 {
        let i = spec_first_match(s, old);
        r matches PatchPlan::Write { updated, message } && updated@ == s.take(i) + new + s.skip(i + old.len())
            && message@ == "Patched '"@ + path + "' at line "@ + decimal(count_char(s.take(i), '\n') + 1)
            + "."@
    } else {
        r matches PatchPlan::Refuse(m) && m@ == "old_str matches "@ + decimal(n) + " times in '"@ + path
            + "'. Include more surrounding context to make it unique."@
    }
}

proof fn lemma_first_count(s: Seq<char>, p: Seq<char>, i: int)
    requires
        p.len() > 0,
        0 <= i,
    ensures
        count_from(s, p, i) == 0 <==> first_from(s, p, i) == -1,
        first_from(s, p, i) != -1 ==> i <= first_from(s, p, i) && occurs_at(s, p, first_from(s, p, i)),
    decreases s.len() - i,
{
    if i + p.len() <= s.len() && !occurs_at(s, p, i) {
        lemma_first_count(s, p, i + 1);
    }
}

fn owned(s: &str) -> (r: String)
    ensures
        r@ == s@,
{
    let mut o = String::new();
    push_str(&mut o, s);
    o
}

fn newlines_before(v: &Vec<char>, end: usize) -> (r: usize)
    requires
        end <= v@.len(),
    ensures
        r == count_char(v@.take(end as int), '\n'),
        r <= end,
{
    let mut i: usize = 0;
    let mut n: usize = 0;
    assert(v@.take(0) =~= Seq::<char>::empty());
    while i < end
        invariant
            i <= end <= v@.len(),
            n == count_char(v@.take(i as int), '\n'),
            n <= i,
        decreases end - i,
    {
        assert(v@.take(i + 1).drop_last() =~= v@.take(i as int));
        if v[i] == '\n' {
            n = n + 1;
        }
        i = i + 1;
    }
    n
}

/// Plans `file.patch` on the text `content` of file `path`.
pub fn plan_patch(path: &str, content: &str, old_str: &str, new_str: &str) -> (r: PatchPlan)
    requires
        content@.len() < usize::MAX,
    ensures
        patch_plan(path@, content@, old_str@, new_str@, r),
{
    let s = str_chars(content);
    let p = str_chars(old_str);
    let mut count: usize;
    let mut first: usize;
    if p.len() == 0 {
        count = s.len() + 1;
        first = 0;
    } else {
        count = 0;
        first = 0;
        let mut i: usize = 0;
        while i <= s.len() && p.len() <= s.len() - i
            invariant
                p@ == old_str@,
                s@ == content@,
                p@.len() > 0,
                i <= s@.len(),
                count <= i,
                count_from(s@, p@, 0) == count + count_from(s@, p@, i as int),
                count > 0 ==> first_from(s@, p@, 0) == first && first + p@.len() <= s@.len(),
                count == 0 ==> first_from(s@, p@, 0) == first_from(s@, p@, i as int),
            decreases s.len() - i,
        {
            if chars_occur_at(s.as_slice(), p.as_slice(), i) {
                if count == 0 {
                    first = i;
                }
                count = count + 1;
                i = i + p.len();
            } else {
                i = i + 1;
            }
        }
        proof {
            lemma_first_count(s@, p@, 0);
        }
    }
    let ghost n = spec_match_count(content@, old_str@);
    assert(count == n);
    if count == 0 {
        let mut m = owned("old_str not found in '");
        push_str(&mut m, path);
        push_str(&mut m, "'. Re-read the file to get the exact text to replace.");
        PatchPlan::Refuse(m)
    } else if count == 1 {
        let ghost i = spec_first_match(content@, old_str@);
        assert(first == i);
        assert(first + p@.len() <= s@.len());
        let mut updated: Vec<char> = Vec::new();
        let mut j: usize = 0;
        while j < first
            invariant
                j <= first,
                first + p@.len() <= s@.len(),
                updated@ == s@.take(j as int),
            decreases first - j,
        {
            updated.push(s[j]);
            assert(updated@ =~= s@.take(j + 1));
            j = j + 1;
        }
        let mut out = string_from_chars(updated.as_slice());
        push_str(&mut out, new_str);
        let mut k: usize = first + p.len();
        let ghost mid = out@;
        while k < s.len()
            invariant
                first + p@.len() <= k <= s@.len(),
                out@ == mid + s@.subrange(first + p@.len(), k as int),
            decreases s.len() - k,
        {
            push_char(&mut out, s[k]);
            assert(out@ =~= mid + s@.subrange(first + p@.len(), k + 1));
            k = k + 1;
        }
        assert(out@ =~= content@.take(i) + new_str@ + content@.skip(i + old_str@.len()));
        let line = newlines_before(&s, first);
        let mut m = owned("Patched '");
        push_str(&mut m, path);
        push_str(&mut m, "' at line ");
        push_decimal(&mut m, (line + 1) as u64);
        push_str(&mut m, ".");
        PatchPlan::Write { updated: out, message: m }
    } else {
        let mut m = owned("old_str matches ");
        push_decimal(&mut m, count as u64);
        push_str(&mut m, " times in '");
        push_str(&mut m, path);
        push_str(&mut m, "'. Include more surrounding context to make it unique.");
        PatchPlan::Refuse(m)
    }
}

/// Most lines `file.read_range` returns.
pub const MAX_READ_RANGE_LINES: u32 = 500;

/// The notice that follows a range cut at the line limit.
pub open spec fn range_notice() -> Seq<char> {
    "[... truncated at 500 lines; use a narrower range ...]"@
}

/// `k` lines of `ls` from index `start`, each after its 1-based number.
pub open spec fn numbered(ls: Seq<Seq<char>>, start: int, k: int) -> Seq<Seq<char>> {
    Seq::new(k as nat, |j: int| decimal((start + j + 1) as nat) + ": "@ + ls[start + j])
}

/// Lines `start..=end` of `ls`, numbered, cut at the line limit with a notice.
pub open spec fn range_lines(ls: Seq<Seq<char>>, start: int, end: int) -> Seq<Seq<char>> {
    let k = end - start + 1;
    if k >= 500 {
        numbered(ls, start, 500).push(range_notice())
    } else {
        numbered(ls, start, k)
    }
}

/// `r` is a finished tool result with this text and error flag.
pub open spec fn done_with(r: ExecutionResult, text: Seq<char>, is_error: bool) -> bool {
    r matches ExecutionResult::Done { content, is_error: e } && content@ == text && e == is_error
}

/// What `file.read_range` reports for lines `start_line..=end_line` (1-based;
/// to the end when no end is given) of the text `s` of file `path`.
pub open spec fn read_range(path: Seq<char>, s: Seq<char>, start_line: u32, end_line: Option<u32>, r: ExecutionResult) -> bool {
    let ls = lines(s);
    let n = ls.len();
    if n == 0 {
        done_with(r, "'"@ + path + "' is empty."@, true)
    } else if start_line - 1 >= n {
        done_with(
            r,
            "start_line "@ + decimal(start_line as nat) + " is beyond end of file ("@ + decimal(n) + " lines)."@,
            true,
        )
    } else {
        let e: u32 = match end_line {
            Some(e) => e,
            None => n as u32,
        };
        if e < start_line {
            done_with(
                r,
                "end_line "@ + decimal(e as nat) + " must be >= start_line "@ + decimal(start_line as nat) + "."@,
                true,
            )
        } else {
            let end = if e < n {
                e - 1
            } else {
                n - 1
            };
            done_with(r, join(range_lines(ls, start_line - 1, end), "\n"@), false)
        }
    }
}

fn done(content: String, is_error: bool) -> (r: ExecutionResult)
    ensures
        done_with(r, content@, is_error),
{
    ExecutionResult::Done { content, is_error }
}

/// Reports lines of the text `content` of file `path` for `file.read_range`.
pub fn read_range_text(path: &str, content: &str, start_line: u32, end_line: Option<u32>) -> (r: ExecutionResult)
    requires
        start_line >= 1,
    ensures
        read_range(path@, content@, start_line, end_line, r),
{
    let chars = str_chars(content);
    let ls = split_lines(chars.as_slice());
    let n = ls.len();
    let ghost lv = lines(content@);
    assert(lv.len() == n);
    if n == 0 {
        let mut m = owned("'");
        push_str(&mut m, path);
        push_str(&mut m, "' is empty.");
        return done(m, true);
    }
    let start_idx: usize = (start_line - 1) as usize;
    if start_idx >= n {
        let mut m = owned("start_line ");
        push_decimal(&mut m, start_line as u64);
        push_str(&mut m, " is beyond end of file (");
        push_decimal(&mut m, n as u64);
        push_str(&mut m, " lines).");
        return done(m, true);
    }
    let e: u32 = match end_line {
        Some(e) => e,
        None => n as u32,
    };
    if e < start_line {
        let mut m = owned("end_line ");
        push_decimal(&mut m, e as u64);
        push_str(&mut m, " must be >= start_line ");
        push_decimal(&mut m, start_line as u64);
        push_str(&mut m, ".");
        return done(m, true);
    }
    let end_idx: usize = if (e as usize) < n {
        (e - 1) as usize
    } else {
        n - 1
    };
    let ghost k = end_idx - start_idx + 1;
    let mut selected: Vec<String> = Vec::new();
    let mut idx: usize = start_idx;
    let mut cut = false;
    while idx <= end_idx && !cut
        invariant
            start_idx <= idx <= end_idx + 1,
            end_idx < n,
            n == ls@.len(),
            lv.len() == n,
            forall|q: int| 0 <= q < ls@.len() ==> #[trigger] ls@[q]@ == lv[q],
            !cut ==> string_views(selected@) == numbered(lv, start_idx as int, idx - start_idx),
            !cut ==> idx - start_idx < 500,
            cut ==> string_views(selected@) == numbered(lv, start_idx as int, 500).push(range_notice()) && k >= 500,
            k == end_idx - start_idx + 1,
        decreases end_idx + 1 - idx, (if cut { 0int } else { 1int }),
    {
        let mut line = String::new();
        push_decimal(&mut line, (idx + 1) as u64);
        push_str(&mut line, ": ");
        let text = string_from_chars(ls[idx].as_slice());
        push_str(&mut line, text.as_str());
        let ghost before = string_views(selected@);
        selected.push(line);
        assert(string_views(selected@) =~= before.push(line@));
        assert(string_views(selected@) =~= numbered(lv, start_idx as int, idx + 1 - start_idx));
        if selected.len() >= 500 {
            proof {
                reveal_strlit("[... truncated at 500 lines; use a narrower range ...]");
            }
            let notice = owned("[... truncated at 500 lines; use a narrower range ...]");
            let ghost b2 = string_views(selected@);
            selected.push(notice);
            assert(string_views(selected@) =~= b2.push(range_notice()));
            cut = true;
        } else {
            idx = idx + 1;
        }
    }
    assert(string_views(selected@) == range_lines(lv, start_idx as int, end_idx as int));
    let text = join_strings(&selected, "\n");
    done(text, false)
}

} // verus!
