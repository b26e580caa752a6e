//! Incremental updates of the changed-file list: what differs between two
//! status snapshots, and bringing a kept list up to date with the newer one.
//!
//! An entry is seen as a pair of its path (as characters) and its status.
use vstd::prelude::*;

use crate::text::str_eq;

use super::branches::{lemma_lex_irreflexive, lemma_lex_transitive};
use super::status::{GitFileEntry, GitFileStatus};

verus! {

/// Paths and statuses of entries, in order.
pub open spec fn entry_views(s: Seq<GitFileEntry>) -> Seq<(Seq<char>, GitFileStatus)> {
    s.map_values(|e: GitFileEntry| (e.path@, e.status))
}

/// Status of the last entry for `p`: what a map built from the list holds.
pub open spec fn last_status(s: Seq<(Seq<char>, GitFileStatus)>, p: Seq<char>) -> Option<GitFileStatus>
    decreases s.len(),
{
    if s.len() == 0 {
        None
    } else if s.last().0 == p {
        Some(s.last().1)
    } else {
        last_status(s.drop_last(), p)
    }
}

/// Some entry has path `p`.
pub open spec fn has_path(s: Seq<(Seq<char>, GitFileStatus)>, p: Seq<char>) -> bool {
    exists|i: int| 0 <= i < s.len() && s[i].0 == p
}

/// No two entries share a path.
pub open spec fn unique_paths(s: Seq<(Seq<char>, GitFileStatus)>) -> bool {
    forall|i: int, j: int| 0 <= i < s.len() && 0 <= j < s.len() && i != j ==> s[i].0 != s[j].0
}

/// Incoming entries whose status is not what the previous snapshot had for
/// their path, in incoming order.
pub open spec fn spec_changed(
    prev: Seq<(Seq<char>, GitFileStatus)>,
    inc: Seq<(Seq<char>, GitFileStatus)>,
) -> Seq<(Seq<char>, GitFileStatus)>
    decreases inc.len(),
{
    if inc.len() == 0 {
        Seq::empty()
    } else {
        let rest = spec_changed(prev, inc.drop_last());
        let e = inc.last();
        if last_status(prev, e.0) == Some(e.1) {
            rest
        } else {
            rest.push(e)
        }
    }
}

/// Paths of previous entries that the incoming snapshot no longer lists, in
/// previous order.
pub open spec fn spec_removed(
    prev: Seq<(Seq<char>, GitFileStatus)>,
    inc: Seq<(Seq<char>, GitFileStatus)>,
) -> Seq<Seq<char>>
    decreases prev.len(),
{
    if prev.len() == 0 {
        Seq::empty()
    } else {
        let rest = spec_removed(prev.drop_last(), inc);
        if has_path(inc, prev.last().0) {
            rest
        } else {
            rest.push(prev.last().0)
        }
    }
}

/// The difference between two status snapshots.
#[derive(Debug, Clone, PartialEq, Eq)]
pub struct GitFileStatusPatch {
    pub changed: Vec<GitFileEntry>,
    pub removed: Vec<String>,
}

impl Default for GitFileStatusPatch {
    fn default() -> (r: Self)
        ensures
            r.changed@.len() == 0,
            r.removed@.len() == 0,
    {
        GitFileStatusPatch { changed: Vec::new(), removed: Vec::new() }
    }
}

impl GitFileStatusPatch {
    pub fn is_empty(&self) -> (r: bool)
        ensures
            r == (self.changed@.len() == 0 && self.removed@.len() == 0),
    {
        self.changed.len() == 0 && self.removed.len() == 0
    }
}

fn copy_string(s: &String) -> (r: String)
    ensures
        r@ == s@,
{
    s.clone()
}

fn copy_entry(e: &GitFileEntry) -> (r: GitFileEntry)
    ensures
        r.path@ == e.path@,
        r.status == e.status,
{
    GitFileEntry { path: copy_string(&e.path), status: e.status }
}

/// Status of the last entry of `entries` with path `path`.
fn last_status_of(entries: &[GitFileEntry], path: &str) -> (r: Option<GitFileStatus>)
    ensures
        r == last_status(entry_views(entries@), path@),
{
    let ghost v = entry_views(entries@);
    let mut i: usize = entries.len();
    assert(v.take(i as int) =~= v);
    while i > 0
        invariant
            i <= entries@.len(),
            v == entry_views(entries@),
            last_status(v, path@) == last_status(v.take(i as int), path@),
        decreases i,
    {
        let ghost t = v.take(i as int);
        assert(t.drop_last() =~= v.take(i - 1));
        if str_eq(entries[i - 1].path.as_str(), path) {
            return Some(entries[i - 1].status);
        }
        i = i - 1;
    }
    None
}

/// Whether some entry has path `path`.
fn has_path_in(entries: &[GitFileEntry], path: &str) -> (r: bool)
    ensures
        r == has_path(entry_views(entries@), path@),
{
    let ghost v = entry_views(entries@);
    let mut i: usize = 0;
    while i < entries.len()
        invariant
            i <= entries@.len(),
            v == entry_views(entries@),
            forall|k: int| 0 <= k < i ==> v[k].0 != path@,
        decreases entries.len() - i,
    {
        if str_eq(entries[i].path.as_str(), path) {
            assert(v[i as int].0 == path@);
            return true;
        }
        i = i + 1;
    }
    false
}

/// What changed from `previous` to `incoming`: incoming entries whose
/// status differs from the previous one for their path (or that are new),
/// and previous paths that are gone.
pub fn diff_git_file_entries(previous: &[GitFileEntry], incoming: &[GitFileEntry]) -> (r: GitFileStatusPatch)
    ensures
        entry_views(r.changed@) == spec_changed(entry_views(previous@), entry_views(incoming@)),
        r.removed@.map_values(|s: String| s@) == spec_removed(entry_views(previous@), entry_views(incoming@)),
{
    let ghost pv = entry_views(previous@);
    let ghost iv = entry_views(incoming@);
    let mut changed: Vec<GitFileEntry> = Vec::new();
    let mut i: usize = 0;
    while i < incoming.len()
        invariant
            i <= incoming@.len(),
            pv == entry_views(previous@),
            iv == entry_views(incoming@),
            entry_views(changed@) == spec_changed(pv, iv.take(i as int)),
        decreases incoming.len() - i,
    {
        proof {
            assert(iv.take(i + 1).drop_last() =~= iv.take(i as int));
            assert(iv.take(i + 1).last() == iv[i as int]);
        }
        let e = &incoming[i];
        let same = match last_status_of(previous, e.path.as_str()) {
            Some(s) => s == e.status,
            None => false,
        };
        if !same {
            changed.push(copy_entry(e));
            assert(entry_views(changed@) =~= spec_changed(pv, iv.take(i + 1)));
        }
        i = i + 1;
    }
    assert(iv.take(i as int) =~= iv);
    let mut removed: Vec<String> = Vec::new();
    let mut j: usize = 0;
    while j < previous.len()
        invariant
            j <= previous@.len(),
            pv == entry_views(previous@),
            iv == entry_views(incoming@),
            removed@.map_values(|s: String| s@) == spec_removed(pv.take(j as int), iv),
        decreases previous.len() - j,
    {
        proof {
            assert(pv.take(j + 1).drop_last() =~= pv.take(j as int));
            assert(pv.take(j + 1).last() == pv[j as int]);
        }
        if !has_path_in(incoming, previous[j].path.as_str()) {
            let p = copy_string(&previous[j].path);
            let ghost before = removed@;
            removed.push(p);
            assert(removed@.map_values(|s: String| s@) =~= before.map_values(|s: String| s@).push(p@));
        }
        j = j + 1;
    }
    assert(pv.take(j as int) =~= pv);
    GitFileStatusPatch { changed, removed }
}

/// `s` without the entries for path `p`.
pub open spec fn without_path(s: Seq<(Seq<char>, GitFileStatus)>, p: Seq<char>) -> Seq<(Seq<char>, GitFileStatus)>
    decreases s.len(),
{
    if s.len() == 0 {
        Seq::empty()
    } else {
        let rest = without_path(s.drop_last(), p);
        if s.last().0 == p {
            rest
        } else {
            rest.push(s.last())
        }
    }
}

/// `s` without the entries for any of `ps`, removed one path after another.
pub open spec fn without_paths(s: Seq<(Seq<char>, GitFileStatus)>, ps: Seq<Seq<char>>) -> Seq<(Seq<char>, GitFileStatus)>
    decreases ps.len(),
{
    if ps.len() == 0 {
        s
    } else {
        without_path(without_paths(s, ps.drop_last()), ps.last())
    }
}

/// `i` is the first position with path `p`.
pub open spec fn is_first_with_path(s: Seq<(Seq<char>, GitFileStatus)>, p: Seq<char>, i: int) -> bool {
    0 <= i < s.len() && s[i].0 == p && forall|j: int| 0 <= j < i ==> s[j].0 != p
}

/// The first entry for the path of `c` takes its status; without one, `c`
/// is appended.
pub open spec fn apply_change(s: Seq<(Seq<char>, GitFileStatus)>, c: (Seq<char>, GitFileStatus)) -> Seq<(Seq<char>, GitFileStatus)> {
    if exists|i: int| is_first_with_path(s, c.0, i) {
        let i = choose|i: int| is_first_with_path(s, c.0, i);
        s.update(i, (s[i].0, c.1))
    } else {
        s.push(c)
    }
}

/// The changes applied in order.
pub open spec fn apply_changes(s: Seq<(Seq<char>, GitFileStatus)>, cs: Seq<(Seq<char>, GitFileStatus)>) -> Seq<(Seq<char>, GitFileStatus)>
    decreases cs.len(),
{
    if cs.len() == 0 {
        s
    } else {
        apply_change(apply_changes(s, cs.drop_last()), cs.last())
    }
}

/// Strict lexicographic order of strings by character (the order of
/// `String::cmp`, since UTF-8 keeps code point order).
pub open spec fn lex_lt(a: Seq<char>, b: Seq<char>) -> bool
    decreases a.len(),
{
    if a.len() == 0 {
        b.len() > 0
    } else if b.len() == 0 {
        false
    } else if a[0] != b[0] {
        a[0] < b[0]
    } else {
        lex_lt(a.drop_first(), b.drop_first())
    }
}

/// Position before the first entry whose path sorts after `p`.
pub open spec fn insert_pos(t: Seq<(Seq<char>, GitFileStatus)>, p: Seq<char>) -> int
    decreases t.len(),
{
    if t.len() == 0 {
        0
    } else {
        let k = insert_pos(t.drop_last(), p);
        if k < t.len() - 1 {
            k
        } else if lex_lt(p, t.last().0) {
            t.len() - 1
        } else {
            t.len() as int
        }
    }
}

/// Stable sort by path: each entry goes after every entry already placed
/// whose path does not sort after its own.
pub open spec fn sort_by_path(s: Seq<(Seq<char>, GitFileStatus)>) -> Seq<(Seq<char>, GitFileStatus)>
    decreases s.len(),
{
    if s.len() == 0 {
        Seq::empty()
    } else {
        let t = sort_by_path(s.drop_last());
        t.insert(insert_pos(t, s.last().0), s.last())
    }
}

/// The list after patching: unchanged when nothing differs and the sizes
/// agree; otherwise removed paths dropped, changes applied, and sorted.
pub open spec fn spec_patch_result(
    cur: Seq<(Seq<char>, GitFileStatus)>,
    inc: Seq<(Seq<char>, GitFileStatus)>,
) -> Seq<(Seq<char>, GitFileStatus)> {
    let changed = spec_changed(cur, inc);
    let removed = spec_removed(cur, inc);
    if changed.len() == 0 && removed.len() == 0 && cur.len() == inc.len() {
        cur
    } else {
        sort_by_path(apply_changes(without_paths(cur, removed), changed))
    }
}

/// Whether `a` sorts strictly before `b`.
pub fn path_lt(a: &str, b: &str) -> (r: bool)
    ensures
        r == lex_lt(a@, b@),
{
    let va = crate::text::str_chars(a);
    let vb = crate::text::str_chars(b);
    let mut i: usize = 0;
    assert(a@.skip(0) =~= a@);
    assert(b@.skip(0) =~= b@);
    while i < va.len() && i < vb.len()
        invariant
            i <= va@.len(),
            i <= vb@.len(),
            va@ == a@,
            vb@ == b@,
            lex_lt(a@, b@) == lex_lt(a@.skip(i as int), b@.skip(i as int)),
        decreases va.len() - i,
    {
        let x = va[i];
        let y = vb[i];
        proof {
            assert(a@.skip(i as int)[0] == x);
            assert(b@.skip(i as int)[0] == y);
            assert(a@.skip(i as int).drop_first() =~= a@.skip(i + 1));
            assert(b@.skip(i as int).drop_first() =~= b@.skip(i + 1));
        }
        if x != y {
            return x < y;
        }
        i = i + 1;
    }
    i == va.len() && i < vb.len()
}

/// Drops every entry with path `p`.
fn retain_other_paths(v: &mut Vec<GitFileEntry>, p: &str)
    ensures
        entry_views(final(v)@) == without_path(entry_views(old(v)@), p@),
{
    let ghost ov = entry_views(v@);
    let mut kept: Vec<GitFileEntry> = Vec::new();
    let mut i: usize = 0;
    while i < v.len()
        invariant
            i <= v@.len(),
            ov == entry_views(v@),
            entry_views(kept@) == without_path(ov.take(i as int), p@),
        decreases v.len() - i,
    {
        proof {
            assert(ov.take(i + 1).drop_last() =~= ov.take(i as int));
            assert(ov.take(i + 1).last() == ov[i as int]);
        }
        if !str_eq(v[i].path.as_str(), p) {
            kept.push(copy_entry(&v[i]));
            assert(entry_views(kept@) =~= without_path(ov.take(i + 1), p@));
        }
        i = i + 1;
    }
    assert(ov.take(i as int) =~= ov);
    *v = kept;
}

/// Gives the first entry with the change's path the change's status, or
/// appends the change.
fn apply_change_in(v: &mut Vec<GitFileEntry>, c: &GitFileEntry)
    ensures
        entry_views(final(v)@) == apply_change(entry_views(old(v)@), (c.path@, c.status)),
{
    let ghost ov = entry_views(v@);
    let ghost cv = (c.path@, c.status);
    let mut i: usize = 0;
    while i < v.len()
        invariant
            i <= v@.len(),
            ov == entry_views(v@),
            v@ == old(v)@,
            cv == (c.path@, c.status),
            forall|j: int| 0 <= j < i ==> ov[j].0 != c.path@,
        decreases v.len() - i,
    {
        if str_eq(v[i].path.as_str(), c.path.as_str()) {
            proof {
                assert(ov[i as int] == (v@[i as int].path@, v@[i as int].status));
                assert(is_first_with_path(ov, cv.0, i as int));
                let w = choose|w: int| is_first_with_path(ov, cv.0, w);
                if w < i {
                    assert(ov[w].0 != c.path@);
                } else if w > i {
                    assert(ov[i as int].0 != cv.0);
                }
                assert(w == i);
                assert(apply_change(ov, cv) == ov.update(i as int, (ov[i as int].0, c.status)));
            }
            v[i].status = c.status;
            assert(entry_views(v@) =~= ov.update(i as int, (ov[i as int].0, c.status)));
            return;
        }
        i = i + 1;
    }
    proof {
        if exists|w: int| is_first_with_path(ov, cv.0, w) {
            let w = choose|w: int| is_first_with_path(ov, cv.0, w);
            assert(ov[w].0 == cv.0);
        }
    }
    v.push(copy_entry(c));
    assert(entry_views(v@) =~= ov.push(cv));
}

/// Sorts entries by path, keeping the order of entries with equal paths.
fn sort_entries_by_path(v: &mut Vec<GitFileEntry>)
    ensures
        entry_views(final(v)@) == sort_by_path(entry_views(old(v)@)),
{
    let ghost ov = entry_views(v@);
    let mut sorted: Vec<GitFileEntry> = Vec::new();
    let mut i: usize = 0;
    while i < v.len()
        invariant
            i <= v@.len(),
            ov == entry_views(v@),
            entry_views(sorted@) == sort_by_path(ov.take(i as int)),
        decreases v.len() - i,
    {
        proof {
            assert(ov.take(i + 1).drop_last() =~= ov.take(i as int));
            assert(ov.take(i + 1).last() == ov[i as int]);
        }
        let ghost t = entry_views(sorted@);
        let x = copy_entry(&v[i]);
        let mut k: usize = 0;
        while k < sorted.len() && !path_lt(x.path.as_str(), sorted[k].path.as_str())
            invariant
                k <= sorted@.len(),
                t == entry_views(sorted@),
                forall|m: int| 0 <= m < k ==> !lex_lt(x.path@, #[trigger] t[m].0),
            decreases sorted.len() - k,
        {
            k = k + 1;
        }
        proof {
            lemma_insert_pos_first_greater(t, x.path@, k as int);
        }
        sorted.insert(k, x);
        assert(entry_views(sorted@) =~= t.insert(k as int, (x.path@, x.status)));
        i = i + 1;
    }
    assert(ov.take(i as int) =~= ov);
    *v = sorted;
}

/// `insert_pos` is the first position whose path sorts after `p`.
proof fn lemma_insert_pos_first_greater(t: Seq<(Seq<char>, GitFileStatus)>, p: Seq<char>, k: int)
    requires
        0 <= k <= t.len(),
        forall|m: int| 0 <= m < k ==> !lex_lt(p, #[trigger] t[m].0),
        k < t.len() ==> lex_lt(p, t[k].0),
    ensures
        insert_pos(t, p) == k,
    decreases t.len(),
{
    if t.len() > 0 {
        let u = t.drop_last();
        if k < t.len() {
            if k < u.len() {
                assert forall|m: int| 0 <= m < k implies !lex_lt(p, #[trigger] u[m].0) by {
                    assert(u[m] == t[m]);
                }
                assert(u[k] == t[k]);
                lemma_insert_pos_first_greater(u, p, k);
            } else {
                assert forall|m: int| 0 <= m < u.len() implies !lex_lt(p, #[trigger] u[m].0) by {
                    assert(u[m] == t[m]);
                }
                lemma_insert_pos_first_greater(u, p, u.len() as int);
            }
        } else {
            assert forall|m: int| 0 <= m < u.len() implies !lex_lt(p, #[trigger] u[m].0) by {
                assert(u[m] == t[m]);
            }
            lemma_insert_pos_first_greater(u, p, u.len() as int);
            assert(!lex_lt(p, t[t.len() - 1].0));
        }
    }
}

/// Brings `current` up to date with `incoming` and returns the difference
/// that was applied.
pub fn patch_git_file_entries(current: &mut Vec<GitFileEntry>, incoming: &[GitFileEntry]) -> (r: GitFileStatusPatch)
    ensures
        entry_views(r.changed@) == spec_changed(entry_views(old(current)@), entry_views(incoming@)),
        r.removed@.map_values(|s: String| s@) == spec_removed(entry_views(old(current)@), entry_views(incoming@)),
        entry_views(final(current)@) == spec_patch_result(entry_views(old(current)@), entry_views(incoming@)),
{
    let ghost cur = entry_views(current@);
    let ghost inc = entry_views(incoming@);
    let patch = diff_git_file_entries(current.as_slice(), incoming);
    if patch.is_empty() && current.len() == incoming.len() {
        return patch;
    }
    let ghost removed = patch.removed@.map_values(|s: String| s@);
    let mut i: usize = 0;
    while i < patch.removed.len()
        invariant
            i <= patch.removed@.len(),
            removed == patch.removed@.map_values(|s: String| s@),
            entry_views(current@) == without_paths(cur, removed.take(i as int)),
        decreases patch.removed.len() - i,
    {
        proof {
            assert(removed.take(i + 1).drop_last() =~= removed.take(i as int));
            assert(removed.take(i + 1).last() == patch.removed@[i as int]@);
        }
        retain_other_paths(current, patch.removed[i].as_str());
        i = i + 1;
    }
    assert(removed.take(i as int) =~= removed);
    let ghost base = entry_views(current@);
    let ghost changed = entry_views(patch.changed@);
    let mut j: usize = 0;
    while j < patch.changed.len()
        invariant
            j <= patch.changed@.len(),
            changed == entry_views(patch.changed@),
            entry_views(current@) == apply_changes(base, changed.take(j as int)),
        decreases patch.changed.len() - j,
    {
        proof {
            assert(changed.take(j + 1).drop_last() =~= changed.take(j as int));
            assert(changed.take(j + 1).last() == changed[j as int]);
        }
        apply_change_in(current, &patch.changed[j]);
        j = j + 1;
    }
    assert(changed.take(j as int) =~= changed);
    sort_entries_by_path(current);
    patch
}

proof fn lemma_last_status_member(s: Seq<(Seq<char>, GitFileStatus)>, p: Seq<char>)
    ensures
        last_status(s, p) matches Some(st) ==> s.contains((p, st)),
    decreases s.len(),
{
    if s.len() > 0 {
        if s.last().0 == p {
            assert(s[s.len() - 1] == (p, s.last().1));
        } else {
            lemma_last_status_member(s.drop_last(), p);
            if let Some(st) = last_status(s, p) {
                let i = choose|i: int| 0 <= i < s.drop_last().len() && s.drop_last()[i] == (p, st);
                assert(s[i] == (p, st));
            }
        }
    }
}

proof fn lemma_unique_drop_last(s: Seq<(Seq<char>, GitFileStatus)>)
    requires
        unique_paths(s),
        s.len() > 0,
    ensures
        unique_paths(s.drop_last()),
        forall|i: int| 0 <= i < s.len() - 1 ==> #[trigger] s[i].0 != s.last().0,
{
    assert forall|i: int| 0 <= i < s.len() - 1 implies #[trigger] s[i].0 != s.last().0 by {
        assert(s[i].0 != s[s.len() - 1].0);
    }
}

proof fn lemma_unique_last_status(s: Seq<(Seq<char>, GitFileStatus)>, x: (Seq<char>, GitFileStatus))
    requires
        unique_paths(s),
        s.contains(x),
    ensures
        last_status(s, x.0) == Some(x.1),
    decreases s.len(),
{
    let k = choose|k: int| 0 <= k < s.len() && s[k] == x;
    lemma_unique_drop_last(s);
    if k == s.len() - 1 {
    } else {
        assert(s.last().0 != x.0);
        assert(s.drop_last()[k] == x);
        lemma_unique_last_status(s.drop_last(), x);
    }
}

proof fn lemma_changed_members(prev: Seq<(Seq<char>, GitFileStatus)>, inc: Seq<(Seq<char>, GitFileStatus)>)
    ensures
        forall|x: (Seq<char>, GitFileStatus)| #[trigger] spec_changed(prev, inc).contains(x) <==> (inc.contains(x)
            && last_status(prev, x.0) != Some(x.1)),
        unique_paths(inc) ==> unique_paths(spec_changed(prev, inc)),
    decreases inc.len(),
{
    if inc.len() > 0 {
        let u = inc.drop_last();
        let e = inc.last();
        lemma_changed_members(prev, u);
        let rest = spec_changed(prev, u);
        assert forall|x: (Seq<char>, GitFileStatus)| #[trigger] spec_changed(prev, inc).contains(x) <==> (inc.contains(
            x,
        ) && last_status(prev, x.0) != Some(x.1)) by {
            if inc.contains(x) {
                let k = choose|k: int| 0 <= k < inc.len() && inc[k] == x;
                if k < inc.len() - 1 {
                    assert(u[k] == x);
                }
            }
            if u.contains(x) {
                let k = choose|k: int| 0 <= k < u.len() && u[k] == x;
                assert(inc[k] == x);
            }
            if last_status(prev, e.0) != Some(e.1) {
                let r2 = rest.push(e);
                if rest.contains(x) {
                    let k = choose|k: int| 0 <= k < rest.len() && rest[k] == x;
                    assert(r2[k] == x);
                }
                if r2.contains(x) {
                    let k = choose|k: int| 0 <= k < r2.len() && r2[k] == x;
                    if k < rest.len() {
                        assert(rest[k] == x);
                    }
                }
                assert(r2[r2.len() - 1] == e);
            }
            assert(inc[inc.len() - 1] == e);
        }
        if unique_paths(inc) {
            lemma_unique_drop_last(inc);
            if last_status(prev, e.0) != Some(e.1) {
                let r2 = rest.push(e);
                assert forall|i: int, j: int| 0 <= i < r2.len() && 0 <= j < r2.len() && i != j implies r2[i].0
                    != r2[j].0 by {
                    if i < rest.len() && j < rest.len() {
                        assert(rest[i] == r2[i]);
                        assert(rest[j] == r2[j]);
                    } else if i < rest.len() {
                        assert(rest.contains(rest[i]));
                        let k = choose|k: int| 0 <= k < u.len() && u[k] == rest[i];
                        assert(inc[k] == u[k]);
                    } else if j < rest.len() {
                        assert(rest.contains(rest[j]));
                        let k = choose|k: int| 0 <= k < u.len() && u[k] == rest[j];
                        assert(inc[k] == u[k]);
                    }
                }
            }
        }
    }
}

proof fn lemma_removed_members(prev: Seq<(Seq<char>, GitFileStatus)>, inc: Seq<(Seq<char>, GitFileStatus)>)
    ensures
        forall|p: Seq<char>| #[trigger] spec_removed(prev, inc).contains(p) <==> (has_path(prev, p) && !has_path(
            inc,
            p,
        )),
    decreases prev.len(),
{
    if prev.len() > 0 {
        let u = prev.drop_last();
        lemma_removed_members(u, inc);
        let rest = spec_removed(u, inc);
        assert forall|p: Seq<char>| #[trigger] spec_removed(prev, inc).contains(p) <==> (has_path(prev, p)
            && !has_path(inc, p)) by {
            if has_path(prev, p) {
                let k = choose|k: int| 0 <= k < prev.len() && prev[k].0 == p;
                if k < prev.len() - 1 {
                    assert(u[k].0 == p);
                }
            }
            if has_path(u, p) {
                let k = choose|k: int| 0 <= k < u.len() && u[k].0 == p;
                assert(prev[k].0 == p);
            }
            assert(prev[prev.len() - 1] == prev.last());
            if !has_path(inc, prev.last().0) {
                let r2 = rest.push(prev.last().0);
                if rest.contains(p) {
                    let k = choose|k: int| 0 <= k < rest.len() && rest[k] == p;
                    assert(r2[k] == p);
                }
                if r2.contains(p) {
                    let k = choose|k: int| 0 <= k < r2.len() && r2[k] == p;
                    if k < rest.len() {
                        assert(rest[k] == p);
                    }
                }
                assert(r2[r2.len() - 1] == prev.last().0);
            }
        }
    }
}

proof fn lemma_without_path(s: Seq<(Seq<char>, GitFileStatus)>, p: Seq<char>)
    ensures
        forall|x: (Seq<char>, GitFileStatus)| #[trigger] without_path(s, p).contains(x) <==> (s.contains(x) && x.0
            != p),
        unique_paths(s) ==> unique_paths(without_path(s, p)),
    decreases s.len(),
{
    if s.len() > 0 {
        let u = s.drop_last();
        lemma_without_path(u, p);
        let rest = without_path(u, p);
        assert forall|x: (Seq<char>, GitFileStatus)| #[trigger] without_path(s, p).contains(x) <==> (s.contains(x)
            && x.0 != p) by {
            if s.contains(x) {
                let k = choose|k: int| 0 <= k < s.len() && s[k] == x;
                if k < s.len() - 1 {
                    assert(u[k] == x);
                }
            }
            if u.contains(x) {
                let k = choose|k: int| 0 <= k < u.len() && u[k] == x;
                assert(s[k] == x);
            }
            assert(s[s.len() - 1] == s.last());
            if s.last().0 != p {
                let r2 = rest.push(s.last());
                if rest.contains(x) {
                    let k = choose|k: int| 0 <= k < rest.len() && rest[k] == x;
                    assert(r2[k] == x);
                }
                if r2.contains(x) {
                    let k = choose|k: int| 0 <= k < r2.len() && r2[k] == x;
                    if k < rest.len() {
                        assert(rest[k] == x);
                    }
                }
                assert(r2[r2.len() - 1] == s.last());
            }
        }
        if unique_paths(s) {
            lemma_unique_drop_last(s);
            if s.last().0 != p {
                let r2 = rest.push(s.last());
                assert forall|i: int, j: int| 0 <= i < r2.len() && 0 <= j < r2.len() && i != j implies r2[i].0
                    != r2[j].0 by {
                    if i < rest.len() && j < rest.len() {
                        assert(rest[i] == r2[i]);
                        assert(rest[j] == r2[j]);
                    } else if i < rest.len() {
                        assert(rest.contains(rest[i]));
                        let k = choose|k: int| 0 <= k < u.len() && u[k] == rest[i];
                        assert(s[k] == u[k]);
                    } else if j < rest.len() {
                        assert(rest.contains(rest[j]));
                        let k = choose|k: int| 0 <= k < u.len() && u[k] == rest[j];
                        assert(s[k] == u[k]);
                    }
                }
            }
        }
    }
}

proof fn lemma_without_paths(s: Seq<(Seq<char>, GitFileStatus)>, ps: Seq<Seq<char>>)
    ensures
        forall|x: (Seq<char>, GitFileStatus)| #[trigger] without_paths(s, ps).contains(x) <==> (s.contains(x)
            && !ps.contains(x.0)),
        unique_paths(s) ==> unique_paths(without_paths(s, ps)),
    decreases ps.len(),
{
    if ps.len() > 0 {
        let q = ps.drop_last();
        lemma_without_paths(s, q);
        lemma_without_path(without_paths(s, q), ps.last());
        assert forall|x: (Seq<char>, GitFileStatus)| #[trigger] without_paths(s, ps).contains(x) <==> (s.contains(
            x,
        ) && !ps.contains(x.0)) by {
            if ps.contains(x.0) {
                let k = choose|k: int| 0 <= k < ps.len() && ps[k] == x.0;
                if k < ps.len() - 1 {
                    assert(q[k] == x.0);
                }
            }
            if q.contains(x.0) {
                let k = choose|k: int| 0 <= k < q.len() && q[k] == x.0;
                assert(ps[k] == x.0);
            }
            assert(ps[ps.len() - 1] == ps.last());
        }
    }
}

proof fn lemma_apply_change(s: Seq<(Seq<char>, GitFileStatus)>, c: (Seq<char>, GitFileStatus))
    requires
        unique_paths(s),
    ensures
        unique_paths(apply_change(s, c)),
        forall|x: (Seq<char>, GitFileStatus)| #[trigger] apply_change(s, c).contains(x) <==> ((s.contains(x)
            && x.0 != c.0) || x == c),
{
    let r = apply_change(s, c);
    if exists|i: int| is_first_with_path(s, c.0, i) {
        let i = choose|i: int| is_first_with_path(s, c.0, i);
        assert(r == s.update(i, (s[i].0, c.1)));
        assert(r[i] == c);
        assert forall|x: (Seq<char>, GitFileStatus)| #[trigger] r.contains(x) <==> ((s.contains(x) && x.0 != c.0)
            || x == c) by {
            if r.contains(x) {
                let k = choose|k: int| 0 <= k < r.len() && r[k] == x;
                if k != i {
                    assert(s[k] == x);
                    assert(s[k].0 != s[i].0);
                }
            }
            if s.contains(x) && x.0 != c.0 {
                let k = choose|k: int| 0 <= k < s.len() && s[k] == x;
                assert(k != i);
                assert(r[k] == x);
            }
        }
        assert forall|a: int, b: int| 0 <= a < r.len() && 0 <= b < r.len() && a != b implies r[a].0 != r[b].0 by {
            assert(s[a].0 != s[b].0);
        }
    } else {
        assert(r == s.push(c));
        assert forall|k: int| 0 <= k < s.len() implies #[trigger] s[k].0 != c.0 by {
            if s[k].0 == c.0 {
                lemma_first_exists(s, c.0, k);
            }
        }
        assert forall|x: (Seq<char>, GitFileStatus)| #[trigger] r.contains(x) <==> ((s.contains(x) && x.0 != c.0)
            || x == c) by {
            if r.contains(x) {
                let k = choose|k: int| 0 <= k < r.len() && r[k] == x;
                if k < s.len() {
                    assert(s[k] == x);
                }
            }
            if s.contains(x) {
                let k = choose|k: int| 0 <= k < s.len() && s[k] == x;
                assert(r[k] == x);
            }
            assert(r[r.len() - 1] == c);
        }
        assert forall|a: int, b: int| 0 <= a < r.len() && 0 <= b < r.len() && a != b implies r[a].0 != r[b].0 by {
            if a < s.len() && b < s.len() {
                assert(s[a].0 != s[b].0);
            }
        }
    }
}

/// A position holding path `p` means a first such position exists.
proof fn lemma_first_exists(s: Seq<(Seq<char>, GitFileStatus)>, p: Seq<char>, k: int)
    requires
        0 <= k < s.len(),
        s[k].0 == p,
    ensures
        exists|i: int| is_first_with_path(s, p, i),
    decreases k,
{
    if forall|j: int| 0 <= j < k ==> s[j].0 != p {
        assert(is_first_with_path(s, p, k));
    } else {
        let j = choose|j: int| 0 <= j < k && s[j].0 == p;
        lemma_first_exists(s, p, j);
    }
}

proof fn lemma_apply_changes(s: Seq<(Seq<char>, GitFileStatus)>, cs: Seq<(Seq<char>, GitFileStatus)>)
    requires
        unique_paths(s),
        unique_paths(cs),
    ensures
        unique_paths(apply_changes(s, cs)),
        forall|x: (Seq<char>, GitFileStatus)| #[trigger] apply_changes(s, cs).contains(x) <==> ((s.contains(x)
            && !has_path(cs, x.0)) || cs.contains(x)),
    decreases cs.len(),
{
    if cs.len() > 0 {
        let q = cs.drop_last();
        let c = cs.last();
        lemma_unique_drop_last(cs);
        lemma_apply_changes(s, q);
        lemma_apply_change(apply_changes(s, q), c);
        assert forall|x: (Seq<char>, GitFileStatus)| #[trigger] apply_changes(s, cs).contains(x) <==> ((s.contains(
            x,
        ) && !has_path(cs, x.0)) || cs.contains(x)) by {
            assert(cs[cs.len() - 1] == c);
            if has_path(cs, x.0) {
                let k = choose|k: int| 0 <= k < cs.len() && cs[k].0 == x.0;
                if k < cs.len() - 1 {
                    assert(q[k].0 == x.0);
                }
            }
            if has_path(q, x.0) {
                let k = choose|k: int| 0 <= k < q.len() && q[k].0 == x.0;
                assert(cs[k].0 == x.0);
            }
            if cs.contains(x) {
                let k = choose|k: int| 0 <= k < cs.len() && cs[k] == x;
                if k < cs.len() - 1 {
                    assert(q[k] == x);
                }
            }
            if q.contains(x) {
                let k = choose|k: int| 0 <= k < q.len() && q[k] == x;
                assert(cs[k] == x);
                assert(q[k].0 != c.0);
            }
        }
    }
}

proof fn lemma_insert_pos_range(t: Seq<(Seq<char>, GitFileStatus)>, p: Seq<char>)
    ensures
        0 <= insert_pos(t, p) <= t.len(),
    decreases t.len(),
{
    if t.len() > 0 {
        lemma_insert_pos_range(t.drop_last(), p);
    }
}

proof fn lemma_sort_by_path(s: Seq<(Seq<char>, GitFileStatus)>)
    ensures
        sort_by_path(s).len() == s.len(),
        forall|x: (Seq<char>, GitFileStatus)| #[trigger] sort_by_path(s).contains(x) <==> s.contains(x),
        unique_paths(s) ==> unique_paths(sort_by_path(s)),
    decreases s.len(),
{
    if s.len() > 0 {
        let u = s.drop_last();
        let x = s.last();
        lemma_sort_by_path(u);
        let t = sort_by_path(u);
        let i = insert_pos(t, x.0);
        lemma_insert_pos_range(t, x.0);
        let r = t.insert(i, x);
        t.insert_ensures(i, x);
        assert forall|y: (Seq<char>, GitFileStatus)| #[trigger] r.contains(y) <==> s.contains(y) by {
            if r.contains(y) {
                let k = choose|k: int| 0 <= k < r.len() && r[k] == y;
                if k < i {
                    assert(t[k] == y);
                    assert(t.contains(y));
                    let m = choose|m: int| 0 <= m < u.len() && u[m] == y;
                    assert(s[m] == y);
                } else if k > i {
                    assert(t[k - 1] == y);
                    assert(t.contains(y));
                    let m = choose|m: int| 0 <= m < u.len() && u[m] == y;
                    assert(s[m] == y);
                } else {
                    assert(s[s.len() - 1] == y);
                }
            }
            if s.contains(y) {
                let k = choose|k: int| 0 <= k < s.len() && s[k] == y;
                if k < s.len() - 1 {
                    assert(u[k] == y);
                    assert(t.contains(y));
                    let m = choose|m: int| 0 <= m < t.len() && t[m] == y;
                    if m < i {
                        assert(r[m] == y);
                    } else {
                        assert(r[m + 1] == y);
                    }
                } else {
                    assert(r[i] == y);
                }
            }
        }
        if unique_paths(s) {
            lemma_unique_drop_last(s);
            assert forall|a: int, b: int| 0 <= a < r.len() && 0 <= b < r.len() && a != b implies r[a].0 != r[b].0 by {
                assert forall|m: int| 0 <= m < t.len() implies #[trigger] t[m].0 != x.0 by {
                    assert(t.contains(t[m]));
                    let k = choose|k: int| 0 <= k < u.len() && u[k] == t[m];
                    assert(s[k] == u[k]);
                }
                if a != i && b != i {
                    let a2 = if a < i { a } else { a - 1 };
                    let b2 = if b < i { b } else { b - 1 };
                    assert(r[a] == t[a2]);
                    assert(r[b] == t[b2]);
                } else if a == i {
                    let b2 = if b < i { b } else { b - 1 };
                    assert(r[b] == t[b2]);
                } else {
                    let a2 = if a < i { a } else { a - 1 };
                    assert(r[a] == t[a2]);
                }
            }
        }
    }
}

/// When both snapshots list each path once, patching leaves exactly the
/// incoming entries, each path still listed once.
pub proof fn law_patch_reaches_incoming(
    cur: Seq<(Seq<char>, GitFileStatus)>,
    inc: Seq<(Seq<char>, GitFileStatus)>,
)
    requires
        unique_paths(cur),
        unique_paths(inc),
    ensures
        unique_paths(spec_patch_result(cur, inc)),
        forall|x: (Seq<char>, GitFileStatus)| #[trigger] spec_patch_result(cur, inc).contains(x) <==> inc.contains(x),
{
    let changed = spec_changed(cur, inc);
    let removed = spec_removed(cur, inc);
    lemma_changed_members(cur, inc);
    lemma_removed_members(cur, inc);
    let r = without_paths(cur, removed);
    lemma_without_paths(cur, removed);
    lemma_apply_changes(r, changed);
    let a = apply_changes(r, changed);
    lemma_sort_by_path(a);
    assert forall|x: (Seq<char>, GitFileStatus)| #[trigger] spec_patch_result(cur, inc).contains(x) <==> inc.contains(
        x,
    ) by {
        if inc.contains(x) {
            if last_status(cur, x.0) == Some(x.1) {
                lemma_last_status_member(cur, x.0);
                assert(has_path(inc, x.0)) by {
                    let k = choose|k: int| 0 <= k < inc.len() && inc[k] == x;
                    assert(inc[k].0 == x.0);
                }
                assert(!removed.contains(x.0));
                if has_path(changed, x.0) {
                    let k = choose|k: int| 0 <= k < changed.len() && changed[k].0 == x.0;
                    assert(changed.contains(changed[k]));
                    let m = choose|m: int| 0 <= m < inc.len() && inc[m] == changed[k];
                    let n = choose|n: int| 0 <= n < inc.len() && inc[n] == x;
                    assert(inc[m].0 == inc[n].0);
                }
            }
        }
        if cur.contains(x) && !removed.contains(x.0) && !has_path(changed, x.0) {
            assert(has_path(cur, x.0)) by {
                let k = choose|k: int| 0 <= k < cur.len() && cur[k] == x;
                assert(cur[k].0 == x.0);
            }
            let m = choose|m: int| 0 <= m < inc.len() && inc[m].0 == x.0;
            let y = inc[m];
            assert(inc.contains(y));
            if !(last_status(cur, y.0) == Some(y.1)) {
                assert(changed.contains(y));
                let k = choose|k: int| 0 <= k < changed.len() && changed[k] == y;
                assert(changed[k].0 == x.0);
            }
            lemma_unique_last_status(cur, x);
            assert(y == x);
        }
    }
}

/// Paths never go down along the list.
pub open spec fn sorted_by_path(s: Seq<(Seq<char>, GitFileStatus)>) -> bool {
    forall|i: int, j: int| 0 <= i < j < s.len() ==> !lex_lt(#[trigger] s[j].0, #[trigger] s[i].0)
}

/// Entries before `insert_pos` do not sort after `p`; the one at it does.
proof fn lemma_insert_pos_split(t: Seq<(Seq<char>, GitFileStatus)>, p: Seq<char>)
    ensures
        0 <= insert_pos(t, p) <= t.len(),
        forall|m: int| 0 <= m < insert_pos(t, p) ==> !lex_lt(p, #[trigger] t[m].0),
        insert_pos(t, p) < t.len() ==> lex_lt(p, t[insert_pos(t, p)].0),
    decreases t.len(),
{
    if t.len() > 0 {
        let u = t.drop_last();
        lemma_insert_pos_split(u, p);
        assert forall|m: int| 0 <= m < u.len() implies u[m] == t[m] by {}
    }
}

proof fn lemma_insert_sorted(t: Seq<(Seq<char>, GitFileStatus)>, x: (Seq<char>, GitFileStatus))
    requires
        sorted_by_path(t),
    ensures
        sorted_by_path(t.insert(insert_pos(t, x.0), x)),
{
    let k = insert_pos(t, x.0);
    lemma_insert_pos_split(t, x.0);
    let n = t.insert(k, x);
    assert forall|i: int, j: int| 0 <= i < j < n.len() implies !lex_lt(#[trigger] n[j].0, #[trigger] n[i].0) by {
        if j < k {
            assert(n[i] == t[i] && n[j] == t[j]);
        } else if j == k {
            assert(n[i] == t[i] && n[j] == x);
        } else if i < k {
            assert(n[i] == t[i] && n[j] == t[j - 1]);
        } else if i == k {
            assert(n[i] == x && n[j] == t[j - 1]);
            assert(lex_lt(x.0, t[k].0));
            if lex_lt(t[j - 1].0, x.0) {
                lemma_lex_transitive(t[j - 1].0, x.0, t[k].0);
                if j - 1 == k {
                    lemma_lex_irreflexive(t[k].0);
                }
            }
        } else {
            assert(n[i] == t[i - 1] && n[j] == t[j - 1]);
        }
    }
}

proof fn lemma_sort_sorted(s: Seq<(Seq<char>, GitFileStatus)>)
    ensures
        sorted_by_path(sort_by_path(s)),
    decreases s.len(),
{
    if s.len() > 0 {
        lemma_sort_sorted(s.drop_last());
        lemma_insert_sorted(sort_by_path(s.drop_last()), s.last());
    }
}

/// Patching leaves the list as it was when nothing differs and the sizes
/// agree; otherwise the entries come out sorted by path.
pub proof fn law_patch_result_sorted(cur: Seq<(Seq<char>, GitFileStatus)>, inc: Seq<(Seq<char>, GitFileStatus)>)
    ensures
        spec_changed(cur, inc).len() == 0 && spec_removed(cur, inc).len() == 0 && cur.len() == inc.len() ==> spec_patch_result(
            cur,
            inc,
        ) == cur,
        !(spec_changed(cur, inc).len() == 0 && spec_removed(cur, inc).len() == 0 && cur.len() == inc.len())
            ==> sorted_by_path(spec_patch_result(cur, inc)),
{
    lemma_sort_sorted(apply_changes(without_paths(cur, spec_removed(cur, inc)), spec_changed(cur, inc)));
}

} // verus!
