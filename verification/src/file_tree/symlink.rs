//! Guard against expanding a directory that lies too deep or inside a
//! symlink loop.
use vstd::prelude::*;

use crate::text::{decimal, decimal_string, push_str, str_chars, str_eq, string_from_chars, string_views};

verus! {

/// Deepest ancestor walk before expansion is refused.
pub const MAX_EXPAND_DEPTH: usize = 40;

/// What `Path::parent` gives for a path: the path without its last
/// component, or nothing for a root or an empty path.
pub uninterp spec fn path_parent(p: Seq<char>) -> Option<Seq<char>>;

/// Calls `Path::parent`. The parent of a `str` path is again valid UTF-8,
/// so the rendering is exact; the result is a function of the path alone.
#[verifier::external_body]
fn parent_of(path: &str) -> (r: Option<String>)
    ensures
        match r {
            Some(q) => path_parent(path@) == Some(q@),
            None => path_parent(path@) is None,
        },
{
    match std::path::Path::new(path).parent() {
        Some(q) => Some(q.to_string_lossy().into_owned()),
        None => None,
    }
}

/// Calls `Path::canonicalize`, falling back to the path itself when the
/// file system cannot resolve it. What comes back depends on the disk, so
/// nothing is claimed of it.
#[verifier::external_body]
fn canonical_or_same(path: &str) -> (r: String) {
    match std::path::Path::new(path).canonicalize() {
        Ok(c) => c.to_string_lossy().into_owned(),
        Err(_) => path.to_string(),
    }
}

/// Paths walked from `p` towards `root` through parents, at most `fuel` of
/// them, stopping after `root` or at a path without parent.
pub open spec fn ancestor_walk(p: Seq<char>, root: Seq<char>, fuel: nat) -> Seq<Seq<char>>
    decreases fuel,
{
    if fuel == 0 {
        Seq::empty()
    } else if p == root {
        seq![p]
    } else {
        match path_parent(p) {
            Some(q) => seq![p] + ancestor_walk(q, root, (fuel - 1) as nat),
            None => seq![p],
        }
    }
}

/// The walk the check makes: one step past the depth limit.
pub open spec fn spec_ancestor_chain(root: Seq<char>, target: Seq<char>) -> Seq<Seq<char>> {
    ancestor_walk(target, root, (MAX_EXPAND_DEPTH + 2) as nat)
}

/// The paths checked, from `target` up towards `root`.
pub fn ancestor_chain(root: &str, target: &str) -> (r: Vec<String>)
    ensures
        string_views(r@) == spec_ancestor_chain(root@, target@),
{
    let mut out: Vec<String> = Vec::new();
    let mut current = string_from_chars(str_chars(target).as_slice());
    let mut fuel: usize = MAX_EXPAND_DEPTH + 2;
    let ghost start = target@;
    assert(current@ == target@);
    while fuel > 0
        invariant
            fuel <= MAX_EXPAND_DEPTH + 2,
            string_views(out@) + ancestor_walk(current@, root@, fuel as nat) == spec_ancestor_chain(root@, target@),
        decreases fuel,
    {
        let here = current.clone();
        let ghost before = string_views(out@);
        crate::text::push_line(&mut out, here);
        if str_eq(current.as_str(), root) {
            assert(ancestor_walk(current@, root@, fuel as nat) == seq![current@]);
            assert(string_views(out@) + ancestor_walk(current@, root@, 0) =~= before + seq![current@]);
            return out;
        }
        match parent_of(current.as_str()) {
            Some(q) => {
                assert(string_views(out@) + ancestor_walk(q@, root@, (fuel - 1) as nat) =~= before + (seq![
                    current@,
                ] + ancestor_walk(q@, root@, (fuel - 1) as nat)));
                current = q;
                fuel = fuel - 1;
            },
            None => {
                assert(string_views(out@) =~= before + seq![current@]);
                return out;
            },
        }
    }
    assert(string_views(out@) + ancestor_walk(current@, root@, 0) =~= string_views(out@));
    out
}

/// "directory depth exceeds 40 under `root`".
pub open spec fn depth_message(root: Seq<char>) -> Seq<char> {
    "directory depth exceeds "@ + decimal(MAX_EXPAND_DEPTH as nat) + " under "@ + root
}

/// "symlink loop detected at `path`".
pub open spec fn loop_message(path: Seq<char>) -> Seq<char> {
    "symlink loop detected at "@ + path
}

/// Walking the chain from position `d`: past the depth limit the walk is
/// refused; a path whose canonical form was met before is a loop.
pub open spec fn verdict_from(
    root: Seq<char>,
    chain: Seq<Seq<char>>,
    canonical: Seq<Seq<char>>,
    d: int,
) -> Option<Seq<char>>
    decreases chain.len() - d,
{
    if d < 0 || d >= chain.len() {
        None
    } else if d > MAX_EXPAND_DEPTH {
        Some(depth_message(root))
    } else if canonical.take(d).contains(canonical[d]) {
        Some(loop_message(chain[d]))
    } else {
        verdict_from(root, chain, canonical, d + 1)
    }
}

/// Decides from the walked paths and their canonical forms whether the
/// expansion must be refused, and why.
pub fn symlink_loop_verdict(root: &str, chain: &Vec<String>, canonical: &Vec<String>) -> (r: Option<String>)
    requires
        canonical@.len() >= chain@.len() || canonical@.len() > MAX_EXPAND_DEPTH,
    ensures
        match r {
            Some(m) => verdict_from(root@, string_views(chain@), string_views(canonical@), 0) == Some(m@),
            None => verdict_from(root@, string_views(chain@), string_views(canonical@), 0) is None,
        },
{
    let ghost cv = string_views(chain@);
    let ghost kv = string_views(canonical@);
    let mut d: usize = 0;
    while d < chain.len()
        invariant
            d <= chain@.len(),
            cv == string_views(chain@),
            kv == string_views(canonical@),
            canonical@.len() >= chain@.len() || canonical@.len() > MAX_EXPAND_DEPTH,
            verdict_from(root@, cv, kv, 0) == verdict_from(root@, cv, kv, d as int),
            d <= MAX_EXPAND_DEPTH + 1,
        decreases chain.len() - d,
    {
        if d > MAX_EXPAND_DEPTH {
            let mut m = String::new();
            push_str(&mut m, "directory depth exceeds ");
            push_str(&mut m, decimal_string(MAX_EXPAND_DEPTH as u64).as_str());
            push_str(&mut m, " under ");
            push_str(&mut m, root);
            return Some(m);
        }
        let mut seen = false;
        let mut k: usize = 0;
        while k < d
            invariant
                k <= d < canonical@.len(),
                kv == string_views(canonical@),
                seen == (exists|j: int| 0 <= j < k && #[trigger] kv[j] == kv[d as int]),
            decreases d - k,
        {
            if str_eq(canonical[k].as_str(), canonical[d].as_str()) {
                assert(kv[k as int] == kv[d as int]);
                seen = true;
            }
            k = k + 1;
        }
        proof {
            if seen {
                let j = choose|j: int| 0 <= j < d && #[trigger] kv[j] == kv[d as int];
                assert(kv.take(d as int)[j] == kv[d as int]);
            }
            if kv.take(d as int).contains(kv[d as int]) {
                let j = choose|j: int| 0 <= j < d && kv.take(d as int)[j] == kv[d as int];
                assert(kv[j] == kv[d as int]);
            }
        }
        if seen {
            let mut m = String::new();
            push_str(&mut m, "symlink loop detected at ");
            push_str(&mut m, chain[d].as_str());
            return Some(m);
        }
        d = d + 1;
    }
    None
}

/// Returns why expanding `target` must be refused: the walk up to `root`
/// passes the depth limit, or a path on it resolves to one already met.
/// Canonical forms come from the file system, so the result is the verdict
/// on the walk for some canonical forms, one per path looked at.
pub fn detect_symlink_loop(root: &str, target: &str) -> (r: Option<String>)
    ensures
        exists|canonical: Seq<Seq<char>>|
            (canonical.len() >= spec_ancestor_chain(root@, target@).len() || canonical.len() > MAX_EXPAND_DEPTH)
                && match r {
                Some(m) => verdict_from(root@, spec_ancestor_chain(root@, target@), canonical, 0) == Some(m@),
                None => verdict_from(root@, spec_ancestor_chain(root@, target@), canonical, 0) is None,
            },
{
    let chain = ancestor_chain(root, target);
    let mut canonical: Vec<String> = Vec::new();
    let mut i: usize = 0;
    while i < chain.len() && i <= MAX_EXPAND_DEPTH
        invariant
            i <= chain@.len(),
            canonical@.len() == i,
        decreases chain.len() - i,
    {
        canonical.push(canonical_or_same(chain[i].as_str()));
        i = i + 1;
    }
    let r = symlink_loop_verdict(root, &chain, &canonical);
    proof {
        assert(string_views(chain@) == spec_ancestor_chain(root@, target@));
    }
    r
}

} // verus!
