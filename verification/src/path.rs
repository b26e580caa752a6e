//! Paths as strings: joining, final component and extension, as `std::path`
//! computes them for `/`-separated paths.
use vstd::prelude::*;

use crate::text::{push_chars, split_chars, split_pieces, str_chars, string_from_chars, lemma_split_pieces_len};

verus! {

/// `base.join(rel)`: an absolute `rel` replaces `base`; otherwise a `/` is put
/// between them unless `base` is empty or already ends with one.
pub open spec fn spec_path_join(base: Seq<char>, rel: Seq<char>) -> Seq<char> {
    if rel.len() > 0 && rel[0] == '/' {
        rel
    } else if base.len() == 0 {
        rel
    } else if base.last() == '/' {
        base + rel
    } else {
        base + seq!['/'] + rel
    }
}

/// Joins two paths (`Path::join`).
pub fn path_join(base: &str, rel: &str) -> (r: String)
    ensures
        r@ == spec_path_join(base@, rel@),
{
    let b = str_chars(base);
    let r = str_chars(rel);
    if r.len() > 0 && r[0] == '/' {
        return string_from_chars(r.as_slice());
    }
    let mut out = string_from_chars(b.as_slice());
    if b.len() > 0 && b[b.len() - 1] != '/' {
        crate::text::push_char(&mut out, '/');
    }
    push_chars(&mut out, r.as_slice());
    proof {
        if b@.len() > 0 && b@.last() != '/' {
            assert(out@ =~= base@ + seq!['/'] + rel@);
        } else {
            assert(out@ =~= base@ + rel@);
        }
    }
    out
}

/// Whether a path segment names a component (is neither empty nor `.`).
pub open spec fn is_named_segment(seg: Seq<char>) -> bool {
    seg.len() > 0 && seg != seq!['.']
}

/// The last segment that names a component.
pub open spec fn last_named(segs: Seq<Seq<char>>) -> Option<Seq<char>>
    decreases segs.len(),
{
    if segs.len() == 0 {
        None
    } else if is_named_segment(segs.last()) {
        Some(segs.last())
    } else {
        last_named(segs.drop_last())
    }
}

/// `Path::file_name`: the last component, unless it is `..` or there is none.
pub open spec fn spec_file_name(p: Seq<char>) -> Option<Seq<char>> {
    match last_named(split_pieces(p, '/')) {
        Some(name) => if name == seq!['.', '.'] {
            None
        } else {
            Some(name)
        },
        None => None,
    }
}

/// Position of the last `.` in `s`, if any.
pub open spec fn last_dot(s: Seq<char>) -> Option<int>
    decreases s.len(),
{
    if s.len() == 0 {
        None
    } else if s.last() == '.' {
        Some(s.len() - 1)
    } else {
        last_dot(s.drop_last())
    }
}

/// `Path::extension`: what follows the last `.` of the file name, when that
/// dot is not the first character.
pub open spec fn spec_extension(p: Seq<char>) -> Option<Seq<char>> {
    match spec_file_name(p) {
        Some(name) => match last_dot(name) {
            Some(i) => if i > 0 {
                Some(name.skip(i + 1))
            } else {
                None
            },
            None => None,
        },
        None => None,
    }
}

fn is_dot_dot(s: &[char]) -> (r: bool)
    ensures
        r == (s@ == seq!['.', '.']),
{
    if s.len() == 2 && s[0] == '.' && s[1] == '.' {
        assert(s@ =~= seq!['.', '.']);
        true
    } else {
        false
    }
}

/// Final component of a path as characters.
pub fn file_name_chars(p: &[char]) -> (r: Option<Vec<char>>)
    ensures
        match r {
            Some(v) => spec_file_name(p@) == Some(v@),
            None => spec_file_name(p@) is None,
        },
{
    let segs = split_chars(p, '/');
    let ghost all = split_pieces(p@, '/');
    let mut n = segs.len();
    proof {
        assert(segs@.len() == all.len());
        assert(all.take(n as int) =~= all);
    }
    while n > 0
        invariant
            n <= segs@.len(),
            all == split_pieces(p@, '/'),
            segs@.len() == all.len(),
            forall|k: int| 0 <= k < segs@.len() ==> #[trigger] segs@[k]@ == all[k],
            last_named(all) == last_named(all.take(n as int)),
        decreases n,
    {
        let seg = &segs[n - 1];
        assert(seg@ == all[n - 1]);
        assert(all.take(n as int).last() == all[n - 1]);
        assert(all.take(n as int).drop_last() =~= all.take(n - 1));
        let named = seg.len() > 0 && !(seg.len() == 1 && seg[0] == '.');
        proof {
            if seg@.len() == 1 && seg@[0] == '.' {
                assert(seg@ =~= seq!['.']);
            }
            if seg@ == seq!['.'] {
                assert(seg@.len() == 1);
            }
        }
        if named {
            assert(is_named_segment(seg@));
            assert(last_named(all) == Some(seg@));
            if is_dot_dot(seg.as_slice()) {
                return None;
            }
            let mut out: Vec<char> = Vec::new();
            let mut k: usize = 0;
            while k < seg.len()
                invariant
                    k <= seg@.len(),
                    out@ == seg@.take(k as int),
                decreases seg.len() - k,
            {
                out.push(seg[k]);
                k = k + 1;
                assert(out@ =~= seg@.take(k as int));
            }
            assert(seg@.take(seg@.len() as int) =~= seg@);
            return Some(out);
        }
        n = n - 1;
    }
    None
}

/// Final component of a path (`Path::file_name`).
pub fn file_name(path: &str) -> (r: Option<String>)
    ensures
        match r {
            Some(s) => spec_file_name(path@) == Some(s@),
            None => spec_file_name(path@) is None,
        },
{
    let p = str_chars(path);
    match file_name_chars(p.as_slice()) {
        Some(v) => Some(string_from_chars(v.as_slice())),
        None => None,
    }
}

/// Extension of the final component (`Path::extension`).
pub fn extension(path: &str) -> (r: Option<String>)
    ensures
        match r {
            Some(s) => spec_extension(path@) == Some(s@),
            None => spec_extension(path@) is None,
        },
{
    let p = str_chars(path);
    let name = match file_name_chars(p.as_slice()) {
        Some(v) => v,
        None => return None,
    };
    let mut i = name.len();
    proof {
        assert(name@.take(i as int) =~= name@);
    }
    while i > 0
        invariant
            i <= name@.len(),
            spec_file_name(path@) == Some(name@),
            last_dot(name@) == last_dot(name@.take(i as int)),
        decreases i,
    {
        assert(name@.take(i as int).drop_last() =~= name@.take(i - 1));
        assert(name@.take(i as int).last() == name@[i - 1]);
        if name[i - 1] == '.' {
            if i - 1 == 0 {
                return None;
            }
            let mut out: Vec<char> = Vec::new();
            let mut k: usize = i;
            while k < name.len()
                invariant
                    i <= k <= name@.len(),
                    out@ == name@.subrange(i as int, k as int),
                decreases name.len() - k,
            {
                out.push(name[k]);
                k = k + 1;
                assert(out@ =~= name@.subrange(i as int, k as int));
            }
            assert(out@ =~= name@.skip(i as int));
            return Some(string_from_chars(out.as_slice()));
        }
        i = i - 1;
    }
    assert(name@.take(0) =~= Seq::<char>::empty());
    None
}

/// What `Path::strip_prefix` leaves of `path` below `base`, rendered as a
/// string; `None` when `base` is not a component-wise prefix of `path`.
pub uninterp spec fn path_strip_prefix(path: Seq<char>, base: Seq<char>) -> Option<Seq<char>>;

/// Calls `Path::strip_prefix`; the remainder is a path built from valid
/// UTF-8, so its lossy rendering is exact. Nothing is claimed of the
/// component matching itself beyond the result being determined by the two
/// paths.
#[verifier::external_body]
pub(crate) fn strip_path_prefix(path: &str, base: &str) -> (r: Option<String>)
    ensures
        match r {
            Some(s) => path_strip_prefix(path@, base@) == Some(s@),
            None => path_strip_prefix(path@, base@) is None,
        },
{
    std::path::Path::new(path).strip_prefix(base).ok().map(|rest| rest.to_string_lossy().into_owned())
}

} // verus!
