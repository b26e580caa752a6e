//! Scrolling arithmetic shared by the list panes.
use vstd::prelude::*;
use vstd::arithmetic::div_mod::{
    lemma_add_mod_noop, lemma_mod_add_multiples_vanish, lemma_small_mod, lemma_sub_mod_noop,
};

verus! {

/// First visible row that keeps `row` on screen, moving the view as little
/// as possible from `offset`; an empty viewport scrolls to the top.
pub open spec fn spec_scroll_offset_for_row(row: nat, offset: nat, viewport: nat) -> nat {
    let end = if offset + viewport > usize::MAX { usize::MAX as nat } else { offset + viewport };
    if viewport == 0 {
        0
    } else if row < offset {
        row
    } else if row >= end {
        (row - (viewport - 1)) as nat
    } else {
        offset
    }
}

/// Scroll offset after selecting `row` in a list viewed from `offset`.
pub fn scroll_offset_for_row(row: usize, offset: usize, viewport_rows: usize) -> (r: usize)
    ensures
        r == spec_scroll_offset_for_row(row as nat, offset as nat, viewport_rows as nat),
{
    if viewport_rows == 0 {
        return 0;
    }
    if row < offset {
        row
    } else if row >= offset.saturating_add(viewport_rows) {
        row.saturating_sub(viewport_rows.saturating_sub(1))
    } else {
        offset
    }
}

/// Index reached from `cur` after `delta` steps in a ring of `len` items.
pub open spec fn ring_index(cur: int, delta: int, len: int) -> int {
    (cur + delta) % len
}

/// Moves `cur` by `delta` positions around a ring of `len` items
/// (`(cur + delta).rem_euclid(len)`).
pub fn ring_move(cur: usize, delta: i32, len: usize) -> (r: usize)
    requires
        len > 0,
    ensures
        r == ring_index(cur as int, delta as int, len as int),
        r < len,
{
    let nn = len as u64;
    let p = (cur as u64) % nn;
    proof {
        lemma_add_mod_noop(cur as int, delta as int, len as int);
        lemma_small_mod(p as nat, len as nat);
        lemma_add_mod_noop(p as int, delta as int, len as int);
    }
    let m: u64;
    if delta >= 0 {
        let mag = (delta as u64) % nn;
        m = if mag < nn - p { p + mag } else { mag - (nn - p) };
        proof {
            if mag < nn - p {
                lemma_small_mod((p + mag) as nat, len as nat);
            } else {
                lemma_mod_add_multiples_vanish(m as int, len as int);
                lemma_small_mod(m as nat, len as nat);
            }
        }
    } else {
        let a = (0i64 - delta as i64) as u64;
        let mag = a % nn;
        m = if mag <= p { p - mag } else { p + (nn - mag) };
        proof {
            lemma_sub_mod_noop(p as int, a as int, len as int);
            assert(p as int + delta as int == p as int - a as int);
            if mag <= p {
                lemma_small_mod((p - mag) as nat, len as nat);
            } else {
                lemma_mod_add_multiples_vanish(p as int - mag as int, len as int);
                lemma_small_mod(m as nat, len as nat);
            }
        }
    }
    m as usize
}

/// `v` clamped into `[lo, hi]`.
pub open spec fn clamp_int(v: int, lo: int, hi: int) -> int {
    if v < lo {
        lo
    } else if v > hi {
        hi
    } else {
        v
    }
}

/// `cur + delta` clamped to `[0, len - 1]` for a non-empty list.
pub fn clamp_move(cur: usize, delta: i32, len: usize) -> (r: usize)
    requires
        len > 0,
    ensures
        r == clamp_int(cur + delta, 0, len - 1),
        r < len,
{
    if delta >= 0 {
        let d = delta as usize;
        if cur >= len - 1 || d >= (len - 1) - cur {
            len - 1
        } else {
            cur + d
        }
    } else {
        let d = (0i64 - delta as i64) as usize;
        if d >= cur {
            0
        } else {
            let v = cur - d;
            if v > len - 1 { len - 1 } else { v }
        }
    }
}

/// Selecting a row that is already visible leaves the view where it is,
/// and after any selection the selected row is visible.
pub proof fn law_selected_row_visible(row: nat, offset: nat, viewport: nat)
    requires
        viewport > 0,
        offset + viewport <= usize::MAX,
    ensures
        offset <= row < offset + viewport ==> spec_scroll_offset_for_row(row, offset, viewport) == offset,
        ({
            let o = spec_scroll_offset_for_row(row, offset, viewport);
            o <= row < o + viewport
        }),
{
}

} // verus!
