//! ANSI escape handling for terminal text.
use vstd::prelude::*;

use crate::text::{push_char, str_chars};

verus! {

/// Scanner state while removing escape sequences.
pub enum AnsiMode {
    /// Ordinary text.
    Text,
    /// Just after an escape character.
    Escape,
    /// Inside a control sequence, until its final byte.
    Csi,
}

/// Final characters of a control sequence: `@` through `~`.
pub open spec fn is_csi_final(c: char) -> bool {
    0x40 <= (c as u32) <= 0x7e
}

/// Visible characters of `s` when scanning starts in `mode`: an escape
/// character is dropped; when followed by `[`, everything up to and including
/// the next character in `@..=~` is dropped too.
pub open spec fn strip_from(s: Seq<char>, mode: AnsiMode) -> Seq<char>
    decreases s.len(), (match mode {
        AnsiMode::Text => 0int,
        AnsiMode::Escape => 1int,
        AnsiMode::Csi => 0int,
    }),
{
    if s.len() == 0 {
        Seq::empty()
    } else {
        match mode {
            AnsiMode::Text => if s[0] == '\x1b' {
                strip_from(s.drop_first(), AnsiMode::Escape)
            } else {
                seq![s[0]] + strip_from(s.drop_first(), AnsiMode::Text)
            },
            AnsiMode::Escape => if s[0] == '[' {
                strip_from(s.drop_first(), AnsiMode::Csi)
            } else {
                strip_from(s, AnsiMode::Text)
            },
            AnsiMode::Csi => if is_csi_final(s[0]) {
                strip_from(s.drop_first(), AnsiMode::Text)
            } else {
                strip_from(s.drop_first(), AnsiMode::Csi)
            },
        }
    }
}

/// Text with ANSI control sequences removed.
pub open spec fn spec_strip_ansi(s: Seq<char>) -> Seq<char> {
    strip_from(s, AnsiMode::Text)
}

fn mode_code(m: &AnsiMode) -> (r: u8)
    ensures
        r == (match *m {
            AnsiMode::Text => 0u8,
            AnsiMode::Escape => 1u8,
            AnsiMode::Csi => 2u8,
        }),
{
    match m {
        AnsiMode::Text => 0,
        AnsiMode::Escape => 1,
        AnsiMode::Csi => 2,
    }
}

/// Removes escape sequences from a character slice.
fn strip_chars(v: &[char]) -> (out: Vec<char>)
    ensures
        out@ == spec_strip_ansi(v@),
{
    let mut out: Vec<char> = Vec::new();
    let mut mode = AnsiMode::Text;
    let mut i: usize = 0;
    assert(v@.skip(0) =~= v@);
    while i < v.len()
        invariant
            i <= v@.len(),
            spec_strip_ansi(v@) == out@ + strip_from(v@.skip(i as int), mode),
        decreases v.len() - i,
    {
        let c = v[i];
        let ghost t = v@.skip(i as int);
        assert(t[0] == c);
        assert(t.drop_first() =~= v@.skip(i + 1));
        proof {
            reveal_with_fuel(strip_from, 3);
        }
        let m = mode_code(&mode);
        if m == 0 {
            if c == '\x1b' {
                mode = AnsiMode::Escape;
            } else {
                out.push(c);
                assert(out@ + strip_from(v@.skip(i + 1), AnsiMode::Text) =~= old_plus(
                    out@.drop_last(),
                    c,
                    strip_from(v@.skip(i + 1), AnsiMode::Text),
                ));
            }
        } else if m == 1 {
            if c == '[' {
                mode = AnsiMode::Csi;
            } else if c == '\x1b' {
                mode = AnsiMode::Escape;
            } else {
                out.push(c);
                mode = AnsiMode::Text;
                assert(out@ + strip_from(v@.skip(i + 1), AnsiMode::Text) =~= old_plus(
                    out@.drop_last(),
                    c,
                    strip_from(v@.skip(i + 1), AnsiMode::Text),
                ));
            }
        } else {
            let cv = #[verifier::truncate] (c as u32);
            if 0x40 <= cv && cv <= 0x7e {
                mode = AnsiMode::Text;
            }
        }
        i = i + 1;
    }
    assert(v@.skip(i as int).len() == 0);
    assert(out@ + Seq::<char>::empty() =~= out@);
    out
}

spec fn old_plus(a: Seq<char>, c: char, rest: Seq<char>) -> Seq<char> {
    a + (seq![c] + rest)
}

/// Number of characters that remain visible once escape sequences are removed.
pub fn visible_width(text: &str) -> (r: usize)
    ensures
        r == spec_strip_ansi(text@).len(),
{
    let v = str_chars(text);
    let out = strip_chars(v.as_slice());
    out.len()
}

/// `text` without ANSI escape sequences.
pub fn strip_ansi(text: &str) -> (r: String)
    ensures
        r@ == spec_strip_ansi(text@),
{
    let v = str_chars(text);
    let out = strip_chars(v.as_slice());
    let mut s = String::new();
    let mut i: usize = 0;
    while i < out.len()
        invariant
            i <= out@.len(),
            s@ == out@.take(i as int),
        decreases out.len() - i,
    {
        push_char(&mut s, out[i]);
        i = i + 1;
        assert(s@ =~= out@.take(i as int));
    }
    assert(out@.take(out@.len() as int) =~= out@);
    s
}

/// Text without escape characters is its own stripped form.
pub proof fn law_strip_identity_without_escapes(s: Seq<char>)
    requires
        !s.contains('\x1b'),
    ensures
        spec_strip_ansi(s) == s,
    decreases s.len(),
{
    if s.len() > 0 {
        assert(!s.drop_first().contains('\x1b')) by {
            if s.drop_first().contains('\x1b') {
                let k = choose|k: int| 0 <= k < s.drop_first().len() && s.drop_first()[k] == '\x1b';
                assert(s[k + 1] == '\x1b');
            }
        }
        assert(s[0] != '\x1b') by {
            if s[0] == '\x1b' {
                assert(s.contains('\x1b'));
            }
        }
        law_strip_identity_without_escapes(s.drop_first());
        assert(seq![s[0]] + s.drop_first() =~= s);
    }
}

/// The output of stripping never contains an escape character.
pub proof fn law_strip_removes_escapes(s: Seq<char>, mode: AnsiMode)
    ensures
        !strip_from(s, mode).contains('\x1b'),
    decreases s.len(), (match mode {
        AnsiMode::Text => 0int,
        AnsiMode::Escape => 1int,
        AnsiMode::Csi => 0int,
    }),
{
    if s.len() > 0 {
        match mode {
            AnsiMode::Text => {
                if s[0] == '\x1b' {
                    law_strip_removes_escapes(s.drop_first(), AnsiMode::Escape);
                } else {
                    law_strip_removes_escapes(s.drop_first(), AnsiMode::Text);
                    let r = strip_from(s.drop_first(), AnsiMode::Text);
                    assert forall|k: int| 0 <= k < (seq![s[0]] + r).len() implies (seq![s[0]]
                        + r)[k] != '\x1b' by {
                        if k > 0 {
                            assert((seq![s[0]] + r)[k] == r[k - 1]);
                            assert(r.contains(r[k - 1]));
                        }
                    }
                }
            },
            AnsiMode::Escape => {
                if s[0] == '[' {
                    law_strip_removes_escapes(s.drop_first(), AnsiMode::Csi);
                } else {
                    law_strip_removes_escapes(s, AnsiMode::Text);
                }
            },
            AnsiMode::Csi => {
                if is_csi_final(s[0]) {
                    law_strip_removes_escapes(s.drop_first(), AnsiMode::Text);
                } else {
                    law_strip_removes_escapes(s.drop_first(), AnsiMode::Csi);
                }
            },
        }
    }
}

/// Stripping is idempotent: stripping already stripped text changes nothing.
pub proof fn law_strip_idempotent(s: Seq<char>)
    ensures
        spec_strip_ansi(spec_strip_ansi(s)) == spec_strip_ansi(s),
{
    law_strip_removes_escapes(s, AnsiMode::Text);
    law_strip_identity_without_escapes(spec_strip_ansi(s));
}

} // verus!
