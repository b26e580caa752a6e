//! Repository `.env` files: reading `KEY=VALUE` lines and choosing what
//! agent processes inherit.
use vstd::prelude::*;

use crate::keyed::{
    found_at, has_key, keyed_map, keys_unique, lemma_keyed_absent, lemma_keyed_lookup, lemma_keyed_push,
    lemma_keyed_update,
};
use crate::text::{
    is_prefix, is_ws, lines, push_str, split_lines, str_chars, str_eq, string_from_chars, trim, trim_chars, trim_end,
    trim_start,
};

verus! {

/// Variables forwarded to agent processes when the parent does not set them.
pub const AGENT_ENV_KEYS: [&'static str; 15] = [
    "DATABASE_URL",
    "OPENAI_API_KEY",
    "EMBED_BACKEND",
    "OPENAI_EMBED_MODEL",
    "OPENAI_EMBED_DIMENSIONS",
    "OLLAMA_URL",
    "OLLAMA_MODEL",
    "OLLAMA_EMBED_MODEL",
    "GITHUB_TOKEN",
    "GITHUB_REPO",
    "GITHUB_API_URL",
    "GIT_REPO_PATH",
    "GITEA_TOKEN",
    "GITEA_URL",
    "GITEA_REPO",
];

/// A variable list is keyed by name.
pub open spec fn var_key() -> spec_fn((String, String)) -> Seq<char> {
    |p: (String, String)| p.0@
}

/// Names to values of a variable list.
pub open spec fn vars_view(v: Seq<(String, String)>) -> Map<Seq<char>, Seq<char>> {
    keyed_map(v, var_key()).map_values(|p: (String, String)| p.1@)
}

/// `s` without leading copies of `c`.
pub open spec fn strip_start_char(s: Seq<char>, c: char) -> Seq<char>
    decreases s.len(),
{
    if s.len() > 0 && s[0] == c {
        strip_start_char(s.drop_first(), c)
    } else {
        s
    }
}

/// `s` without trailing copies of `c`.
pub open spec fn strip_end_char(s: Seq<char>, c: char) -> Seq<char>
    decreases s.len(),
{
    if s.len() > 0 && s.last() == c {
        strip_end_char(s.drop_last(), c)
    } else {
        s
    }
}

/// `s` without copies of `c` at either end (`str::trim_matches(c)`).
pub open spec fn strip_char(s: Seq<char>, c: char) -> Seq<char> {
    strip_end_char(strip_start_char(s, c), c)
}

/// Position of the first `=`.
pub open spec fn first_eq(s: Seq<char>) -> Option<int> {
    if exists|i: int| 0 <= i < s.len() && s[i] == '=' && forall|j: int| 0 <= j < i ==> s[j] != '=' {
        Some(choose|i: int| 0 <= i < s.len() && s[i] == '=' && forall|j: int| 0 <= j < i ==> s[j] != '=')
    } else {
        None
    }
}

/// The assignment a line makes: trimmed, not blank, not a `#` comment,
/// split at the first `=`, with a non-blank trimmed name and a value that
/// is trimmed, unquoted and not empty.
pub open spec fn parse_env_line(raw: Seq<char>) -> Option<(Seq<char>, Seq<char>)> {
    let line = trim(raw);
    if line.len() == 0 || line[0] == '#' {
        None
    } else {
        match first_eq(line) {
            None => None,
            Some(i) => {
                let key = trim(line.take(i));
                let value = strip_char(strip_char(trim(line.skip(i + 1)), '"'), '\'');
                if key.len() == 0 || value.len() == 0 {
                    None
                } else {
                    Some((key, value))
                }
            },
        }
    }
}

/// Assignments of the lines taken in order; a later one for a name wins.
pub open spec fn dotenv_from_lines(ls: Seq<Seq<char>>) -> Map<Seq<char>, Seq<char>>
    decreases ls.len(),
{
    if ls.len() == 0 {
        Map::empty()
    } else {
        let m = dotenv_from_lines(ls.drop_last());
        match parse_env_line(ls.last()) {
            Some((k, v)) => m.insert(k, v),
            None => m,
        }
    }
}

/// What a `.env` text assigns.
pub open spec fn spec_parse_dotenv(content: Seq<char>) -> Map<Seq<char>, Seq<char>> {
    dotenv_from_lines(lines(content))
}

fn strip_char_exec(s: &[char], c: char) -> (r: Vec<char>)
    ensures
        r@ == strip_char(s@, c),
{
    let mut a: usize = 0;
    assert(s@.skip(0) =~= s@);
    while a < s.len() && s[a] == c
        invariant
            a <= s@.len(),
            strip_start_char(s@, c) == strip_start_char(s@.skip(a as int), c),
        decreases s.len() - a,
    {
        assert(s@.skip(a as int).drop_first() =~= s@.skip(a + 1));
        a = a + 1;
    }
    let ghost t = s@.skip(a as int);
    let mut b: usize = s.len();
    assert(t.take(t.len() as int) =~= t);
    while b > a && s[b - 1] == c
        invariant
            a <= b <= s@.len(),
            t == s@.skip(a as int),
            strip_end_char(t, c) == strip_end_char(t.take(b - a), c),
        decreases b,
    {
        assert(t.take(b - a).drop_last() =~= t.take(b - a - 1));
        b = b - 1;
    }
    let r = crate::text::slice_sub(s, a, b);
    proof {
        assert(strip_start_char(s@, c) == t) by {
            lemma_strip_start_stops(s@, c, a as int);
        }
        assert(r@ =~= t.take(b - a));
        lemma_strip_end_stops(t.take(b - a), c);
    }
    r
}

proof fn lemma_strip_start_stops(s: Seq<char>, c: char, a: int)
    requires
        0 <= a <= s.len(),
        strip_start_char(s, c) == strip_start_char(s.skip(a), c),
        a == s.len() || s[a] != c,
    ensures
        strip_start_char(s, c) == s.skip(a),
{
}

proof fn lemma_strip_end_stops(t: Seq<char>, c: char)
    requires
        t.len() == 0 || t.last() != c,
    ensures
        strip_end_char(t, c) == t,
{
}

/// The assignment one line makes.
fn parse_line(raw: &Vec<char>) -> (r: Option<(String, String)>)
    ensures
        match r {
            Some((k, v)) => parse_env_line(raw@) == Some((k@, v@)),
            None => parse_env_line(raw@) is None,
        },
{
    let line = trim_chars(raw.as_slice());
    if line.len() == 0 || line[0] == '#' {
        return None;
    }
    let mut i: usize = 0;
    while i < line.len() && line[i] != '='
        invariant
            i <= line@.len(),
            forall|j: int| 0 <= j < i ==> line@[j] != '=',
        decreases line.len() - i,
    {
        i = i + 1;
    }
    if i == line.len() {
        proof {
            if exists|w: int| 0 <= w < line@.len() && line@[w] == '=' && forall|j: int| 0 <= j < w ==> line@[j] != '=' {
                let w = choose|w: int| 0 <= w < line@.len() && line@[w] == '=' && forall|j: int| 0 <= j < w ==> line@[j] != '=';
                assert(line@[w] != '=');
            }
        }
        return None;
    }
    proof {
        let w = choose|w: int| 0 <= w < line@.len() && line@[w] == '=' && forall|j: int| 0 <= j < w ==> line@[j] != '=';
        if w < i {
            assert(line@[w] != '=');
        } else if w > i {
            assert(line@[i as int] != '=');
        }
        assert(first_eq(line@) == Some(i as int));
    }
    let key = trim_chars(crate::text::slice_sub(line.as_slice(), 0, i).as_slice());
    assert(line@.subrange(0, i as int) =~= line@.take(i as int));
    let value = trim_chars(crate::text::slice_sub(line.as_slice(), i + 1, line.len()).as_slice());
    assert(line@.subrange(i + 1, line@.len() as int) =~= line@.skip(i + 1));
    let value = strip_char_exec(value.as_slice(), '"');
    let value = strip_char_exec(value.as_slice(), '\'');
    if key.len() == 0 || value.len() == 0 {
        return None;
    }
    Some((string_from_chars(key.as_slice()), string_from_chars(value.as_slice())))
}

/// Sets `key` to `value` in a variable list, replacing an earlier value.
pub fn set_var(vars: &mut Vec<(String, String)>, key: String, value: String)
    requires
        keys_unique(old(vars)@, var_key()),
    ensures
        keys_unique(final(vars)@, var_key()),
        vars_view(final(vars)@) == vars_view(old(vars)@).insert(key@, value@),
{
    let ghost kv = key@;
    let ghost vv = value@;
    let mut i: usize = 0;
    while i < vars.len()
        invariant
            i <= vars@.len(),
            keys_unique(vars@, var_key()),
            vars@ == old(vars)@,
            kv == key@,
            vv == value@,
            forall|j: int| 0 <= j < i ==> vars@[j].0@ != key@,
        decreases vars.len() - i,
    {
        if str_eq(vars[i].0.as_str(), key.as_str()) {
            let pair = (key, value);
            proof {
                lemma_keyed_update(vars@, var_key(), i as int, pair);
            }
            vars.set(i, pair);
            assert(vars_view(vars@) =~= vars_view(old(vars)@).insert(kv, vv));
            return;
        }
        i = i + 1;
    }
    let pair = (key, value);
    proof {
        lemma_keyed_push(vars@, var_key(), pair);
    }
    vars.push(pair);
    assert(vars_view(vars@) =~= vars_view(old(vars)@).insert(kv, vv));
}

/// The value of `key` in a variable list.
pub fn get_var<'a>(vars: &'a Vec<(String, String)>, key: &str) -> (r: Option<&'a String>)
    requires
        keys_unique(vars@, var_key()),
    ensures
        match r {
            Some(v) => vars_view(vars@).dom().contains(key@) && v@ == vars_view(vars@)[key@],
            None => !vars_view(vars@).dom().contains(key@),
        },
{
    let mut i: usize = 0;
    while i < vars.len()
        invariant
            i <= vars@.len(),
            keys_unique(vars@, var_key()),
            forall|j: int| 0 <= j < i ==> vars@[j].0@ != key@,
        decreases vars.len() - i,
    {
        if str_eq(vars[i].0.as_str(), key) {
            proof {
                lemma_keyed_lookup(vars@, var_key(), i as int);
            }
            return Some(&vars[i].1);
        }
        i = i + 1;
    }
    proof {
        lemma_keyed_absent(vars@, var_key(), key@);
    }
    None
}

/// Parses `KEY=VALUE` lines of a `.env` text (no variable expansion).
pub fn parse_dotenv(content: &str) -> (r: Vec<(String, String)>)
    ensures
        keys_unique(r@, var_key()),
        vars_view(r@) == spec_parse_dotenv(content@),
{
    let chars = str_chars(content);
    let ls = split_lines(chars.as_slice());
    let ghost lv = lines(content@);
    let mut out: Vec<(String, String)> = Vec::new();
    assert(vars_view(out@) =~= Map::<Seq<char>, Seq<char>>::empty());
    let mut i: usize = 0;
    while i < ls.len()
        invariant
            i <= ls@.len(),
            ls@.len() == lv.len(),
            lv == lines(content@),
            forall|k: int| 0 <= k < ls@.len() ==> #[trigger] ls@[k]@ == lv[k],
            keys_unique(out@, var_key()),
            vars_view(out@) == dotenv_from_lines(lv.take(i as int)),
        decreases ls.len() - i,
    {
        proof {
            assert(lv.take(i + 1).drop_last() =~= lv.take(i as int));
            assert(lv.take(i + 1).last() == ls@[i as int]@);
        }
        match parse_line(&ls[i]) {
            Some((k, v)) => set_var(&mut out, k, v),
            None => {},
        }
        i = i + 1;
    }
    assert(lv.take(i as int) =~= lv);
    out
}

/// The forwarded names, as characters.
pub open spec fn agent_env_keys() -> Seq<Seq<char>> {
    AGENT_ENV_KEYS@.map_values(|k: &'static str| k@)
}

/// Variables taken from the `.env` assignments for the first `n` forwarded
/// names, skipping names the parent environment already sets.
pub open spec fn forwarded_vars(
    parsed: Map<Seq<char>, Seq<char>>,
    present: Seq<Seq<char>>,
    n: int,
) -> Map<Seq<char>, Seq<char>>
    decreases n,
{
    if n <= 0 {
        Map::empty()
    } else {
        let m = forwarded_vars(parsed, present, n - 1);
        let k = agent_env_keys()[n - 1];
        if !present.contains(k) && parsed.dom().contains(k) {
            m.insert(k, parsed[k])
        } else {
            m
        }
    }
}

/// The forwarded variables, with `EMBED_BACKEND=openai` added when an
/// OpenAI key is forwarded and no backend is.
pub open spec fn spec_agent_env_vars(parsed: Map<Seq<char>, Seq<char>>, present: Seq<Seq<char>>) -> Map<Seq<char>, Seq<char>> {
    let m = forwarded_vars(parsed, present, 15);
    if !m.dom().contains("EMBED_BACKEND"@) && m.dom().contains("OPENAI_API_KEY"@) && trim(m["OPENAI_API_KEY"@]).len() > 0 {
        m.insert("EMBED_BACKEND"@, "openai"@)
    } else {
        m
    }
}

fn owned(s: &str) -> (r: String)
    ensures
        r@ == s@,
{
    let mut o = String::new();
    push_str(&mut o, s);
    o
}

/// Chooses what agent processes inherit from parsed `.env` assignments,
/// given the names the parent environment already sets.
pub fn agent_env_vars(parsed: &Vec<(String, String)>, already_set: &Vec<String>) -> (r: Vec<(String, String)>)
    requires
        keys_unique(parsed@, var_key()),
    ensures
        keys_unique(r@, var_key()),
        vars_view(r@) == spec_agent_env_vars(vars_view(parsed@), already_set@.map_values(|s: String| s@)),
{
    let ghost present = already_set@.map_values(|s: String| s@);
    let mut out: Vec<(String, String)> = Vec::new();
    assert(vars_view(out@) =~= Map::<Seq<char>, Seq<char>>::empty());
    let keys = AGENT_ENV_KEYS;
    let mut i: usize = 0;
    while i < 15
        invariant
            i <= 15,
            keys@ == AGENT_ENV_KEYS@,
            keys_unique(parsed@, var_key()),
            keys_unique(out@, var_key()),
            present == already_set@.map_values(|s: String| s@),
            vars_view(out@) == forwarded_vars(vars_view(parsed@), present, i as int),
        decreases 15 - i,
    {
        let key = keys[i];
        assert(agent_env_keys()[i as int] == key@);
        let mut set_in_parent = false;
        let mut j: usize = 0;
        while j < already_set.len()
            invariant
                j <= already_set@.len(),
                set_in_parent == exists|q: int| 0 <= q < j && already_set@[q]@ == key@,
            decreases already_set.len() - j,
        {
            if str_eq(already_set[j].as_str(), key) {
                set_in_parent = true;
            }
            j = j + 1;
        }
        proof {
            if set_in_parent {
                let q = choose|q: int| 0 <= q < j && already_set@[q]@ == key@;
                assert(present[q] == key@);
            }
            if present.contains(key@) {
                let q = choose|q: int| 0 <= q < present.len() && present[q] == key@;
                assert(already_set@[q]@ == key@);
            }
        }
        if !set_in_parent {
            match get_var(parsed, key) {
                Some(v) => {
                    let val = owned(v.as_str());
                    set_var(&mut out, owned(key), val);
                },
                None => {},
            }
        }
        i = i + 1;
    }
    let has_backend = get_var(&out, "EMBED_BACKEND").is_some();
    let openai_set = match get_var(&out, "OPENAI_API_KEY") {
        Some(v) => trim_chars(str_chars(v.as_str()).as_slice()).len() > 0,
        None => false,
    };
    if !has_backend && openai_set {
        set_var(&mut out, owned("EMBED_BACKEND"), owned("openai"));
    }
    out
}


/// How many `=` characters `s` holds.
pub open spec fn eq_count(s: Seq<char>) -> nat
    decreases s.len(),
{
    if s.len() == 0 {
        0
    } else {
        eq_count(s.drop_last()) + if s.last() == '=' {
            1nat
        } else {
            0nat
        }
    }
}

proof fn lemma_eq_count_concat(a: Seq<char>, b: Seq<char>)
    ensures
        eq_count(a + b) == eq_count(a) + eq_count(b),
    decreases b.len(),
{
    if b.len() == 0 {
        assert(a + b =~= a);
    } else {
        assert((a + b).drop_last() =~= a + b.drop_last());
        lemma_eq_count_concat(a, b.drop_last());
    }
}

proof fn lemma_eq_count_zero(s: Seq<char>)
    ensures
        eq_count(s) == 0 <==> forall|m: int| 0 <= m < s.len() ==> #[trigger] s[m] != '=',
    decreases s.len(),
{
    if s.len() > 0 {
        let p = s.drop_last();
        lemma_eq_count_zero(p);
        if eq_count(s) == 0 {
            assert forall|m: int| 0 <= m < s.len() implies #[trigger] s[m] != '=' by {
                if m < s.len() - 1 {
                    assert(p[m] == s[m]);
                }
            }
        }
        if forall|m: int| 0 <= m < s.len() ==> #[trigger] s[m] != '=' {
            assert(s[s.len() - 1] != '=');
            assert forall|m: int| 0 <= m < p.len() implies #[trigger] p[m] != '=' by {
                assert(s[m] == p[m]);
            }
        }
    }
}

proof fn lemma_eq_count_drop_first(s: Seq<char>)
    requires
        s.len() > 0,
        s[0] != '=',
    ensures
        eq_count(s) == eq_count(s.drop_first()),
{
    let one = seq![s[0]];
    assert(s =~= one + s.drop_first());
    lemma_eq_count_concat(one, s.drop_first());
    assert(one.drop_last() =~= Seq::<char>::empty());
    assert(eq_count(one.drop_last()) == 0);
    assert(eq_count(one) == 0);
}

proof fn lemma_eq_count_trim_start(s: Seq<char>)
    ensures
        eq_count(trim_start(s)) == eq_count(s),
    decreases s.len(),
{
    if s.len() > 0 && is_ws(s[0]) {
        assert(s[0] != '=');
        lemma_eq_count_drop_first(s);
        lemma_eq_count_trim_start(s.drop_first());
    }
}

proof fn lemma_eq_count_trim_end(s: Seq<char>)
    ensures
        eq_count(trim_end(s)) == eq_count(s),
    decreases s.len(),
{
    if s.len() > 0 && is_ws(s.last()) {
        assert(s.last() != '=');
        lemma_eq_count_trim_end(s.drop_last());
    }
}

proof fn lemma_eq_count_trim(s: Seq<char>)
    ensures
        eq_count(trim(s)) == eq_count(s),
{
    lemma_eq_count_trim_start(s);
    lemma_eq_count_trim_end(trim_start(s));
}

proof fn lemma_eq_count_strip(s: Seq<char>, c: char)
    requires
        c != '=',
    ensures
        eq_count(strip_char(s, c)) == eq_count(s),
{
    lemma_eq_count_strip_start(s, c);
    lemma_eq_count_strip_end(strip_start_char(s, c), c);
}

proof fn lemma_eq_count_strip_start(s: Seq<char>, c: char)
    requires
        c != '=',
    ensures
        eq_count(strip_start_char(s, c)) == eq_count(s),
    decreases s.len(),
{
    if s.len() > 0 && s[0] == c {
        lemma_eq_count_drop_first(s);
        lemma_eq_count_strip_start(s.drop_first(), c);
    }
}

proof fn lemma_eq_count_strip_end(s: Seq<char>, c: char)
    requires
        c != '=',
    ensures
        eq_count(strip_end_char(s, c)) == eq_count(s),
    decreases s.len(),
{
    if s.len() > 0 && s.last() == c {
        lemma_eq_count_strip_end(s.drop_last(), c);
    }
}

/// A line that makes an assignment splits at its first `=`: the name holds
/// no `=`, and every other `=` of the line is kept in the value.
pub proof fn law_assignment_splits_at_first_eq(raw: Seq<char>, k: Seq<char>, v: Seq<char>)
    requires
        parse_env_line(raw) == Some((k, v)),
    ensures
        forall|m: int| 0 <= m < k.len() ==> #[trigger] k[m] != '=',
        eq_count(raw) == eq_count(v) + 1,
{
    let line = trim(raw);
    let i = first_eq(line)->0;
    assert(0 <= i < line.len() && line[i] == '=' && forall|j: int| 0 <= j < i ==> line[j] != '=');
    let head = line.take(i);
    let tail = line.skip(i + 1);
    assert forall|m: int| 0 <= m < head.len() implies #[trigger] head[m] != '=' by {
        assert(head[m] == line[m]);
    }
    lemma_eq_count_zero(head);
    lemma_eq_count_trim(head);
    lemma_eq_count_zero(k);
    lemma_eq_count_trim(tail);
    lemma_eq_count_strip(trim(tail), '"');
    lemma_eq_count_strip(strip_char(trim(tail), '"'), '\'');
    assert(line =~= head + seq!['='] + tail);
    lemma_eq_count_concat(head + seq!['='], tail);
    lemma_eq_count_concat(head, seq!['=']);
    let one = seq!['='];
    assert(one.drop_last() =~= Seq::<char>::empty());
    assert(eq_count(one.drop_last()) == 0);
    assert(eq_count(one) == 1);
    lemma_eq_count_trim(raw);
    assert(eq_count(head) == 0);
    assert(eq_count(line) == eq_count(tail) + 1);
    assert(eq_count(v) == eq_count(tail));
}


proof fn lemma_trim_start_head(s: Seq<char>)
    ensures
        trim_start(s).len() > 0 ==> !is_ws(trim_start(s)[0]),
    decreases s.len(),
{
    if s.len() > 0 && is_ws(s[0]) {
        lemma_trim_start_head(s.drop_first());
    }
}

proof fn lemma_trim_end_prefix(s: Seq<char>)
    ensures
        trim_end(s).len() <= s.len(),
        trim_end(s) == s.take(trim_end(s).len() as int),
        trim_end(s).len() > 0 ==> !is_ws(trim_end(s).last()),
    decreases s.len(),
{
    if s.len() > 0 && is_ws(s.last()) {
        lemma_trim_end_prefix(s.drop_last());
        assert(s.drop_last().take(trim_end(s).len() as int) =~= s.take(trim_end(s).len() as int));
    } else {
        assert(s.take(s.len() as int) =~= s);
    }
}

proof fn lemma_trim_ends(s: Seq<char>)
    ensures
        trim(s).len() > 0 ==> !is_ws(trim(s)[0]) && !is_ws(trim(s).last()),
{
    let t = trim_start(s);
    lemma_trim_start_head(s);
    lemma_trim_end_prefix(t);
    if trim(s).len() > 0 {
        assert(trim(s)[0] == t[0]);
    }
}

proof fn lemma_strip_start_head(s: Seq<char>, c: char)
    ensures
        strip_start_char(s, c).len() > 0 ==> strip_start_char(s, c)[0] != c,
    decreases s.len(),
{
    if s.len() > 0 && s[0] == c {
        lemma_strip_start_head(s.drop_first(), c);
    }
}

proof fn lemma_strip_end_prefix(s: Seq<char>, c: char)
    ensures
        strip_end_char(s, c).len() <= s.len(),
        strip_end_char(s, c) == s.take(strip_end_char(s, c).len() as int),
        strip_end_char(s, c).len() > 0 ==> strip_end_char(s, c).last() != c,
    decreases s.len(),
{
    if s.len() > 0 && s.last() == c {
        lemma_strip_end_prefix(s.drop_last(), c);
        assert(s.drop_last().take(strip_end_char(s, c).len() as int) =~= s.take(strip_end_char(s, c).len() as int));
    } else {
        assert(s.take(s.len() as int) =~= s);
    }
}

proof fn lemma_strip_ends(s: Seq<char>, c: char)
    ensures
        strip_char(s, c).len() > 0 ==> strip_char(s, c)[0] != c && strip_char(s, c).last() != c,
{
    let t = strip_start_char(s, c);
    lemma_strip_start_head(s, c);
    lemma_strip_end_prefix(t, c);
    if strip_char(s, c).len() > 0 {
        assert(strip_char(s, c)[0] == t[0]);
    }
}

/// Blank lines and `#` comments assign nothing. An assignment has a
/// non-empty name with no whitespace at either end, and a non-empty value
/// with no single quote at either end.
pub proof fn law_assignment_shape(raw: Seq<char>)
    ensures
        trim(raw).len() == 0 || trim(raw)[0] == '#' ==> parse_env_line(raw) is None,
        parse_env_line(raw) matches Some((k, v)) ==> {
            &&& k.len() > 0
            &&& !is_ws(k[0])
            &&& !is_ws(k.last())
            &&& v.len() > 0
            &&& v[0] != '\''
            &&& v.last() != '\''
        },
{
    let line = trim(raw);
    if line.len() > 0 && line[0] != '#' {
        if let Some(i) = first_eq(line) {
            lemma_trim_ends(line.take(i));
            lemma_strip_ends(strip_char(trim(line.skip(i + 1)), '"'), '\'');
        }
    }
}

} // verus!
