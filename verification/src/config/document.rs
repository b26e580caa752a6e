//! Edits of TOML configuration documents: the settings kiwi writes back
//! into the user's `config.toml` without touching anything else, and the
//! project theme check.
//!
//! The text of the files is read and written in [`super::file_text`];
//! tables map keys to values, so their entry order carries no meaning.
use vstd::prelude::*;

use crate::keyed::{found_at, has_key, key_index, keyed_map, keys_unique, lemma_keyed_lookup, lemma_keyed_push,
    lemma_keyed_remove, lemma_keyed_update};
use crate::text::{push_str, str_chars, str_eq, trim, trim_chars};

verus! {

/// A TOML value; a float keeps its literal text.
#[derive(Debug, PartialEq, Eq)]
pub enum TomlValue {
    String(String),
    Integer(i64),
    Float(String),
    Boolean(bool),
    Datetime(String),
    Array(Vec<TomlValue>),
    Table(Vec<TomlEntry>),
}

/// A key of a table and its value.
#[derive(Debug, PartialEq, Eq)]
pub struct TomlEntry {
    pub key: String,
    pub value: TomlValue,
}

/// Entries are keyed by their key.
pub open spec fn entry_key() -> spec_fn(TomlEntry) -> Seq<char> {
    |e: TomlEntry| e.key@
}

/// The entries of a table by key.
pub open spec fn entries(t: Seq<TomlEntry>) -> Map<Seq<char>, TomlEntry> {
    keyed_map(t, entry_key())
}

/// Whether a table has the key `k`.
pub open spec fn table_has(t: Seq<TomlEntry>, k: Seq<char>) -> bool {
    has_key(t, entry_key(), k)
}

/// The value at key `k` of a table that has it.
pub open spec fn table_get(t: Seq<TomlEntry>, k: Seq<char>) -> TomlValue {
    entries(t)[k].value
}

/// The entries of the sub-table at `k`: none when there is no such key.
pub open spec fn sub_entries(t: Seq<TomlEntry>, k: Seq<char>) -> Map<Seq<char>, TomlEntry> {
    if table_has(t, k) {
        match table_get(t, k) {
            TomlValue::Table(s) => entries(s@),
            _ => Map::empty(),
        }
    } else {
        Map::empty()
    }
}

/// A table whose keys are unique, and whose sub-table at `k`, if any, too.
pub open spec fn well_keyed(t: Seq<TomlEntry>, k: Seq<char>) -> bool {
    &&& keys_unique(t, entry_key())
    &&& (table_has(t, k) ==> match table_get(t, k) {
        TomlValue::Table(s) => keys_unique(s@, entry_key()),
        _ => true,
    })
}

/// `out` is the table `t` with `updated` for key `k`, the rest untouched.
pub open spec fn replaces(t: Seq<TomlEntry>, k: Seq<char>, out: Seq<TomlEntry>) -> bool {
    &&& keys_unique(out, entry_key())
    &&& table_has(out, k)
    &&& entries(out).remove(k) == entries(t).remove(k)
}

/// Strings of a table that, after an edit, hold `value` at `k`.
pub open spec fn holds_text(t: Seq<TomlEntry>, k: Seq<char>, value: Seq<char>) -> bool {
    table_has(t, k) && (table_get(t, k) matches TomlValue::String(s) && s@ == value)
}

/// `out` is the configuration `root` with `[theme] name` set to `name` and
/// `[theme] custom` gone; the other theme settings and every other section
/// are as they were.
pub open spec fn theme_written(root: Seq<TomlEntry>, name: Seq<char>, out: Seq<TomlEntry>) -> bool {
    &&& replaces(root, "theme"@, out)
    &&& table_get(out, "theme"@) is Table
    &&& keys_unique(table_get(out, "theme"@)->Table_0@, entry_key())
    &&& holds_text(table_get(out, "theme"@)->Table_0@, "name"@, name)
    &&& !table_has(table_get(out, "theme"@)->Table_0@, "custom"@)
    &&& entries(table_get(out, "theme"@)->Table_0@).remove("name"@).remove("custom"@) == sub_entries(
        root,
        "theme"@,
    ).remove("name"@).remove("custom"@)
}

fn owned(s: &str) -> (r: String)
    ensures
        r@ == s@,
{
    let mut o = String::new();
    push_str(&mut o, s);
    o
}

/// Position of the entry with key `k`.
fn find_entry(t: &Vec<TomlEntry>, k: &str) -> (r: Option<usize>)
    ensures
        found_at(t@, entry_key(), k@, r),
{
    let mut i: usize = 0;
    while i < t.len()
        invariant
            i <= t@.len(),
            forall|j: int| 0 <= j < i ==> (#[trigger] t@[j]).key@ != k@,
        decreases t.len() - i,
    {
        if str_eq(t[i].key.as_str(), k) {
            return Some(i);
        }
        i = i + 1;
    }
    proof {
        if has_key(t@, entry_key(), k@) {
            let j = choose|j: int| 0 <= j < t@.len() && (entry_key())(t@[j]) == k@;
            assert(t@[j].key@ != k@);
        }
    }
    None
}

/// Sets key `k` of a table to `v`.
fn set_entry(t: &mut Vec<TomlEntry>, k: &str, v: TomlValue)
    requires
        keys_unique(old(t)@, entry_key()),
    ensures
        keys_unique(final(t)@, entry_key()),
        table_has(final(t)@, k@),
        table_get(final(t)@, k@) == v,
        entries(final(t)@).remove(k@) == entries(old(t)@).remove(k@),
{
    let ghost s = t@;
    match find_entry(t, k) {
        Some(i) => {
            let old_entry = t.remove(i);
            let e = TomlEntry { key: old_entry.key, value: v };
            t.insert(i, e);
            proof {
                assert(t@ =~= s.update(i as int, e));
                lemma_keyed_update(s, entry_key(), i as int, e);
                lemma_keyed_lookup(t@, entry_key(), i as int);
                assert(entries(t@).remove(k@) =~= entries(s).remove(k@));
            }
        },
        None => {
            let e = TomlEntry { key: owned(k), value: v };
            t.push(e);
            proof {
                lemma_keyed_push(s, entry_key(), e);
                lemma_keyed_lookup(t@, entry_key(), (t@.len() - 1) as int);
                assert(entries(t@).remove(k@) =~= entries(s).remove(k@));
            }
        },
    }
}

/// Removes key `k` from a table.
fn remove_entry(t: &mut Vec<TomlEntry>, k: &str)
    requires
        keys_unique(old(t)@, entry_key()),
    ensures
        keys_unique(final(t)@, entry_key()),
        entries(final(t)@) == entries(old(t)@).remove(k@),
{
    let ghost s = t@;
    match find_entry(t, k) {
        Some(i) => {
            t.remove(i);
            proof {
                lemma_keyed_remove(s, entry_key(), i as int);
            }
        },
        None => {
            proof {
                assert(entries(s) =~= entries(s).remove(k@));
            }
        },
    }
}

/// Takes out the sub-table at `k` of `root` (an empty one when `k` is
/// absent), or fails with `not_table` when the value at `k` is no table.
fn take_sub_table(root: &mut Vec<TomlEntry>, k: &str, not_table: &str) -> (r: Result<(Vec<TomlEntry>, Option<(usize, String)>), String>)
    requires
        well_keyed(old(root)@, k@),
    ensures
        match r {
            Err(e) => table_has(old(root)@, k@) && !(table_get(old(root)@, k@) is Table) && e@ == not_table@,
            Ok((sub, at)) => {
                &&& !(table_has(old(root)@, k@) && !(table_get(old(root)@, k@) is Table))
                &&& keys_unique(sub@, entry_key())
                &&& entries(sub@) == sub_entries(old(root)@, k@)
                &&& sub@ == sub_table(old(root)@, k@)
                &&& match at {
                    Some((i, key)) => i < old(root)@.len() && old(root)@[i as int].key@ == k@ && key@ == k@
                        && final(root)@ == old(root)@.remove(i as int),
                    None => !table_has(old(root)@, k@) && final(root)@ == old(root)@,
                }
            },
        },
{
    let ghost s = root@;
    match find_entry(root, k) {
        Some(i) => {
            proof {
                lemma_keyed_lookup(s, entry_key(), i as int);
            }
            let e = root.remove(i);
            match e.value {
                TomlValue::Table(sub) => {
                    assert(sub@ == sub_table(s, k@));
                    Ok((sub, Some((i, e.key))))
                },
                other => {
                    root.insert(i, TomlEntry { key: e.key, value: other });
                    Err(owned(not_table))
                },
            }
        },
        None => {
            proof {
                assert(entries(Seq::<TomlEntry>::empty()) =~= Map::<Seq<char>, TomlEntry>::empty());
            }
            let v: Vec<TomlEntry> = Vec::new();
            assert(v@ =~= sub_table(s, k@));
            Ok((v, None))
        },
    }
}

/// Puts the sub-table back at `k` of `root`, where it was taken from.
fn put_sub_table(root: &mut Vec<TomlEntry>, k: &str, sub: Vec<TomlEntry>, at: Option<(usize, String)>, orig: Ghost<Seq<TomlEntry>>)
    requires
        keys_unique(orig@, entry_key()),
        match at {
            Some((i, key)) => i < orig@.len() && orig@[i as int].key@ == k@ && key@ == k@ && old(
                root,
            )@ == orig@.remove(i as int),
            None => !table_has(orig@, k@) && old(root)@ == orig@,
        },
    ensures
        keys_unique(final(root)@, entry_key()),
        table_has(final(root)@, k@),
        table_get(final(root)@, k@) == TomlValue::Table(sub),
        entries(final(root)@).remove(k@) == entries(orig@).remove(k@),
{
    let ghost s = orig@;
    match at {
        Some((i, key)) => {
            let e = TomlEntry { key, value: TomlValue::Table(sub) };
            root.insert(i, e);
            proof {
                assert(root@ =~= s.update(i as int, e));
                lemma_keyed_update(s, entry_key(), i as int, e);
                lemma_keyed_lookup(root@, entry_key(), i as int);
                assert(entries(root@).remove(k@) =~= entries(s).remove(k@));
            }
        },
        None => {
            let e = TomlEntry { key: owned(k), value: TomlValue::Table(sub) };
            root.push(e);
            proof {
                lemma_keyed_push(s, entry_key(), e);
                lemma_keyed_lookup(root@, entry_key(), (root@.len() - 1) as int);
                assert(entries(root@).remove(k@) =~= entries(s).remove(k@));
            }
        },
    }
}

/// The user configuration with `[theme] name` set to `name` and any custom
/// theme dropped; every other setting is kept.
pub fn set_user_theme(doc: TomlValue, name: &str) -> (r: Result<TomlValue, String>)
    requires
        doc matches TomlValue::Table(root) ==> well_keyed(root@, "theme"@),
    ensures
        match doc {
            TomlValue::Table(root) => if table_has(root@, "theme"@) && !(table_get(root@, "theme"@) is Table) {
                r matches Err(e) && e@ == "[theme] must be a table"@
            } else {
                r matches Ok(TomlValue::Table(out)) && theme_written(root@, name@, out@)
            },
            _ => r matches Err(e) && e@ == "config root must be a table"@,
        },
{
    match doc {
        TomlValue::Table(root) => {
            let ghost orig = root@;
            let mut root = root;
            let (mut theme, at) = match take_sub_table(&mut root, "theme", "[theme] must be a table") {
                Ok(found) => found,
                Err(e) => return Err(e),
            };
            let ghost before = entries(theme@);
            set_entry(&mut theme, "name", TomlValue::String(owned(name)));
            let ghost mid = entries(theme@);
            remove_entry(&mut theme, "custom");
            proof {
                reveal_strlit("name");
                reveal_strlit("custom");
                assert("name"@ != "custom"@) by {
                    assert("name"@.len() != "custom"@.len());
                }
                assert(mid.dom().contains("name"@));
                assert(entries(theme@).dom().contains("name"@));
                assert(entries(theme@)["name"@] == mid["name"@]);
                assert(entries(theme@).remove("name"@).remove("custom"@) =~= before.remove("name"@).remove(
                    "custom"@,
                ));
            }
            put_sub_table(&mut root, "theme", theme, at, Ghost(orig));
            Ok(TomlValue::Table(root))
        },
        _ => Err(owned("config root must be a table")),
    }
}

/// The sub-table at `k` of `t`, as entries (empty when absent or no table).
pub open spec fn sub_table(t: Seq<TomlEntry>, k: Seq<char>) -> Seq<TomlEntry> {
    if table_has(t, k) {
        match table_get(t, k) {
            TomlValue::Table(s) => s@,
            _ => Seq::empty(),
        }
    } else {
        Seq::empty()
    }
}

/// The value at `k` is there and is not a table.
pub open spec fn blocks_table(t: Seq<TomlEntry>, k: Seq<char>) -> bool {
    table_has(t, k) && !(table_get(t, k) is Table)
}

/// The tables an agent edit goes through have unique keys.
pub open spec fn agent_keyed(root: Seq<TomlEntry>, provider: Seq<char>) -> bool {
    &&& well_keyed(root, "agent"@)
    &&& well_keyed(sub_table(root, "agent"@), "providers"@)
    &&& well_keyed(sub_table(sub_table(root, "agent"@), "providers"@), provider)
}

/// The provider settings written for the API agent mode: `model`, and the
/// key variable and URL when given; the provider's other settings stay.
pub open spec fn provider_written(
    before: Seq<TomlEntry>,
    model: Seq<char>,
    key_env: Option<Seq<char>>,
    url: Option<Seq<char>>,
    p: Seq<TomlEntry>,
) -> bool {
    &&& keys_unique(p, entry_key())
    &&& holds_text(p, "model"@, model)
    &&& (key_env matches Some(e) ==> holds_text(p, "api_key_env"@, e))
    &&& (url matches Some(u) ==> holds_text(p, "api_url"@, u))
    &&& {
        let touched = |m: Map<Seq<char>, TomlEntry>| {
            let m1 = m.remove("model"@);
            let m2 = if key_env is Some {
                m1.remove("api_key_env"@)
            } else {
                m1
            };
            if url is Some {
                m2.remove("api_url"@)
            } else {
                m2
            }
        };
        touched(entries(p)) == touched(entries(before))
    }
}

/// `out` is the configuration `root` set to the API agent mode with
/// `provider` active: `[agent]` gets `mode`, `active`, `provider` and
/// `model`, and `[agent.providers.<provider>]` the provider settings;
/// everything else is kept.
pub open spec fn agent_mode_written(
    root: Seq<TomlEntry>,
    provider: Seq<char>,
    model: Seq<char>,
    key_env: Option<Seq<char>>,
    url: Option<Seq<char>>,
    out: Seq<TomlEntry>,
) -> bool {
    let agent = sub_table(out, "agent"@);
    let providers = sub_table(agent, "providers"@);
    let old_agent = sub_table(root, "agent"@);
    let old_providers = sub_table(old_agent, "providers"@);
    &&& replaces(root, "agent"@, out)
    &&& table_get(out, "agent"@) is Table
    &&& keys_unique(agent, entry_key())
    &&& holds_text(agent, "mode"@, "api"@)
    &&& holds_text(agent, "active"@, provider)
    &&& holds_text(agent, "provider"@, provider)
    &&& holds_text(agent, "model"@, model)
    &&& table_has(agent, "providers"@) && table_get(agent, "providers"@) is Table
    &&& entries(agent).remove("mode"@).remove("active"@).remove("provider"@).remove("model"@).remove(
        "providers"@,
    ) == entries(old_agent).remove("mode"@).remove("active"@).remove("provider"@).remove("model"@).remove(
        "providers"@,
    )
    &&& replaces(old_providers, provider, providers)
    &&& table_get(providers, provider) is Table
    &&& provider_written(sub_table(old_providers, provider), model, key_env, url, sub_table(providers, provider))
}

/// Views of optional text.
pub open spec fn opt_text(o: Option<&str>) -> Option<Seq<char>> {
    match o {
        Some(s) => Some(s@),
        None => None,
    }
}

proof fn lemma_remove_eq(a: Map<Seq<char>, TomlEntry>, b: Map<Seq<char>, TomlEntry>, k: Seq<char>, x: Seq<char>)
    requires
        a.remove(k) == b.remove(k),
        x != k,
    ensures
        a.dom().contains(x) == b.dom().contains(x),
        a.dom().contains(x) ==> a[x] == b[x],
{
    assert(a.remove(k).dom().contains(x) == a.dom().contains(x));
    assert(b.remove(k).dom().contains(x) == b.dom().contains(x));
    if a.dom().contains(x) {
        assert(a.remove(k)[x] == a[x]);
        assert(b.remove(k)[x] == b[x]);
    }
}

proof fn lemma_sub_table_entries(t: Seq<TomlEntry>, k: Seq<char>)
    ensures
        entries(sub_table(t, k)) == sub_entries(t, k),
{
    if !(table_has(t, k) && table_get(t, k) is Table) {
        assert(entries(Seq::<TomlEntry>::empty()) =~= Map::<Seq<char>, TomlEntry>::empty());
    }
}

fn text_value(s: &str) -> (r: TomlValue)
    ensures
        r matches TomlValue::String(t) && t@ == s@,
{
    TomlValue::String(owned(s))
}

/// The user configuration switched to the API agent mode with `provider`
/// active and `model` for it; the provider's key variable and URL are set
/// when given; every other setting is kept.
pub fn set_user_agent_mode(
    doc: TomlValue,
    provider: &str,
    model: &str,
    api_key_env: Option<&str>,
    api_url: Option<&str>,
) -> (r: Result<TomlValue, String>)
    requires
        doc matches TomlValue::Table(root) ==> agent_keyed(root@, provider@),
    ensures
        match doc {
            TomlValue::Table(root) => if blocks_table(root@, "agent"@) {
                r matches Err(e) && e@ == "[agent] must be a table"@
            } else if blocks_table(sub_table(root@, "agent"@), "providers"@) {
                r matches Err(e) && e@ == "[agent.providers] must be a table"@
            } else if blocks_table(sub_table(sub_table(root@, "agent"@), "providers"@), provider@) {
                r matches Err(e) && e@ == "provider entry must be a table"@
            } else {
                r matches Ok(TomlValue::Table(out)) && agent_mode_written(
                    root@,
                    provider@,
                    model@,
                    opt_text(api_key_env),
                    opt_text(api_url),
                    out@,
                )
            },
            _ => r matches Err(e) && e@ == "config root must be a table"@,
        },
{
    let root = match doc {
        TomlValue::Table(root) => root,
        _ => {
            return Err(owned("config root must be a table"));
        },
    };
    let ghost r0 = root@;
    let mut root = root;
    let (mut agent, agent_at) = match take_sub_table(&mut root, "agent", "[agent] must be a table") {
        Ok(found) => found,
        Err(e) => return Err(e),
    };
    proof {
        lemma_sub_table_entries(r0, "agent"@);
    }
    let ghost a0 = agent@;
    let ghost e0 = entries(agent@);
    set_entry(&mut agent, "mode", text_value("api"));
    let ghost e1 = entries(agent@);
    set_entry(&mut agent, "active", text_value(provider));
    let ghost e2 = entries(agent@);
    set_entry(&mut agent, "provider", text_value(provider));
    let ghost e3 = entries(agent@);
    set_entry(&mut agent, "model", text_value(model));
    let ghost a1 = agent@;
    proof {
        reveal_strlit("mode");
        reveal_strlit("active");
        reveal_strlit("provider");
        reveal_strlit("model");
        reveal_strlit("providers");
        let e4 = entries(a1);
        assert("providers"@ != "mode"@ && "providers"@ != "active"@ && "providers"@ != "provider"@ && "providers"@
            != "model"@) by {
            assert("providers"@.len() != "mode"@.len());
            assert("providers"@.len() != "active"@.len());
            assert("providers"@.len() != "provider"@.len());
            assert("providers"@.len() != "model"@.len());
        }
        assert forall|x: Seq<char>|
            #![trigger e4.dom().contains(x)]
            #![trigger e0.dom().contains(x)]
            x != "mode"@ && x != "active"@ && x != "provider"@ && x != "model"@ implies e4.dom().contains(x)
                == e0.dom().contains(x) && (e0.dom().contains(x) ==> e4[x] == e0[x]) by {
            lemma_remove_eq(e1, e0, "mode"@, x);
            lemma_remove_eq(e2, e1, "active"@, x);
            lemma_remove_eq(e3, e2, "provider"@, x);
            lemma_remove_eq(e4, e3, "model"@, x);
        }
        assert(e4.remove("mode"@).remove("active"@).remove("provider"@).remove("model"@).remove("providers"@)
            =~= e0.remove("mode"@).remove("active"@).remove("provider"@).remove("model"@).remove("providers"@));
        assert(e4.dom().contains("providers"@) == e0.dom().contains("providers"@));
        if e0.dom().contains("providers"@) {
            assert(e4["providers"@] == e0["providers"@]);
        }
        assert("mode"@ != "active"@ && "mode"@ != "provider"@ && "mode"@ != "model"@ && "active"@ != "provider"@
            && "active"@ != "model"@ && "provider"@ != "model"@) by {
            assert("mode"@.len() != "active"@.len());
            assert("mode"@.len() != "provider"@.len());
            assert("mode"@.len() != "model"@.len());
            assert("active"@.len() != "provider"@.len());
            assert("active"@.len() != "model"@.len());
            assert("provider"@.len() != "model"@.len());
        }
        lemma_remove_eq(e2, e1, "active"@, "mode"@);
        lemma_remove_eq(e3, e2, "provider"@, "mode"@);
        lemma_remove_eq(e4, e3, "model"@, "mode"@);
        lemma_remove_eq(e3, e2, "provider"@, "active"@);
        lemma_remove_eq(e4, e3, "model"@, "active"@);
        lemma_remove_eq(e4, e3, "model"@, "provider"@);
        assert(e4.dom().contains("mode"@) && e4["mode"@] == e1["mode"@]);
        assert(e4.dom().contains("active"@) && e4["active"@] == e2["active"@]);
        assert(e4.dom().contains("provider"@) && e4["provider"@] == e3["provider"@]);
    }
    let ghost agent_before_providers = agent@;
    let (mut providers, providers_at) = match take_sub_table(
        &mut agent,
        "providers",
        "[agent.providers] must be a table",
    ) {
        Ok(found) => found,
        Err(e) => return Err(e),
    };
    proof {
        lemma_sub_table_entries(a0, "providers"@);
    }
    let ghost p0 = providers@;
    let (mut settings, settings_at) = match take_sub_table(&mut providers, provider, "provider entry must be a table") {
        Ok(found) => found,
        Err(e) => return Err(e),
    };
    proof {
        lemma_sub_table_entries(p0, provider@);
    }
    let ghost s0 = settings@;
    set_entry(&mut settings, "model", text_value(model));
    let ghost f0 = entries(s0);
    let ghost f1 = entries(settings@);
    match api_key_env {
        Some(env) => {
            set_entry(&mut settings, "api_key_env", text_value(env));
        },
        None => {},
    }
    let ghost f2 = entries(settings@);
    match api_url {
        Some(url) => {
            set_entry(&mut settings, "api_url", text_value(url));
        },
        None => {},
    }
    proof {
        reveal_strlit("api_key_env");
        reveal_strlit("api_url");
        let f3 = entries(settings@);
        assert("model"@ != "api_key_env"@ && "model"@ != "api_url"@ && "api_key_env"@ != "api_url"@) by {
            assert("model"@.len() != "api_key_env"@.len());
            assert("model"@.len() != "api_url"@.len());
            assert("api_key_env"@.len() != "api_url"@.len());
        }
        if api_key_env is Some {
            lemma_remove_eq(f2, f1, "api_key_env"@, "model"@);
        }
        if api_url is Some {
            lemma_remove_eq(f3, f2, "api_url"@, "model"@);
            lemma_remove_eq(f3, f2, "api_url"@, "api_key_env"@);
        }
        assert(f3.dom().contains("model"@) && f3["model"@] == f1["model"@]);
        if api_key_env is Some {
            assert(f3.dom().contains("api_key_env"@) && f3["api_key_env"@] == f2["api_key_env"@]);
        }
        assert forall|x: Seq<char>|
            #![trigger f3.dom().contains(x)]
            #![trigger f0.dom().contains(x)]
            x != "model"@ && (api_key_env is Some ==> x != "api_key_env"@) && (api_url is Some ==> x
                != "api_url"@) implies f3.dom().contains(x) == f0.dom().contains(x) && (f0.dom().contains(x)
                ==> f3[x] == f0[x]) by {
            lemma_remove_eq(f1, f0, "model"@, x);
            if api_key_env is Some {
                lemma_remove_eq(f2, f1, "api_key_env"@, x);
            }
            if api_url is Some {
                lemma_remove_eq(f3, f2, "api_url"@, x);
            }
        }
        let touched = |m: Map<Seq<char>, TomlEntry>| {
            let m1 = m.remove("model"@);
            let m2 = if api_key_env is Some {
                m1.remove("api_key_env"@)
            } else {
                m1
            };
            if api_url is Some {
                m2.remove("api_url"@)
            } else {
                m2
            }
        };
        assert(touched(f3) =~= touched(f0));
    }
    let ghost settings_final = settings@;
    put_sub_table(&mut providers, provider, settings, settings_at, Ghost(p0));
    let ghost providers_final = providers@;
    put_sub_table(&mut agent, "providers", providers, providers_at, Ghost(agent_before_providers));
    let ghost agent_final = agent@;
    proof {
        let g = entries(agent_final);
        assert(g.remove("providers"@) == entries(agent_before_providers).remove("providers"@));
        let e4 = entries(a1);
        lemma_remove_eq(g, e4, "providers"@, "mode"@);
        lemma_remove_eq(g, e4, "providers"@, "active"@);
        lemma_remove_eq(g, e4, "providers"@, "provider"@);
        lemma_remove_eq(g, e4, "providers"@, "model"@);
        assert forall|x: Seq<char>|
            #![trigger g.dom().contains(x)]
            #![trigger e4.dom().contains(x)]
            x != "providers"@ implies g.dom().contains(x) == e4.dom().contains(x) && (e4.dom().contains(x)
                ==> g[x] == e4[x]) by {
            lemma_remove_eq(g, e4, "providers"@, x);
        }
        assert(g.dom().contains("mode"@) && g["mode"@] == entries(a1)["mode"@]);
        assert(g.dom().contains("active"@) && g["active"@] == entries(a1)["active"@]);
        assert(g.dom().contains("provider"@) && g["provider"@] == entries(a1)["provider"@]);
        assert(g.dom().contains("model"@) && g["model"@] == entries(a1)["model"@]);
        assert(g.remove("mode"@).remove("active"@).remove("provider"@).remove("model"@).remove("providers"@)
            =~= entries(a0).remove("mode"@).remove("active"@).remove("provider"@).remove("model"@).remove(
            "providers"@,
        ));
    }
    put_sub_table(&mut root, "agent", agent, agent_at, Ghost(r0));
    Ok(TomlValue::Table(root))
}

/// `out` is the configuration `root` with `[agent] command` and `args` set;
/// every other setting is kept.
pub open spec fn agent_written(root: Seq<TomlEntry>, command: Seq<char>, args: Seq<Seq<char>>, out: Seq<TomlEntry>) -> bool {
    let agent = sub_table(out, "agent"@);
    &&& replaces(root, "agent"@, out)
    &&& table_get(out, "agent"@) is Table
    &&& keys_unique(agent, entry_key())
    &&& holds_text(agent, "command"@, command)
    &&& table_has(agent, "args"@)
    &&& table_get(agent, "args"@) matches TomlValue::Array(v)
    &&& v@.len() == args.len()
    &&& forall|i: int| 0 <= i < args.len() ==> (#[trigger] v@[i] matches TomlValue::String(a) && a@ == args[i])
    &&& entries(agent).remove("command"@).remove("args"@) == sub_entries(root, "agent"@).remove("command"@).remove(
        "args"@,
    )
}

fn text_array(args: &[String]) -> (r: TomlValue)
    ensures
        r matches TomlValue::Array(v) && v@.len() == args@.len() && forall|i: int|
            0 <= i < args@.len() ==> (#[trigger] v@[i] matches TomlValue::String(a) && a@ == args@[i]@),
{
    let mut v: Vec<TomlValue> = Vec::new();
    let mut i: usize = 0;
    while i < args.len()
        invariant
            i <= args@.len(),
            v@.len() == i,
            forall|j: int| 0 <= j < i ==> (#[trigger] v@[j] matches TomlValue::String(a) && a@ == args@[j]@),
        decreases args.len() - i,
    {
        v.push(TomlValue::String(args[i].clone()));
        i = i + 1;
    }
    TomlValue::Array(v)
}

/// The user configuration with the terminal agent's `command` and `args`
/// set; every other setting is kept.
pub fn set_user_agent(doc: TomlValue, command: &str, args: &[String]) -> (r: Result<TomlValue, String>)
    requires
        doc matches TomlValue::Table(root) ==> well_keyed(root@, "agent"@),
    ensures
        match doc {
            TomlValue::Table(root) => if blocks_table(root@, "agent"@) {
                r matches Err(e) && e@ == "[agent] must be a table"@
            } else {
                r matches Ok(TomlValue::Table(out)) && agent_written(
                    root@,
                    command@,
                    args@.map_values(|a: String| a@),
                    out@,
                )
            },
            _ => r matches Err(e) && e@ == "config root must be a table"@,
        },
{
    let root = match doc {
        TomlValue::Table(root) => root,
        _ => {
            return Err(owned("config root must be a table"));
        },
    };
    let ghost r0 = root@;
    let mut root = root;
    let (mut agent, agent_at) = match take_sub_table(&mut root, "agent", "[agent] must be a table") {
        Ok(found) => found,
        Err(e) => return Err(e),
    };
    proof {
        lemma_sub_table_entries(r0, "agent"@);
    }
    let ghost e0 = entries(agent@);
    set_entry(&mut agent, "command", text_value(command));
    let ghost e1 = entries(agent@);
    set_entry(&mut agent, "args", text_array(args));
    proof {
        reveal_strlit("command");
        reveal_strlit("args");
        let e2 = entries(agent@);
        assert("command"@ != "args"@) by {
            assert("command"@.len() != "args"@.len());
        }
        lemma_remove_eq(e2, e1, "args"@, "command"@);
        assert forall|x: Seq<char>|
            #![trigger e2.dom().contains(x)]
            #![trigger e0.dom().contains(x)]
            x != "command"@ && x != "args"@ implies e2.dom().contains(x) == e0.dom().contains(x) && (e0.dom().contains(
                x,
            ) ==> e2[x] == e0[x]) by {
            lemma_remove_eq(e1, e0, "command"@, x);
            lemma_remove_eq(e2, e1, "args"@, x);
        }
        assert(e2.remove("command"@).remove("args"@) =~= e0.remove("command"@).remove("args"@));
        assert(table_get(agent@, "args"@) matches TomlValue::Array(v) && forall|i: int|
            0 <= i < args@.len() ==> (#[trigger] v@[i] matches TomlValue::String(a) && a@ == args@.map_values(
                |a: String| a@,
            )[i]));
    }
    put_sub_table(&mut root, "agent", agent, agent_at, Ghost(r0));
    Ok(TomlValue::Table(root))
}

/// A project configuration that names a theme (a non-blank `[theme] name`).
pub open spec fn spec_theme_override(doc: TomlValue) -> bool {
    &&& doc matches TomlValue::Table(root)
    &&& table_has(doc->Table_0@, "theme"@)
    &&& table_get(doc->Table_0@, "theme"@) matches TomlValue::Table(theme)
    &&& table_has(theme@, "name"@)
    &&& table_get(theme@, "name"@) matches TomlValue::String(name)
    &&& trim(name@).len() > 0
}

/// Whether a project configuration names its own theme.
pub fn theme_override_in(doc: &TomlValue) -> (r: bool)
    requires
        doc matches TomlValue::Table(root) ==> well_keyed(root@, "theme"@),
    ensures
        r == spec_theme_override(*doc),
{
    match doc {
        TomlValue::Table(root) => match find_entry(root, "theme") {
            Some(i) => {
                proof {
                    lemma_keyed_lookup(root@, entry_key(), i as int);
                }
                match &root[i].value {
                    TomlValue::Table(theme) => match find_entry(theme, "name") {
                        Some(j) => {
                            proof {
                                lemma_keyed_lookup(theme@, entry_key(), j as int);
                            }
                            match &theme[j].value {
                                TomlValue::String(name) => trim_chars(str_chars(name.as_str()).as_slice()).len() > 0,
                                _ => false,
                            }
                        },
                        None => false,
                    },
                    _ => false,
                }
            },
            None => false,
        },
        _ => false,
    }
}

proof fn lemma_replaces_keeps(t: Seq<TomlEntry>, k: Seq<char>, out: Seq<TomlEntry>, j: Seq<char>)
    requires
        entries(out).remove(k) == entries(t).remove(k),
        j != k,
    ensures
        table_has(out, j) == table_has(t, j),
        table_has(t, j) ==> table_get(out, j) == table_get(t, j),
{
    assert(entries(out).remove(k).dom().contains(j) == entries(out).dom().contains(j));
    assert(entries(t).remove(k).dom().contains(j) == entries(t).dom().contains(j));
    if table_has(t, j) {
        assert(entries(out).remove(k)[j] == entries(out)[j]);
        assert(entries(t).remove(k)[j] == entries(t)[j]);
    }
}

/// Setting the user theme leaves every other section of the configuration
/// as it was.
pub proof fn law_theme_keeps_other_sections(root: Seq<TomlEntry>, name: Seq<char>, out: Seq<TomlEntry>, section: Seq<char>)
    requires
        theme_written(root, name, out),
        section != "theme"@,
    ensures
        table_has(out, section) == table_has(root, section),
        table_has(root, section) ==> table_get(out, section) == table_get(root, section),
{
    lemma_replaces_keeps(root, "theme"@, out, section);
}

/// Switching the API agent to one provider never touches the stored
/// settings of another provider.
pub proof fn law_provider_switch_keeps_other_providers(
    root: Seq<TomlEntry>,
    provider: Seq<char>,
    model: Seq<char>,
    key_env: Option<Seq<char>>,
    url: Option<Seq<char>>,
    out: Seq<TomlEntry>,
    other: Seq<char>,
)
    requires
        agent_mode_written(root, provider, model, key_env, url, out),
        other != provider,
    ensures
        table_has(sub_table(sub_table(out, "agent"@), "providers"@), other) == table_has(
            sub_table(sub_table(root, "agent"@), "providers"@),
            other,
        ),
        table_has(sub_table(sub_table(root, "agent"@), "providers"@), other) ==> table_get(
            sub_table(sub_table(out, "agent"@), "providers"@),
            other,
        ) == table_get(sub_table(sub_table(root, "agent"@), "providers"@), other),
{
    lemma_replaces_keeps(
        sub_table(sub_table(root, "agent"@), "providers"@),
        provider,
        sub_table(sub_table(out, "agent"@), "providers"@),
        other,
    );
}

} // verus!
