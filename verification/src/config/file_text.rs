//! Configuration files as text: read with the `toml` crate into a
//! [`TomlValue`], edited, and written back with it.
use vstd::prelude::*;

use super::document::{
    agent_keyed, agent_mode_written, agent_written, blocks_table, entry_key, opt_text, theme_override_in,
    set_user_agent, set_user_agent_mode, set_user_theme, spec_theme_override, sub_table, table_get, table_has,
    theme_written, well_keyed, TomlEntry, TomlValue,
};
use crate::keyed::{key_index, keys_unique};

verus! {

#[verifier::external_type_specification]
#[verifier::external_body]
pub struct ExTomlValue(toml::Value);

/// The library value of a `toml` value, entry for entry; floats and
/// datetimes keep the text that `toml` writes for them.
#[verifier::external_body]
fn toml_from_value(value: toml::Value) -> TomlValue {
    match value {
        toml::Value::String(t) => TomlValue::String(t),
        toml::Value::Integer(i) => TomlValue::Integer(i),
        v @ toml::Value::Float(_) => TomlValue::Float(v.to_string()),
        toml::Value::Boolean(b) => TomlValue::Boolean(b),
        toml::Value::Datetime(d) => TomlValue::Datetime(d.to_string()),
        toml::Value::Array(xs) => TomlValue::Array(xs.into_iter().map(toml_from_value).collect()),
        toml::Value::Table(m) => TomlValue::Table(
            m.into_iter().map(|(key, v)| TomlEntry { key, value: toml_from_value(v) }).collect(),
        ),
    }
}

/// The `toml` value of a library value, entry for entry; a float or a
/// datetime is read back from its text, and stays a string if `toml` does
/// not read it.
#[verifier::external_body]
fn toml_to_value(value: &TomlValue) -> toml::Value {
    match value {
        TomlValue::String(t) => toml::Value::String(t.clone()),
        TomlValue::Integer(i) => toml::Value::Integer(*i),
        TomlValue::Float(t) | TomlValue::Datetime(t) => t.parse().unwrap_or_else(|_| toml::Value::String(t.clone())),
        TomlValue::Boolean(b) => toml::Value::Boolean(*b),
        TomlValue::Array(xs) => toml::Value::Array(xs.iter().map(toml_to_value).collect()),
        TomlValue::Table(es) => toml::Value::Table(es.iter().map(|e| (e.key.clone(), toml_to_value(&e.value))).collect()),
    }
}

/// Every table in `v`, at any depth, has unique keys.
pub open spec fn tables_keyed(v: TomlValue) -> bool
    decreases v,
{
    match v {
        TomlValue::Table(t) => keys_unique(t@, entry_key()) && forall|i: int|
            #![trigger t@[i]]
            0 <= i < t@.len() ==> tables_keyed(t@[i].value),
        TomlValue::Array(xs) => forall|i: int| #![trigger xs@[i]] 0 <= i < xs@.len() ==> tables_keyed(xs@[i]),
        _ => true,
    }
}

/// What `toml::from_str` reads a document as, or the message of its error.
pub uninterp spec fn toml_document(text: Seq<char>) -> Result<TomlValue, Seq<char>>;

/// What `toml::to_string_pretty` writes for a document, or the message of
/// its error.
pub uninterp spec fn toml_pretty_text(doc: TomlValue) -> Result<Seq<char>, Seq<char>>;

/// `toml::from_str` into a `toml::Value`, read entry for entry, or the
/// error's message. The document is named, not stated; it depends on the
/// text alone. Its tables are maps, so their keys are unique.
#[verifier::external_body]
fn parse_toml_document(text: &str) -> (r: Result<TomlValue, String>)
    ensures
        match r {
            Ok(v) => toml_document(text@) == Ok::<TomlValue, Seq<char>>(v) && tables_keyed(v),
            Err(e) => toml_document(text@) == Err::<TomlValue, Seq<char>>(e@),
        },
{
    toml::from_str::<toml::Value>(text).map(toml_from_value).map_err(|e| e.to_string())
}

/// `toml::to_string_pretty` of the document, entry for entry, or the
/// error's message. The text is named, not stated; it depends on the
/// document alone.
#[verifier::external_body]
fn pretty_toml_text(doc: &TomlValue) -> (r: Result<String, String>)
    ensures
        match r {
            Ok(t) => toml_pretty_text(*doc) == Ok::<Seq<char>, Seq<char>>(t@),
            Err(e) => toml_pretty_text(*doc) == Err::<Seq<char>, Seq<char>>(e@),
        },
{
    toml::to_string_pretty(&toml_to_value(doc)).map_err(|e| e.to_string())
}

/// The rows of a table have unique keys, and so has every table below.
pub open spec fn rows_keyed(t: Seq<TomlEntry>) -> bool {
    keys_unique(t, entry_key()) && forall|i: int| #![trigger t[i]] 0 <= i < t.len() ==> tables_keyed(t[i].value)
}

/// The sub-table at `k` of well-keyed rows is well keyed too.
proof fn lemma_sub_table_keyed(t: Seq<TomlEntry>, k: Seq<char>)
    requires
        rows_keyed(t),
    ensures
        well_keyed(t, k),
        rows_keyed(sub_table(t, k)),
{
    if table_has(t, k) {
        let i = key_index(t, entry_key(), k);
        assert(0 <= i < t.len() && t[i].key@ == k);
        assert(table_get(t, k) == t[i].value);
        assert(tables_keyed(t[i].value));
        match t[i].value {
            TomlValue::Table(s) => {
                assert(sub_table(t, k) == s@);
            },
            _ => {
                assert(sub_table(t, k) =~= Seq::<TomlEntry>::empty());
            },
        }
    } else {
        assert(sub_table(t, k) =~= Seq::<TomlEntry>::empty());
    }
}

/// Why a configuration file could not be written.
#[derive(Debug, PartialEq, Eq)]
pub enum ConfigEditError {
    /// The file there is not TOML; what the parser reported.
    Parse(String),
    /// The document does not have the shape the edit needs, or could not
    /// be written out.
    Validation(String),
}

/// `r` is the text `toml` writes for `doc`, or the error it reports.
pub open spec fn written_as(doc: TomlValue, r: Result<String, ConfigEditError>) -> bool {
    match toml_pretty_text(doc) {
        Ok(t) => r matches Ok(s) && s@ == t,
        Err(e) => r matches Err(ConfigEditError::Validation(m)) && m@ == e,
    }
}

/// `r` is what an edit of the configuration file gives: `existing` is the
/// file's text (none when there is no file, which reads as an empty
/// table), and `edited` says what the edit gives for the rows of a table.
pub open spec fn config_edit_text(
    existing: Option<Seq<char>>,
    edited: spec_fn(Seq<TomlEntry>) -> bool,
    r: Result<String, ConfigEditError>,
) -> bool {
    match existing {
        None => edited(Seq::empty()),
        Some(t) => match toml_document(t) {
            Err(e) => r matches Err(ConfigEditError::Parse(m)) && m@ == e,
            Ok(TomlValue::Table(root)) => edited(root@),
            Ok(_) => r matches Err(ConfigEditError::Validation(m)) && m@ == "config root must be a table"@,
        },
    }
}

/// The document to edit: the file's text read as TOML, or an empty table
/// when there is no file.
fn starting_document(existing: Option<&str>) -> (r: Result<TomlValue, ConfigEditError>)
    ensures
        match existing {
            None => r matches Ok(TomlValue::Table(t)) && t@.len() == 0,
            Some(s) => match toml_document(s@) {
                Err(e) => r matches Err(ConfigEditError::Parse(m)) && m@ == e,
                Ok(v) => r == Ok::<TomlValue, ConfigEditError>(v),
            },
        },
        r matches Ok(v) ==> tables_keyed(v),
{
    match existing {
        None => Ok(TomlValue::Table(Vec::new())),
        Some(s) => match parse_toml_document(s) {
            Ok(v) => Ok(v),
            Err(m) => Err(ConfigEditError::Parse(m)),
        },
    }
}

fn written(doc: &TomlValue) -> (r: Result<String, ConfigEditError>)
    ensures
        written_as(*doc, r),
{
    match pretty_toml_text(doc) {
        Ok(t) => Ok(t),
        Err(m) => Err(ConfigEditError::Validation(m)),
    }
}

proof fn lemma_table_rows_keyed(v: TomlValue)
    requires
        tables_keyed(v),
    ensures
        v matches TomlValue::Table(t) ==> rows_keyed(t@),
{
}

/// What the theme edit gives for the rows `root`, written out.
pub open spec fn theme_text_of(root: Seq<TomlEntry>, name: Seq<char>, r: Result<String, ConfigEditError>) -> bool {
    if blocks_table(root, "theme"@) {
        r matches Err(ConfigEditError::Validation(m)) && m@ == "[theme] must be a table"@
    } else {
        exists|out: Vec<TomlEntry>| #[trigger] theme_written(root, name, out@) && written_as(TomlValue::Table(out), r)
    }
}

/// The new text of the user configuration with `[theme] name` set to
/// `name` and `[theme] custom` gone, every other setting kept; `existing`
/// is the current file's text, none when there is no file.
pub fn user_theme_config_text(existing: Option<&str>, name: &str) -> (r: Result<String, ConfigEditError>)
    ensures
        config_edit_text(opt_text(existing), |root: Seq<TomlEntry>| theme_text_of(root, name@, r), r),
{
    let doc = match starting_document(existing) {
        Ok(d) => d,
        Err(e) => return Err(e),
    };
    proof {
        lemma_table_rows_keyed(doc);
        if doc is Table {
            lemma_sub_table_keyed(doc->Table_0@, "theme"@);
        }
    }
    let ghost before = doc;
    match set_user_theme(doc, name) {
        Ok(out) => {
            let r = written(&out);
            proof {
                if before is Table {
                    let root = before->Table_0;
                    let rows = out->Table_0;
                    assert(theme_written(root@, name@, rows@));
                    assert(TomlValue::Table(rows) == out);
                    assert(theme_text_of(root@, name@, r));
                    if existing is None {
                        assert(root@ =~= Seq::<TomlEntry>::empty());
                    }
                }
            }
            r
        },
        Err(m) => Err(ConfigEditError::Validation(m)),
    }
}

/// What the API agent-mode edit gives for the rows `root`, written out.
pub open spec fn agent_mode_text_of(
    root: Seq<TomlEntry>,
    provider: Seq<char>,
    model: Seq<char>,
    key_env: Option<Seq<char>>,
    url: Option<Seq<char>>,
    r: Result<String, ConfigEditError>,
) -> bool {
    if blocks_table(root, "agent"@) {
        r matches Err(ConfigEditError::Validation(m)) && m@ == "[agent] must be a table"@
    } else if blocks_table(sub_table(root, "agent"@), "providers"@) {
        r matches Err(ConfigEditError::Validation(m)) && m@ == "[agent.providers] must be a table"@
    } else if blocks_table(sub_table(sub_table(root, "agent"@), "providers"@), provider) {
        r matches Err(ConfigEditError::Validation(m)) && m@ == "provider entry must be a table"@
    } else {
        exists|out: Vec<TomlEntry>|
            #[trigger] agent_mode_written(root, provider, model, key_env, url, out@) && written_as(
                TomlValue::Table(out),
                r,
            )
    }
}

/// The new text of the user configuration in the API agent mode with
/// `provider` active and `model` for it, the provider's key variable and
/// URL set when given, every other setting kept.
pub fn user_agent_mode_config_text(
    existing: Option<&str>,
    provider: &str,
    model: &str,
    api_key_env: Option<&str>,
    api_url: Option<&str>,
) -> (r: Result<String, ConfigEditError>)
    ensures
        config_edit_text(
            opt_text(existing),
            |root: Seq<TomlEntry>|
                agent_mode_text_of(root, provider@, model@, opt_text(api_key_env), opt_text(api_url), r),
            r,
        ),
{
    let doc = match starting_document(existing) {
        Ok(d) => d,
        Err(e) => return Err(e),
    };
    proof {
        lemma_table_rows_keyed(doc);
        if doc is Table {
            let t = doc->Table_0@;
            lemma_sub_table_keyed(t, "agent"@);
            lemma_sub_table_keyed(sub_table(t, "agent"@), "providers"@);
            lemma_sub_table_keyed(sub_table(sub_table(t, "agent"@), "providers"@), provider@);
            assert(agent_keyed(t, provider@));
        }
    }
    let ghost before = doc;
    match set_user_agent_mode(doc, provider, model, api_key_env, api_url) {
        Ok(out) => {
            let r = written(&out);
            proof {
                if before is Table {
                    let root = before->Table_0;
                    let rows = out->Table_0;
                    assert(agent_mode_written(
                        root@,
                        provider@,
                        model@,
                        opt_text(api_key_env),
                        opt_text(api_url),
                        rows@,
                    ));
                    assert(TomlValue::Table(rows) == out);
                    assert(agent_mode_text_of(root@, provider@, model@, opt_text(api_key_env), opt_text(api_url), r));
                    if existing is None {
                        assert(root@ =~= Seq::<TomlEntry>::empty());
                    }
                }
            }
            r
        },
        Err(m) => Err(ConfigEditError::Validation(m)),
    }
}

/// What the terminal-agent edit gives for the rows `root`, written out.
pub open spec fn agent_text_of(
    root: Seq<TomlEntry>,
    command: Seq<char>,
    args: Seq<Seq<char>>,
    r: Result<String, ConfigEditError>,
) -> bool {
    if blocks_table(root, "agent"@) {
        r matches Err(ConfigEditError::Validation(m)) && m@ == "[agent] must be a table"@
    } else {
        exists|out: Vec<TomlEntry>| #[trigger] agent_written(root, command, args, out@) && written_as(TomlValue::Table(out), r)
    }
}

/// The new text of the user configuration with `[agent] command` and
/// `args` set, every other setting kept.
pub fn user_agent_config_text(existing: Option<&str>, command: &str, args: &[String]) -> (r: Result<String, ConfigEditError>)
    ensures
        config_edit_text(
            opt_text(existing),
            |root: Seq<TomlEntry>| agent_text_of(root, command@, args@.map_values(|a: String| a@), r),
            r,
        ),
{
    let doc = match starting_document(existing) {
        Ok(d) => d,
        Err(e) => return Err(e),
    };
    proof {
        lemma_table_rows_keyed(doc);
        if doc is Table {
            lemma_sub_table_keyed(doc->Table_0@, "agent"@);
        }
    }
    let ghost before = doc;
    match set_user_agent(doc, command, args) {
        Ok(out) => {
            let r = written(&out);
            proof {
                if before is Table {
                    let root = before->Table_0;
                    let rows = out->Table_0;
                    assert(agent_written(root@, command@, args@.map_values(|a: String| a@), rows@));
                    assert(TomlValue::Table(rows) == out);
                    assert(agent_text_of(root@, command@, args@.map_values(|a: String| a@), r));
                    if existing is None {
                        assert(root@ =~= Seq::<TomlEntry>::empty());
                    }
                }
            }
            r
        },
        Err(m) => Err(ConfigEditError::Validation(m)),
    }
}

/// Whether a project configuration names its own theme: `content` is the
/// text of the project's `.kiwi.toml`, none when it has no readable one;
/// text that is not TOML names none.
pub fn project_has_theme_override(content: Option<&str>) -> (r: bool)
    ensures
        r == match content {
            None => false,
            Some(t) => match toml_document(t@) {
                Ok(v) => spec_theme_override(v),
                Err(_) => false,
            },
        },
{
    match content {
        None => false,
        Some(t) => match parse_toml_document(t) {
            Ok(v) => {
                proof {
                    lemma_table_rows_keyed(v);
                    if v is Table {
                        lemma_sub_table_keyed(v->Table_0@, "theme"@);
                    }
                }
                theme_override_in(&v)
            },
            Err(_) => false,
        },
    }
}

} // verus!
