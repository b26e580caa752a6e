//! Replies of the project-memory server: one JSON-RPC line per request,
//! and the text a tool call gives back.
use vstd::prelude::*;

use super::json::{json_get, json_str, json_text, json_text_outcome, json_value_text, parse_json, JsonValue};
use crate::text::{push_str, str_chars, string_from_chars, trim, trim_chars};

verus! {

/// Why a reply line is missing: the server stopped before it answered.
pub open spec fn memory_startup_error() -> Seq<char> {
    "MCP server exited during startup. Check DATABASE_URL, PostgreSQL, and embedding backend configuration (see tools/MCP-SETUP.md)."@
}

fn text_of(s: &str) -> (r: String)
    ensures
        r@ == s@,
{
    let mut o = String::new();
    push_str(&mut o, s);
    o
}

/// The reply to one request: the line the server wrote, read as JSON once
/// trimmed; an error when the line is blank (the server stopped) or is not
/// JSON.
pub fn memory_reply(line: &str) -> (r: Result<JsonValue, String>)
    ensures
        trim(line@).len() == 0 ==> (r matches Err(e) && e@ == memory_startup_error()),
        trim(line@).len() > 0 ==> match json_text_outcome(trim(line@)) {
            Ok(v) => r == Ok::<JsonValue, String>(v),
            Err(m) => r matches Err(e) && e@ == "MCP response parse failed: "@ + m + "; line="@ + line@,
        },
{
    let t = trim_chars(str_chars(line).as_slice());
    if t.len() == 0 {
        return Err(text_of(
            "MCP server exited during startup. Check DATABASE_URL, PostgreSQL, and embedding backend configuration (see tools/MCP-SETUP.md).",
        ));
    }
    let trimmed = string_from_chars(t.as_slice());
    match parse_json(trimmed.as_str()) {
        Ok(v) => Ok(v),
        Err(m) => {
            let mut e = text_of("MCP response parse failed: ");
            push_str(&mut e, m.as_str());
            push_str(&mut e, "; line=");
            push_str(&mut e, line);
            Err(e)
        },
    }
}

/// One step of a JSON pointer with the token `0`: the member named `0` of
/// an object, the first item of an array.
pub open spec fn pointer_zero(v: Option<JsonValue>) -> Option<JsonValue> {
    match v {
        Some(JsonValue::Object(ms)) => json_get(JsonValue::Object(ms), "0"@),
        Some(JsonValue::Array(xs)) => if xs@.len() > 0 {
            Some(xs@[0])
        } else {
            None
        },
        _ => None,
    }
}

/// A step of a JSON pointer with a token that is not a number.
pub open spec fn pointer_key(v: Option<JsonValue>, k: Seq<char>) -> Option<JsonValue> {
    match v {
        Some(x) => json_get(x, k),
        None => None,
    }
}

/// The text at `/result/content/0/text` of a reply.
pub open spec fn memory_text(v: JsonValue) -> Option<Seq<char>> {
    json_str(pointer_key(pointer_zero(pointer_key(json_get(v, "result"@), "content"@)), "text"@))
}

/// The value a borrowed option points to.
pub open spec fn deref_opt(v: Option<&JsonValue>) -> Option<JsonValue> {
    match v {
        Some(x) => Some(*x),
        None => None,
    }
}

fn key_step<'a>(v: Option<&'a JsonValue>, k: &str) -> (r: Option<&'a JsonValue>)
    ensures
        match r {
            Some(x) => pointer_key(deref_opt(v), k@) == Some(*x),
            None => pointer_key(deref_opt(v), k@) is None,
        },
{
    match v {
        Some(x) => x.get(k),
        None => None,
    }
}

fn zero_step<'a>(v: Option<&'a JsonValue>) -> (r: Option<&'a JsonValue>)
    ensures
        match r {
            Some(x) => pointer_zero(deref_opt(v)) == Some(*x),
            None => pointer_zero(deref_opt(v)) is None,
        },
{
    match v {
        Some(x) => match x {
            JsonValue::Object(_) => x.get("0"),
            JsonValue::Array(xs) => if xs.len() > 0 {
                Some(&xs[0])
            } else {
                None
            },
            _ => None,
        },
        None => None,
    }
}

/// What a memory tool call gives: the reply's error, written as JSON, as
/// an error; else the text at `/result/content/0/text`; else an error that
/// there is none. Should `serde_json` fail to write the error value, the
/// message ends after its colon.
pub fn memory_tool_text(response: &JsonValue) -> (r: Result<String, String>)
    ensures
        match json_get(*response, "error"@) {
            Some(err) => r matches Err(e) && e@ == "MCP error: "@ + match json_value_text(err) {
                Some(t) => t,
                None => Seq::empty(),
            },
            None => match memory_text(*response) {
                Some(t) => r matches Ok(x) && x@ == t,
                None => r matches Err(e) && e@ == "MCP tool returned no text content"@,
            },
        },
{
    match response.get("error") {
        Some(err) => {
            let mut e = text_of("MCP error: ");
            match json_text(err) {
                Some(t) => push_str(&mut e, t.as_str()),
                None => {
                    assert(e@ =~= "MCP error: "@ + Seq::<char>::empty());
                },
            }
            Err(e)
        },
        None => {
            let result = response.get("result");
            let content = key_step(result, "content");
            let first = zero_step(content);
            let text = key_step(first, "text");
            match text {
                Some(JsonValue::String(t)) => Ok(text_of(t.as_str())),
                _ => Err(text_of("MCP tool returned no text content")),
            }
        },
    }
}

} // verus!
