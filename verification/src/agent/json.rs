//! JSON values as the agent protocol carries them, reading their fields,
//! and JSON text read and written through `serde_json`.
use vstd::prelude::*;

use crate::text::{str_chars, str_eq, string_from_chars, trim, trim_chars};

verus! {

/// A JSON number: its value when it is a non-negative integer that fits
/// 64 bits, and its literal text.
#[derive(Debug, Clone, PartialEq, Eq)]
pub struct JsonNumber {
    pub as_u64: Option<u64>,
    pub literal: String,
}

/// A member of a JSON object.
#[derive(Debug, PartialEq, Eq)]
pub struct JsonMember {
    pub key: String,
    pub value: JsonValue,
}

/// A JSON value; an object keeps its members in order.
#[derive(Debug, PartialEq, Eq)]
pub enum JsonValue {
    Null,
    Bool(bool),
    Number(JsonNumber),
    String(String),
    Array(Vec<JsonValue>),
    Object(Vec<JsonMember>),
}

/// Value of the first member named `k`.
pub open spec fn member(pairs: Seq<JsonMember>, k: Seq<char>) -> Option<JsonValue>
    decreases pairs.len(),
{
    if pairs.len() == 0 {
        None
    } else if pairs[0].key@ == k {
        Some(pairs[0].value)
    } else {
        member(pairs.drop_first(), k)
    }
}

/// `value[k]` of an object; nothing for other values or a missing member.
pub open spec fn json_get(v: JsonValue, k: Seq<char>) -> Option<JsonValue> {
    match v {
        JsonValue::Object(pairs) => member(pairs@, k),
        _ => None,
    }
}

/// The text of a string value.
pub open spec fn json_str(v: Option<JsonValue>) -> Option<Seq<char>> {
    match v {
        Some(JsonValue::String(s)) => Some(s@),
        _ => None,
    }
}

/// A non-negative integer value.
pub open spec fn json_u64(v: Option<JsonValue>) -> Option<u64> {
    match v {
        Some(JsonValue::Number(n)) => n.as_u64,
        _ => None,
    }
}

/// A boolean value.
pub open spec fn json_bool(v: Option<JsonValue>) -> Option<bool> {
    match v {
        Some(JsonValue::Bool(b)) => Some(b),
        _ => None,
    }
}

/// An optional text member: absent, null, non-string and blank values
/// count as absent.
pub open spec fn json_opt_text(v: Option<JsonValue>) -> Option<Seq<char>> {
    match v {
        Some(JsonValue::String(s)) => if trim(s@).len() == 0 {
            None
        } else {
            Some(s@)
        },
        _ => None,
    }
}

/// Takes out the first member named `k`.
pub fn take_member(members: &mut Vec<JsonMember>, k: &str) -> (r: Option<JsonValue>)
    ensures
        r == member(old(members)@, k@),
        r is None ==> final(members)@ == old(members)@,
{
    let mut i: usize = 0;
    assert(members@.skip(0) =~= members@);
    while i < members.len()
        invariant
            i <= members@.len(),
            members@ == old(members)@,
            member(members@, k@) == member(members@.skip(i as int), k@),
        decreases members.len() - i,
    {
        assert(members@.skip(i as int)[0] == members@[i as int]);
        assert(members@.skip(i as int).drop_first() =~= members@.skip(i + 1));
        if str_eq(members[i].key.as_str(), k) {
            let m = members.remove(i);
            return Some(m.value);
        }
        i = i + 1;
    }
    None
}

impl JsonValue {
    /// The member `k` of an object.
    pub fn get(&self, k: &str) -> (r: Option<&JsonValue>)
        ensures
            match r {
                Some(v) => json_get(*self, k@) == Some(*v),
                None => json_get(*self, k@) is None,
            },
    {
        match self {
            JsonValue::Object(pairs) => {
                let mut i: usize = 0;
                assert(pairs@.skip(0) =~= pairs@);
                while i < pairs.len()
                    invariant
                        i <= pairs@.len(),
                        *self == JsonValue::Object(*pairs),
                        member(pairs@, k@) == member(pairs@.skip(i as int), k@),
                    decreases pairs.len() - i,
                {
                    assert(pairs@.skip(i as int)[0] == pairs@[i as int]);
                    assert(pairs@.skip(i as int).drop_first() =~= pairs@.skip(i + 1));
                    if str_eq(pairs[i].key.as_str(), k) {
                        assert(member(pairs@.skip(i as int), k@) == Some(pairs@[i as int].value));
                        return Some(&pairs[i].value);
                    }
                    i = i + 1;
                }
                None
            },
            _ => None,
        }
    }

    /// The text of a string member.
    pub fn str_field(&self, k: &str) -> (r: Option<String>)
        ensures
            match r {
                Some(s) => json_str(json_get(*self, k@)) == Some(s@),
                None => json_str(json_get(*self, k@)) is None,
            },
    {
        match self.get(k) {
            Some(JsonValue::String(s)) => Some(string_from_chars(str_chars(s.as_str()).as_slice())),
            _ => None,
        }
    }

    /// A non-negative integer member.
    pub fn u64_field(&self, k: &str) -> (r: Option<u64>)
        ensures
            r == json_u64(json_get(*self, k@)),
    {
        match self.get(k) {
            Some(JsonValue::Number(n)) => n.as_u64,
            _ => None,
        }
    }

    /// A boolean member.
    pub fn bool_field(&self, k: &str) -> (r: Option<bool>)
        ensures
            r == json_bool(json_get(*self, k@)),
    {
        match self.get(k) {
            Some(JsonValue::Bool(b)) => Some(*b),
            _ => None,
        }
    }

    /// An optional, non-blank text member.
    pub fn opt_text_field(&self, k: &str) -> (r: Option<String>)
        ensures
            match r {
                Some(s) => json_opt_text(json_get(*self, k@)) == Some(s@),
                None => json_opt_text(json_get(*self, k@)) is None,
            },
    {
        match self.get(k) {
            Some(JsonValue::String(s)) => {
                let t = trim_chars(str_chars(s.as_str()).as_slice());
                if t.len() == 0 {
                    None
                } else {
                    Some(string_from_chars(str_chars(s.as_str()).as_slice()))
                }
            },
            _ => None,
        }
    }
}

#[verifier::external_type_specification]
#[verifier::external_body]
pub struct ExSerdeJsonValue(serde_json::Value);

/// The library value of a `serde_json` value, member for member.
#[verifier::external_body]
fn json_from_serde(value: serde_json::Value) -> JsonValue {
    match value {
        serde_json::Value::Null => JsonValue::Null,
        serde_json::Value::Bool(b) => JsonValue::Bool(b),
        serde_json::Value::Number(n) => JsonValue::Number(JsonNumber { as_u64: n.as_u64(), literal: n.to_string() }),
        serde_json::Value::String(t) => JsonValue::String(t),
        serde_json::Value::Array(xs) => JsonValue::Array(xs.into_iter().map(json_from_serde).collect()),
        serde_json::Value::Object(m) => JsonValue::Object(
            m.into_iter().map(|(key, v)| JsonMember { key, value: json_from_serde(v) }).collect(),
        ),
    }
}

/// The `serde_json` value of a library value, member for member.
#[verifier::external_body]
fn json_to_serde(value: &JsonValue) -> serde_json::Value {
    match value {
        JsonValue::Null => serde_json::Value::Null,
        JsonValue::Bool(b) => serde_json::Value::Bool(*b),
        JsonValue::Number(n) => n.literal.parse::<serde_json::Number>().map(serde_json::Value::Number).unwrap_or(serde_json::Value::Null),
        JsonValue::String(t) => serde_json::Value::String(t.clone()),
        JsonValue::Array(xs) => serde_json::Value::Array(xs.iter().map(json_to_serde).collect()),
        JsonValue::Object(ms) => serde_json::Value::Object(
            ms.iter().map(|m| (m.key.clone(), json_to_serde(&m.value))).collect(),
        ),
    }
}

/// What `serde_json::from_str` reads `text` as, or the message of its
/// error.
pub uninterp spec fn json_text_outcome(text: Seq<char>) -> Result<JsonValue, Seq<char>>;

/// What `serde_json` reads `text` as, when it is JSON.
pub open spec fn json_text_value(text: Seq<char>) -> Option<JsonValue> {
    match json_text_outcome(text) {
        Ok(v) => Some(v),
        Err(_) => None,
    }
}

/// The compact JSON text that `serde_json` writes for `value`.
pub uninterp spec fn json_value_text(value: JsonValue) -> Option<Seq<char>>;

/// `serde_json::from_str` into a `serde_json::Value`, read member for
/// member, or the error's message. The value is named, not stated; it
/// depends on the text alone.
#[verifier::external_body]
pub(crate) fn parse_json(text: &str) -> (r: Result<JsonValue, String>)
    ensures
        match r {
            Ok(v) => json_text_outcome(text@) == Ok::<JsonValue, Seq<char>>(v),
            Err(e) => json_text_outcome(text@) == Err::<JsonValue, Seq<char>>(e@),
        },
{
    serde_json::from_str::<serde_json::Value>(text).map(json_from_serde).map_err(|e| e.to_string())
}

/// The text read as JSON, when it is.
pub(crate) fn parse_json_text(text: &str) -> (r: Option<JsonValue>)
    ensures
        r == json_text_value(text@),
{
    match parse_json(text) {
        Ok(v) => Some(v),
        Err(_) => None,
    }
}

/// `serde_json::to_string` of the value, member for member; `None` when
/// it reports an error. The text is named, not stated; it depends on the
/// value alone.
#[verifier::external_body]
pub(crate) fn json_text(value: &JsonValue) -> (r: Option<String>)
    ensures
        match r {
            Some(t) => json_value_text(*value) == Some(t@),
            None => json_value_text(*value) is None,
        },
{
    serde_json::to_string(&json_to_serde(value)).ok()
}

} // verus!
