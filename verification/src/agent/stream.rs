//! Decisions of the streaming chat clients, one input at a time.
//!
//! The application reads the HTTP response line by line and hands each line
//! (or, for the Messages API, each event decoded from it as a
//! [`ClaudeStreamEvent`]) to the state machines here, which read the JSON
//! payloads. Each step says what to report to the chat view and whether the
//! turn goes on, ended, or failed; the application sends the outputs and
//! stops reading when told.
use vstd::prelude::*;

use super::json::{
    json_bool, json_get, json_str, json_text, json_text_value, json_u64, json_value_text, parse_json_text, take_member,
    JsonValue,
};
use crate::text::{decimal, is_prefix, push_decimal, push_str, str_chars, string_from_chars, trim, trim_chars};

verus! {

/// What a step reports to the chat view.
#[derive(Debug, PartialEq, Eq)]
pub enum StreamOutput {
    /// More assistant text.
    TokenChunk { text: String },
    /// A complete tool call.
    ToolCallStart { tool_use_id: String, tool_name: String, input_json: String },
    /// The assistant turn is over.
    TurnComplete,
}

/// Whether reading goes on after a step.
#[derive(Debug, Clone, PartialEq, Eq)]
pub enum StreamControl {
    Continue,
    /// The turn ended normally; stop reading.
    Finished,
    /// The provider reported an error; stop reading and show it.
    Failed(String),
}

/// Outputs of one step, in order, and what to do next.
#[derive(Debug, PartialEq, Eq)]
pub struct StreamStep {
    pub outputs: Vec<StreamOutput>,
    pub control: StreamControl,
}

/// The payload of a server-sent-events line: the text after `data:`,
/// trimmed; other lines carry none.
pub open spec fn spec_sse_data(line: Seq<char>) -> Option<Seq<char>> {
    if is_prefix("data:"@, line) {
        Some(trim(line.skip(5)))
    } else {
        None
    }
}

/// Payload of a server-sent-events line.
pub fn sse_data(line: &str) -> (r: Option<String>)
    ensures
        match r {
            Some(d) => spec_sse_data(line@) == Some(d@),
            None => spec_sse_data(line@) is None,
        },
{
    let v = str_chars(line);
    proof {
        reveal_strlit("data:");
    }
    if v.len() < 5 || v[0] != 'd' || v[1] != 'a' || v[2] != 't' || v[3] != 'a' || v[4] != ':' {
        proof {
            if is_prefix("data:"@, line@) {
                assert(line@.take(5)[0] == 'd');
                assert(line@.take(5)[1] == 'a');
                assert(line@.take(5)[2] == 't');
                assert(line@.take(5)[3] == 'a');
                assert(line@.take(5)[4] == ':');
            }
        }
        return None;
    }
    assert(line@.take(5) =~= "data:"@);
    let mut rest: Vec<char> = Vec::new();
    let mut i: usize = 5;
    while i < v.len()
        invariant
            5 <= i <= v@.len(),
            v@ == line@,
            rest@ == line@.subrange(5, i as int),
        decreases v.len() - i,
    {
        rest.push(v[i]);
        i = i + 1;
    }
    assert(rest@ =~= line@.skip(5));
    let t = trim_chars(rest.as_slice());
    Some(string_from_chars(t.as_slice()))
}

/// An event of the Messages API stream, as the application decodes it.
#[derive(Debug, PartialEq, Eq)]
pub enum ClaudeStreamEvent {
    /// A text content block starts.
    TextBlockStart,
    /// A tool-use content block starts.
    ToolUseBlockStart { id: String, name: String },
    TextDelta { text: String },
    /// A piece of a tool call's input JSON.
    InputJsonDelta { partial_json: String },
    /// The current content block ends.
    BlockStop,
    MessageStop,
    Error { message: String },
    /// Message start, message delta, ping: nothing to do.
    Other,
}

/// The tool block being received from the Messages API stream.
#[derive(Debug, PartialEq, Eq)]
pub struct ClaudeStreamState {
    pub tool_id: String,
    pub tool_name: String,
    /// Input JSON received so far for the open tool block.
    pub tool_input: String,
    pub in_tool_block: bool,
}

/// No output; reading goes on.
pub open spec fn quiet(r: StreamStep) -> bool {
    r.outputs@.len() == 0 && r.control == StreamControl::Continue
}

/// `o` reports the text `t`.
pub open spec fn is_token(o: StreamOutput, t: Seq<char>) -> bool {
    o matches StreamOutput::TokenChunk { text } && text@ == t
}

/// `o` reports a tool call with input text.
pub open spec fn is_text_call(o: StreamOutput, id: Seq<char>, name: Seq<char>, input: Seq<char>) -> bool {
    o matches StreamOutput::ToolCallStart { tool_use_id, tool_name, input_json }
        && tool_use_id@ == id && tool_name@ == name && input_json@ == input
}

/// How one Messages API event moves the stream from `s` to `t`, reporting `r`.
pub open spec fn claude_step(s: ClaudeStreamState, e: ClaudeStreamEvent, t: ClaudeStreamState, r: StreamStep) -> bool {
    match e {
        ClaudeStreamEvent::TextBlockStart => quiet(r) && t == ClaudeStreamState { in_tool_block: false, ..s },
        ClaudeStreamEvent::ToolUseBlockStart { id, name } => quiet(r) && t.in_tool_block && t.tool_id@
            == id@ && t.tool_name@ == name@ && t.tool_input@.len() == 0,
        ClaudeStreamEvent::TextDelta { text } => r.outputs@.len() == 1 && is_token(r.outputs@[0], text@)
            && r.control == StreamControl::Continue && t == s,
        ClaudeStreamEvent::InputJsonDelta { partial_json } => quiet(r) && t.tool_input@ == s.tool_input@
            + partial_json@ && t.tool_id == s.tool_id && t.tool_name == s.tool_name && t.in_tool_block
            == s.in_tool_block,
        ClaudeStreamEvent::BlockStop => if s.in_tool_block {
            r.outputs@.len() == 1 && is_text_call(r.outputs@[0], s.tool_id@, s.tool_name@, s.tool_input@)
                && r.control == StreamControl::Continue && !t.in_tool_block && t.tool_input@.len() == 0
                && t.tool_id == s.tool_id && t.tool_name == s.tool_name
        } else {
            quiet(r) && t == s
        },
        ClaudeStreamEvent::MessageStop => r.outputs@.len() == 1 && r.outputs@[0] == StreamOutput::TurnComplete
            && r.control == StreamControl::Finished && t == s,
        ClaudeStreamEvent::Error { message } => r.outputs@.len() == 0 && r.control == StreamControl::Failed(
            message,
        ) && t == s,
        ClaudeStreamEvent::Other => quiet(r) && t == s,
    }
}

/// The single step that ends the turn: what to report when the stream ends
/// without an explicit stop.
pub open spec fn turn_ends(r: StreamStep) -> bool {
    r.outputs@.len() == 1 && r.outputs@[0] == StreamOutput::TurnComplete && r.control == StreamControl::Finished
}

fn quiet_step() -> (r: StreamStep)
    ensures
        quiet(r),
{
    StreamStep { outputs: Vec::new(), control: StreamControl::Continue }
}

fn end_step() -> (r: StreamStep)
    ensures
        turn_ends(r),
{
    let mut outputs: Vec<StreamOutput> = Vec::new();
    outputs.push(StreamOutput::TurnComplete);
    StreamStep { outputs, control: StreamControl::Finished }
}

impl ClaudeStreamState {
    /// No tool block open.
    pub fn new() -> (r: Self)
        ensures
            !r.in_tool_block,
            r.tool_id@.len() == 0,
            r.tool_name@.len() == 0,
            r.tool_input@.len() == 0,
    {
        ClaudeStreamState { tool_id: String::new(), tool_name: String::new(), tool_input: String::new(), in_tool_block: false }
    }

    /// Takes one event: text deltas are reported as they come, a tool call
    /// when its block stops, with the input JSON gathered from its deltas.
    pub fn step(&mut self, event: ClaudeStreamEvent) -> (r: StreamStep)
        ensures
            claude_step(*old(self), event, *final(self), r),
    {
        match event {
            ClaudeStreamEvent::TextBlockStart => {
                self.in_tool_block = false;
                quiet_step()
            },
            ClaudeStreamEvent::ToolUseBlockStart { id, name } => {
                self.in_tool_block = true;
                self.tool_id = id;
                self.tool_name = name;
                self.tool_input = String::new();
                quiet_step()
            },
            ClaudeStreamEvent::TextDelta { text } => {
                let mut outputs: Vec<StreamOutput> = Vec::new();
                outputs.push(StreamOutput::TokenChunk { text });
                StreamStep { outputs, control: StreamControl::Continue }
            },
            ClaudeStreamEvent::InputJsonDelta { partial_json } => {
                push_str(&mut self.tool_input, partial_json.as_str());
                quiet_step()
            },
            ClaudeStreamEvent::BlockStop => {
                if self.in_tool_block {
                    let mut input = String::new();
                    std::mem::swap(&mut input, &mut self.tool_input);
                    let mut outputs: Vec<StreamOutput> = Vec::new();
                    outputs.push(
                        StreamOutput::ToolCallStart {
                            tool_use_id: self.tool_id.clone(),
                            tool_name: self.tool_name.clone(),
                            input_json: input,
                        },
                    );
                    self.in_tool_block = false;
                    StreamStep { outputs, control: StreamControl::Continue }
                } else {
                    quiet_step()
                }
            },
            ClaudeStreamEvent::MessageStop => end_step(),
            ClaudeStreamEvent::Error { message } => StreamStep { outputs: Vec::new(), control: StreamControl::Failed(message) },
            ClaudeStreamEvent::Other => quiet_step(),
        }
    }

    /// The stream ended without a stop event (a dropped connection): the
    /// turn is over.
    pub fn finish(&self) -> (r: StreamStep)
        ensures
            turn_ends(r),
    {
        end_step()
    }
}

fn owned(s: &str) -> (r: String)
    ensures
        r@ == s@,
{
    let mut o = String::new();
    push_str(&mut o, s);
    o
}

/// `v[k]` when `v` is there.
pub open spec fn opt_get(o: Option<JsonValue>, k: Seq<char>) -> Option<JsonValue> {
    match o {
        Some(v) => json_get(v, k),
        None => None,
    }
}

/// Name of the function an Ollama tool call names.
pub open spec fn ollama_call_name(c: JsonValue) -> Option<Seq<char>> {
    json_str(opt_get(json_get(c, "function"@), "name"@))
}

/// Positions, in order, of the calls in `calls` that name a function.
pub open spec fn named_positions(calls: Seq<JsonValue>) -> Seq<int>
    decreases calls.len(),
{
    if calls.len() == 0 {
        Seq::empty()
    } else if ollama_call_name(calls.last()) is Some {
        named_positions(calls.drop_last()).push(calls.len() - 1)
    } else {
        named_positions(calls.drop_last())
    }
}

/// Id of the Ollama tool call at `index`: its own, else one made from the index.
pub open spec fn ollama_call_id(c: JsonValue, index: int) -> Seq<char> {
    match json_str(json_get(c, "id"@)) {
        Some(id) => id,
        None => "ollama_call_"@ + decimal(index as nat),
    }
}

/// Input text of the Ollama tool call `c`: its arguments as they came when
/// text, as JSON text otherwise, `{}` when absent (or when they cannot be
/// written).
pub open spec fn ollama_call_input_text(c: JsonValue) -> Seq<char> {
    match opt_get(json_get(c, "function"@), "arguments"@) {
        Some(JsonValue::String(t)) => t@,
        Some(a) => match json_value_text(a) {
            Some(t) => t,
            None => "{}"@,
        },
        None => "{}"@,
    }
}

/// `o` reports the Ollama tool call `c` found at `index`.
pub open spec fn ollama_call_output(c: JsonValue, index: int, o: StreamOutput) -> bool {
    &&& o matches StreamOutput::ToolCallStart { tool_use_id, tool_name, input_json }
    &&& o->tool_use_id@ == ollama_call_id(c, index)
    &&& ollama_call_name(c) == Some(o->tool_name@)
    &&& o->input_json@ == ollama_call_input_text(c)
}

/// `outs` reports, in order, the calls of `calls` that name a function.
pub open spec fn ollama_calls_out(calls: Seq<JsonValue>, outs: Seq<StreamOutput>) -> bool {
    let pos = named_positions(calls);
    outs.len() == pos.len() && forall|k: int|
        0 <= k < outs.len() ==> ollama_call_output(calls[pos[k]], pos[k], #[trigger] outs[k])
}

/// Message of an Ollama error chunk.
pub open spec fn ollama_error_text(obj: JsonValue) -> Seq<char> {
    match json_str(json_get(obj, "error"@)) {
        Some(m) => m,
        None => "Ollama error"@,
    }
}

/// Non-empty assistant text of a chunk.
pub open spec fn ollama_content(obj: JsonValue) -> Option<Seq<char>> {
    match json_str(opt_get(json_get(obj, "message"@), "content"@)) {
        Some(c) => if c.len() > 0 {
            Some(c)
        } else {
            None
        },
        None => None,
    }
}

/// Whether a chunk ends the reply.
pub open spec fn ollama_done(obj: JsonValue) -> bool {
    json_bool(json_get(obj, "done"@)) == Some(true)
}

/// Tool calls a final chunk carries, when tools were offered.
pub open spec fn ollama_tool_calls(obj: JsonValue, include_tools: bool) -> Seq<JsonValue> {
    if include_tools {
        match opt_get(json_get(obj, "message"@), "tool_calls"@) {
            Some(JsonValue::Array(v)) => v@,
            _ => Seq::empty(),
        }
    } else {
        Seq::empty()
    }
}

/// What one chunk of an Ollama chat stream reports: an error stops the
/// turn; otherwise its text, and, when it is the last chunk, its tool calls
/// and the end of the turn.
pub open spec fn ollama_step(obj: JsonValue, include_tools: bool, r: StreamStep) -> bool {
    if json_get(obj, "error"@) is Some {
        r.outputs@.len() == 0 && (r.control matches StreamControl::Failed(m) && m@ == ollama_error_text(obj))
    } else {
        let pre: int = if ollama_content(obj) is Some {
            1
        } else {
            0
        };
        &&& (ollama_content(obj) matches Some(c) ==> r.outputs@.len() > 0 && is_token(r.outputs@[0], c))
        &&& if ollama_done(obj) {
            let n = r.outputs@.len() as int;
            &&& n >= pre + 1
            &&& ollama_calls_out(ollama_tool_calls(obj, include_tools), r.outputs@.subrange(pre, n - 1))
            &&& r.outputs@[n - 1] == StreamOutput::TurnComplete
            &&& r.control == StreamControl::Finished
        } else {
            r.outputs@.len() == pre && r.control == StreamControl::Continue
        }
    }
}

proof fn lemma_named_positions(calls: Seq<JsonValue>)
    ensures
        forall|k: int| 0 <= k < named_positions(calls).len() ==> 0 <= #[trigger] named_positions(calls)[k] < calls.len(),
    decreases calls.len(),
{
    if calls.len() > 0 {
        let p = named_positions(calls.drop_last());
        lemma_named_positions(calls.drop_last());
        assert forall|k: int| 0 <= k < named_positions(calls).len() implies 0 <= #[trigger] named_positions(
            calls,
        )[k] < calls.len() by {
            if k < p.len() {
                assert(named_positions(calls)[k] == p[k]);
            }
        }
    }
}

fn ollama_call_name_of(c: &JsonValue) -> (r: Option<String>)
    ensures
        match r {
            Some(n) => ollama_call_name(*c) == Some(n@),
            None => ollama_call_name(*c) is None,
        },
{
    match c.get("function") {
        Some(f) => f.str_field("name"),
        None => None,
    }
}

fn ollama_call_input(c: JsonValue) -> (r: String)
    ensures
        r@ == ollama_call_input_text(c),
{
    match c {
        JsonValue::Object(members) => {
            let mut members = members;
            match take_member(&mut members, "function") {
                Some(JsonValue::Object(fm)) => {
                    let mut fm = fm;
                    match take_member(&mut fm, "arguments") {
                        Some(JsonValue::String(t)) => t,
                        Some(a) => match json_text(&a) {
                            Some(t) => t,
                            None => owned("{}"),
                        },
                        None => owned("{}"),
                    }
                },
                _ => owned("{}"),
            }
        },
        _ => owned("{}"),
    }
}

fn take_tool_calls(obj: JsonValue) -> (r: Vec<JsonValue>)
    ensures
        r@ == ollama_tool_calls(obj, true),
{
    match obj {
        JsonValue::Object(members) => {
            let mut members = members;
            match take_member(&mut members, "message") {
                Some(JsonValue::Object(mm)) => {
                    let mut mm = mm;
                    match take_member(&mut mm, "tool_calls") {
                        Some(JsonValue::Array(v)) => v,
                        _ => Vec::new(),
                    }
                },
                _ => Vec::new(),
            }
        },
        _ => Vec::new(),
    }
}

/// Takes one line of an Ollama chat stream: nothing for a blank line or one
/// that is not JSON; otherwise the step for the object it holds.
pub fn ollama_line(line: &str, include_tools: bool) -> (r: Option<StreamStep>)
    ensures
        trim(line@).len() == 0 ==> r is None,
        trim(line@).len() > 0 ==> match json_text_value(trim(line@)) {
            None => r is None,
            Some(obj) => r matches Some(st) && ollama_step(obj, include_tools, st),
        },
{
    let tc = trim_chars(str_chars(line).as_slice());
    if tc.len() == 0 {
        return None;
    }
    let t = string_from_chars(tc.as_slice());
    match parse_json_text(t.as_str()) {
        None => None,
        Some(obj) => Some(ollama_line_step(obj, include_tools)),
    }
}

/// Takes one parsed line of an Ollama chat stream.
pub fn ollama_line_step(obj: JsonValue, include_tools: bool) -> (r: StreamStep)
    ensures
        ollama_step(obj, include_tools, r),
{
    let ghost orig = obj;
    match obj.get("error") {
        Some(e) => {
            let msg = match e {
                JsonValue::String(m) => m.clone(),
                _ => owned("Ollama error"),
            };
            return StreamStep { outputs: Vec::new(), control: StreamControl::Failed(msg) };
        },
        None => {},
    }
    let mut outputs: Vec<StreamOutput> = Vec::new();
    let content = match obj.get("message") {
        Some(m) => m.str_field("content"),
        None => None,
    };
    match content {
        Some(c) => {
            if str_chars(c.as_str()).len() > 0 {
                outputs.push(StreamOutput::TokenChunk { text: c });
            }
        },
        None => {},
    }
    let start = outputs.len();
    let done = match obj.bool_field("done") {
        Some(b) => b,
        None => false,
    };
    if !done {
        return StreamStep { outputs, control: StreamControl::Continue };
    }
    let calls = if include_tools {
        take_tool_calls(obj)
    } else {
        Vec::new()
    };
    let ghost cs = calls@;
    assert(cs == ollama_tool_calls(orig, include_tools));
    let mut rest = calls;
    let total = rest.len();
    let mut i: usize = 0;
    assert(rest@ =~= cs.skip(0));
    assert(cs.take(0) =~= Seq::<JsonValue>::empty());
    while rest.len() > 0
        invariant
            i + rest@.len() == cs.len(),
            cs.len() == total,
            rest@ == cs.skip(i as int),
            start <= outputs@.len(),
            start == (if ollama_content(orig) is Some { 1int } else { 0int }),
            ollama_content(orig) matches Some(c) ==> outputs@.len() > 0 && is_token(outputs@[0], c),
            ({
                let pos = named_positions(cs.take(i as int));
                let outs = outputs@.subrange(start as int, outputs@.len() as int);
                &&& outs.len() == pos.len()
                &&& forall|k: int| 0 <= k < outs.len() ==> 0 <= #[trigger] pos[k] < i && ollama_call_output(cs[pos[k]], pos[k], outs[k])
            }),
        decreases rest@.len(),
    {
        let c = rest.remove(0);
        assert(c == cs[i as int]);
        assert(rest@ =~= cs.skip(i + 1));
        assert(cs.take(i + 1).drop_last() =~= cs.take(i as int));
        assert(cs.take(i + 1).last() == cs[i as int]);
        let ghost before = outputs@;
        match ollama_call_name_of(&c) {
            Some(name) => {
                let id = match c.str_field("id") {
                    Some(x) => x,
                    None => {
                        let mut x = owned("ollama_call_");
                        push_decimal(&mut x, i as u64);
                        x
                    },
                };
                let input_json = ollama_call_input(c);
                outputs.push(StreamOutput::ToolCallStart { tool_use_id: id, tool_name: name, input_json });
                assert(outputs@.subrange(start as int, outputs@.len() as int) =~= before.subrange(
                    start as int,
                    before.len() as int,
                ).push(outputs@[outputs@.len() - 1]));
            },
            None => {},
        }
        i = i + 1;
    }
    assert(cs.take(i as int) =~= cs);
    outputs.push(StreamOutput::TurnComplete);
    assert(outputs@.subrange(start as int, outputs@.len() - 1) =~= outputs@.subrange(start as int, outputs@.len() as int).drop_last()) by {
    }
    StreamStep { outputs, control: StreamControl::Finished }
}

/// A tool call being assembled from OpenAI stream deltas.
#[derive(Debug, PartialEq, Eq)]
pub struct ToolCallBuilder {
    /// Position of the call in the provider's list.
    pub index: u64,
    pub id: String,
    pub name: String,
    /// Argument JSON received so far.
    pub arguments: String,
}

/// A call draft: index, id, name and arguments.
pub open spec fn draft_of(b: ToolCallBuilder) -> (u64, Seq<char>, Seq<char>, Seq<char>) {
    (b.index, b.id@, b.name@, b.arguments@)
}

/// Drafts of the builders, in order.
pub open spec fn drafts(s: Seq<ToolCallBuilder>) -> Seq<(u64, Seq<char>, Seq<char>, Seq<char>)> {
    s.map_values(|b: ToolCallBuilder| draft_of(b))
}

/// The list index a tool-call delta is for (0 when it gives none).
pub open spec fn delta_index(c: JsonValue) -> u64 {
    match json_u64(json_get(c, "index"@)) {
        Some(n) => n,
        None => 0,
    }
}

/// A draft after a delta: a given id or name replaces the old one, given
/// argument text is appended.
pub open spec fn apply_delta(d: (u64, Seq<char>, Seq<char>, Seq<char>), c: JsonValue) -> (u64, Seq<char>, Seq<char>, Seq<char>) {
    (
        d.0,
        match json_str(json_get(c, "id"@)) {
            Some(x) => x,
            None => d.1,
        },
        match json_str(opt_get(json_get(c, "function"@), "name"@)) {
            Some(x) => x,
            None => d.2,
        },
        match json_str(opt_get(json_get(c, "function"@), "arguments"@)) {
            Some(x) => d.3 + x,
            None => d.3,
        },
    )
}

/// Drafts after a delta for index `k`: the draft for `k` is updated, or a
/// new one is made in index order.
pub open spec fn upsert(s: Seq<(u64, Seq<char>, Seq<char>, Seq<char>)>, k: u64, c: JsonValue) -> Seq<(u64, Seq<char>, Seq<char>, Seq<char>)>
    decreases s.len(),
{
    if s.len() == 0 {
        seq![apply_delta((k, Seq::empty(), Seq::empty(), Seq::empty()), c)]
    } else if s[0].0 == k {
        seq![apply_delta(s[0], c)] + s.drop_first()
    } else if s[0].0 > k {
        seq![apply_delta((k, Seq::empty(), Seq::empty(), Seq::empty()), c)] + s
    } else {
        seq![s[0]] + upsert(s.drop_first(), k, c)
    }
}

/// Drafts after the deltas `cs`, taken in order.
pub open spec fn merge_all(s: Seq<(u64, Seq<char>, Seq<char>, Seq<char>)>, cs: Seq<JsonValue>) -> Seq<(u64, Seq<char>, Seq<char>, Seq<char>)>
    decreases cs.len(),
{
    if cs.len() == 0 {
        s
    } else {
        merge_all(upsert(s, delta_index(cs[0]), cs[0]), cs.drop_first())
    }
}

/// Drafts that name a tool, in order.
pub open spec fn named_drafts(s: Seq<(u64, Seq<char>, Seq<char>, Seq<char>)>) -> Seq<(u64, Seq<char>, Seq<char>, Seq<char>)>
    decreases s.len(),
{
    if s.len() == 0 {
        Seq::empty()
    } else if s.last().2.len() > 0 {
        named_drafts(s.drop_last()).push(s.last())
    } else {
        named_drafts(s.drop_last())
    }
}

/// Id reported for a draft: its own, else one made from its index.
pub open spec fn draft_id(d: (u64, Seq<char>, Seq<char>, Seq<char>)) -> Seq<char> {
    if d.1.len() == 0 {
        "openai_call_"@ + decimal(d.0 as nat)
    } else {
        d.1
    }
}

/// `outs` reports the drafts that name a tool, in index order.
pub open spec fn flush_out(s: Seq<(u64, Seq<char>, Seq<char>, Seq<char>)>, outs: Seq<StreamOutput>) -> bool {
    let nd = named_drafts(s);
    outs.len() == nd.len() && forall|k: int|
        0 <= k < outs.len() ==> is_text_call(#[trigger] outs[k], draft_id(nd[k]), nd[k].2, nd[k].3)
}

/// The first choice of a chunk.
pub open spec fn first_choice(obj: JsonValue) -> Option<JsonValue> {
    match json_get(obj, "choices"@) {
        Some(JsonValue::Array(v)) => if v@.len() > 0 {
            Some(v@[0])
        } else {
            None
        },
        _ => None,
    }
}

/// Error message a chunk carries.
pub open spec fn openai_error(obj: JsonValue) -> Option<Seq<char>> {
    json_str(opt_get(json_get(obj, "error"@), "message"@))
}

/// Non-empty text of a chunk's first choice.
pub open spec fn openai_content(obj: JsonValue) -> Option<Seq<char>> {
    match json_str(opt_get(opt_get(first_choice(obj), "delta"@), "content"@)) {
        Some(c) => if c.len() > 0 {
            Some(c)
        } else {
            None
        },
        None => None,
    }
}

/// Tool-call deltas of a chunk's first choice.
pub open spec fn openai_deltas(obj: JsonValue) -> Seq<JsonValue> {
    match opt_get(opt_get(first_choice(obj), "delta"@), "tool_calls"@) {
        Some(JsonValue::Array(v)) => v@,
        _ => Seq::empty(),
    }
}

/// Whether a chunk says the tool calls are complete.
pub open spec fn openai_calls_done(obj: JsonValue) -> bool {
    json_str(opt_get(first_choice(obj), "finish_reason"@)) == Some("tool_calls"@)
}

/// How one OpenAI server-sent-events payload moves the drafts from `s` to
/// `t`, reporting `r`. `parsed` is the payload read as JSON, when it is.
pub open spec fn openai_step(
    s: Seq<(u64, Seq<char>, Seq<char>, Seq<char>)>,
    data: Seq<char>,
    parsed: Option<JsonValue>,
    t: Seq<(u64, Seq<char>, Seq<char>, Seq<char>)>,
    r: StreamStep,
) -> bool {
    if data == "[DONE]"@ {
        let n = r.outputs@.len() as int;
        &&& n >= 1
        &&& flush_out(s, r.outputs@.take(n - 1))
        &&& r.outputs@[n - 1] == StreamOutput::TurnComplete
        &&& r.control == StreamControl::Finished
        &&& t == s
    } else {
        match parsed {
            None => quiet(r) && t == s,
            Some(obj) => match openai_error(obj) {
                Some(m) => r.outputs@.len() == 0 && (r.control matches StreamControl::Failed(x) && x@ == m) && t
                    == s,
                None => {
                    let pre: int = if openai_content(obj) is Some {
                        1
                    } else {
                        0
                    };
                    let merged = merge_all(s, openai_deltas(obj));
                    &&& r.control == StreamControl::Continue
                    &&& r.outputs@.len() >= pre
                    &&& (openai_content(obj) matches Some(c) ==> is_token(r.outputs@[0], c))
                    &&& if openai_calls_done(obj) {
                        flush_out(merged, r.outputs@.skip(pre)) && t.len() == 0
                    } else {
                        r.outputs@.len() == pre && t == merged
                    }
                },
            },
        }
    }
}

/// Tool calls being assembled from an OpenAI-compatible stream.
#[derive(Debug, PartialEq, Eq)]
pub struct OpenAiStreamState {
    /// Drafts in order of first appearance of their index among smaller ones.
    pub calls: Vec<ToolCallBuilder>,
}

proof fn lemma_upsert_prefix(s: Seq<(u64, Seq<char>, Seq<char>, Seq<char>)>, k: u64, c: JsonValue, i: int)
    requires
        0 <= i <= s.len(),
        forall|j: int| 0 <= j < i ==> (#[trigger] s[j]).0 < k,
    ensures
        upsert(s, k, c) == s.take(i) + upsert(s.skip(i), k, c),
    decreases i,
{
    if i > 0 {
        let t = s.drop_first();
        assert forall|j: int| 0 <= j < i - 1 implies (#[trigger] t[j]).0 < k by {
            assert(t[j] == s[j + 1]);
        }
        lemma_upsert_prefix(t, k, c, i - 1);
        assert(s[0].0 < k);
        assert(t.skip(i - 1) =~= s.skip(i));
        assert(s.take(i) =~= seq![s[0]] + t.take(i - 1));
        assert(upsert(s, k, c) == seq![s[0]] + upsert(t, k, c));
    } else {
        assert(s.skip(0) =~= s);
    }
}

fn apply_delta_to(b: &mut ToolCallBuilder, c: &JsonValue)
    ensures
        draft_of(*final(b)) == apply_delta(draft_of(*old(b)), *c),
{
    match c.str_field("id") {
        Some(x) => {
            b.id = x;
        },
        None => {},
    }
    match c.get("function") {
        Some(f) => {
            match f.str_field("name") {
                Some(x) => {
                    b.name = x;
                },
                None => {},
            }
            match f.str_field("arguments") {
                Some(x) => {
                    push_str(&mut b.arguments, x.as_str());
                },
                None => {},
            }
        },
        None => {},
    }
}

fn delta_index_of(c: &JsonValue) -> (r: u64)
    ensures
        r == delta_index(*c),
{
    match c.u64_field("index") {
        Some(n) => n,
        None => 0,
    }
}

fn upsert_call(calls: &mut Vec<ToolCallBuilder>, c: &JsonValue)
    ensures
        drafts(final(calls)@) == upsert(drafts(old(calls)@), delta_index(*c), *c),
{
    let k = delta_index_of(c);
    let ghost s = drafts(calls@);
    let mut i: usize = 0;
    while i < calls.len() && calls[i].index < k
        invariant
            i <= calls@.len(),
            calls@ == old(calls)@,
            s == drafts(calls@),
            k == delta_index(*c),
            forall|j: int| 0 <= j < i ==> (#[trigger] s[j]).0 < k,
        decreases calls.len() - i,
    {
        i = i + 1;
    }
    proof {
        lemma_upsert_prefix(s, k, *c, i as int);
    }
    let ghost tail = s.skip(i as int);
    if i < calls.len() && calls[i].index == k {
        let mut b = calls.remove(i);
        assert(tail[0] == draft_of(b));
        apply_delta_to(&mut b, c);
        calls.insert(i, b);
        assert(drafts(calls@) =~= s.take(i as int) + (seq![apply_delta(tail[0], *c)] + tail.drop_first()));
    } else {
        let mut b = ToolCallBuilder { index: k, id: String::new(), name: String::new(), arguments: String::new() };
        assert(draft_of(b) =~= (k, Seq::<char>::empty(), Seq::<char>::empty(), Seq::<char>::empty()));
        apply_delta_to(&mut b, c);
        calls.insert(i, b);
        assert(drafts(calls@) =~= s.take(i as int) + (seq![apply_delta((k, Seq::empty(), Seq::empty(), Seq::empty()), *c)] + tail));
    }
}

fn merge_deltas(calls: &mut Vec<ToolCallBuilder>, cs: &Vec<JsonValue>)
    ensures
        drafts(final(calls)@) == merge_all(drafts(old(calls)@), cs@),
{
    let mut i: usize = 0;
    assert(cs@.skip(0) =~= cs@);
    while i < cs.len()
        invariant
            i <= cs@.len(),
            merge_all(drafts(old(calls)@), cs@) == merge_all(drafts(calls@), cs@.skip(i as int)),
        decreases cs.len() - i,
    {
        let ghost before = drafts(calls@);
        upsert_call(calls, &cs[i]);
        assert(cs@.skip(i as int)[0] == cs@[i as int]);
        assert(cs@.skip(i as int).drop_first() =~= cs@.skip(i + 1));
        i = i + 1;
    }
    assert(cs@.skip(i as int) =~= Seq::<JsonValue>::empty());
}

proof fn lemma_named_drafts_push(s: Seq<(u64, Seq<char>, Seq<char>, Seq<char>)>, d: (u64, Seq<char>, Seq<char>, Seq<char>))
    ensures
        named_drafts(s.push(d)) == if d.2.len() > 0 {
            named_drafts(s).push(d)
        } else {
            named_drafts(s)
        },
{
    assert(s.push(d).drop_last() =~= s);
}

/// Tool-call outputs for the named drafts, in order.
fn flush_calls(calls: &Vec<ToolCallBuilder>, outputs: &mut Vec<StreamOutput>)
    ensures
        final(outputs)@.len() >= old(outputs)@.len(),
        final(outputs)@.take(old(outputs)@.len() as int) == old(outputs)@,
        flush_out(drafts(calls@), final(outputs)@.skip(old(outputs)@.len() as int)),
{
    let ghost start = outputs@.len();
    let ghost prefix = outputs@;
    let mut i: usize = 0;
    assert(drafts(calls@).take(0) =~= Seq::<(u64, Seq<char>, Seq<char>, Seq<char>)>::empty());
    while i < calls.len()
        invariant
            i <= calls@.len(),
            start <= outputs@.len(),
            start == old(outputs)@.len(),
            prefix == old(outputs)@,
            outputs@.take(start as int) == prefix,
            flush_out(drafts(calls@).take(i as int), outputs@.skip(start as int)),
        decreases calls.len() - i,
    {
        let ghost ds = drafts(calls@);
        proof {
            assert(ds.take(i + 1) =~= ds.take(i as int).push(ds[i as int]));
            lemma_named_drafts_push(ds.take(i as int), ds[i as int]);
        }
        let b = &calls[i];
        let ghost before = outputs@;
        if str_chars(b.name.as_str()).len() > 0 {
            let id = if str_chars(b.id.as_str()).len() == 0 {
                let mut x = owned("openai_call_");
                push_decimal(&mut x, b.index);
                x
            } else {
                b.id.clone()
            };
            outputs.push(
                StreamOutput::ToolCallStart {
                    tool_use_id: id,
                    tool_name: b.name.clone(),
                    input_json: b.arguments.clone(),
                },
            );
            assert(outputs@.skip(start as int) =~= before.skip(start as int).push(outputs@[outputs@.len() - 1]));
            assert(outputs@.take(start as int) =~= before.take(start as int));
        }
        i = i + 1;
    }
    assert(drafts(calls@).take(i as int) =~= drafts(calls@));
}

impl OpenAiStreamState {
    /// No tool call under way.
    pub fn new() -> (r: Self)
        ensures
            r.calls@.len() == 0,
    {
        OpenAiStreamState { calls: Vec::new() }
    }

    /// Takes the payload of one `data:` line; `parsed` is that payload
    /// read as JSON, when it is. Text is reported as it comes; tool calls
    /// are gathered by index and reported when the provider says they are
    /// complete or the stream is done.
    pub fn step(&mut self, data: &str, parsed: Option<JsonValue>) -> (r: StreamStep)
        ensures
            openai_step(drafts(old(self).calls@), data@, parsed, drafts(final(self).calls@), r),
    {
        let ghost s = drafts(self.calls@);
        proof {
            reveal_strlit("[DONE]");
        }
        let v = str_chars(data);
        if v.len() == 6 && v[0] == '[' && v[1] == 'D' && v[2] == 'O' && v[3] == 'N' && v[4] == 'E' && v[5] == ']' {
            assert(data@ =~= "[DONE]"@);
            let mut outputs: Vec<StreamOutput> = Vec::new();
            flush_calls(&self.calls, &mut outputs);
            assert(outputs@.skip(0) =~= outputs@);
            let ghost flushed = outputs@;
            outputs.push(StreamOutput::TurnComplete);
            assert(outputs@.take(outputs@.len() - 1) =~= flushed);
            return StreamStep { outputs, control: StreamControl::Finished };
        }
        proof {
            if data@ == "[DONE]"@ {
                assert(v@.len() == 6);
                assert(v@[0] == '[' && v@[1] == 'D' && v@[2] == 'O' && v@[3] == 'N' && v@[4] == 'E' && v@[5] == ']');
            }
        }
        let obj = match parsed {
            Some(o) => o,
            None => {
                return quiet_step();
            },
        };
        match obj.get("error") {
            Some(e) => match e.str_field("message") {
                Some(m) => {
                    return StreamStep { outputs: Vec::new(), control: StreamControl::Failed(m) };
                },
                None => {},
            },
            None => {},
        }
        let first = match obj.get("choices") {
            Some(JsonValue::Array(v)) => if v.len() > 0 {
                Some(&v[0])
            } else {
                None
            },
            _ => None,
        };
        assert(match first {
            Some(f) => first_choice(obj) == Some(*f),
            None => first_choice(obj) is None,
        });
        let delta = match first {
            Some(f) => f.get("delta"),
            None => None,
        };
        assert(match delta {
            Some(d) => opt_get(first_choice(obj), "delta"@) == Some(*d),
            None => opt_get(first_choice(obj), "delta"@) is None,
        });
        assert(openai_error(obj) is None);
        let mut outputs: Vec<StreamOutput> = Vec::new();
        match delta {
            Some(d) => match d.str_field("content") {
                Some(t) => {
                    if str_chars(t.as_str()).len() > 0 {
                        outputs.push(StreamOutput::TokenChunk { text: t });
                    }
                },
                None => {},
            },
            None => {},
        }
        let ghost pre = outputs@.len();
        match delta {
            Some(d) => match d.get("tool_calls") {
                Some(JsonValue::Array(cs)) => {
                    merge_deltas(&mut self.calls, cs);
                },
                _ => {},
            },
            None => {},
        }
        assert(drafts(self.calls@) == merge_all(s, openai_deltas(obj)));
        let done = match first {
            Some(f) => match f.get("finish_reason") {
                Some(JsonValue::String(reason)) => {
                    proof {
                        reveal_strlit("tool_calls");
                    }
                    let rv = str_chars(reason.as_str());
                    let lit = str_chars("tool_calls");
                    crate::text::chars_eq(rv.as_slice(), lit.as_slice())
                },
                _ => false,
            },
            None => false,
        };
        assert(done == openai_calls_done(obj));
        assert(pre == (if openai_content(obj) is Some { 1int } else { 0int }));
        assert(openai_content(obj) matches Some(c) ==> is_token(outputs@[0], c));
        if done {
            let ghost before = outputs@;
            flush_calls(&self.calls, &mut outputs);
            proof {
                if before.len() > 0 {
                    assert(outputs@[0] == outputs@.take(before.len() as int)[0]);
                }
            }
            self.calls = Vec::new();
            assert(drafts(self.calls@).len() == 0);
        }
        StreamStep { outputs, control: StreamControl::Continue }
    }

    /// Takes the payload of one `data:` line, reading it as JSON.
    pub fn step_data(&mut self, data: &str) -> (r: StreamStep)
        ensures
            openai_step(drafts(old(self).calls@), data@, json_text_value(data@), drafts(final(self).calls@), r),
    {
        let parsed = parse_json_text(data);
        self.step(data, parsed)
    }

    /// The stream ended: remaining tool calls, then the end of the turn.
    pub fn finish(&self) -> (r: StreamStep)
        ensures
            r.outputs@.len() >= 1,
            flush_out(drafts(self.calls@), r.outputs@.take(r.outputs@.len() - 1)),
            r.outputs@[r.outputs@.len() - 1] == StreamOutput::TurnComplete,
            r.control == StreamControl::Finished,
    {
        let mut outputs: Vec<StreamOutput> = Vec::new();
        flush_calls(&self.calls, &mut outputs);
        assert(outputs@.skip(0) =~= outputs@);
        let ghost flushed = outputs@;
        outputs.push(StreamOutput::TurnComplete);
        assert(outputs@.take(outputs@.len() - 1) =~= flushed);
        StreamStep { outputs, control: StreamControl::Finished }
    }
}


/// A call draft: index, id, name and argument text.
pub type CallDraft = (u64, Seq<char>, Seq<char>, Seq<char>);

/// Drafts are kept in strictly ascending index order.
pub open spec fn indices_ascending(s: Seq<CallDraft>) -> bool {
    forall|i: int, j: int| 0 <= i < j < s.len() ==> (#[trigger] s[i]).0 < (#[trigger] s[j]).0
}

/// The `function.arguments` text a tool-call delta carries (empty when none).
pub open spec fn arg_fragment(c: JsonValue) -> Seq<char> {
    match json_str(opt_get(json_get(c, "function"@), "arguments"@)) {
        Some(x) => x,
        None => Seq::empty(),
    }
}

/// The argument fragments of the deltas `cs` for index `k`, joined in
/// arrival order.
pub open spec fn args_for(cs: Seq<JsonValue>, k: u64) -> Seq<char>
    decreases cs.len(),
{
    if cs.len() == 0 {
        Seq::empty()
    } else {
        (if delta_index(cs[0]) == k {
            arg_fragment(cs[0])
        } else {
            Seq::empty()
        }) + args_for(cs.drop_first(), k)
    }
}

/// The argument text gathered for index `k` (empty when no draft has it).
pub open spec fn args_of(s: Seq<CallDraft>, k: u64) -> Seq<char>
    decreases s.len(),
{
    if s.len() == 0 {
        Seq::empty()
    } else if s[0].0 == k {
        s[0].3
    } else {
        args_of(s.drop_first(), k)
    }
}

/// The id gathered for index `k` (empty when no draft has it).
pub open spec fn id_of(s: Seq<CallDraft>, k: u64) -> Seq<char>
    decreases s.len(),
{
    if s.len() == 0 {
        Seq::empty()
    } else if s[0].0 == k {
        s[0].1
    } else {
        id_of(s.drop_first(), k)
    }
}

/// The tool name gathered for index `k` (empty when no draft has it).
pub open spec fn name_of(s: Seq<CallDraft>, k: u64) -> Seq<char>
    decreases s.len(),
{
    if s.len() == 0 {
        Seq::empty()
    } else if s[0].0 == k {
        s[0].2
    } else {
        name_of(s.drop_first(), k)
    }
}

/// The id a tool-call delta gives, if any.
pub open spec fn given_id(c: JsonValue) -> Option<Seq<char>> {
    json_str(json_get(c, "id"@))
}

/// The tool name a tool-call delta gives, if any.
pub open spec fn given_name(c: JsonValue) -> Option<Seq<char>> {
    json_str(opt_get(json_get(c, "function"@), "name"@))
}

/// The last id given for index `k` among the deltas `cs`, else `dflt`.
pub open spec fn latest_id(cs: Seq<JsonValue>, k: u64, dflt: Seq<char>) -> Seq<char>
    decreases cs.len(),
{
    if cs.len() == 0 {
        dflt
    } else if delta_index(cs.last()) == k && given_id(cs.last()) is Some {
        given_id(cs.last())->0
    } else {
        latest_id(cs.drop_last(), k, dflt)
    }
}

/// The last tool name given for index `k` among the deltas `cs`, else
/// `dflt`.
pub open spec fn latest_name(cs: Seq<JsonValue>, k: u64, dflt: Seq<char>) -> Seq<char>
    decreases cs.len(),
{
    if cs.len() == 0 {
        dflt
    } else if delta_index(cs.last()) == k && given_name(cs.last()) is Some {
        given_name(cs.last())->0
    } else {
        latest_name(cs.drop_last(), k, dflt)
    }
}

/// The argument fragments for index `k` of the tool-call deltas of the
/// chunks `objs`, joined in arrival order.
pub open spec fn stream_args(objs: Seq<JsonValue>, k: u64) -> Seq<char>
    decreases objs.len(),
{
    if objs.len() == 0 {
        Seq::empty()
    } else {
        stream_args(objs.drop_last(), k) + args_for(openai_deltas(objs.last()), k)
    }
}

proof fn lemma_args_of_absent(s: Seq<CallDraft>, k: u64)
    requires
        indices_ascending(s),
        s.len() == 0 || s[0].0 > k,
    ensures
        args_of(s, k) == Seq::<char>::empty(),
        id_of(s, k) == Seq::<char>::empty(),
        name_of(s, k) == Seq::<char>::empty(),
    decreases s.len(),
{
    if s.len() > 0 {
        let t = s.drop_first();
        if t.len() > 0 {
            assert(s[0].0 < s[1].0);
        }
        lemma_args_of_absent(t, k);
    }
}

proof fn lemma_args_of_at(s: Seq<CallDraft>, i: int)
    requires
        indices_ascending(s),
        0 <= i < s.len(),
    ensures
        args_of(s, s[i].0) == s[i].3,
    decreases s.len(),
{
    if i > 0 {
        let t = s.drop_first();
        assert(s[0].0 < s[i].0);
        assert(t[i - 1] == s[i]);
        lemma_args_of_at(t, i - 1);
    }
}

proof fn lemma_upsert_args(s: Seq<CallDraft>, k: u64, c: JsonValue, j: u64)
    requires
        indices_ascending(s),
    ensures
        indices_ascending(upsert(s, k, c)),
        forall|i: int|
            0 <= i < upsert(s, k, c).len() ==> (#[trigger] upsert(s, k, c)[i]).0 == k || (s.len() > 0
                && upsert(s, k, c)[i].0 >= s[0].0),
        args_of(upsert(s, k, c), j) == if j == k {
            args_of(s, k) + arg_fragment(c)
        } else {
            args_of(s, j)
        },
        id_of(upsert(s, k, c), j) == if j == k {
            match given_id(c) {
                Some(x) => x,
                None => id_of(s, k),
            }
        } else {
            id_of(s, j)
        },
        name_of(upsert(s, k, c), j) == if j == k {
            match given_name(c) {
                Some(x) => x,
                None => name_of(s, k),
            }
        } else {
            name_of(s, j)
        },
    decreases s.len(),
{
    let u = upsert(s, k, c);
    let e = Seq::<char>::empty();
    if s.len() == 0 {
        assert(u.drop_first() =~= Seq::<CallDraft>::empty());
        assert(u[0].3 =~= e + arg_fragment(c));
        assert(args_of(u.drop_first(), j) == e);
        assert(id_of(u.drop_first(), j) == e);
        assert(name_of(u.drop_first(), j) == e);
    } else if s[0].0 == k {
        assert(u.drop_first() =~= s.drop_first());
        assert(u[0].3 =~= s[0].3 + arg_fragment(c));
        assert forall|i: int| 0 <= i < u.len() implies (#[trigger] u[i]).0 == k || u[i].0 >= s[0].0 by {
            if i > 0 {
                assert(u[i] == s[i]);
            }
        }
    } else if s[0].0 > k {
        assert(u.drop_first() =~= s);
        assert(u[0].3 =~= e + arg_fragment(c));
        lemma_args_of_absent(s, k);
        assert forall|i: int| 0 <= i < u.len() implies (#[trigger] u[i]).0 == k || u[i].0 >= s[0].0 by {
            if i > 0 {
                assert(u[i] == s[i - 1]);
            }
        }
        if j != k {
            assert(args_of(u, j) == args_of(u.drop_first(), j));
            assert(id_of(u, j) == id_of(u.drop_first(), j));
            assert(name_of(u, j) == name_of(u.drop_first(), j));
        }
    } else {
        let t = s.drop_first();
        let w = upsert(t, k, c);
        lemma_upsert_args(t, k, c, j);
        assert(u =~= seq![s[0]] + w);
        assert(u.drop_first() =~= w);
        assert(u[0] == s[0]);
        if j != s[0].0 {
            assert(args_of(u, j) == args_of(w, j));
            assert(args_of(s, j) == args_of(t, j));
            assert(id_of(u, j) == id_of(w, j));
            assert(id_of(s, j) == id_of(t, j));
            assert(name_of(u, j) == name_of(w, j));
            assert(name_of(s, j) == name_of(t, j));
        }
        assert forall|i: int| 0 <= i < u.len() implies (#[trigger] u[i]).0 == k || u[i].0 >= s[0].0 by {
            if i > 0 {
                assert(u[i] == w[i - 1]);
                if t.len() > 0 {
                    assert(s[0].0 < s[1].0);
                }
            }
        }
        assert forall|a: int, b: int| 0 <= a < b < u.len() implies (#[trigger] u[a]).0 < (#[trigger] u[b]).0 by {
            assert(u[b] == w[b - 1]);
            if a > 0 {
                assert(u[a] == w[a - 1]);
            } else {
                if t.len() > 0 {
                    assert(s[0].0 < s[1].0);
                }
            }
        }
    }
}

/// Merging a list of tool-call deltas appends, to the argument text of each
/// index, the argument fragments sent for that index in the order they
/// came, and keeps the drafts in ascending index order.
pub proof fn law_merge_appends_arguments(s: Seq<CallDraft>, cs: Seq<JsonValue>, k: u64)
    requires
        indices_ascending(s),
    ensures
        indices_ascending(merge_all(s, cs)),
        args_of(merge_all(s, cs), k) == args_of(s, k) + args_for(cs, k),
    decreases cs.len(),
{
    if cs.len() > 0 {
        let u = upsert(s, delta_index(cs[0]), cs[0]);
        lemma_upsert_args(s, delta_index(cs[0]), cs[0], k);
        law_merge_appends_arguments(u, cs.drop_first(), k);
        let f = if delta_index(cs[0]) == k {
            arg_fragment(cs[0])
        } else {
            Seq::<char>::empty()
        };
        assert(args_of(u, k) =~= args_of(s, k) + f);
        assert(args_of(s, k) + f + args_for(cs.drop_first(), k) =~= args_of(s, k) + (f + args_for(cs.drop_first(), k)));
    } else {
        assert(args_of(s, k) + args_for(cs, k) =~= args_of(s, k));
    }
}

proof fn lemma_merge_all_push(s: Seq<CallDraft>, cs: Seq<JsonValue>, c: JsonValue)
    ensures
        merge_all(s, cs.push(c)) == upsert(merge_all(s, cs), delta_index(c), c),
    decreases cs.len(),
{
    if cs.len() == 0 {
        let one = cs.push(c);
        assert(one.drop_first() =~= Seq::<JsonValue>::empty());
        assert(one[0] == c);
        let u = upsert(s, delta_index(c), c);
        assert(merge_all(u, one.drop_first()) == u);
        assert(merge_all(s, cs) == s);
    } else {
        assert(cs.push(c)[0] == cs[0]);
        assert(cs.push(c).drop_first() =~= cs.drop_first().push(c));
        lemma_merge_all_push(upsert(s, delta_index(cs[0]), cs[0]), cs.drop_first(), c);
    }
}

/// Merging a list of tool-call deltas leaves, for each index, the id and
/// the tool name last given for that index, or the ones it had when none
/// is given.
pub proof fn law_merge_keeps_latest_id_and_name(s: Seq<CallDraft>, cs: Seq<JsonValue>, k: u64)
    requires
        indices_ascending(s),
    ensures
        id_of(merge_all(s, cs), k) == latest_id(cs, k, id_of(s, k)),
        name_of(merge_all(s, cs), k) == latest_name(cs, k, name_of(s, k)),
    decreases cs.len(),
{
    if cs.len() > 0 {
        let p = cs.drop_last();
        let c = cs.last();
        assert(p.push(c) =~= cs);
        law_merge_keeps_latest_id_and_name(s, p, k);
        law_merge_appends_arguments(s, p, k);
        lemma_merge_all_push(s, p, c);
        lemma_upsert_args(merge_all(s, p), delta_index(c), c, k);
    }
}

/// A chunk that carries tool-call deltas and does not end the calls leaves,
/// for each index, the argument text gathered so far followed by the
/// fragments of this chunk for that index, and the id and name last given
/// for it; the drafts stay in index order.
pub proof fn law_openai_step_appends_arguments(
    s: Seq<CallDraft>,
    data: Seq<char>,
    obj: JsonValue,
    t: Seq<CallDraft>,
    r: StreamStep,
    k: u64,
)
    requires
        indices_ascending(s),
        openai_step(s, data, Some(obj), t, r),
        data != "[DONE]"@,
        openai_error(obj) is None,
        !openai_calls_done(obj),
    ensures
        indices_ascending(t),
        args_of(t, k) == args_of(s, k) + args_for(openai_deltas(obj), k),
        id_of(t, k) == latest_id(openai_deltas(obj), k, id_of(s, k)),
        name_of(t, k) == latest_name(openai_deltas(obj), k, name_of(s, k)),
{
    law_merge_appends_arguments(s, openai_deltas(obj), k);
    law_merge_keeps_latest_id_and_name(s, openai_deltas(obj), k);
}

/// Every step keeps the drafts in ascending index order.
pub proof fn law_openai_step_keeps_order(
    s: Seq<CallDraft>,
    data: Seq<char>,
    parsed: Option<JsonValue>,
    t: Seq<CallDraft>,
    r: StreamStep,
)
    requires
        indices_ascending(s),
        openai_step(s, data, parsed, t, r),
    ensures
        indices_ascending(t),
{
    if data != "[DONE]"@ {
        match parsed {
            Some(obj) => {
                if openai_error(obj) is None {
                    law_merge_appends_arguments(s, openai_deltas(obj), 0);
                }
            },
            None => {},
        }
    }
}

/// Over a run of chunks that carry tool-call deltas without ending the
/// calls, the argument text gathered for an index is what it was before,
/// followed by every `function.arguments` fragment sent for that index, in
/// arrival order.
pub proof fn law_openai_steps_concatenate_arguments(
    states: Seq<Seq<CallDraft>>,
    datas: Seq<Seq<char>>,
    objs: Seq<JsonValue>,
    rs: Seq<StreamStep>,
    k: u64,
)
    requires
        states.len() == objs.len() + 1,
        datas.len() == objs.len(),
        rs.len() == objs.len(),
        indices_ascending(states[0]),
        forall|i: int|
            0 <= i < objs.len() ==> openai_step(states[i], datas[i], Some(#[trigger] objs[i]), states[i + 1], rs[i]),
        forall|i: int| 0 <= i < objs.len() ==> #[trigger] datas[i] != "[DONE]"@,
        forall|i: int| 0 <= i < objs.len() ==> openai_error(#[trigger] objs[i]) is None,
        forall|i: int| 0 <= i < objs.len() ==> !openai_calls_done(#[trigger] objs[i]),
    ensures
        indices_ascending(states.last()),
        args_of(states.last(), k) == args_of(states[0], k) + stream_args(objs, k),
    decreases objs.len(),
{
    if objs.len() == 0 {
        assert(args_of(states[0], k) + stream_args(objs, k) =~= args_of(states[0], k));
    } else {
        let n = objs.len() - 1;
        let ps = states.drop_last();
        let po = objs.drop_last();
        let pd = datas.drop_last();
        let pr = rs.drop_last();
        assert forall|i: int| 0 <= i < po.len() implies openai_step(ps[i], pd[i], Some(#[trigger] po[i]), ps[i + 1], pr[i]) by {
            assert(objs[i] == po[i]);
        }
        assert forall|i: int| 0 <= i < po.len() implies #[trigger] pd[i] != "[DONE]"@ by {
            assert(datas[i] == pd[i]);
        }
        assert forall|i: int| 0 <= i < po.len() implies openai_error(#[trigger] po[i]) is None by {
            assert(objs[i] == po[i]);
        }
        assert forall|i: int| 0 <= i < po.len() implies !openai_calls_done(#[trigger] po[i]) by {
            assert(objs[i] == po[i]);
        }
        law_openai_steps_concatenate_arguments(ps, pd, po, pr, k);
        assert(ps.last() == states[n]);
        assert(datas[n] != "[DONE]"@);
        assert(openai_error(objs[n]) is None);
        assert(!openai_calls_done(objs[n]));
        law_openai_step_appends_arguments(states[n], datas[n], objs[n], states[n + 1], rs[n], k);
        assert(objs.last() == objs[n]);
        assert(args_of(states[0], k) + stream_args(po, k) + args_for(openai_deltas(objs[n]), k) =~= args_of(
            states[0],
            k,
        ) + (stream_args(po, k) + args_for(openai_deltas(objs[n]), k)));
    }
}

proof fn lemma_named_drafts_has(s: Seq<CallDraft>, i: int)
    requires
        0 <= i < s.len(),
        s[i].2.len() > 0,
    ensures
        exists|m: int| 0 <= m < named_drafts(s).len() && named_drafts(s)[m] == s[i],
    decreases s.len(),
{
    let p = s.drop_last();
    if i == s.len() - 1 {
        let nd = named_drafts(s);
        assert(nd == named_drafts(p).push(s.last()));
        assert(nd[nd.len() - 1] == s[i]);
    } else {
        assert(p[i] == s[i]);
        lemma_named_drafts_has(p, i);
        let m = choose|m: int| 0 <= m < named_drafts(p).len() && named_drafts(p)[m] == p[i];
        if s.last().2.len() > 0 {
            assert(named_drafts(s) == named_drafts(p).push(s.last()));
            assert(named_drafts(s)[m] == named_drafts(p)[m]);
        } else {
            assert(named_drafts(s) == named_drafts(p));
        }
        assert(0 <= m < named_drafts(s).len() && named_drafts(s)[m] == s[i]);
    }
}

/// When the calls are reported, each draft that names a tool is reported
/// with, as its input, all the argument text gathered for its index.
pub proof fn law_flush_reports_arguments(s: Seq<CallDraft>, outs: Seq<StreamOutput>, i: int)
    requires
        indices_ascending(s),
        flush_out(s, outs),
        0 <= i < s.len(),
        s[i].2.len() > 0,
    ensures
        exists|m: int|
            0 <= m < outs.len() && is_text_call(#[trigger] outs[m], draft_id(s[i]), s[i].2, args_of(s, s[i].0)),
{
    lemma_args_of_at(s, i);
    lemma_named_drafts_has(s, i);
    let m = choose|m: int| 0 <= m < named_drafts(s).len() && named_drafts(s)[m] == s[i];
    assert(is_text_call(outs[m], draft_id(s[i]), s[i].2, args_of(s, s[i].0)));
}

} // verus!
