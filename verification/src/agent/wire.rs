//! The conversation as the chat APIs take it: Messages API turns with typed
//! content, and OpenAI-style messages (with or without tool calls).
//!
//! The request bodies are built here; the application writes them as JSON
//! and sends them.
use vstd::prelude::*;

use super::chat::{ChatMessage, ContentBlock, MessageRole};
use super::json::{json_text_value, parse_json_text, JsonValue};
use super::tools::{
    registry_claude_schema, registry_openai_schema, OpenAiToolSchema, ToolRegistry, ToolSchema,
};
use crate::text::{join, join_strings, push_str, string_views};

verus! {

/// A function call in an assistant message.
#[derive(Debug, Clone, PartialEq, Eq)]
pub struct OpenAiWireFunctionCall {
    pub name: String,
    pub arguments: String,
}

/// A tool call in an assistant message.
#[derive(Debug, Clone, PartialEq, Eq)]
pub struct OpenAiWireToolCall {
    pub id: String,
    /// Always `function`.
    pub kind: &'static str,
    pub function: OpenAiWireFunctionCall,
}

/// A message of the OpenAI chat-completions format.
#[derive(Debug, Clone, PartialEq, Eq)]
pub struct OpenAiChatMessage {
    pub role: &'static str,
    pub content: Option<String>,
    pub tool_calls: Option<Vec<OpenAiWireToolCall>>,
    pub tool_call_id: Option<String>,
}

/// Content of a Messages API turn.
#[derive(Debug, PartialEq, Eq)]
pub enum ApiContent {
    Text { text: String },
    /// A tool call with its input read as JSON.
    ToolUse { id: String, name: String, input: JsonValue },
    ToolResult { tool_use_id: String, content: String },
}

/// A Messages API turn.
#[derive(Debug, PartialEq, Eq)]
pub struct ApiMessage {
    pub role: &'static str,
    pub content: Vec<ApiContent>,
}

/// A tool call as kind, id, name and arguments.
pub open spec fn call_view(c: OpenAiWireToolCall) -> (Seq<char>, Seq<char>, Seq<char>, Seq<char>) {
    (c.kind@, c.id@, c.function.name@, c.function.arguments@)
}

/// The view of an optional string.
pub open spec fn opt_view(o: Option<String>) -> Option<Seq<char>> {
    match o {
        Some(s) => Some(s@),
        None => None,
    }
}

/// A message as role, content, tool calls and the id of the call it answers.
pub open spec fn msg_view(m: OpenAiChatMessage) -> (
    Seq<char>,
    Option<Seq<char>>,
    Option<Seq<(Seq<char>, Seq<char>, Seq<char>, Seq<char>)>>,
    Option<Seq<char>>,
) {
    (
        m.role@,
        opt_view(m.content),
        match m.tool_calls {
            Some(v) => Some(v@.map_values(|c: OpenAiWireToolCall| call_view(c))),
            None => None,
        },
        opt_view(m.tool_call_id),
    )
}

/// Views of the messages, in order.
pub open spec fn msg_views(ms: Seq<OpenAiChatMessage>) -> Seq<
    (Seq<char>, Option<Seq<char>>, Option<Seq<(Seq<char>, Seq<char>, Seq<char>, Seq<char>)>>, Option<Seq<char>>),
> {
    ms.map_values(|m: OpenAiChatMessage| msg_view(m))
}

/// The role's name on the wire.
pub open spec fn role_name(r: MessageRole) -> Seq<char> {
    match r {
        MessageRole::User => "user"@,
        MessageRole::Assistant => "assistant"@,
    }
}

/// A user turn's blocks, one message each: text as a user message, a tool
/// result as a tool message answering its call; tool calls are dropped.
pub open spec fn user_out(blocks: Seq<ContentBlock>) -> Seq<
    (Seq<char>, Option<Seq<char>>, Option<Seq<(Seq<char>, Seq<char>, Seq<char>, Seq<char>)>>, Option<Seq<char>>),
>
    decreases blocks.len(),
{
    if blocks.len() == 0 {
        Seq::empty()
    } else {
        user_out(blocks.drop_last()) + match blocks.last() {
            ContentBlock::Text(t) => seq![("user"@, Some(t@), None, None)],
            ContentBlock::ToolResult(r) => seq![("tool"@, Some(r.content@), None, Some(r.tool_use_id@))],
            ContentBlock::ToolUse(_) => Seq::empty(),
        }
    }
}

/// Texts of an assistant turn, in order.
pub open spec fn texts_of(blocks: Seq<ContentBlock>) -> Seq<Seq<char>>
    decreases blocks.len(),
{
    if blocks.len() == 0 {
        Seq::empty()
    } else {
        match blocks.last() {
            ContentBlock::Text(t) => texts_of(blocks.drop_last()).push(t@),
            _ => texts_of(blocks.drop_last()),
        }
    }
}

/// Tool calls of an assistant turn, in order.
pub open spec fn calls_of_blocks(blocks: Seq<ContentBlock>) -> Seq<(Seq<char>, Seq<char>, Seq<char>, Seq<char>)>
    decreases blocks.len(),
{
    if blocks.len() == 0 {
        Seq::empty()
    } else {
        match blocks.last() {
            ContentBlock::ToolUse(u) => calls_of_blocks(blocks.drop_last()).push(
                ("function"@, u.id@, u.name@, u.input_json@),
            ),
            _ => calls_of_blocks(blocks.drop_last()),
        }
    }
}

/// An assistant turn as one message: its texts joined by newlines and its
/// tool calls, each present only when there is any; nothing when neither is.
pub open spec fn assistant_out(blocks: Seq<ContentBlock>) -> Seq<
    (Seq<char>, Option<Seq<char>>, Option<Seq<(Seq<char>, Seq<char>, Seq<char>, Seq<char>)>>, Option<Seq<char>>),
> {
    let t = texts_of(blocks);
    let c = calls_of_blocks(blocks);
    if t.len() == 0 && c.len() == 0 {
        Seq::empty()
    } else {
        seq![
            (
                "assistant"@,
                if t.len() == 0 {
                    None
                } else {
                    Some(join(t, "\n"@))
                },
                if c.len() == 0 {
                    None
                } else {
                    Some(c)
                },
                None,
            ),
        ]
    }
}

/// The conversation in the OpenAI format with tool calls.
pub open spec fn compatible_out(ms: Seq<ChatMessage>) -> Seq<
    (Seq<char>, Option<Seq<char>>, Option<Seq<(Seq<char>, Seq<char>, Seq<char>, Seq<char>)>>, Option<Seq<char>>),
>
    decreases ms.len(),
{
    if ms.len() == 0 {
        Seq::empty()
    } else {
        compatible_out(ms.drop_last()) + match ms.last().role {
            MessageRole::User => user_out(ms.last().blocks@),
            MessageRole::Assistant => assistant_out(ms.last().blocks@),
        }
    }
}

/// Texts and tool-result contents of a turn, in order.
pub open spec fn flat_parts(blocks: Seq<ContentBlock>) -> Seq<Seq<char>>
    decreases blocks.len(),
{
    if blocks.len() == 0 {
        Seq::empty()
    } else {
        match blocks.last() {
            ContentBlock::Text(t) => flat_parts(blocks.drop_last()).push(t@),
            ContentBlock::ToolResult(r) => flat_parts(blocks.drop_last()).push(r.content@),
            ContentBlock::ToolUse(_) => flat_parts(blocks.drop_last()),
        }
    }
}

/// The conversation as plain text messages, one per turn whose joined text
/// is not empty.
pub open spec fn flat_out(ms: Seq<ChatMessage>) -> Seq<
    (Seq<char>, Option<Seq<char>>, Option<Seq<(Seq<char>, Seq<char>, Seq<char>, Seq<char>)>>, Option<Seq<char>>),
>
    decreases ms.len(),
{
    if ms.len() == 0 {
        Seq::empty()
    } else {
        let c = join(flat_parts(ms.last().blocks@), "\n"@);
        flat_out(ms.drop_last()) + if c.len() > 0 {
            seq![(role_name(ms.last().role), Some(c), None, None)]
        } else {
            Seq::empty()
        }
    }
}

fn role_str(r: MessageRole) -> (s: &'static str)
    ensures
        s@ == role_name(r),
{
    match r {
        MessageRole::User => "user",
        MessageRole::Assistant => "assistant",
    }
}

fn text_message(role: &'static str, content: String, tool_call_id: Option<String>) -> (m: OpenAiChatMessage)
    ensures
        msg_view(m) == (role@, Some(content@), None::<Seq<(Seq<char>, Seq<char>, Seq<char>, Seq<char>)>>, opt_view(
            tool_call_id,
        )),
{
    OpenAiChatMessage { role, content: Some(content), tool_calls: None, tool_call_id }
}

/// The conversation as plain text messages (for models without tools).
pub fn build_flat_openai_messages(messages: &[ChatMessage]) -> (r: Vec<OpenAiChatMessage>)
    ensures
        msg_views(r@) == flat_out(messages@),
{
    let mut out: Vec<OpenAiChatMessage> = Vec::new();
    let mut i: usize = 0;
    while i < messages.len()
        invariant
            i <= messages@.len(),
            msg_views(out@) == flat_out(messages@.take(i as int)),
        decreases messages.len() - i,
    {
        let msg = &messages[i];
        let mut parts: Vec<String> = Vec::new();
        let mut j: usize = 0;
        while j < msg.blocks.len()
            invariant
                j <= msg.blocks@.len(),
                string_views(parts@) == flat_parts(msg.blocks@.take(j as int)),
            decreases msg.blocks.len() - j,
        {
            assert(msg.blocks@.take(j + 1).drop_last() =~= msg.blocks@.take(j as int));
            match &msg.blocks[j] {
                ContentBlock::Text(t) => {
                    parts.push(t.clone());
                    assert(string_views(parts@) =~= flat_parts(msg.blocks@.take(j as int)).push(t@));
                },
                ContentBlock::ToolResult(r) => {
                    parts.push(r.content.clone());
                    assert(string_views(parts@) =~= flat_parts(msg.blocks@.take(j as int)).push(r.content@));
                },
                ContentBlock::ToolUse(_) => {},
            }
            j = j + 1;
        }
        assert(msg.blocks@.take(j as int) =~= msg.blocks@);
        let content = join_strings(&parts, "\n");
        assert(messages@.take(i + 1).drop_last() =~= messages@.take(i as int));
        let ghost before = msg_views(out@);
        if crate::text::str_chars(content.as_str()).len() > 0 {
            let m = text_message(role_str(msg.role), content, None);
            out.push(m);
            assert(msg_views(out@) =~= before.push(msg_view(m)));
        }
        i = i + 1;
    }
    assert(messages@.take(i as int) =~= messages@);
    out
}

/// The conversation in the OpenAI format with tool calls: user turns give
/// one message per text or tool result, assistant turns one message with
/// their text and tool calls.
pub fn openai_compatible_messages(messages: &[ChatMessage]) -> (r: Vec<OpenAiChatMessage>)
    ensures
        msg_views(r@) == compatible_out(messages@),
{
    let mut out: Vec<OpenAiChatMessage> = Vec::new();
    let mut i: usize = 0;
    while i < messages.len()
        invariant
            i <= messages@.len(),
            msg_views(out@) == compatible_out(messages@.take(i as int)),
        decreases messages.len() - i,
    {
        let msg = &messages[i];
        assert(messages@.take(i + 1).drop_last() =~= messages@.take(i as int));
        let ghost start = msg_views(out@);
        match msg.role {
            MessageRole::User => {
                let mut j: usize = 0;
                while j < msg.blocks.len()
                    invariant
                        j <= msg.blocks@.len(),
                        msg_views(out@) == start + user_out(msg.blocks@.take(j as int)),
                    decreases msg.blocks.len() - j,
                {
                    assert(msg.blocks@.take(j + 1).drop_last() =~= msg.blocks@.take(j as int));
                    let ghost before = msg_views(out@);
                    match &msg.blocks[j] {
                        ContentBlock::Text(t) => {
                            let m = text_message("user", t.clone(), None);
                            out.push(m);
                            assert(msg_views(out@) =~= before.push(msg_view(m)));
                        },
                        ContentBlock::ToolResult(r) => {
                            let m = text_message("tool", r.content.clone(), Some(r.tool_use_id.clone()));
                            out.push(m);
                            assert(msg_views(out@) =~= before.push(msg_view(m)));
                        },
                        ContentBlock::ToolUse(_) => {},
                    }
                    j = j + 1;
                }
                assert(msg.blocks@.take(j as int) =~= msg.blocks@);
            },
            MessageRole::Assistant => {
                let mut texts: Vec<String> = Vec::new();
                let mut calls: Vec<OpenAiWireToolCall> = Vec::new();
                let mut j: usize = 0;
                while j < msg.blocks.len()
                    invariant
                        j <= msg.blocks@.len(),
                        string_views(texts@) == texts_of(msg.blocks@.take(j as int)),
                        calls@.map_values(|c: OpenAiWireToolCall| call_view(c)) == calls_of_blocks(
                            msg.blocks@.take(j as int),
                        ),
                    decreases msg.blocks.len() - j,
                {
                    assert(msg.blocks@.take(j + 1).drop_last() =~= msg.blocks@.take(j as int));
                    match &msg.blocks[j] {
                        ContentBlock::Text(t) => {
                            texts.push(t.clone());
                            assert(string_views(texts@) =~= texts_of(msg.blocks@.take(j as int)).push(t@));
                        },
                        ContentBlock::ToolUse(u) => {
                            let ghost before = calls@.map_values(|c: OpenAiWireToolCall| call_view(c));
                            let c = OpenAiWireToolCall {
                                id: u.id.clone(),
                                kind: "function",
                                function: OpenAiWireFunctionCall { name: u.name.clone(), arguments: u.input_json.clone() },
                            };
                            calls.push(c);
                            assert(calls@.map_values(|c: OpenAiWireToolCall| call_view(c)) =~= before.push(
                                call_view(c),
                            ));
                        },
                        ContentBlock::ToolResult(_) => {},
                    }
                    j = j + 1;
                }
                assert(msg.blocks@.take(j as int) =~= msg.blocks@);
                let has_text = texts.len() > 0;
                let has_calls = calls.len() > 0;
                if has_text || has_calls {
                    let content = if has_text {
                        Some(join_strings(&texts, "\n"))
                    } else {
                        None
                    };
                    let tool_calls = if has_calls {
                        Some(calls)
                    } else {
                        None
                    };
                    let m = OpenAiChatMessage { role: "assistant", content, tool_calls, tool_call_id: None };
                    out.push(m);
                    assert(msg_views(out@) =~= start.push(msg_view(m)));
                }
            },
        }
        i = i + 1;
    }
    assert(messages@.take(i as int) =~= messages@);
    out
}

/// `v` is the input of a tool call whose JSON text is `text`: the text
/// read as JSON, or an empty object when it is not JSON.
pub open spec fn is_api_input(text: Seq<char>, v: JsonValue) -> bool {
    match json_text_value(text) {
        Some(x) => v == x,
        None => v matches JsonValue::Object(ms) && ms@.len() == 0,
    }
}

/// The input of a tool call as the Messages API takes it.
pub fn api_tool_input(input_json: &str) -> (r: JsonValue)
    ensures
        is_api_input(input_json@, r),
{
    match parse_json_text(input_json) {
        Some(v) => v,
        None => JsonValue::Object(Vec::new()),
    }
}

/// A block as Messages API content.
pub open spec fn api_content_of(b: ContentBlock, c: ApiContent) -> bool {
    match b {
        ContentBlock::Text(t) => c matches ApiContent::Text { text } && text@ == t@,
        ContentBlock::ToolUse(u) => c matches ApiContent::ToolUse { id, name, input } && id@ == u.id@
            && name@ == u.name@ && is_api_input(u.input_json@, input),
        ContentBlock::ToolResult(r) => c matches ApiContent::ToolResult { tool_use_id, content } && tool_use_id@
            == r.tool_use_id@ && content@ == r.content@,
    }
}

/// The turns of the conversation for the Messages API, block for block.
/// `r` holds the turns of `messages` for the Messages API, block for block.
pub open spec fn api_messages_of(messages: Seq<ChatMessage>, r: Seq<ApiMessage>) -> bool {
    &&& r.len() == messages.len()
    &&& forall|i: int|
        0 <= i < r.len() ==> (#[trigger] r[i]).role@ == role_name(messages[i].role) && r[i].content@.len()
            == messages[i].blocks@.len() && forall|j: int|
            0 <= j < r[i].content@.len() ==> api_content_of(messages[i].blocks@[j], #[trigger] r[i].content@[j])
}

pub fn build_api_messages(messages: &[ChatMessage]) -> (r: Vec<ApiMessage>)
    ensures
        api_messages_of(messages@, r@),
{
    let mut out: Vec<ApiMessage> = Vec::new();
    let mut i: usize = 0;
    while i < messages.len()
        invariant
            i <= messages@.len(),
            out@.len() == i,
            forall|k: int|
                0 <= k < i ==> (#[trigger] out@[k]).role@ == role_name(messages@[k].role) && out@[k].content@.len()
                    == messages@[k].blocks@.len() && forall|j: int|
                    0 <= j < out@[k].content@.len() ==> api_content_of(messages@[k].blocks@[j], #[trigger] out@[k].content@[j]),
        decreases messages.len() - i,
    {
        let msg = &messages[i];
        let mut content: Vec<ApiContent> = Vec::new();
        let mut j: usize = 0;
        while j < msg.blocks.len()
            invariant
                j <= msg.blocks@.len(),
                content@.len() == j,
                forall|q: int| 0 <= q < j ==> api_content_of(msg.blocks@[q], #[trigger] content@[q]),
            decreases msg.blocks.len() - j,
        {
            let c = match &msg.blocks[j] {
                ContentBlock::Text(t) => ApiContent::Text { text: t.clone() },
                ContentBlock::ToolUse(u) => ApiContent::ToolUse {
                    id: u.id.clone(),
                    name: u.name.clone(),
                    input: api_tool_input(u.input_json.as_str()),
                },
                ContentBlock::ToolResult(r) => ApiContent::ToolResult {
                    tool_use_id: r.tool_use_id.clone(),
                    content: r.content.clone(),
                },
            };
            content.push(c);
            j = j + 1;
        }
        out.push(ApiMessage { role: role_str(msg.role), content });
        i = i + 1;
    }
    out
}

/// Largest reply the Messages API is asked for, in tokens.
pub const DEFAULT_MAX_TOKENS: u32 = 8192;

/// A Messages API request.
#[derive(Debug, PartialEq, Eq)]
pub struct RequestBody {
    pub model: String,
    pub max_tokens: u32,
    pub stream: bool,
    pub messages: Vec<ApiMessage>,
    pub tools: Vec<ToolSchema>,
}

/// An OpenAI-compatible chat-completions request.
#[derive(Debug, PartialEq, Eq)]
pub struct OpenAiRequestBody {
    pub model: String,
    pub messages: Vec<OpenAiChatMessage>,
    pub stream: bool,
    pub tools: Vec<OpenAiToolSchema>,
}

/// An Ollama chat request; tools are sent only to models that take them.
#[derive(Debug, PartialEq, Eq)]
pub struct OllamaRequestBody {
    pub model: String,
    pub messages: Vec<OpenAiChatMessage>,
    pub stream: bool,
    pub tools: Option<Vec<OpenAiToolSchema>>,
}

fn model_text(model: &str) -> (r: String)
    ensures
        r@ == model@,
{
    let mut o = String::new();
    push_str(&mut o, model);
    o
}

/// The Messages API request for `messages`: streamed, with the default
/// token budget and every registered tool.
pub fn build_request_body(model: &str, messages: &[ChatMessage]) -> (r: RequestBody)
    ensures
        r.model@ == model@,
        r.max_tokens == DEFAULT_MAX_TOKENS,
        r.stream,
        api_messages_of(messages@, r.messages@),
        r.tools@.len() == 22,
        forall|i: int| 0 <= i < 22 ==> registry_claude_schema(#[trigger] r.tools@[i], i),
{
    RequestBody {
        model: model_text(model),
        max_tokens: DEFAULT_MAX_TOKENS,
        stream: true,
        messages: build_api_messages(messages),
        tools: ToolRegistry::claude_schemas(),
    }
}

/// The OpenAI-compatible request for `messages`: streamed, with tool calls
/// in the messages and every registered tool.
pub fn build_openai_request_body(model: &str, messages: &[ChatMessage]) -> (r: OpenAiRequestBody)
    ensures
        r.model@ == model@,
        r.stream,
        msg_views(r.messages@) == compatible_out(messages@),
        r.tools@.len() == 22,
        forall|i: int| 0 <= i < 22 ==> registry_openai_schema(#[trigger] r.tools@[i], i),
{
    OpenAiRequestBody {
        model: model_text(model),
        messages: openai_compatible_messages(messages),
        stream: true,
        tools: ToolRegistry::openai_schemas(),
    }
}

/// The Ollama request for `messages`: streamed; for a model that takes
/// tools, tool calls in the messages and every registered tool, otherwise
/// plain text messages and no tools.
pub fn build_ollama_request_body(model: &str, messages: &[ChatMessage], include_tools: bool) -> (r: OllamaRequestBody)
    ensures
        r.model@ == model@,
        r.stream,
        include_tools ==> msg_views(r.messages@) == compatible_out(messages@),
        !include_tools ==> msg_views(r.messages@) == flat_out(messages@),
        match r.tools {
            Some(t) => include_tools && t@.len() == 22 && forall|i: int|
                0 <= i < 22 ==> registry_openai_schema(#[trigger] t@[i], i),
            None => !include_tools,
        },
{
    if include_tools {
        OllamaRequestBody {
            model: model_text(model),
            messages: openai_compatible_messages(messages),
            stream: true,
            tools: Some(ToolRegistry::openai_schemas()),
        }
    } else {
        OllamaRequestBody {
            model: model_text(model),
            messages: build_flat_openai_messages(messages),
            stream: true,
            tools: None,
        }
    }
}

} // verus!
