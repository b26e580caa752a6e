//! Chat data model for API-backed agents: conversation turns made of text,
//! tool invocations and tool results.
use vstd::prelude::*;

use super::status::{spec_status_bar_label, AgentStatus};
use crate::text::str_eq;

verus! {

/// Who wrote a message.
#[derive(Debug, Clone, Copy, PartialEq, Eq, Structural)]
pub enum MessageRole {
    User,
    Assistant,
}

/// A tool call made by the assistant (rendered as a collapsible widget).
#[derive(Debug, Clone, PartialEq, Eq)]
pub struct ToolUse {
    /// Correlation ID returned by the API (matches a [`ToolResult::tool_use_id`]).
    pub id: String,
    /// Tool name (e.g. `"read_file"`).
    pub name: String,
    /// JSON-encoded input parameters.
    pub input_json: String,
    /// UI state: collapsed by default, expanded on click.
    pub collapsed: bool,
}

impl ToolUse {
    pub fn new(id: String, name: String, input_json: String) -> (r: Self)
        ensures
            r.id == id,
            r.name == name,
            r.input_json == input_json,
            r.collapsed,
    {
        ToolUse { id, name, input_json, collapsed: true }
    }
}

/// The result of executing a tool, fed back to the API.
#[derive(Debug, Clone, PartialEq, Eq)]
pub struct ToolResult {
    /// Matches the [`ToolUse::id`] this result responds to.
    pub tool_use_id: String,
    pub content: String,
    pub is_error: bool,
}

impl ToolResult {
    pub fn ok(tool_use_id: String, content: String) -> (r: Self)
        ensures
            r.tool_use_id == tool_use_id,
            r.content == content,
            !r.is_error,
    {
        ToolResult { tool_use_id, content, is_error: false }
    }

    pub fn error(tool_use_id: String, message: String) -> (r: Self)
        ensures
            r.tool_use_id == tool_use_id,
            r.content == message,
            r.is_error,
    {
        ToolResult { tool_use_id, content: message, is_error: true }
    }
}

/// Content within a message: text, tool invocation, or tool result.
#[derive(Debug, Clone, PartialEq, Eq)]
pub enum ContentBlock {
    Text(String),
    ToolUse(ToolUse),
    ToolResult(ToolResult),
}

/// A single turn in the conversation.
#[derive(Debug, Clone, PartialEq, Eq)]
pub struct ChatMessage {
    pub role: MessageRole,
    pub blocks: Vec<ContentBlock>,
}

/// Which API provider backs an agent session.
#[derive(Debug, Clone, Copy, PartialEq, Eq, Structural)]
pub enum AgentProvider {
    Claude,
    Ollama,
    OpenAI,
    Cursor,
    Pty,
}

impl Default for AgentProvider {
    fn default() -> (r: Self)
        ensures
            r == AgentProvider::Claude,
    {
        AgentProvider::Claude
    }
}

/// Full state for one chat agent session.
#[derive(Debug, Clone, PartialEq, Eq)]
pub struct ChatSession {
    /// Completed conversation turns.
    pub messages: Vec<ChatMessage>,
    /// Current text in the input box (not yet sent).
    pub input_draft: String,
    /// True while the API is streaming a response.
    pub is_streaming: bool,
    /// Accumulates token chunks during streaming.
    pub streaming_text: String,
    /// Tool call in progress (awaiting execution result).
    pub active_tool_call: Option<ToolUse>,
    /// Index of the first visible message.
    pub scroll_offset: usize,
    /// True when the view tracks the newest message.
    pub follow_tail: bool,
    pub status: AgentStatus,
    /// Last API or tool error message.
    pub error: Option<String>,
    /// Cached status-bar label.
    pub status_bar_label: String,
    /// Model identifier sent with each request; empty until the
    /// application configures one.
    pub model: String,
    pub provider: AgentProvider,
}

/// All fields but the messages and the tail-following flag agree.
pub open spec fn same_session_context(a: ChatSession, b: ChatSession) -> bool {
    &&& a.input_draft == b.input_draft
    &&& a.is_streaming == b.is_streaming
    &&& a.streaming_text == b.streaming_text
    &&& a.active_tool_call == b.active_tool_call
    &&& a.scroll_offset == b.scroll_offset
    &&& a.status == b.status
    &&& a.error == b.error
    &&& a.status_bar_label == b.status_bar_label
    &&& a.model == b.model
    &&& a.provider == b.provider
}

/// Whether a block is the tool use with the given id.
pub open spec fn is_tool_use_with_id(b: ContentBlock, id: Seq<char>) -> bool {
    b matches ContentBlock::ToolUse(t) && t.id@ == id
}

/// Position `(i, j)` holds the first tool use with `id`, in message order
/// and block order.
pub open spec fn first_tool_use(msgs: Seq<ChatMessage>, id: Seq<char>, i: int, j: int) -> bool {
    &&& 0 <= i < msgs.len()
    &&& 0 <= j < msgs[i].blocks@.len()
    &&& is_tool_use_with_id(msgs[i].blocks@[j], id)
    &&& forall|i2: int, j2: int|
        0 <= i2 < msgs.len() && 0 <= j2 < msgs[i2].blocks@.len() && (i2 < i || (i2 == i && j2
            < j)) ==> !is_tool_use_with_id(#[trigger] msgs[i2].blocks@[j2], id)
}

/// A tool-use block with its collapsed flag flipped; other blocks as they are.
pub open spec fn flip_collapsed(b: ContentBlock) -> ContentBlock {
    match b {
        ContentBlock::ToolUse(t) => ContentBlock::ToolUse(ToolUse { collapsed: !t.collapsed, ..t }),
        other => other,
    }
}

/// `after` is `before` with the collapsed flag of the first tool use with `id`
/// flipped; every other block, and every role, is as it was.
pub open spec fn tool_toggled(before: Seq<ChatMessage>, after: Seq<ChatMessage>, id: Seq<char>) -> bool {
    &&& after.len() == before.len()
    &&& forall|i: int|
        #![trigger after[i]]
        0 <= i < before.len() ==> {
            &&& after[i].role == before[i].role
            &&& after[i].blocks@.len() == before[i].blocks@.len()
            &&& forall|j: int|
                0 <= j < before[i].blocks@.len() ==> #[trigger] after[i].blocks@[j] == if first_tool_use(
                    before,
                    id,
                    i,
                    j,
                ) {
                    flip_collapsed(before[i].blocks@[j])
                } else {
                    before[i].blocks@[j]
                }
        }
}

impl ChatSession {
    pub fn new() -> (r: Self)
        ensures
            r.messages@.len() == 0,
            r.input_draft@.len() == 0,
            !r.is_streaming,
            r.streaming_text@.len() == 0,
            r.active_tool_call is None,
            r.scroll_offset == 0,
            r.follow_tail,
            r.status == AgentStatus::Idle,
            r.error is None,
            r.status_bar_label@ == spec_status_bar_label(AgentStatus::Idle, false),
            r.model@.len() == 0,
            r.provider == AgentProvider::Claude,
    {
        ChatSession {
            messages: Vec::new(),
            input_draft: String::new(),
            is_streaming: false,
            streaming_text: String::new(),
            active_tool_call: None,
            scroll_offset: 0,
            follow_tail: true,
            status: AgentStatus::Idle,
            error: None,
            status_bar_label: String::from_str(AgentStatus::Idle.status_bar_label(false)),
            model: String::new(),
            provider: AgentProvider::Claude,
        }
    }

    pub fn is_active(&self) -> (r: bool)
        ensures
            r == (self.is_streaming || self.messages@.len() > 0),
    {
        self.is_streaming || self.messages.len() > 0
    }

    pub fn message_count(&self) -> (r: usize)
        ensures
            r == self.messages@.len(),
    {
        self.messages.len()
    }

    pub fn refresh_status_bar_label(&mut self)
        ensures
            final(self).status_bar_label@ == spec_status_bar_label(old(self).status, old(self).is_streaming),
            final(self).messages == old(self).messages,
            final(self).is_streaming == old(self).is_streaming,
            final(self).status == old(self).status,
            final(self).follow_tail == old(self).follow_tail,
            final(self).input_draft == old(self).input_draft,
            final(self).streaming_text == old(self).streaming_text,
            final(self).active_tool_call == old(self).active_tool_call,
            final(self).scroll_offset == old(self).scroll_offset,
            final(self).error == old(self).error,
            final(self).model == old(self).model,
            final(self).provider == old(self).provider,
    {
        self.status_bar_label = String::from_str(self.status.status_bar_label(self.is_streaming));
    }

    /// Appends a user turn holding `text` and follows the tail.
    pub fn append_user_message(&mut self, text: String)
        ensures
            final(self).messages@ == old(self).messages@.push(
                ChatMessage { role: MessageRole::User, blocks: final(self).messages@.last().blocks },
            ),
            final(self).messages@.last().blocks@ == seq![ContentBlock::Text(text)],
            final(self).follow_tail,
            same_session_context(*final(self), *old(self)),
    {
        let mut blocks: Vec<ContentBlock> = Vec::new();
        blocks.push(ContentBlock::Text(text));
        self.messages.push(ChatMessage { role: MessageRole::User, blocks });
        self.follow_tail = true;
    }

    /// Flushes the streamed text into a completed assistant message: it
    /// joins the last message when that one is the assistant's, otherwise it
    /// opens a new assistant message. In every case streaming stops and the
    /// pending tool call is dropped.
    pub fn flush_streaming_turn(&mut self)
        ensures
            ({
                let o = *old(self);
                let n = *final(self);
                if o.streaming_text@.len() == 0 {
                    &&& n.messages == o.messages
                    &&& !n.is_streaming
                    &&& n.active_tool_call is None
                    &&& n.streaming_text == o.streaming_text
                } else if o.messages@.len() > 0 && o.messages@.last().role == MessageRole::Assistant {
                    &&& n.messages@.len() == o.messages@.len()
                    &&& n.messages@.drop_last() == o.messages@.drop_last()
                    &&& n.messages@.last().role == MessageRole::Assistant
                    &&& n.messages@.last().blocks@ == o.messages@.last().blocks@.push(
                        ContentBlock::Text(o.streaming_text),
                    )
                    &&& !n.is_streaming
                    &&& n.active_tool_call is None
                    &&& n.streaming_text@.len() == 0
                } else {
                    &&& n.messages@.len() == o.messages@.len() + 1
                    &&& n.messages@.drop_last() == o.messages@
                    &&& n.messages@.last().role == MessageRole::Assistant
                    &&& n.messages@.last().blocks@ == seq![ContentBlock::Text(o.streaming_text)]
                    &&& !n.is_streaming
                    &&& n.active_tool_call is None
                    &&& n.streaming_text@.len() == 0
                }
            }),
            final(self).input_draft == old(self).input_draft,
            final(self).follow_tail == old(self).follow_tail,
            final(self).status == old(self).status,
            final(self).error == old(self).error,
    {
        if !self.streaming_text.as_str().is_empty() {
            let mut text = String::new();
            std::mem::swap(&mut text, &mut self.streaming_text);
            assert(self.streaming_text@.len() == 0);
            let n = self.messages.len();
            if n > 0 && self.messages[n - 1].role == MessageRole::Assistant {
                let mut last = self.messages.pop().unwrap();
                last.blocks.push(ContentBlock::Text(text));
                self.messages.push(last);
                self.is_streaming = false;
                self.active_tool_call = None;
                return;
            }
            let mut blocks: Vec<ContentBlock> = Vec::new();
            blocks.push(ContentBlock::Text(text));
            self.messages.push(ChatMessage { role: MessageRole::Assistant, blocks });
        }
        self.is_streaming = false;
        self.active_tool_call = None;
    }

    /// Adds a tool-use block to the assistant's last message, or opens an
    /// assistant message for it.
    pub fn append_tool_use(&mut self, tool: ToolUse)
        ensures
            ({
                let o = old(self).messages@;
                let n = final(self).messages@;
                if o.len() > 0 && o.last().role == MessageRole::Assistant {
                    &&& n.len() == o.len()
                    &&& n.drop_last() == o.drop_last()
                    &&& n.last().role == MessageRole::Assistant
                    &&& n.last().blocks@ == o.last().blocks@.push(ContentBlock::ToolUse(tool))
                } else {
                    &&& n.len() == o.len() + 1
                    &&& n.drop_last() == o
                    &&& n.last().role == MessageRole::Assistant
                    &&& n.last().blocks@ == seq![ContentBlock::ToolUse(tool)]
                }
            }),
            same_session_context(*final(self), *old(self)),
            final(self).follow_tail == old(self).follow_tail,
    {
        let n = self.messages.len();
        if n > 0 && self.messages[n - 1].role == MessageRole::Assistant {
            let mut last = self.messages.pop().unwrap();
            last.blocks.push(ContentBlock::ToolUse(tool));
            self.messages.push(last);
            return;
        }
        let mut blocks: Vec<ContentBlock> = Vec::new();
        blocks.push(ContentBlock::ToolUse(tool));
        self.messages.push(ChatMessage { role: MessageRole::Assistant, blocks });
    }

    /// Tool results always open a new user message.
    pub fn append_tool_result(&mut self, result: ToolResult)
        ensures
            final(self).messages@.len() == old(self).messages@.len() + 1,
            final(self).messages@.drop_last() == old(self).messages@,
            final(self).messages@.last().role == MessageRole::User,
            final(self).messages@.last().blocks@ == seq![ContentBlock::ToolResult(result)],
            same_session_context(*final(self), *old(self)),
            final(self).follow_tail == old(self).follow_tail,
    {
        let mut blocks: Vec<ContentBlock> = Vec::new();
        blocks.push(ContentBlock::ToolResult(result));
        self.messages.push(ChatMessage { role: MessageRole::User, blocks });
    }

    /// Flips the collapsed flag of the first tool use with `tool_use_id`.
    pub fn toggle_tool_expand(&mut self, tool_use_id: &str)
        ensures
            tool_toggled(old(self).messages@, final(self).messages@, tool_use_id@),
            same_session_context(*final(self), *old(self)),
            final(self).follow_tail == old(self).follow_tail,
    {
        let ghost msgs = self.messages@;
        let ghost id = tool_use_id@;
        let mut i: usize = 0;
        while i < self.messages.len()
            invariant
                self.messages@ == msgs,
                i <= msgs.len(),
                id == tool_use_id@,
                forall|i2: int, j2: int|
                    0 <= i2 < i && 0 <= j2 < msgs[i2].blocks@.len() ==> !is_tool_use_with_id(
                        #[trigger] msgs[i2].blocks@[j2],
                        id,
                    ),
                same_session_context(*self, *old(self)),
                self.follow_tail == old(self).follow_tail,
                msgs == old(self).messages@,
            decreases msgs.len() - i,
        {
            let mut j: usize = 0;
            let nb = self.messages[i].blocks.len();
            while j < nb
                invariant
                    self.messages@ == msgs,
                    i < msgs.len(),
                    nb == msgs[i as int].blocks@.len(),
                    j <= nb,
                    id == tool_use_id@,
                    forall|i2: int, j2: int|
                        0 <= i2 < i && 0 <= j2 < msgs[i2].blocks@.len() ==> !is_tool_use_with_id(
                            #[trigger] msgs[i2].blocks@[j2],
                            id,
                        ),
                    forall|j2: int| 0 <= j2 < j ==> !is_tool_use_with_id(#[trigger] msgs[i as int].blocks@[j2], id),
                    same_session_context(*self, *old(self)),
                    self.follow_tail == old(self).follow_tail,
                    msgs == old(self).messages@,
                decreases nb - j,
            {
                let hit = match &self.messages[i].blocks[j] {
                    ContentBlock::ToolUse(t) => str_eq(t.id.as_str(), tool_use_id),
                    _ => false,
                };
                assert(hit == is_tool_use_with_id(msgs[i as int].blocks@[j as int], id));
                if hit {
                    assert(first_tool_use(msgs, id, i as int, j as int));
                    let msg = &mut self.messages[i];
                    let block = &mut msg.blocks[j];
                    if let ContentBlock::ToolUse(t) = block {
                        t.collapsed = !t.collapsed;
                    }
                    proof {
                        assert forall|i2: int, j2: int|
                            0 <= i2 < msgs.len() && 0 <= j2 < msgs[i2].blocks@.len()
                                && first_tool_use(msgs, id, i2, j2) implies i2 == i && j2 == j by {
                            if i2 < i || (i2 == i && j2 < j) {
                            } else if i < i2 || (i2 == i && j < j2) {
                                assert(!is_tool_use_with_id(msgs[i as int].blocks@[j as int], id));
                            }
                        }
                    }
                    return;
                }
                j = j + 1;
            }
            i = i + 1;
        }
        proof {
            assert forall|i2: int, j2: int|
                0 <= i2 < msgs.len() && 0 <= j2 < msgs[i2].blocks@.len() implies !first_tool_use(msgs, id, i2, j2) by {
                assert(!is_tool_use_with_id(msgs[i2].blocks@[j2], id));
            }
        }
    }

    /// Resets the conversation and its transient state.
    pub fn clear(&mut self)
        ensures
            final(self).messages@.len() == 0,
            final(self).input_draft@.len() == 0,
            !final(self).is_streaming,
            final(self).streaming_text@.len() == 0,
            final(self).active_tool_call is None,
            final(self).scroll_offset == 0,
            final(self).follow_tail,
            final(self).error is None,
            final(self).status == AgentStatus::Idle,
            final(self).status_bar_label@ == spec_status_bar_label(AgentStatus::Idle, false),
            final(self).model == old(self).model,
            final(self).provider == old(self).provider,
    {
        self.messages.clear();
        self.input_draft = String::new();
        self.is_streaming = false;
        self.streaming_text = String::new();
        self.active_tool_call = None;
        self.scroll_offset = 0;
        self.follow_tail = true;
        self.error = None;
        self.status = AgentStatus::Idle;
        self.refresh_status_bar_label();
    }
}

impl Default for ChatSession {
    fn default() -> (r: Self)
        ensures
            r.messages@.len() == 0,
            !r.is_streaming,
            r.status == AgentStatus::Idle,
            r.follow_tail,
    {
        ChatSession::new()
    }
}

/// Toggling the same tool use twice gives back the conversation it started
/// from: the first tool use with an id stays first after its flag flips.
pub proof fn law_toggle_twice_restores(
    a: Seq<ChatMessage>,
    b: Seq<ChatMessage>,
    c: Seq<ChatMessage>,
    id: Seq<char>,
)
    requires
        tool_toggled(a, b, id),
        tool_toggled(b, c, id),
    ensures
        c.len() == a.len(),
        forall|i: int|
            #![trigger c[i]]
            0 <= i < a.len() ==> c[i].role == a[i].role && c[i].blocks@ == a[i].blocks@,
{
    assert forall|i: int, j: int|
        0 <= i < a.len() && 0 <= j < a[i].blocks@.len() implies #[trigger] is_tool_use_with_id(
        b[i].blocks@[j],
        id,
    ) == is_tool_use_with_id(a[i].blocks@[j], id) by {
        assert(b[i].blocks@[j] == b[i].blocks@[j]);
    }
    assert forall|i: int, j: int|
        0 <= i < a.len() && 0 <= j < a[i].blocks@.len() implies #[trigger] first_tool_use(b, id, i, j)
        == first_tool_use(a, id, i, j) by {
        assert(b[i].blocks@[j] == b[i].blocks@[j]);
        if first_tool_use(a, id, i, j) {
            assert forall|i2: int, j2: int|
                0 <= i2 < b.len() && 0 <= j2 < b[i2].blocks@.len() && (i2 < i || (i2 == i && j2 < j))
                    implies !is_tool_use_with_id(#[trigger] b[i2].blocks@[j2], id) by {
                assert(b[i2].blocks@[j2] == b[i2].blocks@[j2]);
                assert(!is_tool_use_with_id(a[i2].blocks@[j2], id));
            }
        }
        if first_tool_use(b, id, i, j) {
            assert forall|i2: int, j2: int|
                0 <= i2 < a.len() && 0 <= j2 < a[i2].blocks@.len() && (i2 < i || (i2 == i && j2 < j))
                    implies !is_tool_use_with_id(#[trigger] a[i2].blocks@[j2], id) by {
                assert(b[i2].blocks@[j2] == b[i2].blocks@[j2]);
                assert(!is_tool_use_with_id(b[i2].blocks@[j2], id));
            }
        }
    }
    assert forall|i: int| 0 <= i < a.len() implies #[trigger] c[i].role == a[i].role && c[i].blocks@
        == a[i].blocks@ by {
        assert(b[i].blocks@.len() == a[i].blocks@.len());
        assert forall|j: int| 0 <= j < a[i].blocks@.len() implies #[trigger] c[i].blocks@[j]
            == a[i].blocks@[j] by {
            assert(b[i].blocks@[j] == b[i].blocks@[j]);
            assert(first_tool_use(b, id, i, j) == first_tool_use(a, id, i, j));
        }
        assert(c[i].blocks@ =~= a[i].blocks@);
    }
}

} // verus!
