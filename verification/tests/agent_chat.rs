use kiwi_core::agent::{
    agent_display_name, agent_launch_spec, AgentStatus, ChatMessage, ChatSession, ContentBlock,
    MessageRole, ToolResult, ToolUse,
};
use kiwi_core::config::AgentSettings;

#[test]
fn default_chat_session_is_empty_and_idle() {
    let session = ChatSession::default();
    assert!(session.messages.is_empty());
    assert!(!session.is_streaming);
    assert!(session.input_draft.is_empty());
    assert_eq!(session.status, AgentStatus::Idle);
}

#[test]
fn append_user_message_adds_turn() {
    let mut session = ChatSession::default();
    session.append_user_message("hello".to_string());
    assert_eq!(session.messages.len(), 1);
    assert_eq!(session.messages[0].role, MessageRole::User);
    assert_eq!(
        session.messages[0].blocks[0],
        ContentBlock::Text("hello".to_string())
    );
}

#[test]
fn flush_streaming_turn_promotes_text_to_messages() {
    let mut session = ChatSession::default();
    session.is_streaming = true;
    session.streaming_text = "world".to_string();
    session.flush_streaming_turn();
    assert!(!session.is_streaming);
    assert!(session.streaming_text.is_empty());
    assert_eq!(session.messages.len(), 1);
    assert_eq!(session.messages[0].role, MessageRole::Assistant);
}

#[test]
fn flush_streaming_turn_appends_to_existing_assistant_message() {
    let mut session = ChatSession::default();
    session.messages.push(ChatMessage {
        role: MessageRole::Assistant,
        blocks: vec![ContentBlock::Text("part one ".to_string())],
    });
    session.streaming_text = "part two".to_string();
    session.is_streaming = true;
    session.flush_streaming_turn();
    assert_eq!(session.messages.len(), 1);
    assert_eq!(session.messages[0].blocks.len(), 2);
    assert!(!session.is_streaming);
    assert!(session.active_tool_call.is_none());
}

#[test]
fn flush_streaming_turn_with_empty_text_adds_nothing() {
    let mut session = ChatSession::default();
    session.is_streaming = true;
    session.flush_streaming_turn();
    assert!(!session.is_streaming);
    assert!(session.messages.is_empty());
}

#[test]
fn toggle_tool_expand_flips_collapsed() {
    let mut session = ChatSession::default();
    let tool = ToolUse::new("id1".to_string(), "read_file".to_string(), "{}".to_string());
    assert!(tool.collapsed);
    session.messages.push(ChatMessage {
        role: MessageRole::Assistant,
        blocks: vec![ContentBlock::ToolUse(tool)],
    });
    session.toggle_tool_expand("id1");
    if let ContentBlock::ToolUse(t) = &session.messages[0].blocks[0] {
        assert!(!t.collapsed);
    } else {
        panic!("expected ToolUse block");
    }
}

#[test]
fn toggle_tool_expand_twice_restores_collapsed() {
    let mut session = ChatSession::default();
    let tool = ToolUse::new("id1".to_string(), "read_file".to_string(), "{}".to_string());
    session.messages.push(ChatMessage {
        role: MessageRole::Assistant,
        blocks: vec![ContentBlock::ToolUse(tool)],
    });
    session.toggle_tool_expand("id1");
    session.toggle_tool_expand("id1");
    if let ContentBlock::ToolUse(t) = &session.messages[0].blocks[0] {
        assert!(t.collapsed);
    } else {
        panic!("expected ToolUse block");
    }
}

#[test]
fn clear_resets_session_to_empty_state() {
    let mut session = ChatSession::default();
    session.append_user_message("hi".to_string());
    session.is_streaming = true;
    session.error = Some("oops".to_string());
    session.clear();
    assert!(session.messages.is_empty());
    assert!(!session.is_streaming);
    assert!(session.error.is_none());
}

#[test]
fn tool_result_constructors_set_is_error_correctly() {
    let ok = ToolResult::ok("id".to_string(), "content".to_string());
    assert!(!ok.is_error);
    let err = ToolResult::error("id".to_string(), "fail".to_string());
    assert!(err.is_error);
}

#[test]
fn append_tool_result_creates_user_message() {
    let mut session = ChatSession::default();
    session.messages.push(ChatMessage {
        role: MessageRole::Assistant,
        blocks: vec![ContentBlock::Text("I'll use a tool.".to_string())],
    });
    let result = ToolResult::ok("id1".to_string(), "output".to_string());
    session.append_tool_result(result);
    assert_eq!(session.messages.len(), 2);
    assert_eq!(session.messages[1].role, MessageRole::User);
    assert!(
        matches!(&session.messages[1].blocks[0], ContentBlock::ToolResult(r) if r.tool_use_id == "id1")
    );
}

#[test]
fn agent_display_name_uses_basename() {
    assert_eq!(agent_display_name("/usr/bin/agent"), "agent");
    assert_eq!(agent_display_name("agent"), "agent");
}

#[test]
fn launch_spec_uses_configured_command_args_and_env() {
    let settings = AgentSettings {
        command: "agent".to_string(),
        args: vec!["--help".to_string()],
        env: vec![("FOO".to_string(), "bar".to_string())],
    };
    let spec = agent_launch_spec(&settings);
    assert_eq!(spec.command, "agent");
    assert_eq!(spec.args, vec!["--help".to_string()]);
    assert_eq!(spec.env, vec![("FOO".to_string(), "bar".to_string())]);
    assert_eq!(spec.agent_name, "agent");
}
