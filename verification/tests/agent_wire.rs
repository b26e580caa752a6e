use kiwi_core::agent::json::{JsonMember, JsonValue};
use kiwi_core::agent::wire::{
    api_tool_input, build_ollama_request_body, build_openai_request_body, build_request_body,
    build_flat_openai_messages, openai_compatible_messages, ApiContent, DEFAULT_MAX_TOKENS,
    OpenAiChatMessage, OpenAiWireFunctionCall, OpenAiWireToolCall,
};
use kiwi_core::agent::{ChatMessage, ContentBlock, MessageRole, ToolResult, ToolUse};

fn text(t: &str) -> ContentBlock {
    ContentBlock::Text(t.to_string())
}

fn tool_use() -> ContentBlock {
    ContentBlock::ToolUse(ToolUse::new(
        "tu_1".to_string(),
        "file.read".to_string(),
        r#"{"path":"src/main.rs"}"#.to_string(),
    ))
}

fn tool_result() -> ContentBlock {
    ContentBlock::ToolResult(ToolResult::ok("tu_1".to_string(), "file contents".to_string()))
}

#[test]
fn build_request_body_user_text() {
    let messages = vec![ChatMessage {
        role: MessageRole::User,
        blocks: vec![text("hello")],
    }];
    let body = build_request_body("kiwi-model", &messages);
    assert_eq!(body.model, "kiwi-model");
    assert!(body.stream);
    assert_eq!(body.max_tokens, DEFAULT_MAX_TOKENS);
    assert_eq!(body.messages[0].role, "user");
    assert_eq!(body.messages[0].content, vec![ApiContent::Text { text: "hello".to_string() }]);
    assert_eq!(body.tools.len(), 22);
}

#[test]
fn build_request_body_tool_use() {
    let messages = vec![ChatMessage {
        role: MessageRole::Assistant,
        blocks: vec![tool_use()],
    }];
    let body = build_request_body("kiwi-model", &messages);
    assert_eq!(body.messages[0].role, "assistant");
    assert_eq!(
        body.messages[0].content,
        vec![ApiContent::ToolUse {
            id: "tu_1".to_string(),
            name: "file.read".to_string(),
            input: JsonValue::Object(vec![JsonMember {
                key: "path".to_string(),
                value: JsonValue::String("src/main.rs".to_string()),
            }]),
        }]
    );
}

#[test]
fn build_request_body_tool_result() {
    let messages = vec![ChatMessage {
        role: MessageRole::User,
        blocks: vec![tool_result()],
    }];
    let body = build_request_body("kiwi-model", &messages);
    assert_eq!(body.messages[0].role, "user");
    assert_eq!(
        body.messages[0].content,
        vec![ApiContent::ToolResult {
            tool_use_id: "tu_1".to_string(),
            content: "file contents".to_string(),
        }]
    );
}

#[test]
fn api_tool_input_falls_back_to_empty_object() {
    assert_eq!(api_tool_input("not json"), JsonValue::Object(vec![]));
    assert!(matches!(api_tool_input("[1]"), JsonValue::Array(ref xs) if xs.len() == 1));
}

#[test]
fn openai_and_ollama_request_bodies() {
    let messages = vec![ChatMessage {
        role: MessageRole::User,
        blocks: vec![text("hello")],
    }];
    let body = build_openai_request_body("gpt-4o", &messages);
    assert_eq!(body.model, "gpt-4o");
    assert!(body.stream);
    assert_eq!(body.tools[0].kind, "function");
    assert_eq!(body.tools[0].function.name, "file_read");
    let with_tools = build_ollama_request_body("qwen", &messages, true);
    assert_eq!(with_tools.tools.map(|t| t.len()), Some(22));
    let plain = build_ollama_request_body("llama", &messages, false);
    assert!(plain.tools.is_none());
    assert_eq!(plain.messages[0].content.as_deref(), Some("hello"));
}

#[test]
fn openai_messages_split_user_blocks_and_merge_assistant_turns() {
    let messages = vec![
        ChatMessage {
            role: MessageRole::User,
            blocks: vec![text("hi"), tool_result(), tool_use()],
        },
        ChatMessage {
            role: MessageRole::Assistant,
            blocks: vec![text("a"), tool_use(), text("b"), tool_result()],
        },
        ChatMessage {
            role: MessageRole::Assistant,
            blocks: vec![tool_result()],
        },
    ];
    let out = openai_compatible_messages(&messages);
    assert_eq!(
        out,
        vec![
            OpenAiChatMessage {
                role: "user",
                content: Some("hi".to_string()),
                tool_calls: None,
                tool_call_id: None,
            },
            OpenAiChatMessage {
                role: "tool",
                content: Some("file contents".to_string()),
                tool_calls: None,
                tool_call_id: Some("tu_1".to_string()),
            },
            OpenAiChatMessage {
                role: "assistant",
                content: Some("a\nb".to_string()),
                tool_calls: Some(vec![OpenAiWireToolCall {
                    id: "tu_1".to_string(),
                    kind: "function",
                    function: OpenAiWireFunctionCall {
                        name: "file.read".to_string(),
                        arguments: r#"{"path":"src/main.rs"}"#.to_string(),
                    },
                }]),
                tool_call_id: None,
            },
        ]
    );
}

#[test]
fn flat_messages_join_text_and_results_and_skip_empty_turns() {
    let messages = vec![
        ChatMessage {
            role: MessageRole::User,
            blocks: vec![text("q"), tool_result()],
        },
        ChatMessage {
            role: MessageRole::Assistant,
            blocks: vec![tool_use()],
        },
    ];
    let out = build_flat_openai_messages(&messages);
    assert_eq!(
        out,
        vec![OpenAiChatMessage {
            role: "user",
            content: Some("q\nfile contents".to_string()),
            tool_calls: None,
            tool_call_id: None,
        }]
    );
}
