use kiwi_core::agent::json::{JsonMember, JsonNumber, JsonValue};
use kiwi_core::agent::stream::{
    ollama_line, ollama_line_step, sse_data, ClaudeStreamEvent, ClaudeStreamState, OpenAiStreamState,
    StreamControl, StreamOutput,
};

fn s(text: &str) -> JsonValue {
    JsonValue::String(text.to_string())
}

fn n(value: u64) -> JsonValue {
    JsonValue::Number(JsonNumber {
        as_u64: Some(value),
        literal: value.to_string(),
    })
}

fn obj(members: Vec<(&str, JsonValue)>) -> JsonValue {
    JsonValue::Object(
        members
            .into_iter()
            .map(|(key, value)| JsonMember {
                key: key.to_string(),
                value,
            })
            .collect(),
    )
}

fn run_claude(events: Vec<ClaudeStreamEvent>) -> (Vec<StreamOutput>, StreamControl) {
    let mut state = ClaudeStreamState::new();
    let mut outputs = Vec::new();
    for event in events {
        let step = state.step(event);
        outputs.extend(step.outputs);
        if step.control != StreamControl::Continue {
            return (outputs, step.control);
        }
    }
    let step = state.finish();
    outputs.extend(step.outputs);
    (outputs, step.control)
}

#[test]
fn sse_data_strips_prefix_and_whitespace() {
    assert_eq!(sse_data("data: {\"a\":1} "), Some("{\"a\":1}".to_string()));
    assert_eq!(sse_data("data:[DONE]"), Some("[DONE]".to_string()));
    assert_eq!(sse_data("event: ping"), None);
    assert_eq!(sse_data(""), None);
}

#[test]
fn sse_text_delta_fires_token_chunk() {
    let (outputs, control) = run_claude(vec![
        ClaudeStreamEvent::Other,
        ClaudeStreamEvent::TextBlockStart,
        ClaudeStreamEvent::TextDelta {
            text: "Hello".to_string(),
        },
        ClaudeStreamEvent::BlockStop,
        ClaudeStreamEvent::MessageStop,
    ]);
    assert!(outputs
        .iter()
        .any(|o| matches!(o, StreamOutput::TokenChunk { text } if text == "Hello")));
    assert!(outputs.iter().any(|o| matches!(o, StreamOutput::TurnComplete)));
    assert_eq!(control, StreamControl::Finished);
}

#[test]
fn sse_tool_call_fires_tool_start() {
    let (outputs, _) = run_claude(vec![
        ClaudeStreamEvent::ToolUseBlockStart {
            id: "tu_abc".to_string(),
            name: "file.read".to_string(),
        },
        ClaudeStreamEvent::InputJsonDelta {
            partial_json: "{\"path\":".to_string(),
        },
        ClaudeStreamEvent::InputJsonDelta {
            partial_json: "\"foo.rs\"}".to_string(),
        },
        ClaudeStreamEvent::BlockStop,
        ClaudeStreamEvent::MessageStop,
    ]);
    let tool = outputs
        .iter()
        .find(|o| matches!(o, StreamOutput::ToolCallStart { .. }))
        .expect("expected a tool call");
    if let StreamOutput::ToolCallStart {
        tool_use_id,
        tool_name,
        input_json,
    } = tool
    {
        assert_eq!(tool_use_id, "tu_abc");
        assert_eq!(tool_name, "file.read");
        assert_eq!(input_json, "{\"path\":\"foo.rs\"}");
    } else {
        panic!("expected text input");
    }
}

#[test]
fn claude_stream_error_fails_and_dropped_stream_completes() {
    let (outputs, control) = run_claude(vec![ClaudeStreamEvent::Error {
        message: "overloaded".to_string(),
    }]);
    assert!(outputs.is_empty());
    assert_eq!(control, StreamControl::Failed("overloaded".to_string()));

    let (outputs, control) = run_claude(vec![ClaudeStreamEvent::TextDelta {
        text: "x".to_string(),
    }]);
    assert_eq!(outputs.len(), 2);
    assert_eq!(outputs[1], StreamOutput::TurnComplete);
    assert_eq!(control, StreamControl::Finished);
}

fn tool_delta(index: u64, id: Option<&str>, name: Option<&str>, arguments: &str) -> JsonValue {
    let mut function = vec![("arguments", s(arguments))];
    if let Some(name) = name {
        function.insert(0, ("name", s(name)));
    }
    let mut call = vec![("index", n(index))];
    if let Some(id) = id {
        call.push(("id", s(id)));
    }
    call.push(("function", obj(function)));
    obj(vec![(
        "choices",
        JsonValue::Array(vec![obj(vec![(
            "delta",
            obj(vec![("tool_calls", JsonValue::Array(vec![obj(call)]))]),
        )])]),
    )])
}

#[test]
fn openai_sse_tool_call_fires_tool_start() {
    let mut state = OpenAiStreamState::new();
    let first = state.step(
        "{...}",
        Some(tool_delta(0, Some("call_1"), Some("file.read"), "{\"path\":")),
    );
    assert!(first.outputs.is_empty());
    let second = state.step("{...}", Some(tool_delta(0, None, None, "\"src/main.rs\"}")));
    assert!(second.outputs.is_empty());
    let done = state.step("[DONE]", None);
    assert_eq!(done.control, StreamControl::Finished);
    assert_eq!(done.outputs.len(), 2);
    if let StreamOutput::ToolCallStart {
        tool_use_id,
        tool_name,
        input_json,
    } = &done.outputs[0]
    {
        assert_eq!(tool_use_id, "call_1");
        assert_eq!(tool_name, "file.read");
        assert!(input_json.contains("src/main.rs"));
    } else {
        panic!("expected a tool call");
    }
    assert_eq!(done.outputs[1], StreamOutput::TurnComplete);
}

#[test]
fn openai_stream_orders_calls_by_index_and_names_missing_ids() {
    let mut state = OpenAiStreamState::new();
    state.step("x", Some(tool_delta(2, None, Some("git.status"), "{}")));
    state.step("x", Some(tool_delta(1, Some("c1"), Some("file.read"), "{}")));
    state.step("x", Some(tool_delta(5, None, None, "{}")));
    let end = state.finish();
    let ids: Vec<_> = end
        .outputs
        .iter()
        .filter_map(|o| match o {
            StreamOutput::ToolCallStart { tool_use_id, .. } => Some(tool_use_id.clone()),
            _ => None,
        })
        .collect();
    assert_eq!(ids, vec!["c1".to_string(), "openai_call_2".to_string()]);
}

#[test]
fn openai_stream_text_error_and_garbage() {
    let mut state = OpenAiStreamState::new();
    let text = obj(vec![(
        "choices",
        JsonValue::Array(vec![obj(vec![("delta", obj(vec![("content", s("Hi"))]))])]),
    )]);
    let step = state.step("x", Some(text));
    assert_eq!(step.outputs, vec![StreamOutput::TokenChunk { text: "Hi".to_string() }]);
    assert_eq!(step.control, StreamControl::Continue);

    let skipped = state.step("not json", None);
    assert!(skipped.outputs.is_empty());
    assert_eq!(skipped.control, StreamControl::Continue);

    let error = obj(vec![("error", obj(vec![("message", s("quota"))]))]);
    let failed = state.step("x", Some(error));
    assert_eq!(failed.control, StreamControl::Failed("quota".to_string()));
}

#[test]
fn openai_finish_reason_flushes_calls() {
    let mut state = OpenAiStreamState::new();
    state.step("x", Some(tool_delta(0, Some("a"), Some("git.diff"), "{}")));
    let finish = obj(vec![(
        "choices",
        JsonValue::Array(vec![obj(vec![("finish_reason", s("tool_calls"))])]),
    )]);
    let step = state.step("x", Some(finish));
    assert_eq!(step.outputs.len(), 1);
    assert!(state.calls.is_empty());
}

#[test]
fn ollama_done_chunk_with_tool_calls_fires_tool_start() {
    let line = obj(vec![
        (
            "message",
            obj(vec![
                ("role", s("assistant")),
                ("content", s("")),
                (
                    "tool_calls",
                    JsonValue::Array(vec![obj(vec![(
                        "function",
                        obj(vec![
                            ("name", s("file.read")),
                            ("arguments", obj(vec![("path", s("src/main.rs"))])),
                        ]),
                    )])]),
                ),
            ]),
        ),
        ("done", JsonValue::Bool(true)),
    ]);
    let step = ollama_line_step(line, true);
    assert_eq!(step.control, StreamControl::Finished);
    assert_eq!(step.outputs.len(), 2);
    match &step.outputs[0] {
        StreamOutput::ToolCallStart {
            tool_use_id,
            tool_name,
            input_json,
        } => {
            assert_eq!(tool_use_id, "ollama_call_0");
            assert_eq!(tool_name, "file.read");
            assert_eq!(input_json, r#"{"path":"src/main.rs"}"#);
        }
        other => panic!("unexpected {other:?}"),
    }
    assert_eq!(step.outputs[1], StreamOutput::TurnComplete);
}

#[test]
fn ollama_text_error_and_tools_off() {
    let text = obj(vec![("message", obj(vec![("content", s("hey"))]))]);
    let step = ollama_line_step(text, false);
    assert_eq!(step.outputs, vec![StreamOutput::TokenChunk { text: "hey".to_string() }]);
    assert_eq!(step.control, StreamControl::Continue);

    let error = obj(vec![("error", s("model not found"))]);
    assert_eq!(
        ollama_line_step(error, true).control,
        StreamControl::Failed("model not found".to_string())
    );

    let done = obj(vec![("done", JsonValue::Bool(true))]);
    let step = ollama_line_step(done, false);
    assert_eq!(step.outputs, vec![StreamOutput::TurnComplete]);
    assert_eq!(step.control, StreamControl::Finished);
}

#[test]
fn ollama_line_reads_text_lines() {
    assert!(ollama_line("   ", true).is_none());
    assert!(ollama_line("not json", true).is_none());
    let step = ollama_line(r#"  {"message":{"content":"hi"},"done":false}  "#, false).unwrap();
    assert_eq!(step.outputs, vec![StreamOutput::TokenChunk { text: "hi".to_string() }]);
    assert_eq!(step.control, StreamControl::Continue);
    let step = ollama_line(
        r#"{"message":{"tool_calls":[{"id":"c9","function":{"name":"git.status","arguments":"{}"}}]},"done":true}"#,
        true,
    )
    .unwrap();
    assert_eq!(
        step.outputs[0],
        StreamOutput::ToolCallStart {
            tool_use_id: "c9".to_string(),
            tool_name: "git.status".to_string(),
            input_json: "{}".to_string(),
        }
    );
    assert_eq!(step.outputs[1], StreamOutput::TurnComplete);
}

#[test]
fn openai_step_data_reads_payload_text() {
    let mut state = OpenAiStreamState::new();
    let step = state.step_data(r#"{"choices":[{"delta":{"content":"Hel"}}]}"#);
    assert_eq!(step.outputs, vec![StreamOutput::TokenChunk { text: "Hel".to_string() }]);
    let step = state.step_data(r#"{"error":{"message":"quota exceeded"}}"#);
    assert_eq!(step.control, StreamControl::Failed("quota exceeded".to_string()));
    let step = state.step_data("[DONE]");
    assert_eq!(step.control, StreamControl::Finished);
}
