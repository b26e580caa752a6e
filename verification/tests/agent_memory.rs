use kiwi_core::agent::json::{JsonMember, JsonValue};
use kiwi_core::agent::memory::{memory_reply, memory_tool_text};

fn reply(line: &str) -> JsonValue {
    memory_reply(line).expect("reply")
}

#[test]
fn memory_reply_reads_lines() {
    let v = reply("  {\"jsonrpc\":\"2.0\",\"id\":2}\n");
    assert!(matches!(v, JsonValue::Object(ref m) if m.len() == 2));
    let blank = memory_reply("").unwrap_err();
    assert!(blank.starts_with("MCP server exited during startup."));
    assert_eq!(memory_reply("\n").unwrap_err(), blank);
    let bad = memory_reply("not json\n").unwrap_err();
    assert!(bad.starts_with("MCP response parse failed: "));
    assert!(bad.ends_with("; line=not json\n"));
}

#[test]
fn memory_tool_text_reads_result_or_error() {
    let ok = reply(r#"{"result":{"content":[{"type":"text","text":"found 3 docs"}]}}"#);
    assert_eq!(memory_tool_text(&ok), Ok("found 3 docs".to_string()));
    let err = reply(r#"{"error":{"code":-32601,"message":"no such tool"}}"#);
    assert_eq!(
        memory_tool_text(&err),
        Err(r#"MCP error: {"code":-32601,"message":"no such tool"}"#.to_string())
    );
    let empty = reply(r#"{"result":{"content":[]}}"#);
    assert_eq!(memory_tool_text(&empty), Err("MCP tool returned no text content".to_string()));
    let keyed = JsonValue::Object(vec![JsonMember {
        key: "result".to_string(),
        value: JsonValue::Object(vec![JsonMember {
            key: "content".to_string(),
            value: JsonValue::Object(vec![JsonMember {
                key: "0".to_string(),
                value: JsonValue::Object(vec![JsonMember {
                    key: "text".to_string(),
                    value: JsonValue::String("by key".to_string()),
                }]),
            }]),
        }]),
    }]);
    assert_eq!(memory_tool_text(&keyed), Ok("by key".to_string()));
}
