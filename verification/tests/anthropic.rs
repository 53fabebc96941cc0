use openab_agent::anthropic::{parse_anthropic_response, AnthropicProvider};
use openab_agent::json::Json;
use openab_agent::message::{ContentBlock, LlmEvent, Message, ToolDef};

fn json(text: &str) -> Json {
    Json::parse(text).unwrap()
}

fn provider() -> AnthropicProvider {
    AnthropicProvider {
        api_key: "test".to_string(),
        model: "sonnet-4-20250514".to_string(),
        max_tokens: 4096,
    }
}

#[test]
fn test_parse_text_response() {
    let resp = json(
        r#"{"content": [{"type": "text", "text": "Hello world"}], "stop_reason": "end_turn"}"#,
    );
    let events = parse_anthropic_response(&resp).unwrap();
    assert_eq!(events.len(), 2);
    match &events[0] {
        LlmEvent::Text(t) => assert_eq!(t, "Hello world"),
        _ => panic!("expected Text event"),
    }
    assert!(matches!(events[1], LlmEvent::Stop));
}

#[test]
fn test_parse_tool_use_response() {
    let resp = json(
        r#"{"content": [{"type": "tool_use", "id": "tu_1", "name": "read", "input": {"path": "/tmp/x"}}], "stop_reason": "tool_use"}"#,
    );
    let events = parse_anthropic_response(&resp).unwrap();
    assert_eq!(events.len(), 1);
    match &events[0] {
        LlmEvent::ToolUse {
            id, name, input, ..
        } => {
            assert_eq!(id, "tu_1");
            assert_eq!(name, "read");
            assert_eq!(input.to_value()["path"], "/tmp/x");
        }
        _ => panic!("expected ToolUse event"),
    }
}

#[test]
fn test_build_request_body() {
    let messages = vec![Message {
        role: "user".to_string(),
        content: vec![ContentBlock::Text {
            text: "hello".to_string(),
        }],
    }];
    let body = provider()
        .build_request_body("system prompt", &messages, &[])
        .to_value();
    assert_eq!(body["model"], "sonnet-4-20250514");
    assert_eq!(body["max_tokens"], 4096);
    assert_eq!(body["system"], "system prompt");
    assert_eq!(body["messages"][0]["role"], "user");
}

#[test]
fn anthropic_whole_request_body() {
    let messages = vec![
        Message {
            role: "assistant".to_string(),
            content: vec![ContentBlock::ToolUse {
                id: "tu_1".to_string(),
                name: "read".to_string(),
                input: json(r#"{"path": "a"}"#),
                thought_signature: Some("left out".to_string()),
            }],
        },
        Message {
            role: "user".to_string(),
            content: vec![
                ContentBlock::ToolResult {
                    tool_use_id: "tu_1".to_string(),
                    content: "boom".to_string(),
                    is_error: Some(true),
                },
                ContentBlock::ToolResult {
                    tool_use_id: "tu_2".to_string(),
                    content: "fine".to_string(),
                    is_error: Some(false),
                },
            ],
        },
    ];
    let tools = vec![ToolDef {
        name: "read".to_string(),
        description: "reads a file".to_string(),
        input_schema: json(r#"{"type": "object"}"#),
    }];
    let body = provider().build_request_body("sys", &messages, &tools);
    let expected = json(
        r#"{"model": "sonnet-4-20250514", "max_tokens": 4096, "system": "sys", "messages": [
            {"role": "assistant", "content": [
                {"type": "tool_use", "id": "tu_1", "name": "read", "input": {"path": "a"}}]},
            {"role": "user", "content": [
                {"type": "tool_result", "tool_use_id": "tu_1", "content": "boom", "is_error": true},
                {"type": "tool_result", "tool_use_id": "tu_2", "content": "fine"}]}],
            "tools": [{"name": "read", "description": "reads a file",
                "input_schema": {"type": "object"}}]}"#,
    );
    assert_eq!(body.to_value(), expected.to_value());
}

#[test]
fn missing_content_is_an_error() {
    for text in ["{}", r#"{"content": "text"}"#, "[]", "3"] {
        let error = parse_anthropic_response(&json(text)).unwrap_err();
        assert_eq!(error.message(), "missing content in response");
    }
}

#[test]
fn odd_blocks_are_read_leniently() {
    let resp = json(
        r#"{"content": [{"type": "thinking"}, {"type": "text"}, {"text": "no type"}, {"type": "tool_use"}]}"#,
    );
    let events = parse_anthropic_response(&resp).unwrap();
    assert_eq!(events.len(), 2);
    match &events[0] {
        LlmEvent::ToolUse {
            id,
            name,
            input,
            thought_signature,
        } => {
            assert_eq!(id, "");
            assert_eq!(name, "");
            assert_eq!(input.render(), "{}");
            assert!(thought_signature.is_none());
        }
        _ => panic!("expected ToolUse event"),
    }
    assert!(matches!(events[1], LlmEvent::Stop));
}

#[test]
fn received_blocks_are_sent_as_received() {
    let block = r#"{"id":"tu_9","input":{"a":[1,2.5,null]},"name":"run","type":"tool_use"}"#;
    let reply = format!("{{\"content\": [{block}], \"stop_reason\": \"tool_use\"}}");
    let events = parse_anthropic_response(&json(&reply)).unwrap();
    let content = match &events[0] {
        LlmEvent::ToolUse {
            id,
            name,
            input,
            thought_signature,
        } => ContentBlock::ToolUse {
            id: id.clone(),
            name: name.clone(),
            input: input.clone(),
            thought_signature: thought_signature.clone(),
        },
        _ => panic!("expected ToolUse event"),
    };
    let messages = vec![Message {
        role: "assistant".to_string(),
        content: vec![content],
    }];
    let body = provider().build_request_body("", &messages, &[]).to_value();
    assert_eq!(body["messages"][0]["content"][0].to_string(), block);
}

#[test]
fn anthropic_settings() {
    let some = |s: &str| Some(s.to_string());
    let p = AnthropicProvider::from_env(some("key"), None, None, "fallback").unwrap();
    assert_eq!(p.api_key, "key");
    assert_eq!(p.model, "fallback");
    assert_eq!(p.max_tokens, 8192);
    let p = AnthropicProvider::from_env(some("key"), some("m"), some("17"), "fallback").unwrap();
    assert_eq!(p.model, "m");
    assert_eq!(p.max_tokens, 17);
    let e = AnthropicProvider::from_env(None, None, None, "fallback").err();
    assert_eq!(e.unwrap(), "ANTHROPIC_API_KEY not set");
    let e = AnthropicProvider::from_env(some(""), None, None, "fallback").err();
    assert_eq!(e.unwrap(), "ANTHROPIC_API_KEY is empty");
}

#[test]
fn anthropic_address_and_headers() {
    let p = provider();
    assert_eq!(p.url(), "https://api.anthropic.com/v1/messages");
    let headers = p.headers();
    let expected = [
        ("x-api-key", "test"),
        ("anthropic-version", "2023-06-01"),
        ("content-type", "application/json"),
    ];
    assert_eq!(headers.len(), 3);
    for i in 0..3 {
        assert_eq!(headers[i].0, expected[i].0);
        assert_eq!(headers[i].1, expected[i].1);
    }
}

#[test]
fn whole_reply_is_sent_as_received() {
    let content = r#"[{"text":"a","type":"text"},{"id":"1","input":{},"name":"run","type":"tool_use"},{"text":"","type":"text"}]"#;
    let reply = format!("{{\"content\": {content}, \"stop_reason\": \"end_turn\"}}");
    let events = parse_anthropic_response(&json(&reply)).unwrap();
    assert_eq!(events.len(), 4);
    let blocks = events
        .into_iter()
        .filter_map(|event| match event {
            LlmEvent::Text(text) => Some(ContentBlock::Text { text }),
            LlmEvent::ToolUse {
                id,
                name,
                input,
                thought_signature,
            } => Some(ContentBlock::ToolUse {
                id,
                name,
                input,
                thought_signature,
            }),
            _ => None,
        })
        .collect();
    let messages = vec![Message {
        role: "assistant".to_string(),
        content: blocks,
    }];
    let body = provider().build_request_body("", &messages, &[]).to_value();
    assert_eq!(body["messages"][0]["content"].to_string(), content);
}
