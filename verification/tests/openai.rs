use openab_agent::json::Json;
use openab_agent::message::{ContentBlock, LlmEvent, Message, ToolDef};
use openab_agent::openai::{
    decode_call, decode_chat_call, delivered, encode_call, parse_openai_response, read_items,
    read_stream, OpenAiProvider,
};

fn json(text: &str) -> Json {
    Json::parse(text).unwrap()
}

fn provider() -> OpenAiProvider {
    OpenAiProvider {
        base_url: "https://chatgpt.com/backend-api".to_string(),
        model: "gpt-4.1-nano".to_string(),
        max_tokens: 8192,
    }
}

#[test]
fn test_parse_openai_text_response() {
    let resp = json(r#"{"choices": [{"message": {"content": "Hello"}, "finish_reason": "stop"}]}"#);
    let events = parse_openai_response(&resp).unwrap();
    assert_eq!(events.len(), 2);
    assert!(matches!(&events[0], LlmEvent::Text(t) if t == "Hello"));
    assert!(matches!(events[1], LlmEvent::Stop));
}

#[test]
fn test_parse_openai_tool_call_response() {
    let resp = json(
        r#"{"choices": [{"message": {
            "content": null,
            "tool_calls": [{"id": "call_1", "type": "function", "function": {"name": "read", "arguments": "{\"path\":\"x.txt\"}"}}]
        }, "finish_reason": "tool_calls"}]}"#,
    );
    let events = parse_openai_response(&resp).unwrap();
    assert_eq!(events.len(), 1);
    match &events[0] {
        LlmEvent::ToolUse {
            id, name, input, ..
        } => {
            assert_eq!(id, "call_1");
            assert_eq!(name, "read");
            assert_eq!(input.to_value()["path"], "x.txt");
        }
        _ => panic!("expected ToolUse"),
    }
}

#[test]
fn test_parse_openai_empty_choices() {
    let resp = json(r#"{"choices": []}"#);
    assert!(parse_openai_response(&resp).is_err());
}

#[test]
fn errors_of_chat_completions() {
    let message = |text: &str| parse_openai_response(&json(text)).unwrap_err().message();
    assert_eq!(message("{}"), "No choices in response");
    assert_eq!(message(r#"{"choices": []}"#), "No choices in response");
    assert_eq!(message(r#"{"choices": [{}]}"#), "No message");
}

#[test]
fn chat_completion_defaults() {
    let resp = json(
        r#"{"choices": [{"message": {"content": "", "tool_calls": [{}, {"function": {"arguments": "not json"}}]}}]}"#,
    );
    let events = parse_openai_response(&resp).unwrap();
    assert_eq!(events.len(), 3);
    for event in &events[..2] {
        match event {
            LlmEvent::ToolUse {
                id, name, input, ..
            } => {
                assert_eq!(id, "");
                assert_eq!(name, "");
                assert_eq!(input.render(), "{}");
            }
            _ => panic!("expected ToolUse"),
        }
    }
    assert!(matches!(events[2], LlmEvent::Stop));
}

#[test]
fn responses_format_is_preferred() {
    let resp = json(
        r#"{"choices": [], "output": [
            {"type": "reasoning"},
            {"type": "message", "content": [{"type": "output_text", "text": "a"}, {"type": "refusal", "text": "b"}, {"type": "output_text"}]},
            {"type": "function_call", "call_id": "c1", "name": "run", "arguments": "{\"n\":1}"}]}"#,
    );
    let events = parse_openai_response(&resp).unwrap();
    assert_eq!(events.len(), 3);
    assert!(matches!(&events[0], LlmEvent::Text(t) if t == "a"));
    match &events[1] {
        LlmEvent::ToolUse {
            id,
            name,
            input,
            thought_signature,
        } => {
            assert_eq!(id, "c1");
            assert_eq!(name, "run");
            assert_eq!(input.to_value()["n"], 1);
            assert!(thought_signature.is_none());
        }
        _ => panic!("expected ToolUse"),
    }
    assert!(matches!(events[2], LlmEvent::Stop));
}

#[test]
fn calls_with_given_arguments() {
    let item = json(r#"{"call_id": "c", "name": "n"}"#);
    match decode_call(&item, Some(Json::Null)) {
        LlmEvent::ToolUse {
            id, name, input, ..
        } => {
            assert_eq!(id, "c");
            assert_eq!(name, "n");
            assert_eq!(input.render(), "null");
        }
        _ => panic!("expected ToolUse"),
    }
    let call = json(r#"{"id": "c", "function": {"name": "n"}}"#);
    match decode_chat_call(&call, None) {
        LlmEvent::ToolUse {
            id, name, input, ..
        } => {
            assert_eq!(id, "c");
            assert_eq!(name, "n");
            assert_eq!(input.render(), "{}");
        }
        _ => panic!("expected ToolUse"),
    }
}

#[test]
fn openai_whole_request_body() {
    let text = |t: &str| ContentBlock::Text {
        text: t.to_string(),
    };
    let result = |id: &str| ContentBlock::ToolResult {
        tool_use_id: id.to_string(),
        content: "out".to_string(),
        is_error: Some(true),
    };
    let call = ContentBlock::ToolUse {
        id: "c1".to_string(),
        name: "run".to_string(),
        input: json(r#"{"b": 1, "a": [true]}"#),
        thought_signature: None,
    };
    let message = |role: &str, content: Vec<ContentBlock>| Message {
        role: role.to_string(),
        content,
    };
    let messages = vec![
        message("user", vec![text("x"), result("c0"), text("y"), call.clone()]),
        message("system", vec![text("ignored")]),
        message("assistant", vec![text("z"), call, result("ignored")]),
        message("user", vec![result("c1")]),
    ];
    let body = provider().build_request_body("sys", &messages, &[]);
    let expected = json(
        r#"{"model": "gpt-4.1-nano", "store": false, "stream": true, "instructions": "sys",
            "tool_choice": "auto", "parallel_tool_calls": true, "input": [
            {"role": "user", "content": [{"type": "input_text", "text": "xy"}]},
            {"type": "function_call_output", "call_id": "c0", "output": "out"},
            {"type": "message", "role": "assistant", "content": [{"type": "output_text", "text": "z", "annotations": []}]},
            {"type": "function_call", "call_id": "c1", "name": "run", "arguments": "{\"a\":[true],\"b\":1}"},
            {"type": "function_call_output", "call_id": "c1", "output": "out"}]}"#,
    );
    assert_eq!(body.to_value(), expected.to_value());
}

#[test]
fn tools_in_the_request_body() {
    let tools = vec![ToolDef {
        name: "run".to_string(),
        description: "runs".to_string(),
        input_schema: json(r#"{"type": "object"}"#),
    }];
    let body = provider().build_request_body("", &[], &tools).to_value();
    assert_eq!(
        body["tools"].to_string(),
        r#"[{"description":"runs","name":"run","parameters":{"type":"object"},"type":"function"}]"#
    );
    let bare = provider().build_request_body("", &[], &[]).to_value();
    assert!(bare.get("tools").is_none());
}

#[test]
fn sent_call_reads_back() {
    let item = encode_call("c1", "run", r#"{"n":1}"#);
    let reply = Json::Object(
        openab_agent::json::JsonObject::new().with("output", Json::array(vec![item])),
    );
    let events = parse_openai_response(&reply).unwrap();
    match &events[0] {
        LlmEvent::ToolUse {
            id, name, input, ..
        } => {
            assert_eq!(id, "c1");
            assert_eq!(name, "run");
            assert_eq!(input.render(), r#"{"n":1}"#);
        }
        _ => panic!("expected ToolUse"),
    }
}

#[test]
fn stream_of_events() {
    let text = "event: x\r\n\
        data: {\"type\":\"response.created\",\"item\":1}\r\n\
        data: {\"type\":\"response.output_item.done\",\"item\":{\"type\":\"message\",\"content\":[{\"type\":\"output_text\",\"text\":\"hi\"}]}}\r\n\
        data: broken\r\n\
        data: {\"type\":\"response.output_item.done\"}\r\n\
        data: [DONE]\r\n\
        data: {\"type\":\"response.output_item.done\",\"item\":{\"type\":\"function_call\"}}\r\n";
    assert_eq!(read_items(text).len(), 1);
    let events = read_stream(text).unwrap();
    assert_eq!(events.len(), 2);
    assert!(matches!(&events[0], LlmEvent::Text(t) if t == "hi"));
    assert!(matches!(events[1], LlmEvent::Stop));
}

#[test]
fn stream_without_items() {
    let error = read_stream("data: [DONE]\n").unwrap_err();
    assert_eq!(
        error.message(),
        "No output items in SSE stream. Raw: data: [DONE]\n"
    );
    let long = "a".repeat(600);
    let error = read_stream(&long).unwrap_err();
    assert_eq!(
        error.message(),
        format!("No output items in SSE stream. Raw: {}", "a".repeat(500))
    );
}

#[test]
fn delivered_items() {
    assert!(delivered(None).is_none());
    assert!(delivered(Some(json(r#"{"type": "other", "item": 1}"#))).is_none());
    assert!(delivered(Some(json(r#"{"type": "response.output_item.done"}"#))).is_none());
    let item = delivered(Some(json(
        r#"{"type": "response.output_item.done", "item": [7]}"#,
    )));
    assert_eq!(item.unwrap().render(), "[7]");
}

#[test]
fn openai_settings() {
    let some = |s: &str| Some(s.to_string());
    let p = OpenAiProvider::from_auth_store(Ok(()), None, None, None, None).unwrap();
    assert_eq!(p.base_url, "https://chatgpt.com/backend-api");
    assert_eq!(p.model, "gpt-4.1-nano");
    assert_eq!(p.max_tokens, 8192);
    let p = OpenAiProvider::from_auth_store(Ok(()), some("u"), None, some("m"), some("x")).unwrap();
    assert_eq!(p.base_url, "u");
    assert_eq!(p.model, "m");
    assert_eq!(p.max_tokens, 8192);
    let p = OpenAiProvider::from_auth_store(Ok(()), None, some("o"), some("m"), some("+5")).unwrap();
    assert_eq!(p.model, "o");
    assert_eq!(p.max_tokens, 5);
    let e = OpenAiProvider::from_auth_store(Err("none".to_string()), None, None, None, None).err();
    assert_eq!(e.unwrap(), "none");
}

#[test]
fn openai_address_and_headers() {
    let p = provider();
    assert_eq!(p.url(), "https://chatgpt.com/backend-api/codex/responses");
    let headers = p.headers("opaque");
    assert_eq!(headers.len(), 3);
    assert_eq!(headers[0].0, "Authorization");
    assert_eq!(headers[0].1, "Bearer opaque");
    assert_eq!(headers[1].0, "Content-Type");
    assert_eq!(headers[1].1, "application/json");
    assert_eq!(headers[2].0, "originator");
    assert_eq!(headers[2].1, "openab-agent");
    let token = "x.eyJodHRwczovL2FwaS5vcGVuYWkuY29tL2F1dGgiOnsiY2hhdGdwdF9hY2NvdW50X2lkIjoiYWNjIn19.y";
    let headers = p.headers(token);
    assert_eq!(headers.len(), 4);
    assert_eq!(headers[3].0, "chatgpt-account-id");
    assert_eq!(headers[3].1, "acc");
}

#[test]
fn conversation_grows_at_the_end() {
    let turn = |role: &str, text: &str| Message {
        role: role.to_string(),
        content: vec![ContentBlock::Text {
            text: text.to_string(),
        }],
    };
    let messages = vec![turn("user", "a"), turn("assistant", "b"), turn("user", "c")];
    let input = |n: usize| {
        let body = provider().build_request_body("", &messages[..n], &[]);
        body.to_value()["input"].as_array().unwrap().clone()
    };
    for n in 0..3 {
        assert_eq!(input(n + 1)[..n], input(n)[..]);
        assert_eq!(input(n + 1).len(), n + 1);
    }
}

#[test]
fn missing_arguments_are_empty() {
    for call in [
        r#"{"type": "function_call"}"#,
        r#"{"type": "function_call", "arguments": {"n": 1}}"#,
        r#"{"type": "function_call", "arguments": ""}"#,
    ] {
        let reply = format!("{{\"output\": [{call}]}}");
        let events = parse_openai_response(&json(&reply)).unwrap();
        match &events[0] {
            LlmEvent::ToolUse { input, .. } => assert_eq!(input.render(), "{}"),
            _ => panic!("expected ToolUse"),
        }
    }
}
