use openab_agent::gemini::{gemini_tool_name, parse_gemini_response, GeminiProvider};
use openab_agent::json::Json;
use openab_agent::message::{ContentBlock, LlmEvent, Message, ToolDef};

fn json(text: &str) -> Json {
    Json::parse(text).unwrap()
}

fn gemini_provider() -> GeminiProvider {
    GeminiProvider {
        api_key: "test".to_string(),
        model: "gemini-2.5-flash".to_string(),
        max_tokens: 4096,
        base_url: "https://generativelanguage.googleapis.com/v1beta".to_string(),
    }
}

#[test]
fn test_gemini_build_request_body_maps_roles_and_tools() {
    let messages = vec![
        Message {
            role: "user".to_string(),
            content: vec![ContentBlock::Text {
                text: "hello".to_string(),
            }],
        },
        Message {
            role: "assistant".to_string(),
            content: vec![ContentBlock::ToolUse {
                id: "call_bash_0".to_string(),
                name: "bash".to_string(),
                input: json(r#"{ "command": "ls" }"#),
                thought_signature: None,
            }],
        },
        Message {
            role: "user".to_string(),
            content: vec![ContentBlock::ToolResult {
                tool_use_id: "call_bash_0".to_string(),
                content: "file.txt".to_string(),
                is_error: None,
            }],
        },
    ];
    let tools = vec![ToolDef {
        name: "bash".to_string(),
        description: "run a command".to_string(),
        input_schema: json(r#"{ "type": "object" }"#),
    }];
    let body = gemini_provider()
        .build_request_body("system prompt", &messages, &tools)
        .to_value();

    // role mapping: user stays user, assistant -> model
    assert_eq!(body["contents"][0]["role"], "user");
    assert_eq!(body["contents"][1]["role"], "model");
    // tool_use -> functionCall
    assert_eq!(
        body["contents"][1]["parts"][0]["functionCall"]["name"],
        "bash"
    );
    // tool_result -> functionResponse keyed by recovered NAME (not the id)
    assert_eq!(
        body["contents"][2]["parts"][0]["functionResponse"]["name"],
        "bash"
    );
    assert_eq!(
        body["contents"][2]["parts"][0]["functionResponse"]["response"]["result"],
        "file.txt"
    );
    // system instruction + tool declaration shape
    assert_eq!(
        body["systemInstruction"]["parts"][0]["text"],
        "system prompt"
    );
    assert_eq!(body["tools"][0]["functionDeclarations"][0]["name"], "bash");
    assert_eq!(body["generationConfig"]["maxOutputTokens"], 4096);
}

#[test]
fn test_gemini_tool_result_error_maps_to_error_field() {
    let messages = vec![Message {
        role: "user".to_string(),
        content: vec![ContentBlock::ToolResult {
            tool_use_id: "unknown".to_string(),
            content: "boom".to_string(),
            is_error: Some(true),
        }],
    }];
    let body = gemini_provider()
        .build_request_body("sys", &messages, &[])
        .to_value();
    // No matching tool_use -> falls back to the id as the name
    assert_eq!(
        body["contents"][0]["parts"][0]["functionResponse"]["name"],
        "unknown"
    );
    assert_eq!(
        body["contents"][0]["parts"][0]["functionResponse"]["response"]["error"],
        "boom"
    );
}

#[test]
fn test_parse_gemini_text_response() {
    let resp = json(r#"{"candidates": [{"content": { "parts": [{ "text": "Hello world" }] }}]}"#);
    let events = parse_gemini_response(&resp).unwrap();
    assert_eq!(events.len(), 2);
    assert!(matches!(&events[0], LlmEvent::Text(t) if t == "Hello world"));
    assert!(matches!(events[1], LlmEvent::Stop));
}

#[test]
fn test_parse_gemini_function_call_response() {
    let resp = json(
        r#"{"candidates": [{"content": { "parts": [
            { "text": "let me read that" },
            { "functionCall": { "name": "read", "args": { "path": "x.txt" } } }
        ]}}]}"#,
    );
    let events = parse_gemini_response(&resp).unwrap();
    // text + tool use, and NO Stop (awaiting tool result)
    assert!(matches!(&events[0], LlmEvent::Text(_)));
    match &events[1] {
        LlmEvent::ToolUse {
            id, name, input, ..
        } => {
            assert_eq!(name, "read");
            assert_eq!(id, "call_read_1");
            assert_eq!(input.to_value()["path"], "x.txt");
        }
        _ => panic!("expected ToolUse event"),
    }
    assert!(!events.iter().any(|e| matches!(e, LlmEvent::Stop)));
}

#[test]
fn test_parse_gemini_error_envelope() {
    let resp = json(r#"{ "error": { "message": "API key not valid" } }"#);
    let err = parse_gemini_response(&resp).unwrap_err();
    assert!(err.message().contains("API key not valid"));
}

#[test]
fn test_parse_gemini_captures_thought_signature() {
    let resp = json(
        r#"{"candidates": [{"content": { "parts": [
            {
                "functionCall": { "name": "bash", "args": { "command": "ls" } },
                "thoughtSignature": "abc123"
            }
        ]}}]}"#,
    );
    let events = parse_gemini_response(&resp).unwrap();
    match &events[0] {
        LlmEvent::ToolUse {
            name,
            thought_signature,
            ..
        } => {
            assert_eq!(name, "bash");
            assert_eq!(thought_signature.as_deref(), Some("abc123"));
        }
        _ => panic!("expected ToolUse event"),
    }
}

#[test]
fn test_gemini_echoes_thought_signature_on_function_call() {
    // A Gemini 3.x assistant turn carries a thought_signature on its ToolUse;
    // it must be echoed back as `thoughtSignature` on the functionCall part.
    let messages = vec![Message {
        role: "assistant".to_string(),
        content: vec![ContentBlock::ToolUse {
            id: "call_bash_0".to_string(),
            name: "bash".to_string(),
            input: json(r#"{ "command": "ls" }"#),
            thought_signature: Some("sig_xyz".to_string()),
        }],
    }];
    let body = gemini_provider()
        .build_request_body("sys", &messages, &[])
        .to_value();
    let part = &body["contents"][0]["parts"][0];
    assert_eq!(part["functionCall"]["name"], "bash");
    assert_eq!(part["thoughtSignature"], "sig_xyz");
}

#[test]
fn gemini_whole_request_body() {
    let messages = vec![Message {
        role: "tool".to_string(),
        content: vec![
            ContentBlock::Text {
                text: "t".to_string(),
            },
            ContentBlock::ToolResult {
                tool_use_id: "c".to_string(),
                content: "r".to_string(),
                is_error: Some(false),
            },
            ContentBlock::ToolUse {
                id: "c".to_string(),
                name: "n".to_string(),
                input: json("{}"),
                thought_signature: None,
            },
        ],
    }];
    let body = gemini_provider().build_request_body("sys", &messages, &[]);
    let expected = json(
        r#"{"contents": [{"role": "user", "parts": [
            {"text": "t"},
            {"functionResponse": {"name": "n", "response": {"result": "r"}}},
            {"functionCall": {"name": "n", "args": {}}}]}],
            "systemInstruction": {"parts": [{"text": "sys"}]},
            "generationConfig": {"maxOutputTokens": 4096}}"#,
    );
    assert_eq!(body.to_value(), expected.to_value());
}

#[test]
fn first_call_with_the_id_names_the_result() {
    let call = |id: &str, name: &str| ContentBlock::ToolUse {
        id: id.to_string(),
        name: name.to_string(),
        input: Json::Null,
        thought_signature: None,
    };
    let messages = vec![
        Message {
            role: "assistant".to_string(),
            content: vec![call("a", "one"), call("b", "two")],
        },
        Message {
            role: "assistant".to_string(),
            content: vec![call("b", "three"), call("c", "four")],
        },
    ];
    assert_eq!(gemini_tool_name(&messages, "b").as_deref(), Some("two"));
    assert_eq!(gemini_tool_name(&messages, "c").as_deref(), Some("four"));
    assert_eq!(gemini_tool_name(&messages, "d"), None);
}

#[test]
fn ids_of_calls_in_one_reply_differ() {
    let resp = json(
        r#"{"candidates": [{"content": {"parts": [
            {"functionCall": {"name": "run"}}, {"text": ""}, {"functionCall": {"name": "run"}}, {"functionCall": {}}]}}]}"#,
    );
    let events = parse_gemini_response(&resp).unwrap();
    let ids: Vec<String> = events
        .iter()
        .map(|e| match e {
            LlmEvent::ToolUse { id, .. } => id.clone(),
            _ => panic!("expected ToolUse event"),
        })
        .collect();
    assert_eq!(ids, vec!["call_run_0", "call_run_2", "call__3"]);
    match &events[0] {
        LlmEvent::ToolUse {
            input,
            thought_signature,
            ..
        } => {
            assert_eq!(input.render(), "{}");
            assert!(thought_signature.is_none());
        }
        _ => panic!("expected ToolUse event"),
    }
}

#[test]
fn large_places_are_written_out() {
    let part = r#"{"text": ""}"#;
    let parts = format!(
        "{}{{\"functionCall\": {{\"name\": \"f\"}}}}",
        format!("{part},").repeat(120)
    );
    let resp = json(&format!(
        "{{\"candidates\": [{{\"content\": {{\"parts\": [{parts}]}}}}]}}"
    ));
    let events = parse_gemini_response(&resp).unwrap();
    assert!(matches!(&events[0], LlmEvent::ToolUse { id, .. } if id == "call_f_120"));
}

#[test]
fn errors_of_replies() {
    let message = |text: &str| parse_gemini_response(&json(text)).unwrap_err().message();
    assert_eq!(message("{}"), "missing candidates in response");
    assert_eq!(message(r#"{"candidates": []}"#), "missing candidates in response");
    assert_eq!(message(r#"{"error": 1}"#), "Gemini API error: unknown error");
    assert_eq!(
        message(r#"{"error": {"message": "no"}, "candidates": [{}]}"#),
        "Gemini API error: no"
    );
}

#[test]
fn candidate_without_parts_stops() {
    let events = parse_gemini_response(&json(r#"{"candidates": [{}]}"#)).unwrap();
    assert_eq!(events.len(), 1);
    assert!(matches!(events[0], LlmEvent::Stop));
}

#[test]
fn signature_goes_full_circle() {
    let part = r#"{"functionCall":{"args":{"command":"ls"},"name":"bash"},"thoughtSignature":"s1"}"#;
    let reply = format!("{{\"candidates\": [{{\"content\": {{\"parts\": [{part}]}}}}]}}");
    let events = parse_gemini_response(&json(&reply)).unwrap();
    let content = match &events[0] {
        LlmEvent::ToolUse {
            id,
            name,
            input,
            thought_signature,
        } => ContentBlock::ToolUse {
            id: id.clone(),
            name: name.clone(),
            input: input.clone(),
            thought_signature: thought_signature.clone(),
        },
        _ => panic!("expected ToolUse event"),
    };
    let messages = vec![Message {
        role: "assistant".to_string(),
        content: vec![content],
    }];
    let body = gemini_provider()
        .build_request_body("", &messages, &[])
        .to_value();
    assert_eq!(body["contents"][0]["parts"][0].to_string(), part);
}

#[test]
fn gemini_settings() {
    let some = |s: &str| Some(s.to_string());
    let p = GeminiProvider::from_env(some("a"), some("b"), None, None, None).unwrap();
    assert_eq!(p.api_key, "a");
    assert_eq!(p.model, "gemini-2.5-flash");
    assert_eq!(p.max_tokens, 8192);
    assert_eq!(
        p.base_url,
        "https://generativelanguage.googleapis.com/v1beta"
    );
    let p = GeminiProvider::from_env(None, some("b"), some("m"), some("9"), some("u")).unwrap();
    assert_eq!(p.api_key, "b");
    assert_eq!(p.model, "m");
    assert_eq!(p.max_tokens, 9);
    assert_eq!(p.base_url, "u");
    let e = GeminiProvider::from_env(None, None, None, None, None).err();
    assert_eq!(e.unwrap(), "GEMINI_API_KEY not set");
    let e = GeminiProvider::from_env(some(""), some("b"), None, None, None).err();
    assert_eq!(e.unwrap(), "GEMINI_API_KEY is empty");
}

#[test]
fn gemini_address_and_headers() {
    let p = gemini_provider();
    assert_eq!(
        p.url(),
        "https://generativelanguage.googleapis.com/v1beta/models/gemini-2.5-flash:generateContent"
    );
    let headers = p.headers();
    assert_eq!(headers.len(), 2);
    assert_eq!(headers[0].0, "x-goog-api-key");
    assert_eq!(headers[0].1, "test");
    assert_eq!(headers[1].0, "content-type");
    assert_eq!(headers[1].1, "application/json");
}

#[test]
fn made_up_id_leads_back_to_the_name() {
    let reply = r#"{"candidates": [{"content": {"parts": [
        {"functionCall": {"name": "a_1"}}, {"functionCall": {"name": "a"}}]}}]}"#;
    let events = parse_gemini_response(&json(reply)).unwrap();
    let content: Vec<ContentBlock> = events
        .iter()
        .map(|e| match e {
            LlmEvent::ToolUse {
                id, name, input, ..
            } => ContentBlock::ToolUse {
                id: id.clone(),
                name: name.clone(),
                input: input.clone(),
                thought_signature: None,
            },
            _ => panic!("expected ToolUse event"),
        })
        .collect();
    let messages = vec![Message {
        role: "assistant".to_string(),
        content,
    }];
    assert_eq!(gemini_tool_name(&messages, "call_a_1_0").as_deref(), Some("a_1"));
    assert_eq!(gemini_tool_name(&messages, "call_a_1").as_deref(), Some("a"));
}

#[test]
fn whole_reply_is_echoed() {
    let reply = r#"{"candidates": [{"content": {"parts": [
        {"text": "a"}, {"text": ""}, {"inlineData": {}},
        {"functionCall": {"name": "f", "args": {"x": 1}}, "thoughtSignature": "s"}, {"text": "b"}]}}]}"#;
    let content = parse_gemini_response(&json(reply))
        .unwrap()
        .into_iter()
        .filter_map(|event| match event {
            LlmEvent::Text(text) => Some(ContentBlock::Text { text }),
            LlmEvent::ToolUse {
                id,
                name,
                input,
                thought_signature,
            } => Some(ContentBlock::ToolUse {
                id,
                name,
                input,
                thought_signature,
            }),
            _ => None,
        })
        .collect();
    let messages = vec![Message {
        role: "assistant".to_string(),
        content,
    }];
    let body = gemini_provider()
        .build_request_body("", &messages, &[])
        .to_value();
    let expected = json(
        r#"{"role": "model", "parts": [{"text": "a"},
            {"functionCall": {"name": "f", "args": {"x": 1}}, "thoughtSignature": "s"}, {"text": "b"}]}"#,
    );
    assert_eq!(body["contents"][0], expected.to_value());
}
