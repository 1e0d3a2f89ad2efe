use banks::provider::claude::wire::{
    stop_reason_from_wire, to_wire_request, MessageResponse, ResponseContentBlock, ResponseUsage,
};
use banks::json::JsonText;
use banks::provider::claude::ClaudeProvider;
use banks::provider::{AgentRequest, AgentResponse, Content, Message, Role, StopReason, ToolSpec};

fn text_of(c: &Content) -> &str {
    match c {
        Content::Text { text } => text.as_str(),
        _ => panic!("not a text block"),
    }
}

#[test]
fn stop_reason_known_values() {
    assert!(matches!(stop_reason_from_wire(Some("end_turn")), StopReason::EndTurn));
    assert!(matches!(stop_reason_from_wire(Some("tool_use")), StopReason::ToolUse));
    assert!(matches!(stop_reason_from_wire(Some("max_tokens")), StopReason::MaxTokens));
    assert!(matches!(stop_reason_from_wire(Some("stop_sequence")), StopReason::StopSequence));
}

#[test]
fn stop_reason_unknown_values() {
    match stop_reason_from_wire(Some("pause_turn")) {
        StopReason::Other(s) => assert_eq!(s, "pause_turn"),
        other => panic!("unexpected {:?}", other),
    }
    match stop_reason_from_wire(None) {
        StopReason::Other(s) => assert_eq!(s, "unknown"),
        other => panic!("unexpected {:?}", other),
    }
}

#[test]
fn wire_request_minimal() {
    let req = AgentRequest::new(vec![Message::user("hi")]);
    let body = to_wire_request("model-test", &req, true);
    assert_eq!(
        body,
        r#"{"max_tokens":4096,"messages":[{"content":[{"text":"hi","type":"text"}],"role":"user"}],"model":"model-test","stream":true}"#
    );
}

#[test]
fn wire_request_all_members() {
    let mut req = AgentRequest::new(vec![
        Message::user("say \"hi\"\n"),
        Message::assistant("hi"),
        Message {
            role: Role::Assistant,
            content: vec![
                Content::ToolUse {
                    id: "t1".to_string(),
                    name: "calc".to_string(),
                    input: JsonText::parse(r#"{ "x" : 1 }"#).unwrap(),
                },
                Content::ToolResult {
                    tool_use_id: "t1".to_string(),
                    content: "2".to_string(),
                    is_error: false,
                },
            ],
        },
    ])
    .system(Some("be brief".to_string()))
    .max_tokens(12)
    .temperature(JsonText::parse("0.5").unwrap());
    req.tools.push(ToolSpec {
        name: "calc".to_string(),
        description: "adds".to_string(),
        input_schema: JsonText::parse(r#"{"type":"object"}"#).unwrap(),
    });
    let body = to_wire_request("m", &req, false);
    let expected = [
        r#"{"max_tokens":12,"messages":["#,
        r#"{"content":[{"text":"say \"hi\"\n","type":"text"}],"role":"user"},"#,
        r#"{"content":[{"text":"hi","type":"text"}],"role":"assistant"},"#,
        r#"{"content":[{"id":"t1","input":{"x":1},"name":"calc","type":"tool_use"},"#,
        r#"{"content":"2","is_error":false,"tool_use_id":"t1","type":"tool_result"}],"role":"assistant"}],"#,
        r#""model":"m","stream":false,"system":"be brief","temperature":0.5,"#,
        r#""tools":[{"description":"adds","input_schema":{"type":"object"},"name":"calc"}]}"#,
    ]
    .join("");
    assert_eq!(body, expected);
}

#[test]
fn wire_request_zero_and_large_token_limits() {
    let req = AgentRequest::new(vec![]).max_tokens(0);
    assert_eq!(
        to_wire_request("m", &req, true),
        r#"{"max_tokens":0,"messages":[],"model":"m","stream":true}"#
    );
    let req = AgentRequest::new(vec![]).max_tokens(u32::MAX);
    assert_eq!(
        to_wire_request("m", &req, true),
        r#"{"max_tokens":4294967295,"messages":[],"model":"m","stream":true}"#
    );
}

#[test]
fn wire_request_is_valid_json() {
    let req = AgentRequest::new(vec![Message::user("tab\there \\ \u{1} é")])
        .system(Some("x".to_string()));
    let body = to_wire_request("model \"q\"", &req, true);
    let v: serde_json::Value = serde_json::from_str(&body).unwrap();
    assert_eq!(v["messages"][0]["content"][0]["text"], "tab\there \\ \u{1} é");
    assert_eq!(v["model"], "model \"q\"");
    assert_eq!(v["system"], "x");
    assert_eq!(v["stream"], true);
}

#[test]
fn response_keeps_text_and_tool_use_in_order() {
    let resp = MessageResponse {
        content: vec![
            ResponseContentBlock::Text { text: "a".to_string() },
            ResponseContentBlock::Unknown,
            ResponseContentBlock::ToolUse {
                id: "i".to_string(),
                name: "n".to_string(),
                input: JsonText::empty_object(),
            },
            ResponseContentBlock::Text { text: "b".to_string() },
        ],
        stop_reason: Some("tool_use".to_string()),
        usage: ResponseUsage { input_tokens: 3, output_tokens: 4 },
    };
    let r = AgentResponse::from_wire(resp);
    assert_eq!(r.message.role, Role::Assistant);
    assert_eq!(r.message.content.len(), 3);
    assert_eq!(text_of(&r.message.content[0]), "a");
    assert!(matches!(&r.message.content[1], Content::ToolUse { id, name, input }
        if id == "i" && name == "n" && input.as_str() == "{}"));
    assert_eq!(text_of(&r.message.content[2]), "b");
    assert!(matches!(r.stop_reason, StopReason::ToolUse));
    assert_eq!(r.usage.input_tokens, 3);
    assert_eq!(r.usage.output_tokens, 4);
}

#[test]
fn response_without_stop_reason() {
    let resp = MessageResponse {
        content: vec![],
        stop_reason: None,
        usage: ResponseUsage { input_tokens: 0, output_tokens: 0 },
    };
    let r = AgentResponse::from_wire(resp);
    assert!(r.message.content.is_empty());
    assert!(matches!(r.stop_reason, StopReason::Other(ref s) if s == "unknown"));
}

#[test]
fn provider_headers_and_body() {
    let p = ClaudeProvider::new("SECRET-REDACTED".to_string(), "sonnet-x".to_string());
    assert_eq!(p.endpoint(), "https://api.anthropic.com/v1/messages");
    let h = p.request_headers();
    assert_eq!(h.len(), 3);
    assert_eq!(h[0], ("x-api-key".to_string(), "SECRET-REDACTED".to_string()));
    assert_eq!(h[1], ("anthropic-version".to_string(), "2023-06-01".to_string()));
    assert_eq!(h[2], ("content-type".to_string(), "application/json".to_string()));
    let req = AgentRequest::new(vec![Message::user("hi")]);
    assert_eq!(p.request_body(&req, true), to_wire_request("sonnet-x", &req, true));
}

#[test]
fn messages_and_requests() {
    let m = Message::user("hello");
    assert_eq!(m.role, Role::User);
    assert_eq!(m.content.len(), 1);
    assert_eq!(text_of(&m.content[0]), "hello");
    let m = Message::assistant("yo");
    assert_eq!(m.role, Role::Assistant);
    let req = AgentRequest::new(vec![m.clone()]);
    assert_eq!(req.max_tokens, banks::provider::DEFAULT_MAX_TOKENS);
    assert_eq!(req.max_tokens, 4096);
    assert!(req.system.is_none());
    assert!(req.temperature.is_none());
    assert!(req.tools.is_empty());
    let req = req.max_tokens(7).system(Some("s".to_string()));
    assert_eq!(req.max_tokens, 7);
    assert_eq!(req.system.as_deref(), Some("s"));
    assert_eq!(req.messages.len(), 1);
    assert_eq!(text_of(&req.messages[0].content[0]), "yo");
}

#[test]
fn wire_string_escapes() {
    let req = AgentRequest::new(vec![Message::user("a\u{1}\u{8}\u{c}\"\\\t\r\n\u{1f}é")]);
    let body = to_wire_request("m", &req, true);
    assert_eq!(
        body,
        r#"{"max_tokens":4096,"messages":[{"content":[{"text":"a\u0001\b\f\"\\\t\r\n\u001fé","type":"text"}],"role":"user"}],"model":"m","stream":true}"#
    );
}

#[test]
fn json_text_parses_and_canonicalises() {
    assert!(JsonText::parse("{\"a\":").is_none());
    assert!(JsonText::parse("").is_none());
    assert_eq!(JsonText::parse(" [1, 2 ,{\"b\" : null}] ").unwrap().as_str(), "[1,2,{\"b\":null}]");
    assert_eq!(JsonText::empty_object().as_str(), "{}");
}
