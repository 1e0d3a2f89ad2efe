use banks::agent::{Agent, EventAction};
use banks::provider::{AgentResponse, Content, Message, Role, StopReason, StreamEvent, Usage};

fn reply(content: Vec<Content>) -> AgentResponse {
    AgentResponse {
        message: Message { role: Role::Assistant, content },
        stop_reason: StopReason::EndTurn,
        usage: Usage { input_tokens: 1, output_tokens: 2 },
    }
}

#[test]
fn new_agent_has_empty_history() {
    let agent = Agent::new(7u8, Some("sys".to_string()), 99);
    assert!(agent.history().is_empty());
    assert_eq!(*agent.provider(), 7u8);
}

#[test]
fn request_carries_whole_history() {
    let mut agent = Agent::new((), Some("sys".to_string()), 99);
    let req = agent.request("first");
    assert_eq!(req.messages.len(), 1);
    assert_eq!(req.max_tokens, 99);
    assert_eq!(req.system.as_deref(), Some("sys"));
    assert!(req.tools.is_empty());
    assert!(req.temperature.is_none());
    let a = agent.handle_event(StreamEvent::MessageDone(reply(vec![Content::Text {
        text: "answer".to_string(),
    }])));
    assert!(matches!(a, EventAction::Finished { tool_requested: false }));
    let req = agent.request("second");
    assert_eq!(req.messages.len(), 3);
    assert_eq!(req.messages[0].role, Role::User);
    assert_eq!(req.messages[1].role, Role::Assistant);
    assert_eq!(req.messages[2].role, Role::User);
    assert!(matches!(&req.messages[2].content[0], Content::Text { text } if text == "second"));
    assert_eq!(agent.history().len(), 3);
}

#[test]
fn turn_appends_user_message_and_reply() {
    let mut agent = Agent::new((), None, 10);
    let _ = agent.request("q");
    let a = agent.handle_event(StreamEvent::TextDelta("par".to_string()));
    assert!(matches!(a, EventAction::PrintText(ref t) if t == "par"));
    let a = agent.handle_event(StreamEvent::ToolUseStart { id: "i".to_string(), name: "n".to_string() });
    assert!(matches!(a, EventAction::ReportToolUse { ref name } if name == "n"));
    let a = agent.handle_event(StreamEvent::ToolInputDelta {
        id: "i".to_string(),
        partial_json: "{".to_string(),
    });
    assert!(matches!(a, EventAction::Nothing));
    assert_eq!(agent.history().len(), 1);
    let a = agent.handle_event(StreamEvent::MessageDone(reply(vec![
        Content::Text { text: "par".to_string() },
        Content::ToolUse {
            id: "i".to_string(),
            name: "n".to_string(),
            input: banks::json::JsonText::empty_object(),
        },
    ])));
    assert!(matches!(a, EventAction::Finished { tool_requested: true }));
    let h = agent.history();
    assert_eq!(h.len(), 2);
    assert_eq!(h[0].role, Role::User);
    assert_eq!(h[1].role, Role::Assistant);
    assert_eq!(h[1].content.len(), 2);
}

#[test]
fn request_without_system_prompt() {
    let mut agent = Agent::new((), None, 10);
    let req = agent.request("x");
    assert!(req.system.is_none());
}

#[test]
fn clones_keep_values() {
    let r = reply(vec![Content::Text { text: "x".to_string() }]);
    let e = StreamEvent::MessageDone(r.clone());
    match e.clone() {
        StreamEvent::MessageDone(c) => {
            assert_eq!(c.message.content.len(), 1);
            assert!(matches!(c.stop_reason, StopReason::EndTurn));
            assert_eq!(c.usage, Usage { input_tokens: 1, output_tokens: 2 });
        },
        other => panic!("unexpected {:?}", other),
    }
    let req = banks::provider::AgentRequest::new(vec![Message::user("a")])
        .system(Some("s".to_string()))
        .temperature(banks::json::JsonText::parse("1.0").unwrap());
    let c = req.clone();
    assert_eq!(c.messages.len(), 1);
    assert_eq!(c.system.as_deref(), Some("s"));
    assert_eq!(c.temperature.as_ref().map(|t| t.as_str()), Some("1.0"));
    let d = Usage::default();
    assert_eq!(d.input_tokens, 0);
    assert_eq!(d.output_tokens, 0);
}

#[test]
fn end_turn_needs_the_reply() {
    let mut agent = Agent::new((), None, 10);
    assert!(agent.end_turn().is_ok());
    let _ = agent.request("q");
    match agent.end_turn() {
        Err(banks::provider::ProviderError::Decode(m)) => {
            assert_eq!(m, "stream ended before the reply was complete")
        },
        other => panic!("unexpected {:?}", other),
    }
    assert_eq!(agent.history().len(), 1);
    let _ = agent.handle_event(StreamEvent::MessageDone(reply(vec![])));
    assert!(agent.end_turn().is_ok());
    assert_eq!(agent.history().len(), 2);
}
