use banks::provider::claude::stream::{
    extract_raw_events, handle_raw_events, remove_empty_and_map_errs, Accumulator,
    ContentBlockStart, ContentDelta, MessageDeltaPayload, MessageStartPayload, RawEvent, SseEvent,
    UsagePayload,
};
use banks::provider::{Content, ProviderError, Role, StopReason, StreamEvent};

fn text_start(index: usize, text: &str) -> RawEvent {
    RawEvent::ContentBlockStart {
        index,
        content_block: ContentBlockStart::Text { text: text.to_string() },
    }
}

fn text_delta(index: usize, text: &str) -> RawEvent {
    RawEvent::ContentBlockDelta { index, delta: ContentDelta::TextDelta { text: text.to_string() } }
}

fn json_delta(index: usize, json: &str) -> RawEvent {
    RawEvent::ContentBlockDelta {
        index,
        delta: ContentDelta::InputJsonDelta { partial_json: json.to_string() },
    }
}

fn tool_start(index: usize, id: &str, name: &str) -> RawEvent {
    RawEvent::ContentBlockStart {
        index,
        content_block: ContentBlockStart::ToolUse { id: id.to_string(), name: name.to_string() },
    }
}

fn run(events: Vec<RawEvent>) -> (Vec<StreamEvent>, bool) {
    let mut acc = Accumulator::new();
    let mut out = Vec::new();
    for e in events {
        let step = handle_raw_events(&mut acc, Ok(e));
        if let Some(item) = step.item {
            out.push(item.unwrap());
        }
        if step.stop {
            return (out, true);
        }
    }
    (out, false)
}

#[test]
fn text_stream_accumulates_into_message() {
    let (out, stopped) = run(vec![
        RawEvent::MessageStart {
            message: MessageStartPayload {
                usage: Some(UsagePayload { input_tokens: 10, output_tokens: 1 }),
            },
        },
        text_start(0, ""),
        RawEvent::Ping,
        text_delta(0, "Hel"),
        text_delta(0, "lo"),
        RawEvent::ContentBlockStop { index: 0 },
        RawEvent::MessageDelta {
            delta: MessageDeltaPayload {
                stop_reason: Some("end_turn".to_string()),
                usage: Some(UsagePayload { input_tokens: 0, output_tokens: 5 }),
            },
        },
        RawEvent::MessageStop,
    ]);
    assert!(stopped);
    assert_eq!(out.len(), 3);
    assert!(matches!(&out[0], StreamEvent::TextDelta(t) if t == "Hel"));
    assert!(matches!(&out[1], StreamEvent::TextDelta(t) if t == "lo"));
    match &out[2] {
        StreamEvent::MessageDone(r) => {
            assert_eq!(r.message.role, Role::Assistant);
            assert_eq!(r.message.content.len(), 1);
            assert!(matches!(&r.message.content[0], Content::Text { text } if text == "Hello"));
            assert!(matches!(r.stop_reason, StopReason::EndTurn));
            assert_eq!(r.usage.input_tokens, 10);
            assert_eq!(r.usage.output_tokens, 5);
        },
        other => panic!("unexpected {:?}", other),
    }
}

#[test]
fn non_empty_block_start_is_streamed() {
    let mut acc = Accumulator::new();
    let e = acc.handle_content_block_start(0, "Hi".to_string());
    assert!(matches!(e, Some(StreamEvent::TextDelta(ref t)) if t == "Hi"));
    let e = acc.handle_content_block_start(1, String::new());
    assert!(e.is_none());
    let r = acc.finish();
    assert_eq!(r.message.content.len(), 2);
}

#[test]
fn tool_use_stream_parses_buffered_json() {
    let (out, stopped) = run(vec![
        tool_start(0, "tu_1", "calc"),
        json_delta(0, "{\"a\": "),
        json_delta(0, "1}"),
        RawEvent::MessageStop,
    ]);
    assert!(stopped);
    assert_eq!(out.len(), 4);
    assert!(matches!(&out[0], StreamEvent::ToolUseStart { id, name } if id == "tu_1" && name == "calc"));
    assert!(matches!(&out[1], StreamEvent::ToolInputDelta { id, partial_json }
        if id == "tu_1" && partial_json == "{\"a\": "));
    match &out[3] {
        StreamEvent::MessageDone(r) => {
            assert!(matches!(&r.message.content[0], Content::ToolUse { id, name, input }
                if id == "tu_1" && name == "calc" && input.as_str() == "{\"a\":1}"));
            assert!(matches!(r.stop_reason, StopReason::Other(ref s) if s == "unknown"));
        },
        other => panic!("unexpected {:?}", other),
    }
}

#[test]
fn tool_use_with_broken_json_falls_back_to_empty_object() {
    let (out, _) = run(vec![tool_start(0, "t", "n"), json_delta(0, "{\"a\":"), RawEvent::MessageStop]);
    match out.last().unwrap() {
        StreamEvent::MessageDone(r) => {
            assert!(matches!(&r.message.content[0], Content::ToolUse { input, .. } if input.as_str() == "{}"));
        },
        other => panic!("unexpected {:?}", other),
    }
}

#[test]
fn mismatched_and_out_of_range_deltas_are_ignored() {
    let (out, _) = run(vec![
        text_start(0, "x"),
        json_delta(0, "{}"),
        text_delta(5, "lost"),
        RawEvent::ContentBlockStart { index: 1, content_block: ContentBlockStart::Unknown },
        text_delta(1, "y"),
        RawEvent::Unknown,
        RawEvent::MessageStop,
    ]);
    assert_eq!(out.len(), 3);
    assert!(matches!(&out[0], StreamEvent::TextDelta(t) if t == "x"));
    assert!(matches!(&out[1], StreamEvent::TextDelta(t) if t == "y"));
    match &out[2] {
        StreamEvent::MessageDone(r) => {
            assert_eq!(r.message.content.len(), 2);
            assert!(matches!(&r.message.content[0], Content::Text { text } if text == "x"));
            assert!(matches!(&r.message.content[1], Content::Text { text } if text == "y"));
        },
        other => panic!("unexpected {:?}", other),
    }
}

#[test]
fn streamed_text_equals_kept_text() {
    let (out, _) = run(vec![
        text_start(0, "A"),
        text_delta(0, "b"),
        tool_start(1, "t", "n"),
        json_delta(1, "{}"),
        text_start(2, ""),
        text_delta(2, "c"),
        text_delta(2, "d"),
        RawEvent::MessageStop,
    ]);
    let mut streamed = String::new();
    let mut kept = String::new();
    for e in &out {
        match e {
            StreamEvent::TextDelta(t) => streamed.push_str(t),
            StreamEvent::MessageDone(r) => {
                for c in &r.message.content {
                    if let Content::Text { text } = c {
                        kept.push_str(text);
                    }
                }
            },
            _ => {},
        }
    }
    assert_eq!(streamed, "Abcd");
    assert_eq!(kept, streamed);
}

#[test]
fn message_stop_resets_the_accumulator() {
    let mut acc = Accumulator::new();
    let _ = handle_raw_events(&mut acc, Ok(text_start(0, "a")));
    let step = handle_raw_events(&mut acc, Ok(RawEvent::MessageStop));
    assert!(step.stop);
    let r = acc.finish();
    assert!(r.message.content.is_empty());
    assert_eq!(r.usage.input_tokens, 0);
}

#[test]
fn upstream_error_passes_and_stops() {
    let mut acc = Accumulator::new();
    let step = handle_raw_events(&mut acc, Err(ProviderError::Decode("bad".to_string())));
    assert!(step.stop);
    assert!(matches!(step.item, Some(Err(ProviderError::Decode(ref m))) if m == "bad"));
}

#[test]
fn message_start_without_usage_keeps_counts() {
    let mut acc = Accumulator::new();
    acc.handle_message_start(MessageStartPayload {
        usage: Some(UsagePayload { input_tokens: 4, output_tokens: 2 }),
    });
    acc.handle_message_start(MessageStartPayload { usage: None });
    acc.handle_message_delta(MessageDeltaPayload { stop_reason: None, usage: None });
    let r = acc.finish();
    assert_eq!(r.usage.input_tokens, 4);
    assert_eq!(r.usage.output_tokens, 2);
}

#[test]
fn unknown_block_keeps_indices_aligned() {
    let mut acc = Accumulator::new();
    acc.handle_content_block_unknown();
    let e = acc.handle_content_block_delta(0, ContentDelta::TextDelta { text: "z".to_string() });
    assert!(matches!(e, Some(StreamEvent::TextDelta(ref t)) if t == "z"));
    let e = acc.handle_content_block_delta(0, ContentDelta::Unknown);
    assert!(e.is_none());
}

fn sse(data: &str) -> SseEvent {
    SseEvent { event: "message".to_string(), data: data.to_string(), id: String::new() }
}

#[test]
fn framing_stage() {
    let s = remove_empty_and_map_errs(Ok(sse("")));
    assert!(s.item.is_none() && !s.stop);
    let s = remove_empty_and_map_errs(Ok(sse("{}")));
    assert!(!s.stop);
    assert!(matches!(s.item, Some(Ok(ref e)) if e.data == "{}"));
    let s = remove_empty_and_map_errs(Err("Transport error: reset".to_string()));
    assert!(s.stop);
    assert!(matches!(s.item, Some(Err(ProviderError::Decode(ref m))) if m == "Transport error: reset"));
}

#[test]
fn decoding_stage() {
    let s = extract_raw_events(Ok(Ok(RawEvent::Ping)));
    assert!(!s.stop);
    assert!(matches!(s.item, Some(Ok(RawEvent::Ping))));
    let s = extract_raw_events(Ok(Err("expected value".to_string())));
    assert!(s.stop);
    assert!(matches!(s.item, Some(Err(ProviderError::Decode(ref m))) if m == "expected value"));
    let s = extract_raw_events(Err(ProviderError::Api { status: 500, message: "x".to_string() }));
    assert!(s.stop);
    assert!(matches!(s.item, Some(Err(ProviderError::Api { status: 500, .. }))));
}

#[test]
fn one_block_per_start_of_any_kind() {
    let (out, _) = run(vec![
        tool_start(0, "a", "b"),
        RawEvent::ContentBlockStart { index: 1, content_block: ContentBlockStart::Unknown },
        text_start(2, "t"),
        RawEvent::ContentBlockStop { index: 2 },
        RawEvent::MessageStop,
    ]);
    match out.last().unwrap() {
        StreamEvent::MessageDone(r) => {
            assert_eq!(r.message.content.len(), 3);
            assert!(matches!(&r.message.content[1], Content::Text { text } if text.is_empty()));
        },
        other => panic!("unexpected {:?}", other),
    }
}

#[test]
fn tool_starts_streamed_equal_tool_uses_kept() {
    let (out, _) = run(vec![
        text_start(0, "a"),
        tool_start(1, "t1", "n"),
        json_delta(1, "{}"),
        tool_start(2, "t2", "m"),
        text_start(3, ""),
        text_delta(3, "b"),
        RawEvent::MessageStop,
    ]);
    let starts = out.iter().filter(|e| matches!(e, StreamEvent::ToolUseStart { .. })).count();
    match out.last().unwrap() {
        StreamEvent::MessageDone(r) => {
            let uses = r.message.content.iter().filter(|c| matches!(c, Content::ToolUse { .. })).count();
            assert_eq!(starts, 2);
            assert_eq!(uses, starts);
        },
        other => panic!("unexpected {:?}", other),
    }
}

#[test]
fn block_start_index_must_be_next() {
    let mut acc = Accumulator::new();
    assert!(acc.index_fits(&text_start(0, "a")));
    assert!(!acc.index_fits(&text_start(1, "a")));
    assert!(!acc.index_fits(&tool_start(3, "t", "n")));
    assert!(acc.index_fits(&RawEvent::ContentBlockStart {
        index: 7,
        content_block: ContentBlockStart::Unknown,
    }));
    assert!(acc.index_fits(&text_delta(9, "x")));
    let _ = handle_raw_events(&mut acc, Ok(text_start(0, "a")));
    assert!(acc.index_fits(&tool_start(1, "t", "n")));
    assert!(!acc.index_fits(&tool_start(0, "t", "n")));
}
