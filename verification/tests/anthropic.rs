use std::time::Duration;

use alpine::providers::anthropic::{
    blocks_to_anthropic, parse_messages_response, AnthropicProvider, MessagesRequest,
};
use alpine::providers::sse::{read_payload, try_parse_sse_frame, SseFrame, SseState, SseStep};
use alpine::transport::{reading, refusal, NetEvent, Reading};
use alpine::{
    ContentBlock, FinishReason, Message, ModelId, ProviderError, Request, Response, Role,
    StreamChunk, ToolDefinition,
};
use serde_json::Value;

fn json(text: &str) -> Value {
    serde_json::from_str(text).unwrap()
}

fn parse(text: &str, default_model: &str) -> Response {
    parse_messages_response(json(text), &ModelId::new(default_model), Duration::ZERO).unwrap()
}

// ── parse_messages_response ──────────────────────────────────────────────

#[test]
fn anthropic_parse_response_full() {
    let raw = json(
        r#"{
            "content": [
                { "type": "text", "text": "Hello!" }
            ],
            "model": "sonnet-4-20250514",
            "stop_reason": "end_turn",
            "usage": { "input_tokens": 15, "output_tokens": 8 }
        }"#,
    );
    let resp =
        parse_messages_response(raw.clone(), &ModelId::new("fallback"), Duration::from_secs(2))
            .unwrap();
    assert_eq!(resp.content, "Hello!");
    assert_eq!(resp.model.as_str(), "sonnet-4-20250514");
    assert_eq!(resp.finish_reason, FinishReason::Stop);
    assert_eq!(resp.usage.input_tokens, 15);
    assert_eq!(resp.usage.output_tokens, 8);
    assert_eq!(resp.latency, Duration::from_secs(2));
    assert_eq!(resp.raw, raw);
}

#[test]
fn parse_response_stop_sequence() {
    let resp = parse(r#"{ "stop_reason": "stop_sequence", "content": [] }"#, "f");
    assert_eq!(resp.finish_reason, FinishReason::Stop);
}

#[test]
fn parse_response_max_tokens() {
    let resp = parse(r#"{ "stop_reason": "max_tokens", "content": [] }"#, "f");
    assert_eq!(resp.finish_reason, FinishReason::MaxTokens);
}

#[test]
fn parse_response_other_stop() {
    let resp = parse(r#"{ "stop_reason": "custom", "content": [] }"#, "f");
    assert_eq!(resp.finish_reason, FinishReason::Other("custom".into()));
}

#[test]
fn parse_response_missing_stop_reason() {
    let resp = parse(r#"{ "content": [] }"#, "f");
    assert_eq!(resp.finish_reason, FinishReason::Stop); // defaults to end_turn
}

#[test]
fn parse_response_no_content() {
    let resp = parse("{}", "f");
    assert_eq!(resp.content, "");
}

#[test]
fn parse_response_mixed_blocks() {
    let resp = parse(
        r#"{
            "content": [
                { "type": "text", "text": "A" },
                { "type": "tool_use", "id": "x" },
                { "type": "text", "text": "B" }
            ]
        }"#,
        "f",
    );
    assert_eq!(resp.content, "AB");
    assert_eq!(resp.tool_calls[0].id, "x");
    assert_eq!(resp.tool_calls[0].name, "");
    assert_eq!(resp.tool_calls[0].input, Value::Null);
}

#[test]
fn parse_response_missing_model() {
    let resp = parse(r#"{ "content": [] }"#, "fallback");
    assert_eq!(resp.model.as_str(), "fallback");
}

#[test]
fn anthropic_parse_response_missing_usage() {
    let resp = parse(r#"{ "content": [] }"#, "f");
    assert_eq!(resp.usage.input_tokens, 0);
    assert_eq!(resp.usage.output_tokens, 0);
}

#[test]
fn anthropic_counts_keep_their_low_bits() {
    let resp = parse(
        r#"{ "usage": { "input_tokens": 4294967301, "output_tokens": -1 } }"#,
        "f",
    );
    assert_eq!(resp.usage.input_tokens, 5);
    assert_eq!(resp.usage.output_tokens, 0);
    let resp = parse(r#"{ "usage": { "input_tokens": 1.5, "output_tokens": "7" } }"#, "f");
    assert_eq!(resp.usage.input_tokens, 0);
    assert_eq!(resp.usage.output_tokens, 0);
}

#[test]
fn anthropic_reply_of_another_shape_is_empty() {
    for text in [r#"[]"#, r#""text""#, r#"{"content": "text"}"#, r#"{"content": {"type": "text"}}"#] {
        let resp = parse(text, "f");
        assert_eq!(resp.content, "");
        assert!(resp.tool_calls.is_empty());
        assert_eq!(resp.model.as_str(), "f");
        assert_eq!(resp.finish_reason, FinishReason::Stop);
    }
}

#[test]
fn parse_response_tool_use() {
    let resp = parse(
        r#"{
            "content": [
                { "type": "text", "text": "Let me check." },
                { "type": "tool_use", "id": "tu_9", "name": "get_weather", "input": {"city": "SF"} }
            ],
            "stop_reason": "tool_use",
            "usage": { "input_tokens": 5, "output_tokens": 3 }
        }"#,
        "f",
    );
    assert_eq!(resp.content, "Let me check.");
    assert_eq!(resp.finish_reason, FinishReason::ToolUse);
    assert_eq!(resp.tool_calls.len(), 1);
    assert_eq!(resp.tool_calls[0].id, "tu_9");
    assert_eq!(resp.tool_calls[0].name, "get_weather");
    assert_eq!(resp.tool_calls[0].input["city"], "SF");
}

#[test]
fn parse_response_no_tool_calls_when_text_only() {
    let resp = parse(
        r#"{
            "content": [{ "type": "text", "text": "hi" }],
            "stop_reason": "end_turn"
        }"#,
        "f",
    );
    assert!(resp.tool_calls.is_empty());
}

#[test]
fn written_blocks_are_read_back() {
    let blocks = vec![
        ContentBlock::text("a"),
        ContentBlock::ToolUse {
            id: "1".into(),
            name: "x".into(),
            input: json(r#"{"deep": [{"n": 1}]}"#),
        },
        ContentBlock::ToolResult {
            tool_use_id: "0".into(),
            content: "ignored".into(),
            is_error: true,
        },
        ContentBlock::text("b"),
    ];
    let mut raw = json("{}");
    raw["content"] = blocks_to_anthropic(&blocks);
    let resp =
        parse_messages_response(raw, &ModelId::new("f"), Duration::ZERO).unwrap();
    assert_eq!(resp.content, "ab");
    assert_eq!(resp.tool_calls.len(), 1);
    assert_eq!(resp.tool_calls[0].id, "1");
    assert_eq!(resp.tool_calls[0].name, "x");
    assert_eq!(resp.tool_calls[0].input, json(r#"{"deep": [{"n": 1}]}"#));
}

// ── try_parse_sse_frame ──────────────────────────────────────────────────

#[test]
fn sse_incomplete_frame() {
    let mut buf = "event: ping\ndata: {}\n".to_string(); // no \n\n
    let original_len = buf.len();
    assert!(try_parse_sse_frame(&mut buf).is_none());
    assert_eq!(buf.len(), original_len); // buffer not drained
}

#[test]
fn sse_content_block_delta() {
    let mut buf =
        "event: content_block_delta\ndata: {\"delta\":{\"text\":\"hi\"}}\n\n".to_string();
    match try_parse_sse_frame(&mut buf) {
        Some(SseFrame::Chunk(StreamChunk::Delta(t))) => assert_eq!(t, "hi"),
        other => panic!("expected Chunk(Delta), got {other:?}"),
    }
    assert!(buf.is_empty());
}

#[test]
fn sse_content_block_delta_empty_text() {
    let mut buf = "event: content_block_delta\ndata: {\"delta\":{\"text\":\"\"}}\n\n".to_string();
    match try_parse_sse_frame(&mut buf) {
        Some(SseFrame::Skip) => {}
        other => panic!("expected Skip, got {other:?}"),
    }
}

#[test]
fn sse_message_delta() {
    let mut buf = "event: message_delta\ndata: {\"usage\":{\"output_tokens\":42}}\n\n".to_string();
    match try_parse_sse_frame(&mut buf) {
        Some(SseFrame::Done(Some(usage))) => {
            assert_eq!(usage.input_tokens, 0);
            assert_eq!(usage.output_tokens, 42);
        }
        other => panic!("expected Done, got {other:?}"),
    }
}

#[test]
fn sse_message_stop() {
    let mut buf = "event: message_stop\ndata: {}\n\n".to_string();
    match try_parse_sse_frame(&mut buf) {
        Some(SseFrame::Skip) => {}
        other => panic!("expected Skip, got {other:?}"),
    }
}

#[test]
fn sse_message_start() {
    let mut buf = "event: message_start\ndata: {}\n\n".to_string();
    match try_parse_sse_frame(&mut buf) {
        Some(SseFrame::Skip) => {}
        other => panic!("expected Skip, got {other:?}"),
    }
}

#[test]
fn sse_content_block_start() {
    let mut buf = "event: content_block_start\ndata: {}\n\n".to_string();
    match try_parse_sse_frame(&mut buf) {
        Some(SseFrame::Skip) => {}
        other => panic!("expected Skip, got {other:?}"),
    }
}

#[test]
fn sse_content_block_stop() {
    let mut buf = "event: content_block_stop\ndata: {}\n\n".to_string();
    match try_parse_sse_frame(&mut buf) {
        Some(SseFrame::Skip) => {}
        other => panic!("expected Skip, got {other:?}"),
    }
}

#[test]
fn sse_ping() {
    let mut buf = "event: ping\ndata: {}\n\n".to_string();
    match try_parse_sse_frame(&mut buf) {
        Some(SseFrame::Skip) => {}
        other => panic!("expected Skip, got {other:?}"),
    }
}

#[test]
fn sse_error_event() {
    let mut buf = "event: error\ndata: {\"error\":{\"message\":\"overloaded\"}}\n\n".to_string();
    match try_parse_sse_frame(&mut buf) {
        Some(SseFrame::Chunk(StreamChunk::Error(msg))) => assert_eq!(msg, "overloaded"),
        other => panic!("expected Error chunk, got {other:?}"),
    }
}

#[test]
fn sse_error_no_message() {
    let mut buf = "event: error\ndata: {\"error\":{}}\n\n".to_string();
    match try_parse_sse_frame(&mut buf) {
        Some(SseFrame::Chunk(StreamChunk::Error(msg))) => assert_eq!(msg, "unknown error"),
        other => panic!("expected Error chunk with unknown, got {other:?}"),
    }
}

#[test]
fn sse_unknown_event() {
    let mut buf = "event: custom_thing\ndata: {}\n\n".to_string();
    match try_parse_sse_frame(&mut buf) {
        Some(SseFrame::Skip) => {}
        other => panic!("expected Skip, got {other:?}"),
    }
}

#[test]
fn sse_no_space_after_colon() {
    let mut buf = "event:content_block_delta\ndata:{\"delta\":{\"text\":\"x\"}}\n\n".to_string();
    match try_parse_sse_frame(&mut buf) {
        Some(SseFrame::Chunk(StreamChunk::Delta(t))) => assert_eq!(t, "x"),
        other => panic!("expected Delta, got {other:?}"),
    }
}

#[test]
fn sse_invalid_json_returns_none() {
    let mut buf = "event: content_block_delta\ndata: not-json\n\n".to_string();
    // the data does not parse
    assert!(try_parse_sse_frame(&mut buf).is_none());
    assert!(buf.is_empty());
}

#[test]
fn sse_drains_buffer() {
    let mut buf = "event: ping\ndata: {}\n\nevent: message_stop\ndata: {}\n\n".to_string();
    try_parse_sse_frame(&mut buf); // consume first frame
    assert!(buf.starts_with("event: message_stop"));
    try_parse_sse_frame(&mut buf); // consume second frame
    assert!(buf.is_empty());
}

#[test]
fn sse_data_over_several_lines_and_carriage_returns() {
    let mut buf =
        "event: content_block_delta\r\ndata: {\"delta\":\r\ndata: {\"text\":\"hé\"}}\n\nrest"
            .to_string();
    match try_parse_sse_frame(&mut buf) {
        Some(SseFrame::Chunk(StreamChunk::Delta(t))) => assert_eq!(t, "hé"),
        other => panic!("expected Delta, got {other:?}"),
    }
    assert_eq!(buf, "rest");
}

#[test]
fn payload_of_each_event() {
    assert!(matches!(
        read_payload("content_block_delta", &json(r#"{"delta":{"text":"t"}}"#)),
        SseFrame::Chunk(StreamChunk::Delta(t)) if t == "t"
    ));
    assert!(matches!(
        read_payload("message_delta", &json("{}")),
        SseFrame::Done(Some(u)) if u.output_tokens == 0
    ));
    assert!(matches!(
        read_payload("error", &json("[]")),
        SseFrame::Chunk(StreamChunk::Error(m)) if m == "unknown error"
    ));
    assert!(matches!(read_payload("ping", &json("{}")), SseFrame::Skip));
}

// ── The stream ───────────────────────────────────────────────────────────

/// Runs a stream on the pieces of a body, and collects the chunks.
fn run_stream(pieces: Vec<NetEvent>) -> Vec<StreamChunk> {
    let mut state = SseState::new();
    let mut events = pieces.into_iter();
    let mut chunks = Vec::new();
    loop {
        match state.poll() {
            SseStep::Emit(chunk) => chunks.push(chunk),
            SseStep::End => return chunks,
            SseStep::Await => {
                let event = events.next().unwrap_or(NetEvent::Ended);
                if let Some(chunk) = state.feed(event) {
                    chunks.push(chunk);
                }
            }
        }
    }
}

fn bytes(text: &str) -> NetEvent {
    NetEvent::Bytes(text.as_bytes().to_vec())
}

fn sse_body() -> String {
    [
        "event: message_start\ndata: {\"type\":\"message_start\"}\n\n",
        "event: content_block_start\ndata: {\"type\":\"content_block_start\"}\n\n",
        "event: content_block_delta\ndata: {\"delta\":{\"text\":\"Hello\"}}\n\n",
        "event: content_block_delta\ndata: {\"delta\":{\"text\":\" world\"}}\n\n",
        "event: content_block_stop\ndata: {\"type\":\"content_block_stop\"}\n\n",
        "event: message_delta\ndata: {\"usage\":{\"output_tokens\":5}}\n\n",
        "event: message_stop\ndata: {}\n\n",
    ]
    .join("")
}

#[test]
fn anthropic_stream_success() {
    let mut text = String::new();
    let mut got_done = false;
    for chunk in run_stream(vec![bytes(&sse_body())]) {
        match chunk {
            StreamChunk::Delta(t) => text.push_str(&t),
            StreamChunk::Done { usage } => {
                got_done = true;
                let u = usage.unwrap();
                assert_eq!(u.output_tokens, 5);
            }
            StreamChunk::Error(e) => panic!("unexpected error: {e}"),
        }
    }
    assert_eq!(text, "Hello world");
    assert!(got_done);
}

#[test]
fn stream_is_the_same_however_the_body_is_cut() {
    let body = sse_body();
    let whole = format!("{:?}", run_stream(vec![bytes(&body)]));
    for cut in 0..=body.len() {
        let pieces = vec![bytes(&body[..cut]), bytes(&body[cut..])];
        assert_eq!(format!("{:?}", run_stream(pieces)), whole);
    }
    let single = body.chars().map(|c| bytes(&c.to_string())).collect();
    assert_eq!(format!("{:?}", run_stream(single)), whole);
}

#[test]
fn stream_ends_without_stop() {
    // Stream with content but no message_stop/message_delta
    let chunks = run_stream(vec![bytes(
        "event: content_block_delta\ndata: {\"delta\":{\"text\":\"hi\"}}\n\n",
    )]);

    // Should get Delta("hi") then Done { usage: None } from stream end
    assert!(chunks.len() >= 2);
    match &chunks[0] {
        StreamChunk::Delta(t) => assert_eq!(t, "hi"),
        other => panic!("expected Delta, got {other:?}"),
    }
    // Last chunk should be Done
    match chunks.last().unwrap() {
        StreamChunk::Done { usage } => assert!(usage.is_none()),
        other => panic!("expected Done, got {other:?}"),
    }
}

#[test]
fn stream_stops_at_a_failure() {
    let chunks = run_stream(vec![NetEvent::Failed("reset".into()), bytes(&sse_body())]);
    assert_eq!(chunks.len(), 1);
    assert!(matches!(&chunks[0], StreamChunk::Error(m) if m == "reset"));
}

#[test]
fn stream_stops_at_invalid_utf8() {
    let broken = vec![0x61, 0xff];
    let message = std::str::from_utf8(&broken).unwrap_err().to_string();
    let chunks = run_stream(vec![NetEvent::Bytes(broken), bytes(&sse_body())]);
    assert_eq!(chunks.len(), 1);
    assert!(matches!(&chunks[0], StreamChunk::Error(m) if *m == message));
}

#[test]
fn stream_goes_on_after_an_error_event() {
    let chunks = run_stream(vec![bytes(
        "event: error\ndata: {\"error\":{\"message\":\"overloaded\"}}\n\n\
         event: content_block_delta\ndata: {\"delta\":{\"text\":\"hi\"}}\n\n",
    )]);
    assert_eq!(chunks.len(), 3);
    assert!(matches!(&chunks[0], StreamChunk::Error(m) if m == "overloaded"));
    assert!(matches!(&chunks[1], StreamChunk::Delta(t) if t == "hi"));
    assert!(matches!(&chunks[2], StreamChunk::Done { usage: None }));
}

#[test]
fn a_frame_that_is_not_json_makes_the_stream_wait() {
    let mut state = SseState::new();
    assert!(state
        .feed(bytes(
            "event: error\ndata: not-json\n\nevent: content_block_delta\ndata: {\"delta\":{\"text\":\"hi\"}}\n\n",
        ))
        .is_none());
    assert!(matches!(state.poll(), SseStep::Await));
    assert!(matches!(state.poll(), SseStep::Emit(StreamChunk::Delta(t)) if t == "hi"));
}

// ── MessagesRequest::from_request ────────────────────────────────────────

#[test]
fn msg_request_default_model() {
    let req = Request::default();
    let mr = MessagesRequest::from_request(&req, &ModelId::new("sonnet-3"), false);
    assert_eq!(mr.model, "sonnet-3");
}

#[test]
fn msg_request_explicit_model() {
    let req = Request {
        model: ModelId::new("opus"),
        ..Default::default()
    };
    let mr = MessagesRequest::from_request(&req, &ModelId::new("sonnet-3"), false);
    assert_eq!(mr.model, "opus");
}

#[test]
fn msg_request_max_tokens_default() {
    let req = Request::default();
    let mr = MessagesRequest::from_request(&req, &ModelId::new("m"), false);
    assert_eq!(mr.max_tokens, 4096);
}

#[test]
fn msg_request_max_tokens_explicit() {
    let req = Request {
        max_tokens: Some(1000),
        ..Default::default()
    };
    let mr = MessagesRequest::from_request(&req, &ModelId::new("m"), false);
    assert_eq!(mr.max_tokens, 1000);
}

#[test]
fn msg_request_system_combined() {
    let req = Request {
        system: Some("A".into()),
        messages: vec![Message::system("B"), Message::user("hi")],
        ..Default::default()
    };
    let mr = MessagesRequest::from_request(&req, &ModelId::new("m"), false);
    assert_eq!(mr.system, Some("A\nB".into()));
    // System message should NOT appear in messages array
    assert_eq!(mr.messages.len(), 1);
    assert_eq!(mr.messages[0].role, "user");
}

#[test]
fn msg_request_no_system() {
    let req = Request {
        messages: vec![Message::user("hi")],
        ..Default::default()
    };
    let mr = MessagesRequest::from_request(&req, &ModelId::new("m"), false);
    assert!(mr.system.is_none());
}

#[test]
fn msg_request_system_messages_filtered() {
    let req = Request {
        messages: vec![
            Message::system("sys"),
            Message::user("usr"),
            Message::assistant("ast"),
        ],
        ..Default::default()
    };
    let mr = MessagesRequest::from_request(&req, &ModelId::new("m"), false);
    assert_eq!(mr.messages.len(), 2);
    assert_eq!(mr.messages[0].role, "user");
    assert_eq!(mr.messages[1].role, "assistant");
    assert_eq!(mr.system, Some("sys".into()));
}

#[test]
fn msg_request_stream_flag() {
    let req = Request::default();
    assert!(MessagesRequest::from_request(&req, &ModelId::new("m"), true).stream);
    assert!(!MessagesRequest::from_request(&req, &ModelId::new("m"), false).stream);
}

// ── The body as JSON ─────────────────────────────────────────────────────

#[test]
fn msg_request_serializes_tools() {
    let req = Request {
        tools: vec![ToolDefinition::new(
            "get_weather",
            "Get weather",
            json(r#"{"type": "object", "properties": {"city": {"type": "string"}}}"#),
        )],
        messages: vec![Message::user("hi")],
        ..Default::default()
    };
    let mr = MessagesRequest::from_request(&req, &ModelId::new("m"), false);
    let body = mr.to_value();
    assert_eq!(body["tools"][0]["name"], "get_weather");
    assert_eq!(body["tools"][0]["description"], "Get weather");
    assert_eq!(body["tools"][0]["input_schema"]["type"], "object");
    // User message content is serialized as a block array.
    assert_eq!(body["messages"][0]["content"][0]["type"], "text");
    assert_eq!(body["messages"][0]["content"][0]["text"], "hi");
}

#[test]
fn msg_request_no_tools_field_when_empty() {
    let req = Request::default();
    let mr = MessagesRequest::from_request(&req, &ModelId::new("m"), false);
    let body = mr.to_value();
    assert!(body.get("tools").is_none());
    assert!(body.get("system").is_none());
    assert!(body.get("temperature").is_none());
    assert!(body.get("stop_sequences").is_none());
}

#[test]
fn msg_request_serializes_tool_result_block() {
    let req = Request {
        messages: vec![Message::tool_result("tu_1", "42", false)],
        ..Default::default()
    };
    let mr = MessagesRequest::from_request(&req, &ModelId::new("m"), false);
    let body = mr.to_value();
    let block = &body["messages"][0]["content"][0];
    assert_eq!(block["type"], "tool_result");
    assert_eq!(block["tool_use_id"], "tu_1");
    assert_eq!(block["content"], "42");
    assert!(block.get("is_error").is_none());
}

#[test]
fn msg_request_body_in_full() {
    let req = Request {
        messages: vec![
            Message::user("hi"),
            Message::new(
                Role::Assistant,
                vec![ContentBlock::ToolUse {
                    id: "t".into(),
                    name: "n".into(),
                    input: json(r#"{"a": 1}"#),
                }],
            ),
            Message::tool_result("t", "failed", true),
        ],
        max_tokens: Some(9),
        temperature: Some(json("0.5")),
        system: Some("sys".into()),
        stop: vec!["END".into()],
        ..Default::default()
    };
    let body = MessagesRequest::from_request(&req, &ModelId::new("m"), true).to_value();
    assert_eq!(
        body,
        json(
            r#"{
                "model": "m",
                "messages": [
                    {"role": "user", "content": [{"type": "text", "text": "hi"}]},
                    {"role": "assistant", "content": [
                        {"type": "tool_use", "id": "t", "name": "n", "input": {"a": 1}}
                    ]},
                    {"role": "user", "content": [
                        {"type": "tool_result", "tool_use_id": "t", "content": "failed",
                         "is_error": true}
                    ]}
                ],
                "max_tokens": 9,
                "system": "sys",
                "temperature": 0.5,
                "stop_sequences": ["END"],
                "stream": true
            }"#
        )
    );
}

// ── Provider ─────────────────────────────────────────────────────────────

#[test]
fn new_default_base_url() {
    let p = AnthropicProvider::new("key", "model");
    assert_eq!(p.base_url(), "https://api.anthropic.com");
}

#[test]
fn anthropic_with_base_url_trims_slash() {
    let p = AnthropicProvider::with_base_url("k", "m", "http://host/");
    assert_eq!(p.base_url(), "http://host");
}

#[test]
fn anthropic_model_id_returns_configured() {
    let p = AnthropicProvider::new("key", "sonnet-3");
    assert_eq!(p.model_id().as_str(), "sonnet-3");
}

#[test]
fn anthropic_complete_success() {
    let provider =
        AnthropicProvider::with_base_url("test-key", "sonnet-4-20250514", "http://host/");
    let http = provider.http_request(
        &Request {
            messages: vec![Message::user("hi")],
            ..Default::default()
        },
        false,
    );
    assert_eq!(http.url, "http://host/v1/messages");
    assert_eq!(
        http.headers,
        vec![
            ("x-api-key".to_string(), "test-key".to_string()),
            ("anthropic-version".to_string(), "2023-06-01".to_string()),
            ("content-type".to_string(), "application/json".to_string()),
        ]
    );
    assert_eq!(http.body["model"], "sonnet-4-20250514");
    assert_eq!(http.body["stream"], false);

    assert_eq!(reading(200), Reading::Answer);
    let resp = provider
        .read_answer(
            json(
                r#"{
                    "id": "msg_123",
                    "type": "message",
                    "role": "assistant",
                    "content": [{ "type": "text", "text": "Hello!" }],
                    "model": "sonnet-4-20250514",
                    "stop_reason": "end_turn",
                    "usage": { "input_tokens": 12, "output_tokens": 6 }
                }"#,
            ),
            Duration::from_millis(3),
        )
        .unwrap();
    assert_eq!(resp.content, "Hello!");
    assert_eq!(resp.usage.input_tokens, 12);
    assert_eq!(resp.usage.output_tokens, 6);
    assert_eq!(resp.model.as_str(), "sonnet-4-20250514");
    assert!(resp.latency > Duration::ZERO);
}

#[test]
fn anthropic_complete_api_error() {
    assert_eq!(reading(429), Reading::Refusal);
    match refusal(429, Some("rate limited".into())) {
        ProviderError::Api { status, message } => {
            assert_eq!(status, 429);
            assert!(message.contains("rate limited"));
        }
        other => panic!("expected Api error, got {}", other.to_string()),
    }
}

#[test]
fn anthropic_stream_api_error() {
    let provider = AnthropicProvider::with_base_url("key", "model", "http://host");
    assert_eq!(provider.http_request(&Request::default(), true).body["stream"], true);
    assert_eq!(reading(500), Reading::Refusal);
    match refusal(500, Some("server error".into())) {
        ProviderError::Api { status, message } => {
            assert_eq!(status, 500);
            assert_eq!(message, "server error");
        }
        other => panic!("expected Api error, got {}", other.to_string()),
    }
}

#[test]
fn only_statuses_from_200_up_to_299_succeed() {
    for status in 0..=999u16 {
        let expected = if (200..300).contains(&status) {
            Reading::Answer
        } else {
            Reading::Refusal
        };
        assert_eq!(reading(status), expected);
    }
}
