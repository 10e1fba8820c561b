use std::time::Duration;

use alpine::providers::anthropic::MessagesRequest;
use alpine::providers::ollama::{
    parse_chat_response, parse_stream_chunk, read_document, ChatRequest, OllamaProvider,
};
use alpine::transport::{reading, refusal, NetEvent, Reading};
use alpine::{
    ContentBlock, EmbedRequest, FinishReason, Message, ModelId, ProviderError, Request, Response,
    Role, StreamChunk,
};
use serde_json::Value;

fn json(text: &str) -> Value {
    serde_json::from_str(text).unwrap()
}

fn parse(text: &str, default_model: &str) -> Response {
    parse_chat_response(json(text), &ModelId::new(default_model), Duration::ZERO).unwrap()
}

// ── parse_chat_response ──────────────────────────────────────────────────

#[test]
fn ollama_parse_response_full() {
    let raw = json(
        r#"{
            "model": "llama3.2",
            "message": { "content": "hello world" },
            "done_reason": "stop",
            "prompt_eval_count": 10,
            "eval_count": 20
        }"#,
    );
    let resp =
        parse_chat_response(raw.clone(), &ModelId::new("fallback"), Duration::from_secs(1))
            .unwrap();
    assert_eq!(resp.content, "hello world");
    assert_eq!(resp.model.as_str(), "llama3.2");
    assert_eq!(resp.finish_reason, FinishReason::Stop);
    assert_eq!(resp.usage.input_tokens, 10);
    assert_eq!(resp.usage.output_tokens, 20);
    assert_eq!(resp.latency, Duration::from_secs(1));
    assert_eq!(resp.raw, raw);
    assert!(resp.tool_calls.is_empty());
}

#[test]
fn parse_response_missing_content() {
    let resp = parse(r#"{ "done_reason": "stop" }"#, "f");
    assert_eq!(resp.content, "");
}

#[test]
fn parse_response_done_reason_length() {
    let resp = parse(r#"{ "done_reason": "length" }"#, "f");
    assert_eq!(resp.finish_reason, FinishReason::MaxTokens);
}

#[test]
fn parse_response_done_reason_other() {
    let resp = parse(r#"{ "done_reason": "custom_thing" }"#, "f");
    assert_eq!(resp.finish_reason, FinishReason::Other("custom_thing".into()));
}

#[test]
fn parse_response_missing_done_reason() {
    let resp = parse("{}", "f");
    assert_eq!(resp.finish_reason, FinishReason::Stop);
}

#[test]
fn parse_response_missing_model_uses_default() {
    let resp = parse("{}", "fallback");
    assert_eq!(resp.model.as_str(), "fallback");
}

#[test]
fn ollama_parse_response_missing_usage() {
    let resp = parse("{}", "f");
    assert_eq!(resp.usage.input_tokens, 0);
    assert_eq!(resp.usage.output_tokens, 0);
}

#[test]
fn ollama_counts_keep_their_low_bits() {
    let resp = parse(r#"{ "prompt_eval_count": 4294967297, "eval_count": 4294967295 }"#, "f");
    assert_eq!(resp.usage.input_tokens, 1);
    assert_eq!(resp.usage.output_tokens, 4294967295);
}

// ── parse_stream_chunk ───────────────────────────────────────────────────

#[test]
fn stream_chunk_delta() {
    let data = br#"{"done":false,"message":{"content":"hi"}}"#;
    match parse_stream_chunk(data) {
        StreamChunk::Delta(t) => assert_eq!(t, "hi"),
        other => panic!("expected Delta, got {other:?}"),
    }
}

#[test]
fn stream_chunk_done() {
    let data = br#"{"done":true,"prompt_eval_count":5,"eval_count":10}"#;
    match parse_stream_chunk(data) {
        StreamChunk::Done { usage } => {
            let u = usage.unwrap();
            assert_eq!(u.input_tokens, 5);
            assert_eq!(u.output_tokens, 10);
        }
        other => panic!("expected Done, got {other:?}"),
    }
}

#[test]
fn stream_chunk_empty_delta() {
    let data = br#"{"done":false,"message":{"content":""}}"#;
    // empty delta falls through the loop, returns Delta("")
    match parse_stream_chunk(data) {
        StreamChunk::Delta(t) => assert_eq!(t, ""),
        other => panic!("expected empty Delta, got {other:?}"),
    }
}

#[test]
fn stream_chunk_invalid_utf8() {
    let data: &[u8] = &[0xff, 0xfe, 0xfd];
    let message = std::str::from_utf8(data).unwrap_err().to_string();
    match parse_stream_chunk(data) {
        StreamChunk::Error(m) => assert_eq!(m, message),
        other => panic!("expected Error, got {other:?}"),
    }
}

#[test]
fn stream_chunk_invalid_json() {
    let data = b"not valid json";
    let message = serde_json::from_str::<Value>("not valid json").unwrap_err().to_string();
    match parse_stream_chunk(data) {
        StreamChunk::Error(m) => assert_eq!(m, message),
        other => panic!("expected Error, got {other:?}"),
    }
}

#[test]
fn stream_chunk_empty_input() {
    match parse_stream_chunk(b"") {
        StreamChunk::Delta(t) => assert_eq!(t, ""),
        other => panic!("expected empty Delta, got {other:?}"),
    }
}

#[test]
fn stream_chunk_multiline_skips_blanks() {
    let data = b"\n\n{\"done\":false,\"message\":{\"content\":\"ok\"}}\n\n";
    match parse_stream_chunk(data) {
        StreamChunk::Delta(t) => assert_eq!(t, "ok"),
        other => panic!("expected Delta(ok), got {other:?}"),
    }
}

#[test]
fn stream_chunk_first_document_that_says_something() {
    let data = "\t\r\n {\"message\":{\"content\":\"\"}}\u{3000}\r\n{\"message\":{\"content\":\"a\"}}\n{\"done\":true}";
    match parse_stream_chunk(data.as_bytes()) {
        StreamChunk::Delta(t) => assert_eq!(t, "a"),
        other => panic!("expected Delta(a), got {other:?}"),
    }
    // A broken document behind the first that says something is not looked at.
    let data = b"{\"message\":{\"content\":\"a\"}}\nbroken";
    match parse_stream_chunk(data) {
        StreamChunk::Delta(t) => assert_eq!(t, "a"),
        other => panic!("expected Delta(a), got {other:?}"),
    }
    let data = b"{\"message\":{\"content\":\"\"}}\nbroken";
    match parse_stream_chunk(data) {
        StreamChunk::Error(_) => {}
        other => panic!("expected Error, got {other:?}"),
    }
}

#[test]
fn document_with_done_that_is_not_true() {
    assert!(read_document(&json(r#"{"done": "true"}"#)).is_none());
    assert!(read_document(&json(r#"{"done": 1}"#)).is_none());
    assert!(matches!(
        read_document(&json(r#"{"done": true, "message": {"content": "x"}}"#)),
        Some(StreamChunk::Done { usage: Some(u) }) if u.input_tokens == 0 && u.output_tokens == 0
    ));
}

// ── ChatRequest::from_request ────────────────────────────────────────────

#[test]
fn chat_request_default_model() {
    let req = Request::default(); // model is "default"
    let cr = ChatRequest::from_request(&req, &ModelId::new("llama3.2"), false);
    assert_eq!(cr.model, "llama3.2");
}

#[test]
fn chat_request_explicit_model() {
    let req = Request {
        model: ModelId::new("mistral"),
        ..Default::default()
    };
    let cr = ChatRequest::from_request(&req, &ModelId::new("llama3.2"), false);
    assert_eq!(cr.model, "mistral");
}

#[test]
fn chat_request_with_system() {
    let req = Request {
        system: Some("you are helpful".into()),
        messages: vec![Message::user("hi")],
        ..Default::default()
    };
    let cr = ChatRequest::from_request(&req, &ModelId::new("m"), false);
    assert_eq!(cr.messages.len(), 2);
    assert_eq!(cr.messages[0].role, "system");
    assert_eq!(cr.messages[0].content, "you are helpful");
    assert_eq!(cr.messages[1].role, "user");
}

#[test]
fn chat_request_no_system() {
    let req = Request {
        messages: vec![Message::user("hi")],
        ..Default::default()
    };
    let cr = ChatRequest::from_request(&req, &ModelId::new("m"), false);
    assert_eq!(cr.messages.len(), 1);
    assert_eq!(cr.messages[0].role, "user");
}

#[test]
fn chat_request_message_roles() {
    let req = Request {
        messages: vec![
            Message::system("sys"),
            Message::user("usr"),
            Message::assistant("ast"),
        ],
        ..Default::default()
    };
    let cr = ChatRequest::from_request(&req, &ModelId::new("m"), false);
    assert_eq!(cr.messages[0].role, "system");
    assert_eq!(cr.messages[1].role, "user");
    assert_eq!(cr.messages[2].role, "assistant");
}

#[test]
fn chat_request_message_content_is_the_text() {
    let req = Request {
        messages: vec![Message::new(
            Role::User,
            vec![
                ContentBlock::text("a"),
                ContentBlock::ToolResult {
                    tool_use_id: "t".into(),
                    content: "c".into(),
                    is_error: false,
                },
                ContentBlock::text("b"),
            ],
        )],
        ..Default::default()
    };
    let cr = ChatRequest::from_request(&req, &ModelId::new("m"), false);
    assert_eq!(cr.messages[0].content, "ab");
}

#[test]
fn chat_request_options_populated() {
    let req = Request {
        temperature: Some(Value::from(0.7)),
        max_tokens: Some(100),
        stop: vec!["END".into()],
        ..Default::default()
    };
    let cr = ChatRequest::from_request(&req, &ModelId::new("m"), false);
    let opts = cr.options.unwrap();
    assert_eq!(opts.temperature, Some(Value::from(0.7)));
    assert_eq!(opts.num_predict, Some(100));
    assert_eq!(opts.stop, vec!["END"]);
}

#[test]
fn chat_request_options_none_when_empty() {
    let req = Request::default();
    let cr = ChatRequest::from_request(&req, &ModelId::new("m"), false);
    assert!(cr.options.is_none());
}

#[test]
fn chat_request_stream_flag() {
    let req = Request::default();
    assert!(ChatRequest::from_request(&req, &ModelId::new("m"), true).stream);
    assert!(!ChatRequest::from_request(&req, &ModelId::new("m"), false).stream);
}

#[test]
fn chat_request_body_in_full() {
    let req = Request {
        messages: vec![Message::user("hi")],
        max_tokens: Some(9),
        system: Some("sys".into()),
        ..Default::default()
    };
    let body = ChatRequest::from_request(&req, &ModelId::new("m"), true).to_value();
    assert_eq!(
        body,
        json(
            r#"{
                "model": "m",
                "messages": [
                    {"role": "system", "content": "sys"},
                    {"role": "user", "content": "hi"}
                ],
                "stream": true,
                "options": {"num_predict": 9}
            }"#
        )
    );
    let req = Request {
        temperature: Some(json("0.5")),
        stop: vec!["A".into(), "B".into()],
        ..Default::default()
    };
    let body = ChatRequest::from_request(&req, &ModelId::new("m"), false).to_value();
    assert_eq!(
        body,
        json(
            r#"{"model": "m", "messages": [], "stream": false,
                "options": {"temperature": 0.5, "stop": ["A", "B"]}}"#
        )
    );
    let body = ChatRequest::from_request(&Request::default(), &ModelId::new("m"), false).to_value();
    assert_eq!(body, json(r#"{"model": "m", "messages": [], "stream": false}"#));
}

// ── Provider ─────────────────────────────────────────────────────────────

#[test]
fn new_default_url() {
    let p = OllamaProvider::new("llama3");
    assert_eq!(p.base_url(), "http://localhost:11434");
}

#[test]
fn ollama_with_base_url_trims_slash() {
    let p = OllamaProvider::with_base_url("m", "http://host:1234/");
    assert_eq!(p.base_url(), "http://host:1234");
}

#[test]
fn with_base_url_trims_every_slash() {
    let p = OllamaProvider::with_base_url("m", "http://host:1234/a///");
    assert_eq!(p.base_url(), "http://host:1234/a");
    let p = OllamaProvider::with_base_url("m", "///");
    assert_eq!(p.base_url(), "");
}

#[test]
fn ollama_model_id_returns_configured() {
    let p = OllamaProvider::new("llama3.2");
    assert_eq!(p.model_id().as_str(), "llama3.2");
}

#[test]
fn ollama_complete_success() {
    let provider = OllamaProvider::with_base_url("llama3.2", "http://host");
    let http = provider.http_request(
        &Request {
            messages: vec![Message::user("hi")],
            ..Default::default()
        },
        false,
    );
    assert_eq!(http.url, "http://host/api/chat");
    assert!(http.headers.is_empty());
    assert_eq!(http.body["model"], "llama3.2");
    assert_eq!(http.body["messages"][0]["content"], "hi");
    assert_eq!(http.body["stream"], false);

    assert_eq!(reading(200), Reading::Answer);
    let resp = provider
        .read_answer(
            json(
                r#"{
                    "model": "llama3.2",
                    "message": { "role": "assistant", "content": "Hello!" },
                    "done": true,
                    "done_reason": "stop",
                    "prompt_eval_count": 8,
                    "eval_count": 12
                }"#,
            ),
            Duration::from_millis(1),
        )
        .unwrap();
    assert_eq!(resp.content, "Hello!");
    assert_eq!(resp.usage.input_tokens, 8);
    assert_eq!(resp.usage.output_tokens, 12);
    assert!(resp.latency > Duration::ZERO);
}

#[test]
fn ollama_complete_api_error() {
    assert_eq!(reading(500), Reading::Refusal);
    match refusal(500, Some("internal error".into())) {
        ProviderError::Api { status, message } => {
            assert_eq!(status, 500);
            assert!(message.contains("internal error"));
        }
        other => panic!("expected Api error, got {}", other.to_string()),
    }
}

/// Runs a stream on the pieces of a body, and collects the chunks.
fn run_stream(provider: &OllamaProvider, pieces: Vec<NetEvent>) -> Vec<StreamChunk> {
    let mut chunks = Vec::new();
    for event in pieces {
        match provider.stream_chunk(event) {
            Some(chunk) => chunks.push(chunk),
            None => return chunks,
        }
    }
    chunks
}

#[test]
fn ollama_stream_success() {
    let body = r#"{"done":true,"prompt_eval_count":3,"eval_count":1}"#;
    let provider = OllamaProvider::with_base_url("llama3.2", "http://host");
    let http = provider.http_request(
        &Request {
            messages: vec![Message::user("hi")],
            ..Default::default()
        },
        true,
    );
    assert_eq!(http.body["stream"], true);

    let mut got_done = false;
    for chunk in run_stream(&provider, vec![NetEvent::Bytes(body.into()), NetEvent::Ended]) {
        match chunk {
            StreamChunk::Done { usage } => {
                got_done = true;
                let u = usage.unwrap();
                assert_eq!(u.input_tokens, 3);
                assert_eq!(u.output_tokens, 1);
            }
            _ => {}
        }
    }
    assert!(got_done);
}

#[test]
fn stream_delta() {
    let body = r#"{"done":false,"message":{"content":"Hello"}}"#;
    let provider = OllamaProvider::with_base_url("llama3.2", "http://host");
    let mut got_delta = false;
    for chunk in run_stream(&provider, vec![NetEvent::Bytes(body.into()), NetEvent::Ended]) {
        match chunk {
            StreamChunk::Delta(t) if t == "Hello" => got_delta = true,
            _ => {}
        }
    }
    assert!(got_delta);
}

#[test]
fn ollama_stream_goes_on_after_a_failure() {
    let provider = OllamaProvider::new("m");
    let chunks = run_stream(
        &provider,
        vec![
            NetEvent::Failed("reset".into()),
            NetEvent::Bytes(br#"{"message":{"content":"x"}}"#.to_vec()),
            NetEvent::Ended,
        ],
    );
    assert_eq!(chunks.len(), 2);
    assert!(matches!(&chunks[0], StreamChunk::Error(m) if m == "reset"));
    assert!(matches!(&chunks[1], StreamChunk::Delta(t) if t == "x"));
}

#[test]
fn ollama_stream_api_error() {
    assert_eq!(reading(400), Reading::Refusal);
    match refusal(400, Some("bad request".into())) {
        ProviderError::Api { status, .. } => assert_eq!(status, 400),
        other => panic!("expected Api error, got {}", other.to_string()),
    }
}

#[test]
fn embed_success() {
    let provider = OllamaProvider::with_base_url("nomic", "http://host");
    let req = EmbedRequest {
        model: ModelId::new("nomic"),
        input: vec!["hello".into(), "world".into()],
    };
    let http = provider.embed_request(&req);
    assert_eq!(http.url, "http://host/api/embed");
    assert!(http.headers.is_empty());
    assert_eq!(http.body, json(r#"{"model": "nomic", "input": ["hello", "world"]}"#));

    let vectors = vec![
        vec![0.1f32.to_bits(), 0.2f32.to_bits(), 0.3f32.to_bits()],
        vec![0.4f32.to_bits(), 0.5f32.to_bits(), 0.6f32.to_bits()],
    ];
    let emb = provider.embedding(&req, vectors);
    assert_eq!(emb.vectors.len(), 2);
    assert_eq!(emb.vectors[0].len(), 3);
    assert_eq!(f32::from_bits(emb.vectors[1][2]), 0.6);
    assert_eq!(emb.model.as_str(), "nomic");
    assert_eq!(emb.usage.input_tokens, 0);
    assert_eq!(emb.usage.output_tokens, 0);
}

#[test]
fn embed_api_error() {
    assert_eq!(reading(500), Reading::Refusal);
    match refusal(500, Some("fail".into())) {
        ProviderError::Api { status, .. } => assert_eq!(status, 500),
        other => panic!("expected Api error, got {}", other.to_string()),
    }
}

#[test]
fn refusal_without_text_has_an_empty_message() {
    match refusal(503, None) {
        ProviderError::Api { status, message } => {
            assert_eq!(status, 503);
            assert_eq!(message, "");
        }
        other => panic!("expected Api error, got {}", other.to_string()),
    }
}

#[test]
fn providers_send_the_same_conversation() {
    let req = Request {
        system: Some("be brief".into()),
        messages: vec![
            Message::user("hi"),
            Message::system("be kind"),
            Message::assistant("hello"),
        ],
        max_tokens: Some(7),
        stop: vec!["END".into()],
        ..Default::default()
    };
    let a = MessagesRequest::from_request(&req, &ModelId::new("m"), true);
    let o = ChatRequest::from_request(&req, &ModelId::new("m"), true);
    assert_eq!(a.model, o.model);
    assert_eq!(a.stream, o.stream);
    let options = o.options.unwrap();
    assert_eq!(a.stop_sequences, options.stop);
    assert_eq!(Some(a.max_tokens), options.num_predict);

    let (system, others): (Vec<_>, Vec<_>) =
        o.messages.into_iter().partition(|m| m.role == "system");
    let system: Vec<_> = system.into_iter().map(|m| m.content).collect();
    assert_eq!(a.system, Some(system.join("\n")));
    assert_eq!(a.messages.len(), others.len());
    for (api, chat) in a.messages.iter().zip(&others) {
        assert_eq!(api.role, chat.role);
        assert_eq!(api.content[0]["text"], chat.content.as_str());
    }
}
