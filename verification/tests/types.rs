use std::collections::HashSet;
use std::time::Duration;

use alpine::{
    ContentBlock, EmbedRequest, Embedding, FinishReason, Message, ModelId, Request, Response, Role,
    StreamChunk, ToolDefinition, ToolUse, Usage,
};
use serde_json::Value;

fn json(text: &str) -> Value {
    serde_json::from_str(text).unwrap()
}

// -- ModelId -----------------------------------------------------------------

#[test]
fn model_id_new_and_as_str() {
    let m = ModelId::new("gpt-4");
    assert_eq!(m.as_str(), "gpt-4");
}

#[test]
fn model_id_from_owned_string() {
    let m = ModelId::new(String::from("gpt-4"));
    assert_eq!(m.as_str(), "gpt-4");
}

#[test]
fn model_id_default() {
    assert_eq!(ModelId::default().as_str(), "default");
}

#[test]
fn model_id_display() {
    let m = ModelId::new("sonnet-3");
    assert_eq!(m.to_string(), "sonnet-3");
}

#[test]
fn model_id_eq_and_hash() {
    let a = ModelId::new("x");
    let b = ModelId::new("x");
    let c = ModelId::new("y");
    assert_eq!(a, b);
    assert_ne!(a, c);

    let mut set = HashSet::new();
    set.insert(a);
    set.insert(b);
    assert_eq!(set.len(), 1);
}

#[test]
fn model_id_clone_keeps_the_name() {
    assert_eq!(ModelId::new("m").clone().as_str(), "m");
}

// -- Message -----------------------------------------------------------------

#[test]
fn message_user() {
    let m = Message::user("hi");
    assert_eq!(m.role, Role::User);
    assert_eq!(m.text(), "hi");
}

#[test]
fn message_assistant() {
    let m = Message::assistant("ok");
    assert_eq!(m.role, Role::Assistant);
    assert_eq!(m.text(), "ok");
}

#[test]
fn message_system() {
    let m = Message::system("you are helpful");
    assert_eq!(m.role, Role::System);
    assert_eq!(m.text(), "you are helpful");
}

#[test]
fn message_text_concatenates_and_ignores_non_text() {
    let m = Message::new(
        Role::Assistant,
        vec![
            ContentBlock::text("a"),
            ContentBlock::ToolUse {
                id: "t1".into(),
                name: "x".into(),
                input: json("{}"),
            },
            ContentBlock::text("b"),
        ],
    );
    assert_eq!(m.text(), "ab");
    assert_eq!(m.tool_uses().len(), 1);
    assert_eq!(m.tool_uses()[0], &m.content[1]);
}

#[test]
fn message_text_of_two_parts() {
    let both = Message::new(
        Role::User,
        vec![ContentBlock::text("a"), ContentBlock::text("b"), ContentBlock::text("c")],
    );
    let first = Message::new(Role::User, vec![ContentBlock::text("a")]);
    let second = Message::new(
        Role::User,
        vec![ContentBlock::text("b"), ContentBlock::text("c")],
    );
    assert_eq!(both.text(), format!("{}{}", first.text(), second.text()));
}

#[test]
fn message_without_blocks_has_no_text() {
    let m = Message::new(Role::User, vec![]);
    assert_eq!(m.text(), "");
    assert!(m.tool_uses().is_empty());
}

#[test]
fn message_tool_result_helper() {
    let m = Message::tool_result("tu_1", "result body", false);
    assert_eq!(m.role, Role::User);
    match &m.content[0] {
        ContentBlock::ToolResult {
            tool_use_id,
            content,
            is_error,
        } => {
            assert_eq!(tool_use_id, "tu_1");
            assert_eq!(content, "result body");
            assert!(!is_error);
        }
        other => panic!("expected ToolResult, got {other:?}"),
    }
}

#[test]
fn message_clone_keeps_the_blocks() {
    let m = Message::new(
        Role::Assistant,
        vec![
            ContentBlock::text("a"),
            ContentBlock::ToolUse {
                id: "t1".into(),
                name: "x".into(),
                input: json(r#"{"q": [1, -2, 0.5, null, true, "s"]}"#),
            },
            ContentBlock::ToolResult {
                tool_use_id: "t1".into(),
                content: "c".into(),
                is_error: true,
            },
        ],
    );
    let copy = m.clone();
    assert_eq!(copy.role, m.role);
    assert_eq!(copy.content, m.content);
}

// -- Role --------------------------------------------------------------------

#[test]
fn role_names() {
    assert_eq!(Role::User.as_str(), "user");
    assert_eq!(Role::Assistant.as_str(), "assistant");
    assert_eq!(Role::System.as_str(), "system");
}

// -- Request -----------------------------------------------------------------

#[test]
fn request_default() {
    let r = Request::default();
    assert!(r.messages.is_empty());
    assert_eq!(r.model, ModelId::default());
    assert!(r.max_tokens.is_none());
    assert!(r.temperature.is_none());
    assert!(r.system.is_none());
    assert!(r.stop.is_empty());
    assert!(r.tools.is_empty());
}

#[test]
fn request_clone_keeps_everything() {
    let r = Request {
        messages: vec![Message::user("hi")],
        model: ModelId::new("m"),
        max_tokens: Some(7),
        temperature: Some(json("0.7")),
        system: Some("s".into()),
        stop: vec!["END".into()],
        tools: vec![ToolDefinition::new("t", "d", json(r#"{"type": "object"}"#))],
    };
    let copy = r.clone();
    assert_eq!(copy.messages.len(), 1);
    assert_eq!(copy.messages[0].text(), "hi");
    assert_eq!(copy.model, r.model);
    assert_eq!(copy.max_tokens, Some(7));
    assert_eq!(copy.temperature, r.temperature);
    assert_eq!(copy.system, r.system);
    assert_eq!(copy.stop, r.stop);
    assert_eq!(copy.tools, r.tools);
}

// -- Response ----------------------------------------------------------------

fn response() -> Response {
    Response {
        content: "Hello!".into(),
        tool_calls: vec![],
        usage: Usage {
            input_tokens: 10,
            output_tokens: 5,
        },
        model: ModelId::new("test-model"),
        finish_reason: FinishReason::Stop,
        latency: Duration::from_millis(1234),
        raw: Value::Null,
    }
}

#[test]
fn response_display() {
    let resp = response();
    let s = resp.to_string();
    assert!(s.contains("test-model"));
    assert!(s.contains("Hello!"));
    assert!(s.contains("10 in"));
    assert!(s.contains("5 out"));
    assert!(s.contains("Stop"));
    // latency formatted with {:?} — should contain "1.234s" or "1234ms"
    assert!(s.contains("1"));
    assert!(s.contains("1.234s"));
}

#[test]
fn response_display_in_full() {
    assert_eq!(
        response().to_string(),
        "[test-model] (1.234s)\nHello!\ntokens: 10 in / 5 out | finish: Stop"
    );
}

#[test]
fn response_display_keeps_the_decimals_of_the_latency() {
    let resp = Response {
        content: "Async/await".into(),
        tool_calls: vec![],
        usage: Usage {
            input_tokens: 28,
            output_tokens: 64,
        },
        model: ModelId::new("llama3.2"),
        finish_reason: FinishReason::Stop,
        latency: Duration::from_millis(1240),
        raw: Value::Null,
    };
    assert_eq!(
        resp.to_string(),
        "[llama3.2] (1.24s)\nAsync/await\ntokens: 28 in / 64 out | finish: Stop"
    );
}

#[test]
fn response_summarized_with_a_given_latency() {
    assert_eq!(
        response().summarize("soon"),
        "[test-model] (soon)\nHello!\ntokens: 10 in / 5 out | finish: Stop"
    );
}

#[test]
fn response_display_quotes_another_reason() {
    let mut resp = response();
    resp.finish_reason = FinishReason::Other("a \"b\"".into());
    resp.usage.input_tokens = 4_294_967_295;
    resp.usage.output_tokens = 0;
    let s = resp.to_string();
    assert!(s.ends_with("tokens: 4294967295 in / 0 out | finish: Other(\"a \\\"b\\\"\")"));
}

#[test]
fn finish_reason_described_as_debug_prints_it() {
    for reason in [
        FinishReason::Stop,
        FinishReason::MaxTokens,
        FinishReason::ContentFilter,
        FinishReason::ToolUse,
        FinishReason::Other("tab\there".into()),
    ] {
        assert_eq!(reason.describe(), format!("{reason:?}"));
        assert_eq!(reason.clone(), reason);
    }
}

#[test]
fn assistant_message_carries_text_and_calls() {
    let mut resp = response();
    resp.tool_calls = vec![
        ToolUse {
            id: "a".into(),
            name: "x".into(),
            input: json(r#"{"n": 1}"#),
        },
        ToolUse {
            id: "b".into(),
            name: "y".into(),
            input: json("{}"),
        },
    ];
    let m = resp.assistant_message();
    assert_eq!(m.role, Role::Assistant);
    assert_eq!(m.text(), "Hello!");
    assert_eq!(
        m.content,
        vec![
            ContentBlock::text("Hello!"),
            ContentBlock::ToolUse {
                id: "a".into(),
                name: "x".into(),
                input: json(r#"{"n": 1}"#),
            },
            ContentBlock::ToolUse {
                id: "b".into(),
                name: "y".into(),
                input: json("{}"),
            },
        ]
    );
}

#[test]
fn assistant_message_without_text_has_no_text_block() {
    let mut resp = response();
    resp.content = String::new();
    assert!(resp.assistant_message().content.is_empty());
}

#[test]
fn response_clone_keeps_everything() {
    let resp = response();
    let copy = resp.clone();
    assert_eq!(copy.content, resp.content);
    assert_eq!(copy.tool_calls, resp.tool_calls);
    assert_eq!(copy.usage.input_tokens, 10);
    assert_eq!(copy.usage.output_tokens, 5);
    assert_eq!(copy.model, resp.model);
    assert_eq!(copy.finish_reason, resp.finish_reason);
    assert_eq!(copy.latency, resp.latency);
    assert_eq!(copy.raw, resp.raw);
}

// -- FinishReason ------------------------------------------------------------

#[test]
fn finish_reason_default_is_stop() {
    assert_eq!(FinishReason::default(), FinishReason::Stop);
}

#[test]
fn finish_reason_variants() {
    assert_eq!(FinishReason::Stop, FinishReason::Stop);
    assert_ne!(FinishReason::Stop, FinishReason::MaxTokens);
    assert_ne!(FinishReason::MaxTokens, FinishReason::ContentFilter);
    let other = FinishReason::Other("custom".into());
    assert_eq!(other, FinishReason::Other("custom".into()));
    assert_ne!(other, FinishReason::Other("different".into()));
}

// -- Usage -------------------------------------------------------------------

#[test]
fn usage_default() {
    let u = Usage::default();
    assert_eq!(u.input_tokens, 0);
    assert_eq!(u.output_tokens, 0);
}

// -- StreamChunk -------------------------------------------------------------

#[test]
fn stream_chunk_debug() {
    let _ = format!("{:?}", StreamChunk::Delta("hi".into()));
    let _ = format!("{:?}", StreamChunk::Done { usage: None });
    let _ = format!(
        "{:?}",
        StreamChunk::Done {
            usage: Some(Usage::default())
        }
    );
    let _ = format!("{:?}", StreamChunk::Error("err".into()));
}

#[test]
fn stream_chunk_clone() {
    assert!(matches!(StreamChunk::Delta("hi".into()).clone(), StreamChunk::Delta(t) if t == "hi"));
    assert!(matches!(StreamChunk::Error("e".into()).clone(), StreamChunk::Error(t) if t == "e"));
    assert!(matches!(
        StreamChunk::Done { usage: None }.clone(),
        StreamChunk::Done { usage: None }
    ));
}

// -- EmbedRequest / Embedding ------------------------------------------------

#[test]
fn embed_request_construction() {
    let r = EmbedRequest {
        model: ModelId::new("nomic"),
        input: vec!["hello".into(), "world".into()],
    };
    assert_eq!(r.model.as_str(), "nomic");
    assert_eq!(r.input.len(), 2);
    assert_eq!(r.clone().input, r.input);
}

#[test]
fn embedding_construction() {
    let vectors: Vec<Vec<u32>> = [[0.1f32, 0.2], [0.3, 0.4]]
        .iter()
        .map(|v| v.iter().map(|x| x.to_bits()).collect())
        .collect();
    let e = Embedding {
        vectors,
        model: ModelId::new("nomic"),
        usage: Usage {
            input_tokens: 4,
            output_tokens: 0,
        },
    };
    assert_eq!(e.vectors.len(), 2);
    assert_eq!(e.vectors[0].len(), 2);
    assert_eq!(e.model.as_str(), "nomic");
    assert_eq!(f32::from_bits(e.vectors[1][0]), 0.3);
    assert_eq!(e.clone().vectors, e.vectors);
}
