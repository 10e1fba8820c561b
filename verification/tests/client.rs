use std::sync::Arc;
use std::time::Duration;

use alpine::client::{Call, Next};
use alpine::{
    AlpineClient, FinishReason, ModelId, ProviderError, Request, Response, StreamChunk, Usage,
};
use serde_json::Value;

// -- Stub provider ------------------------------------------------------------

struct StubProvider {
    model: ModelId,
    content: String,
}

impl StubProvider {
    fn new(content: &str) -> Self {
        Self {
            model: ModelId::new("stub"),
            content: content.into(),
        }
    }

    fn complete(&self, _req: &Request) -> Result<Response, ProviderError> {
        Ok(Response {
            content: self.content.clone(),
            tool_calls: vec![],
            usage: Usage {
                input_tokens: 1,
                output_tokens: 2,
            },
            model: self.model.clone(),
            finish_reason: FinishReason::Stop,
            latency: Duration::ZERO,
            raw: Value::Null,
        })
    }

    fn stream(&self, _req: &Request) -> Vec<StreamChunk> {
        vec![
            StreamChunk::Delta("hello".into()),
            StreamChunk::Done { usage: None },
        ]
    }
}

// -- Stub middleware ----------------------------------------------------------

enum StubMiddleware {
    /// Puts a suffix behind what the rest of the chain answers.
    Append(String),
    /// Puts a stop sequence into the request.
    Stop(String),
    /// Fails without asking the rest of the chain.
    Fail,
    /// Asks the rest of the chain, and joins the answer with itself.
    Double,
}

type StubClient = AlpineClient<StubProvider, StubMiddleware>;

fn run_call(
    client: &StubClient,
    call: Call<'_, StubProvider, StubMiddleware>,
) -> Result<Response, ProviderError> {
    match call {
        Call::Provider { provider, req } => {
            let mut resp = provider.complete(&req)?;
            for stop in &req.stop {
                resp.content.push_str(stop);
            }
            Ok(resp)
        }
        Call::Middleware { layer, req, next } => handle(client, layer, req, next),
    }
}

fn handle(
    client: &StubClient,
    layer: &StubMiddleware,
    mut req: Request,
    next: Next,
) -> Result<Response, ProviderError> {
    match layer {
        StubMiddleware::Append(suffix) => {
            let mut resp = run_call(client, client.resume(next, req))?;
            resp.content.push_str(suffix);
            Ok(resp)
        }
        StubMiddleware::Stop(stop) => {
            req.stop.push(stop.clone());
            run_call(client, client.resume(next, req))
        }
        StubMiddleware::Fail => Err(ProviderError::Other("middleware error".into())),
        StubMiddleware::Double => {
            let mut resp = run_call(client, client.resume(next, req))?;
            resp.content = resp.content.repeat(2);
            Ok(resp)
        }
    }
}

fn complete(client: &StubClient, req: Request) -> Result<Response, ProviderError> {
    run_call(client, client.complete(req))
}

// -- Tests --------------------------------------------------------------------

#[test]
fn client_new() {
    let client = StubClient::new(StubProvider::new("x"));
    assert_eq!(client.provider().content, "x");
}

#[test]
fn complete_no_middleware() {
    let client = StubClient::new(StubProvider::new("hello"));
    let resp = complete(&client, Request::default()).unwrap();
    assert_eq!(resp.content, "hello");
    assert_eq!(resp.usage.input_tokens, 1);
    assert_eq!(resp.usage.output_tokens, 2);
}

#[test]
fn complete_with_one_middleware() {
    let client = StubClient::new(StubProvider::new("base"))
        .with_middleware(StubMiddleware::Append(" [m1]".into()));
    let resp = complete(&client, Request::default()).unwrap();
    assert_eq!(resp.content, "base [m1]");
}

#[test]
fn complete_with_two_middleware() {
    let client = StubClient::new(StubProvider::new("base"))
        .with_middleware(StubMiddleware::Append(" [first]".into()))
        .with_middleware(StubMiddleware::Append(" [second]".into()));
    let resp = complete(&client, Request::default()).unwrap();
    // Middleware wraps onion-style: first added is outermost.
    // Inner (second) runs first on response, then outer (first).
    assert_eq!(resp.content, "base [second] [first]");
}

#[test]
fn complete_requests_pass_the_layers_in_order() {
    let client = StubClient::new(StubProvider::new("base"))
        .with_middleware(StubMiddleware::Stop(" one".into()))
        .with_middleware(StubMiddleware::Double)
        .with_middleware(StubMiddleware::Stop(" two".into()));
    let resp = complete(&client, Request::default()).unwrap();
    assert_eq!(resp.content, "base one twobase one two");
}

#[test]
fn an_added_layer_stands_in_front_of_the_provider() {
    let layered = StubClient::new(StubProvider::new("base"))
        .with_middleware(StubMiddleware::Double)
        .with_middleware(StubMiddleware::Append("!".into()));
    let fronted = StubClient::new(StubProvider::new("base!"))
        .with_middleware(StubMiddleware::Double);
    assert_eq!(
        complete(&layered, Request::default()).unwrap().content,
        complete(&fronted, Request::default()).unwrap().content
    );
}

#[test]
fn complete_middleware_error() {
    let client =
        StubClient::new(StubProvider::new("x")).with_middleware(StubMiddleware::Fail);
    let err = complete(&client, Request::default()).unwrap_err();
    assert!(err.to_string().contains("middleware error"));
}

#[test]
fn stream_bypasses_middleware() {
    let client = StubClient::new(StubProvider::new("x"))
        .with_middleware(StubMiddleware::Append(" [mod]".into()));
    let req = Request::default();
    let (provider, sent) = client.stream(&req);
    let mut stream = provider.stream(sent).into_iter();

    let first = stream.next().unwrap();
    match first {
        StreamChunk::Delta(text) => assert_eq!(text, "hello"),
        other => panic!("expected Delta, got: {other:?}"),
    }

    let second = stream.next().unwrap();
    match second {
        StreamChunk::Done { .. } => {}
        other => panic!("expected Done, got: {other:?}"),
    }

    assert!(stream.next().is_none());
}

#[test]
fn a_copy_of_a_client_meets_the_same_layers() {
    let client = AlpineClient::new(Arc::new("provider"))
        .with_middleware(Arc::new("first"))
        .with_middleware(Arc::new("second"));
    let copy = client.clone();
    assert_eq!(**copy.provider(), "provider");
    match copy.complete(Request::default()) {
        Call::Middleware { layer, req, next } => {
            assert_eq!(**layer, "first");
            match copy.resume(next, req) {
                Call::Middleware { layer, .. } => assert_eq!(**layer, "second"),
                Call::Provider { .. } => panic!("expected the second layer"),
            }
        }
        Call::Provider { .. } => panic!("expected the first layer"),
    }
}
