use std::cell::Cell;
use std::sync::atomic::{AtomicUsize, Ordering};
use std::sync::Arc;
use std::time::Duration;

use alpine::tool::{ToolAction, ToolLoop};
use alpine::{
    AlpineClient, ContentBlock, FinishReason, Message, ModelId, ProviderError, Request, Response,
    Role, Tool, ToolDefinition, ToolError, ToolRun, ToolUse, Toolbox, Usage,
};
use serde_json::Value;

fn json(text: &str) -> Value {
    serde_json::from_str(text).unwrap()
}

/// A tool that can be called.
trait Callable: Tool {
    fn call(&self, input: Value) -> Result<String, ToolError>;
}

type Tools = Toolbox<Box<dyn Callable>>;

// A tool that echoes its `text` argument and counts how many times it ran.
struct Echo {
    calls: Arc<AtomicUsize>,
}

impl Tool for Echo {
    fn definition(&self) -> ToolDefinition {
        ToolDefinition::new("echo", "Echo text", json(r#"{"type": "object"}"#))
    }
}

impl Callable for Echo {
    fn call(&self, input: Value) -> Result<String, ToolError> {
        self.calls.fetch_add(1, Ordering::SeqCst);
        Ok(input["text"].as_str().unwrap_or("").to_string())
    }
}

fn echo() -> Box<dyn Callable> {
    Box::new(Echo {
        calls: Arc::new(AtomicUsize::new(0)),
    })
}

// A tool that always fails.
struct Boom;

impl Tool for Boom {
    fn definition(&self) -> ToolDefinition {
        ToolDefinition::new("boom", "Always fails", json(r#"{"type": "object"}"#))
    }
}

impl Callable for Boom {
    fn call(&self, _input: Value) -> Result<String, ToolError> {
        Err("kaboom".into())
    }
}

fn tool_use_response(name: &str, id: &str) -> Response {
    Response {
        content: String::new(),
        tool_calls: vec![ToolUse {
            id: id.into(),
            name: name.into(),
            input: json(r#"{"text": "hi"}"#),
        }],
        usage: Usage::default(),
        model: ModelId::new("scripted"),
        finish_reason: FinishReason::ToolUse,
        latency: Duration::ZERO,
        raw: Value::Null,
    }
}

fn final_response(text: &str) -> Response {
    Response {
        content: text.into(),
        tool_calls: vec![],
        usage: Usage::default(),
        model: ModelId::new("scripted"),
        finish_reason: FinishReason::Stop,
        latency: Duration::ZERO,
        raw: Value::Null,
    }
}

fn has_tool_result(req: &Request) -> bool {
    req.messages
        .iter()
        .flat_map(|m| m.content.iter())
        .any(|b| matches!(b, ContentBlock::ToolResult { .. }))
}

/// A model that requests `tool_name` once, then — once it sees any `tool_result` in the
/// conversation — returns a final answer.
fn scripted(tool_name: &str) -> impl Fn(Request) -> Result<Response, ProviderError> + '_ {
    move |req: Request| {
        if has_tool_result(&req) {
            Ok(final_response("done"))
        } else {
            Ok(tool_use_response(tool_name, "tu_1"))
        }
    }
}

/// Runs the loop against a model, calling the tools that it asks for.
fn run_tools(
    model: impl Fn(Request) -> Result<Response, ProviderError>,
    req: Request,
    tools: &Tools,
    max_steps: usize,
) -> Result<ToolRun, ProviderError> {
    let client = AlpineClient::<(), ()>::new(());
    let (mut action, mut state): (ToolAction<'_, Box<dyn Callable>>, ToolLoop) =
        client.run_tools(req, tools, max_steps);
    loop {
        (action, state) = match action {
            ToolAction::Finish(outcome) => return outcome,
            ToolAction::CallModel(req) => state.on_model(model(req), tools),
            ToolAction::CallTool { name, tool, input } => {
                assert_eq!(tool.definition().name, name);
                let returned = tool.call(input);
                state.on_tool(returned, tools)
            }
        };
    }
}

#[test]
fn toolbox_registers_and_lists() {
    let tb = Tools::new().with(echo()).with(Box::new(Boom));
    assert_eq!(tb.len(), 2);
    assert!(tb.get("echo").is_some());
    assert!(tb.get("boom").is_some());
    assert!(tb.get("missing").is_none());
    let names: Vec<_> = tb.definitions().into_iter().map(|d| d.name).collect();
    assert!(names.contains(&"echo".to_string()));
    assert!(names.contains(&"boom".to_string()));
}

#[test]
fn toolbox_same_name_replaces() {
    let tb = Tools::new().with(Box::new(Boom)).with(Box::new(Boom));
    assert_eq!(tb.len(), 1);
}

// A tool under any name, with a description of its own.
struct Named(&'static str, &'static str);

impl Tool for Named {
    fn definition(&self) -> ToolDefinition {
        ToolDefinition::new(self.0, self.1, json("{}"))
    }
}

#[test]
fn toolbox_replacement_leaves_the_other_tools() {
    let mut tb = Toolbox::new()
        .with(Arc::new(Named("a", "first")))
        .with(Arc::new(Named("b", "other")));
    tb.add(Arc::new(Named("a", "second")));
    assert_eq!(tb.len(), 2);
    assert_eq!(tb.get("a").unwrap().1, "second");
    assert_eq!(tb.get("b").unwrap().1, "other");
    let copy = tb.clone();
    tb.add(Arc::new(Named("c", "third")));
    assert_eq!(copy.len(), 2);
    assert_eq!(tb.len(), 3);
    // The advertised names are those under which the tools are found, each once.
    let names: Vec<_> = tb.definitions().into_iter().map(|d| d.name).collect();
    assert_eq!(names, vec!["a", "b", "c"]);
    assert!(names.iter().all(|n| tb.get(n).unwrap().0 == n));
    let descriptions: Vec<_> = tb.definitions().into_iter().map(|d| d.description).collect();
    assert_eq!(descriptions, vec!["second", "other", "third"]);
}

#[test]
fn toolbox_is_empty_until_a_tool_is_added() {
    let tb = Toolbox::<Named>::default();
    assert!(tb.is_empty());
    assert_eq!(tb.len(), 0);
    assert!(tb.definitions().is_empty());
    assert!(!tb.with(Named("a", "")).is_empty());
}

#[test]
fn tool_error_has_its_text() {
    assert_eq!(ToolError::from("bad").to_string(), "bad");
    assert_eq!(ToolError::from(String::from("worse")).to_string(), "worse");
}

#[test]
fn run_tools_executes_and_feeds_result_back() {
    let calls = Arc::new(AtomicUsize::new(0));
    let tools = Tools::new().with(Box::new(Echo {
        calls: calls.clone(),
    }));
    let req = Request {
        messages: vec![Message::user("use echo")],
        ..Default::default()
    };

    let run = run_tools(scripted("echo"), req, &tools, 8).unwrap();

    assert_eq!(run.response.content, "done");
    assert_eq!(run.steps, 2); // request tool, then final answer
    assert_eq!(run.tool_calls, 1);
    assert_eq!(calls.load(Ordering::SeqCst), 1);

    // Conversation: user, assistant(tool_use), user(tool_result).
    assert_eq!(run.messages.len(), 3);
    assert_eq!(run.messages[1].role, Role::Assistant);
    assert!(run.messages[1]
        .content
        .iter()
        .any(|b| matches!(b, ContentBlock::ToolUse { .. })));
    assert!(matches!(
        run.messages[2].content[0],
        ContentBlock::ToolResult { is_error: false, .. }
    ));
}

#[test]
fn run_tools_reports_tool_error_to_model() {
    let tools = Tools::new().with(Box::new(Boom));
    let req = Request {
        messages: vec![Message::user("use boom")],
        ..Default::default()
    };

    let run = run_tools(scripted("boom"), req, &tools, 8).unwrap();

    // Loop still converges; the failure surfaces as an error tool_result.
    assert_eq!(run.response.content, "done");
    let result_block = &run.messages[2].content[0];
    match result_block {
        ContentBlock::ToolResult {
            content, is_error, ..
        } => {
            assert!(*is_error);
            assert!(content.contains("kaboom"));
        }
        other => panic!("expected error ToolResult, got {other:?}"),
    }
}

#[test]
fn run_tools_reports_unknown_tool() {
    // Model asks for "ghost" but the toolbox only has echo.
    let tools = Tools::new().with(echo());
    let req = Request {
        messages: vec![Message::user("use ghost")],
        ..Default::default()
    };

    let run = run_tools(scripted("ghost"), req, &tools, 8).unwrap();
    assert_eq!(run.tool_calls, 0); // no tool was executed
    match &run.messages[2].content[0] {
        ContentBlock::ToolResult {
            content, is_error, ..
        } => {
            assert!(*is_error);
            assert!(content.contains("unknown tool 'ghost'"));
            assert_eq!(content, "error: unknown tool 'ghost'");
        }
        other => panic!("expected error ToolResult, got {other:?}"),
    }
}

#[test]
fn run_tools_stops_immediately_without_tool_calls() {
    let run = run_tools(
        |_req: Request| Ok(final_response("hi")),
        Request {
            messages: vec![Message::user("hello")],
            ..Default::default()
        },
        &Tools::new(),
        4,
    )
    .unwrap();
    assert_eq!(run.response.content, "hi");
    assert_eq!(run.steps, 1);
    assert_eq!(run.tool_calls, 0);
    assert_eq!(run.messages.len(), 1);
}

#[test]
fn run_tools_errors_when_not_converging() {
    let tools = Tools::new().with(echo());
    let asked = Cell::new(0);
    let err = run_tools(
        |_req: Request| {
            asked.set(asked.get() + 1);
            Ok(tool_use_response("echo", "tu"))
        },
        Request {
            messages: vec![Message::user("spin")],
            ..Default::default()
        },
        &tools,
        3,
    )
    .unwrap_err();
    assert!(err.to_string().contains("did not converge"));
    assert!(err.to_string().contains("tool loop did not converge within 3 steps"));
    assert_eq!(asked.get(), 3);
}

#[test]
fn run_tools_without_steps_asks_nobody() {
    let err = run_tools(
        |_req: Request| panic!("the model was asked"),
        Request::default(),
        &Tools::new(),
        0,
    )
    .unwrap_err();
    assert!(err.to_string().contains("did not converge within 0 steps"));
}

#[test]
fn run_tools_hands_on_a_provider_error() {
    let err = run_tools(
        |_req: Request| {
            Err(ProviderError::Api {
                status: 500,
                message: "down".into(),
            })
        },
        Request::default(),
        &Tools::new(),
        3,
    )
    .unwrap_err();
    assert!(matches!(err, ProviderError::Api { status: 500, .. }));
}

#[test]
fn run_tools_answers_every_call_of_a_turn_in_order() {
    let tools = Tools::new().with(echo()).with(Box::new(Boom));
    let run = run_tools(
        |req: Request| {
            // The request advertises the tools of the toolbox, and no others.
            let names: Vec<_> = req.tools.iter().map(|d| d.name.as_str()).collect();
            assert_eq!(names, vec!["echo", "boom"]);
            if has_tool_result(&req) {
                return Ok(final_response("done"));
            }
            let mut resp = final_response("working");
            for (id, name) in [("1", "echo"), ("2", "ghost"), ("3", "boom"), ("4", "echo")] {
                resp.tool_calls.push(ToolUse {
                    id: id.into(),
                    name: name.into(),
                    input: json(r#"{"text": "hi"}"#),
                });
            }
            Ok(resp)
        },
        Request {
            messages: vec![Message::user("go")],
            tools: vec![ToolDefinition::new("stale", "Replaced", json("{}"))],
            ..Default::default()
        },
        &tools,
        2,
    )
    .unwrap();
    assert_eq!(run.steps, 2);
    assert_eq!(run.tool_calls, 3); // the call to "ghost" executed nothing
    assert_eq!(run.messages.len(), 6);
    assert_eq!(run.messages[1].text(), "working");
    assert_eq!(run.messages[1].tool_uses().len(), 4);
    let results: Vec<_> = run.messages[2..]
        .iter()
        .map(|m| match &m.content[0] {
            ContentBlock::ToolResult {
                tool_use_id,
                content,
                is_error,
            } => (tool_use_id.as_str(), content.as_str(), *is_error),
            other => panic!("expected ToolResult, got {other:?}"),
        })
        .collect();
    assert_eq!(
        results,
        vec![
            ("1", "hi", false),
            ("2", "error: unknown tool 'ghost'", true),
            ("3", "kaboom", true),
            ("4", "hi", false),
        ]
    );
}
