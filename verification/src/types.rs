//! Requests, responses and what they are made of.

use std::time::Duration;

use serde_json::Value;
use vstd::prelude::*;

use crate::json;
use crate::json::Json;
use crate::text;

verus! {

// ---------------------------------------------------------------------------
// ModelId
// ---------------------------------------------------------------------------

/// The name of a model. `default` stands for the model that a provider was made
/// with.
#[derive(Debug, PartialEq, Eq, Hash)]
pub struct ModelId(pub String);

impl View for ModelId {
    type V = Seq<char>;

    open spec fn view(&self) -> Seq<char> {
        self.0@
    }
}

impl ModelId {
    pub fn new<S: Into<String>>(id: S) -> (r: Self)
        ensures
            text::becomes(id, r.0),
    {
        ModelId(id.into())
    }

    pub fn as_str(&self) -> (r: &str)
        ensures
            r@ == self@,
    {
        self.0.as_str()
    }

    /// The name itself.
    pub fn to_string(&self) -> (r: String)
        ensures
            r@ == self@,
    {
        self.0.clone()
    }
}

impl Default for ModelId {
    fn default() -> (r: Self)
        ensures
            r@ == "default"@,
    {
        ModelId("default".to_string())
    }
}

impl Clone for ModelId {
    fn clone(&self) -> (r: Self)
        ensures
            r@ == self@,
    {
        ModelId(self.0.clone())
    }
}

// ---------------------------------------------------------------------------
// Content blocks
// ---------------------------------------------------------------------------

/// A single piece of a message's content. Messages are sequences of blocks, so
/// that a turn can mix text with tool-use requests (assistant) and tool results
/// (user).
#[derive(Debug, PartialEq)]
pub enum ContentBlock {
    Text { text: String },
    /// The model is requesting a tool invocation.
    ToolUse { id: String, name: String, input: Value },
    /// The caller is returning the result of a tool invocation.
    ToolResult { tool_use_id: String, content: String, is_error: bool },
}

/// What a content block says.
pub enum BlockView {
    Text { text: Seq<char> },
    ToolUse { call: ToolUseView },
    ToolResult { tool_use_id: Seq<char>, content: Seq<char>, is_error: bool },
}

impl View for ContentBlock {
    type V = BlockView;

    open spec fn view(&self) -> BlockView {
        match self {
            ContentBlock::Text { text } => BlockView::Text { text: text@ },
            ContentBlock::ToolUse { id, name, input } => BlockView::ToolUse {
                call: ToolUseView { id: id@, name: name@, input: json::json_of(*input) },
            },
            ContentBlock::ToolResult { tool_use_id, content, is_error } => BlockView::ToolResult {
                tool_use_id: tool_use_id@,
                content: content@,
                is_error: *is_error,
            },
        }
    }
}

impl ContentBlock {
    pub fn text<S: Into<String>>(text: S) -> (r: Self)
        ensures
            r matches ContentBlock::Text { text: t } && text::becomes(text, t),
    {
        ContentBlock::Text { text: text.into() }
    }
}

impl Clone for ContentBlock {
    fn clone(&self) -> (r: Self)
        ensures
            r@ == self@,
    {
        match self {
            ContentBlock::Text { text } => ContentBlock::Text { text: text.clone() },
            ContentBlock::ToolUse { id, name, input } => ContentBlock::ToolUse {
                id: id.clone(),
                name: name.clone(),
                input: input.clone(),
            },
            ContentBlock::ToolResult { tool_use_id, content, is_error } => ContentBlock::ToolResult {
                tool_use_id: tool_use_id.clone(),
                content: content.clone(),
                is_error: *is_error,
            },
        }
    }
}

/// The views of several content blocks.
pub open spec fn block_views(blocks: Seq<ContentBlock>) -> Seq<BlockView> {
    blocks.map_values(|b: ContentBlock| b@)
}

/// The text blocks one after another; other blocks contribute nothing.
pub open spec fn blocks_text(blocks: Seq<BlockView>) -> Seq<char>
    decreases blocks.len(),
{
    if blocks.len() == 0 {
        Seq::empty()
    } else {
        blocks_text(blocks.drop_last()) + match blocks.last() {
            BlockView::Text { text } => text,
            _ => Seq::empty(),
        }
    }
}

/// The tool calls that the blocks request, in order.
pub open spec fn blocks_calls(blocks: Seq<BlockView>) -> Seq<ToolUseView>
    decreases blocks.len(),
{
    if blocks.len() == 0 {
        Seq::empty()
    } else {
        let before = blocks_calls(blocks.drop_last());
        match blocks.last() {
            BlockView::ToolUse { call } => before.push(call),
            _ => before,
        }
    }
}

// ---------------------------------------------------------------------------
// Message
// ---------------------------------------------------------------------------

#[derive(Debug, Clone, Copy, PartialEq, Eq, Structural)]
pub enum Role {
    System,
    User,
    Assistant,
}

impl Role {
    /// The name of the role on the wire.
    pub open spec fn name(self) -> Seq<char> {
        match self {
            Role::System => "system"@,
            Role::User => "user"@,
            Role::Assistant => "assistant"@,
        }
    }

    /// The name of the role on the wire.
    pub fn as_str(self) -> (r: &'static str)
        ensures
            r@ == self.name(),
    {
        match self {
            Role::System => "system",
            Role::User => "user",
            Role::Assistant => "assistant",
        }
    }
}

#[derive(Debug)]
pub struct Message {
    pub role: Role,
    pub content: Vec<ContentBlock>,
}

/// What a message says, and who says it.
pub struct MessageView {
    pub role: Role,
    pub content: Seq<BlockView>,
}

impl View for Message {
    type V = MessageView;

    open spec fn view(&self) -> MessageView {
        MessageView { role: self.role, content: block_views(self.content@) }
    }
}

impl MessageView {
    /// A message of a single text block.
    pub open spec fn of_text(role: Role, text: Seq<char>) -> MessageView {
        MessageView { role, content: seq![BlockView::Text { text }] }
    }

    /// A user message that carries a single tool result.
    pub open spec fn of_tool_result(
        tool_use_id: Seq<char>,
        content: Seq<char>,
        is_error: bool,
    ) -> MessageView {
        MessageView {
            role: Role::User,
            content: seq![BlockView::ToolResult { tool_use_id, content, is_error }],
        }
    }
}

/// The views of several messages.
pub open spec fn message_views(messages: Seq<Message>) -> Seq<MessageView> {
    messages.map_values(|m: Message| m@)
}

impl Message {
    /// Construct a message from a role and explicit content blocks.
    pub fn new(role: Role, content: Vec<ContentBlock>) -> (r: Self)
        ensures
            r.role == role,
            r.content == content,
    {
        Message { role, content }
    }

    fn of_text(role: Role, text: String) -> (r: Self)
        ensures
            r@ == MessageView::of_text(role, text@),
    {
        let mut content: Vec<ContentBlock> = Vec::new();
        content.push(ContentBlock::Text { text });
        assert(block_views(content@) =~= seq![BlockView::Text { text: text@ }]);
        Message { role, content }
    }

    pub fn user<S: Into<String>>(content: S) -> (r: Self)
        ensures
            exists|t: String|
                #[trigger] text::becomes(content, t) && r@ == MessageView::of_text(Role::User, t@),
    {
        let t: String = content.into();
        assert(text::becomes(content, t));
        Message::of_text(Role::User, t)
    }

    pub fn assistant<S: Into<String>>(content: S) -> (r: Self)
        ensures
            exists|t: String|
                #[trigger] text::becomes(content, t) && r@ == MessageView::of_text(
                    Role::Assistant,
                    t@,
                ),
    {
        let t: String = content.into();
        assert(text::becomes(content, t));
        Message::of_text(Role::Assistant, t)
    }

    pub fn system<S: Into<String>>(content: S) -> (r: Self)
        ensures
            exists|t: String|
                #[trigger] text::becomes(content, t) && r@ == MessageView::of_text(
                    Role::System,
                    t@,
                ),
    {
        let t: String = content.into();
        assert(text::becomes(content, t));
        Message::of_text(Role::System, t)
    }

    /// A user message carrying a single tool result (the conventional way to
    /// return tool output to the model).
    pub fn tool_result<I: Into<String>, S: Into<String>>(
        tool_use_id: I,
        content: S,
        is_error: bool,
    ) -> (r: Self)
        ensures
            exists|i: String, t: String|
                #[trigger] text::becomes(tool_use_id, i) && #[trigger] text::becomes(content, t)
                    && r@ == MessageView::of_tool_result(i@, t@, is_error),
    {
        let i: String = tool_use_id.into();
        let t: String = content.into();
        assert(text::becomes(tool_use_id, i));
        assert(text::becomes(content, t));
        let mut content: Vec<ContentBlock> = Vec::new();
        content.push(ContentBlock::ToolResult { tool_use_id: i, content: t, is_error });
        assert(block_views(content@) =~= seq![
            BlockView::ToolResult { tool_use_id: i@, content: t@, is_error },
        ]);
        Message { role: Role::User, content }
    }

    /// Concatenate all text blocks into a single string. Non-text blocks
    /// (tool_use / tool_result) are ignored. This is the convenience accessor for
    /// callers that only care about textual content.
    pub fn text(&self) -> (r: String)
        ensures
            r@ == blocks_text(self@.content),
    {
        let mut out = String::new();
        let mut i: usize = 0;
        while i < self.content.len()
            invariant
                i <= self.content.len(),
                out@ == blocks_text(self@.content.take(i as int)),
            decreases self.content.len() - i,
        {
            assert(self@.content.take(i + 1).drop_last() =~= self@.content.take(i as int));
            match &self.content[i] {
                ContentBlock::Text { text } => out.append(text.as_str()),
                _ => assert(out@ + Seq::<char>::empty() =~= out@),
            }
            i = i + 1;
        }
        assert(self@.content.take(i as int) =~= self@.content);
        out
    }

    /// All `tool_use` blocks in this message, in order.
    pub fn tool_uses(&self) -> (r: Vec<&ContentBlock>)
        ensures
            r@.map_values(|b: &ContentBlock| *b) == self.content@.filter(
                |b: ContentBlock| b is ToolUse,
            ),
    {
        let ghost wanted = |b: ContentBlock| b is ToolUse;
        let mut out: Vec<&ContentBlock> = Vec::new();
        let mut i: usize = 0;
        while i < self.content.len()
            invariant
                i <= self.content.len(),
                wanted == (|b: ContentBlock| b is ToolUse),
                out@.map_values(|b: &ContentBlock| *b) == self.content@.take(i as int).filter(wanted),
            decreases self.content.len() - i,
        {
            proof {
                reveal(Seq::filter);
                assert(self.content@.take(i + 1).drop_last() =~= self.content@.take(i as int));
            }
            let ghost before = out@;
            let block = &self.content[i];
            match block {
                ContentBlock::ToolUse { .. } => {
                    out.push(block);
                    assert(out@.map_values(|b: &ContentBlock| *b) =~= before.map_values(
                        |b: &ContentBlock| *b,
                    ).push(*block));
                },
                _ => {},
            }
            i = i + 1;
        }
        assert(self.content@.take(i as int) =~= self.content@);
        out
    }
}

impl Clone for Message {
    fn clone(&self) -> (r: Self)
        ensures
            r@ == self@,
    {
        let content = self.content.clone();
        assert(block_views(content@) =~= block_views(self.content@));
        Message { role: self.role, content }
    }
}

/// Copies a conversation.
pub fn copy_messages(messages: &Vec<Message>) -> (r: Vec<Message>)
    ensures
        message_views(r@) == message_views(messages@),
{
    let r = messages.clone();
    assert(message_views(r@) =~= message_views(messages@));
    r
}

// ---------------------------------------------------------------------------
// Tools
// ---------------------------------------------------------------------------

/// A provider-agnostic tool the model may call. `input_schema` is a JSON Schema
/// describing the tool's arguments.
#[derive(Debug, PartialEq)]
pub struct ToolDefinition {
    pub name: String,
    pub description: String,
    pub input_schema: Value,
}

/// What a tool definition says.
pub struct ToolDefinitionView {
    pub name: Seq<char>,
    pub description: Seq<char>,
    pub input_schema: Json,
}

impl View for ToolDefinition {
    type V = ToolDefinitionView;

    open spec fn view(&self) -> ToolDefinitionView {
        ToolDefinitionView {
            name: self.name@,
            description: self.description@,
            input_schema: json::json_of(self.input_schema),
        }
    }
}

impl ToolDefinition {
    pub fn new<N: Into<String>, D: Into<String>>(
        name: N,
        description: D,
        input_schema: Value,
    ) -> (r: Self)
        ensures
            text::becomes(name, r.name),
            text::becomes(description, r.description),
            r.input_schema == input_schema,
    {
        ToolDefinition { name: name.into(), description: description.into(), input_schema }
    }
}

impl Clone for ToolDefinition {
    fn clone(&self) -> (r: Self)
        ensures
            r@ == self@,
    {
        ToolDefinition {
            name: self.name.clone(),
            description: self.description.clone(),
            input_schema: self.input_schema.clone(),
        }
    }
}

/// The views of several tool definitions.
pub open spec fn definition_views(tools: Seq<ToolDefinition>) -> Seq<ToolDefinitionView> {
    tools.map_values(|t: ToolDefinition| t@)
}

/// A tool call the model requested.
#[derive(Debug, PartialEq)]
pub struct ToolUse {
    pub id: String,
    pub name: String,
    pub input: Value,
}

/// What a tool call asks for.
pub struct ToolUseView {
    pub id: Seq<char>,
    pub name: Seq<char>,
    pub input: Json,
}

impl View for ToolUse {
    type V = ToolUseView;

    open spec fn view(&self) -> ToolUseView {
        ToolUseView { id: self.id@, name: self.name@, input: json::json_of(self.input) }
    }
}

impl Clone for ToolUse {
    fn clone(&self) -> (r: Self)
        ensures
            r@ == self@,
    {
        ToolUse { id: self.id.clone(), name: self.name.clone(), input: self.input.clone() }
    }
}

/// The views of several tool calls.
pub open spec fn call_views(calls: Seq<ToolUse>) -> Seq<ToolUseView> {
    calls.map_values(|c: ToolUse| c@)
}

// ---------------------------------------------------------------------------
// Request
// ---------------------------------------------------------------------------

#[derive(Debug)]
pub struct Request {
    pub messages: Vec<Message>,
    pub model: ModelId,
    pub max_tokens: Option<u32>,
    /// The sampling temperature, as the JSON value it is sent as.
    pub temperature: Option<Value>,
    pub system: Option<String>,
    pub stop: Vec<String>,
    /// Tools the model may call. Empty (the default) means no tool calling.
    pub tools: Vec<ToolDefinition>,
}

/// What a request asks for.
pub struct RequestView {
    pub messages: Seq<MessageView>,
    pub model: Seq<char>,
    pub max_tokens: Option<u32>,
    pub temperature: Option<Json>,
    pub system: Option<Seq<char>>,
    pub stop: Seq<Seq<char>>,
    pub tools: Seq<ToolDefinitionView>,
}

/// The view of an optional string.
pub open spec fn text_option(o: Option<String>) -> Option<Seq<char>> {
    match o {
        Some(s) => Some(s@),
        None => None,
    }
}

/// What an optional JSON value holds.
pub open spec fn json_option(o: Option<Value>) -> Option<Json> {
    match o {
        Some(v) => Some(json::json_of(v)),
        None => None,
    }
}

impl View for Request {
    type V = RequestView;

    open spec fn view(&self) -> RequestView {
        RequestView {
            messages: message_views(self.messages@),
            model: self.model@,
            max_tokens: self.max_tokens,
            temperature: json_option(self.temperature),
            system: text_option(self.system),
            stop: text::texts(self.stop@),
            tools: definition_views(self.tools@),
        }
    }
}

impl Default for Request {
    fn default() -> (r: Self)
        ensures
            r@ == (RequestView {
                messages: Seq::empty(),
                model: "default"@,
                max_tokens: None,
                temperature: None,
                system: None,
                stop: Seq::empty(),
                tools: Seq::empty(),
            }),
    {
        let r = Request {
            messages: Vec::new(),
            model: ModelId::default(),
            max_tokens: None,
            temperature: None,
            system: None,
            stop: Vec::new(),
            tools: Vec::new(),
        };
        assert(r@.messages =~= Seq::<MessageView>::empty());
        assert(r@.stop =~= Seq::<Seq<char>>::empty());
        assert(r@.tools =~= Seq::<ToolDefinitionView>::empty());
        r
    }
}

impl Clone for Request {
    fn clone(&self) -> (r: Self)
        ensures
            r@ == self@,
    {
        let r = Request {
            messages: copy_messages(&self.messages),
            model: self.model.clone(),
            max_tokens: self.max_tokens,
            temperature: self.temperature.clone(),
            system: self.system.clone(),
            stop: self.stop.clone(),
            tools: self.tools.clone(),
        };
        assert(r@.stop =~= self@.stop);
        assert(r@.tools =~= self@.tools);
        r
    }
}

// ---------------------------------------------------------------------------
// Response
// ---------------------------------------------------------------------------

#[derive(Debug, Clone, Copy)]
pub struct Usage {
    pub input_tokens: u32,
    pub output_tokens: u32,
}

impl Default for Usage {
    fn default() -> (r: Self)
        ensures
            r == (Usage { input_tokens: 0, output_tokens: 0 }),
    {
        Usage { input_tokens: 0, output_tokens: 0 }
    }
}

#[derive(Debug, PartialEq, Eq)]
pub enum FinishReason {
    Stop,
    MaxTokens,
    ContentFilter,
    /// The model stopped because it wants to call one or more tools.
    ToolUse,
    Other(String),
}

/// Why the model stopped.
pub enum FinishReasonView {
    Stop,
    MaxTokens,
    ContentFilter,
    ToolUse,
    Other(Seq<char>),
}

impl View for FinishReason {
    type V = FinishReasonView;

    open spec fn view(&self) -> FinishReasonView {
        match self {
            FinishReason::Stop => FinishReasonView::Stop,
            FinishReason::MaxTokens => FinishReasonView::MaxTokens,
            FinishReason::ContentFilter => FinishReasonView::ContentFilter,
            FinishReason::ToolUse => FinishReasonView::ToolUse,
            FinishReason::Other(reason) => FinishReasonView::Other(reason@),
        }
    }
}

/// What `format!("{:?}", ..)` makes of a string: the string in quotes, with its
/// special characters escaped.
pub uninterp spec fn quoted(text: Seq<char>) -> Seq<char>;

/// `format!` of a string with `{:?}`. The result is named by [`quoted`].
#[verifier::external_body]
fn quote(text: &str) -> (r: String)
    ensures
        r@ == quoted(text@),
{
    format!("{:?}", text)
}

impl FinishReasonView {
    /// The name of the variant, with the reason in quotes where it carries one.
    pub open spec fn described(self) -> Seq<char> {
        match self {
            FinishReasonView::Stop => "Stop"@,
            FinishReasonView::MaxTokens => "MaxTokens"@,
            FinishReasonView::ContentFilter => "ContentFilter"@,
            FinishReasonView::ToolUse => "ToolUse"@,
            FinishReasonView::Other(reason) => "Other("@ + quoted(reason) + ")"@,
        }
    }
}

impl FinishReason {
    /// The name of the variant, with the reason in quotes where it carries one.
    pub fn describe(&self) -> (r: String)
        ensures
            r@ == self@.described(),
    {
        match self {
            FinishReason::Stop => "Stop".to_string(),
            FinishReason::MaxTokens => "MaxTokens".to_string(),
            FinishReason::ContentFilter => "ContentFilter".to_string(),
            FinishReason::ToolUse => "ToolUse".to_string(),
            FinishReason::Other(reason) => {
                let mut out = "Other(".to_string();
                out.append(quote(reason.as_str()).as_str());
                out.append(")");
                out
            },
        }
    }
}

impl Default for FinishReason {
    fn default() -> (r: Self)
        ensures
            r is Stop,
    {
        FinishReason::Stop
    }
}

impl Clone for FinishReason {
    fn clone(&self) -> (r: Self)
        ensures
            r@ == self@,
    {
        match self {
            FinishReason::Stop => FinishReason::Stop,
            FinishReason::MaxTokens => FinishReason::MaxTokens,
            FinishReason::ContentFilter => FinishReason::ContentFilter,
            FinishReason::ToolUse => FinishReason::ToolUse,
            FinishReason::Other(reason) => FinishReason::Other(reason.clone()),
        }
    }
}

#[derive(Debug)]
pub struct Response {
    /// Flattened text content (all text blocks concatenated).
    pub content: String,
    /// Any tool calls the model requested this turn. Empty when the model
    /// returned only text.
    pub tool_calls: Vec<ToolUse>,
    pub usage: Usage,
    pub model: ModelId,
    pub finish_reason: FinishReason,
    /// Wall-clock time for the provider round-trip.
    pub latency: Duration,
    /// The unmodified provider response (escape hatch).
    pub raw: Value,
}

/// What a response says.
pub struct ResponseView {
    pub content: Seq<char>,
    pub tool_calls: Seq<ToolUseView>,
    pub usage: Usage,
    pub model: Seq<char>,
    pub finish_reason: FinishReasonView,
    pub latency: Duration,
    pub raw: Json,
}

impl View for Response {
    type V = ResponseView;

    open spec fn view(&self) -> ResponseView {
        ResponseView {
            content: self.content@,
            tool_calls: call_views(self.tool_calls@),
            usage: self.usage,
            model: self.model@,
            finish_reason: self.finish_reason@,
            latency: self.latency,
            raw: json::json_of(self.raw),
        }
    }
}

/// What `format!("{:?}", ..)` makes of a duration, such as `1.24s`.
pub uninterp spec fn shown_duration(latency: Duration) -> Seq<char>;

/// `format!` of a `Duration` with `{:?}`. The result is named by [`shown_duration`].
#[verifier::external_body]
fn show_duration(latency: Duration) -> (r: String)
    ensures
        r@ == shown_duration(latency),
{
    format!("{:?}", latency)
}

impl ResponseView {
    /// The assistant turn that this response is: its text, where it has any,
    /// followed by one `tool_use` block for each call.
    pub open spec fn turn(self) -> MessageView {
        let text: Seq<BlockView> = if self.content.len() == 0 {
            Seq::empty()
        } else {
            seq![BlockView::Text { text: self.content }]
        };
        MessageView {
            role: Role::Assistant,
            content: text + self.tool_calls.map_values(
                |call: ToolUseView| BlockView::ToolUse { call },
            ),
        }
    }

    /// The model and the latency, given how the latency is shown, the text, then the
    /// token counts and why the model stopped.
    pub open spec fn summary(self, latency: Seq<char>) -> Seq<char> {
        "["@ + self.model + "] ("@ + latency + ")\n"@ + self.content
            + "\ntokens: "@ + text::decimal(self.usage.input_tokens as nat) + " in / "@
            + text::decimal(self.usage.output_tokens as nat) + " out | finish: "@
            + self.finish_reason.described()
    }
}

impl Response {
    /// The response as the assistant turn of a conversation: its text, where it
    /// has any, followed by one `tool_use` block for each call.
    pub fn assistant_message(&self) -> (r: Message)
        ensures
            r@ == self@.turn(),
    {
        let mut content: Vec<ContentBlock> = Vec::new();
        if !self.content.as_str().is_empty() {
            content.push(ContentBlock::Text { text: self.content.clone() });
        }
        let ghost head = block_views(content@);
        let ghost blocks = self@.tool_calls.map_values(
            |call: ToolUseView| BlockView::ToolUse { call },
        );
        assert(head + blocks.take(0) =~= head);
        assert(head =~= if self.content@.len() == 0 {
            Seq::<BlockView>::empty()
        } else {
            seq![BlockView::Text { text: self.content@ }]
        });
        let mut i: usize = 0;
        while i < self.tool_calls.len()
            invariant
                i <= self.tool_calls.len(),
                blocks == self@.tool_calls.map_values(
                    |call: ToolUseView| BlockView::ToolUse { call },
                ),
                block_views(content@) == head + blocks.take(i as int),
            decreases self.tool_calls.len() - i,
        {
            let call = &self.tool_calls[i];
            let block = ContentBlock::ToolUse {
                id: call.id.clone(),
                name: call.name.clone(),
                input: call.input.clone(),
            };
            assert(block@ == blocks[i as int]);
            let ghost before = block_views(content@);
            content.push(block);
            assert(block_views(content@) =~= before.push(block@));
            assert(block_views(content@) =~= head + blocks.take(i + 1));
            i = i + 1;
        }
        assert(blocks.take(i as int) =~= blocks);
        Message { role: Role::Assistant, content }
    }

    /// The response as text for a reader: the model and the latency on the first
    /// line, then the text, then the token counts and why the model stopped.
    pub fn to_string(&self) -> (r: String)
        ensures
            r@ == self@.summary(shown_duration(self.latency)),
    {
        self.summarize(show_duration(self.latency).as_str())
    }

    /// The response as text for a reader, given how its latency is shown.
    pub fn summarize(&self, latency: &str) -> (r: String)
        ensures
            r@ == self@.summary(latency@),
    {
        let mut out = "[".to_string();
        out.append(self.model.as_str());
        out.append("] (");
        out.append(latency);
        out.append(")\n");
        out.append(self.content.as_str());
        out.append("\ntokens: ");
        out.append(text::to_decimal(self.usage.input_tokens as u64).as_str());
        out.append(" in / ");
        out.append(text::to_decimal(self.usage.output_tokens as u64).as_str());
        out.append(" out | finish: ");
        out.append(self.finish_reason.describe().as_str());
        out
    }
}

impl Clone for Response {
    fn clone(&self) -> (r: Self)
        ensures
            r@ == self@,
    {
        let r = Response {
            content: self.content.clone(),
            tool_calls: self.tool_calls.clone(),
            usage: self.usage,
            model: self.model.clone(),
            finish_reason: self.finish_reason.clone(),
            latency: self.latency,
            raw: self.raw.clone(),
        };
        assert(r@.tool_calls =~= self@.tool_calls);
        r
    }
}

// ---------------------------------------------------------------------------
// Streaming
// ---------------------------------------------------------------------------

#[derive(Debug)]
pub enum StreamChunk {
    Delta(String),
    Done { usage: Option<Usage> },
    Error(String),
}

/// What a chunk of a stream says.
pub enum StreamChunkView {
    Delta(Seq<char>),
    Done { usage: Option<Usage> },
    Error(Seq<char>),
}

impl View for StreamChunk {
    type V = StreamChunkView;

    open spec fn view(&self) -> StreamChunkView {
        match self {
            StreamChunk::Delta(text) => StreamChunkView::Delta(text@),
            StreamChunk::Done { usage } => StreamChunkView::Done { usage: *usage },
            StreamChunk::Error(message) => StreamChunkView::Error(message@),
        }
    }
}

impl Clone for StreamChunk {
    fn clone(&self) -> (r: Self)
        ensures
            r@ == self@,
    {
        match self {
            StreamChunk::Delta(text) => StreamChunk::Delta(text.clone()),
            StreamChunk::Done { usage } => StreamChunk::Done { usage: *usage },
            StreamChunk::Error(message) => StreamChunk::Error(message.clone()),
        }
    }
}

// ---------------------------------------------------------------------------
// Embeddings
// ---------------------------------------------------------------------------

#[derive(Debug)]
pub struct EmbedRequest {
    pub model: ModelId,
    pub input: Vec<String>,
}

impl Clone for EmbedRequest {
    fn clone(&self) -> (r: Self)
        ensures
            r.model@ == self.model@,
            text::texts(r.input@) == text::texts(self.input@),
    {
        let input = self.input.clone();
        assert(text::texts(input@) =~= text::texts(self.input@));
        EmbedRequest { model: self.model.clone(), input }
    }
}

/// The vectors of an embedding. A component is kept as the bit pattern of its
/// single-precision number.
#[derive(Debug)]
pub struct Embedding {
    pub vectors: Vec<Vec<u32>>,
    pub model: ModelId,
    pub usage: Usage,
}

impl Clone for Embedding {
    fn clone(&self) -> (r: Self)
        ensures
            r.vectors.deep_view() == self.vectors.deep_view(),
            r.model@ == self.model@,
            r.usage == self.usage,
    {
        let vectors = self.vectors.clone();
        proof {
            assert forall|i: int| 0 <= i < vectors.len() implies vectors@[i].deep_view()
                == self.vectors@[i].deep_view() by {
                assert(cloned::<Vec<u32>>(self.vectors@[i], vectors@[i]));
                assert(vectors@[i].deep_view() =~= self.vectors@[i].deep_view());
            }
            assert(vectors.deep_view() =~= self.vectors.deep_view());
        }
        Embedding { vectors, model: self.model.clone(), usage: self.usage }
    }
}

// ---------------------------------------------------------------------------
// Laws
// ---------------------------------------------------------------------------

/// The text of two runs of blocks is the text of the first followed by the text
/// of the second.
pub proof fn law_text_of_concatenation(a: Seq<BlockView>, b: Seq<BlockView>)
    ensures
        blocks_text(a + b) == blocks_text(a) + blocks_text(b),
    decreases b.len(),
{
    if b.len() == 0 {
        assert(a + b =~= a);
        assert(blocks_text(a) + blocks_text(b) =~= blocks_text(a));
    } else {
        law_text_of_concatenation(a, b.drop_last());
        assert((a + b).drop_last() =~= a + b.drop_last());
        assert(blocks_text(a + b) =~= blocks_text(a) + blocks_text(b));
    }
}

/// The calls of two runs of blocks are the calls of the first followed by the
/// calls of the second.
pub proof fn law_calls_of_concatenation(a: Seq<BlockView>, b: Seq<BlockView>)
    ensures
        blocks_calls(a + b) == blocks_calls(a) + blocks_calls(b),
    decreases b.len(),
{
    if b.len() == 0 {
        assert(a + b =~= a);
        assert(blocks_calls(a) + blocks_calls(b) =~= blocks_calls(a));
    } else {
        law_calls_of_concatenation(a, b.drop_last());
        assert((a + b).drop_last() =~= a + b.drop_last());
        assert(blocks_calls(a + b) =~= blocks_calls(a) + blocks_calls(b));
    }
}

/// The text of a message made from a text is that text.
pub proof fn law_text_message_has_its_text(role: Role, text: Seq<char>)
    ensures
        blocks_text(MessageView::of_text(role, text).content) == text,
        blocks_calls(MessageView::of_text(role, text).content).len() == 0,
{
    let blocks = MessageView::of_text(role, text).content;
    assert(blocks.drop_last() =~= Seq::<BlockView>::empty());
    assert(blocks_text(Seq::<BlockView>::empty()) =~= Seq::<char>::empty());
    assert(blocks_calls(Seq::<BlockView>::empty()) =~= Seq::<ToolUseView>::empty());
    assert(blocks_text(blocks) =~= text);
}

proof fn lemma_call_blocks(calls: Seq<ToolUseView>)
    ensures
        blocks_text(calls.map_values(|call: ToolUseView| BlockView::ToolUse { call })).len() == 0,
        blocks_calls(calls.map_values(|call: ToolUseView| BlockView::ToolUse { call })) == calls,
    decreases calls.len(),
{
    let blocks = calls.map_values(|call: ToolUseView| BlockView::ToolUse { call });
    if calls.len() == 0 {
        assert(blocks_calls(blocks) =~= calls);
    } else {
        lemma_call_blocks(calls.drop_last());
        assert(blocks.drop_last() =~= calls.drop_last().map_values(
            |call: ToolUseView| BlockView::ToolUse { call },
        ));
        assert(blocks_calls(blocks) =~= calls);
    }
}

/// The assistant turn of a response carries the response's text and exactly its
/// tool calls, in order.
pub proof fn law_turn_carries_response(response: ResponseView)
    ensures
        response.turn().role == Role::Assistant,
        blocks_text(response.turn().content) == response.content,
        blocks_calls(response.turn().content) == response.tool_calls,
{
    let text: Seq<BlockView> = if response.content.len() == 0 {
        Seq::empty()
    } else {
        seq![BlockView::Text { text: response.content }]
    };
    let blocks = response.tool_calls.map_values(|call: ToolUseView| BlockView::ToolUse { call });
    law_text_of_concatenation(text, blocks);
    law_calls_of_concatenation(text, blocks);
    lemma_call_blocks(response.tool_calls);
    if response.content.len() > 0 {
        assert(text.drop_last() =~= Seq::<BlockView>::empty());
        assert(blocks_text(Seq::<BlockView>::empty()) =~= Seq::<char>::empty());
        assert(blocks_text(text) =~= response.content);
        assert(blocks_calls(Seq::<BlockView>::empty()) =~= Seq::<ToolUseView>::empty());
        assert(blocks_calls(text) =~= Seq::<ToolUseView>::empty());
    }
    assert(blocks_text(response.turn().content) =~= response.content);
    assert(blocks_calls(response.turn().content) =~= response.tool_calls);
}

/// The text and the calls of a single block: a text block is its text and requests
/// nothing; a `tool_use` block requests its call and says nothing; a `tool_result` block
/// does neither. No blocks, no text and no calls.
pub proof fn law_text_and_calls_of_one_block(block: BlockView)
    ensures
        blocks_text(Seq::empty()) == Seq::<char>::empty(),
        blocks_calls(Seq::empty()) == Seq::<ToolUseView>::empty(),
        match block {
            BlockView::Text { text } => blocks_text(seq![block]) == text && blocks_calls(
                seq![block],
            ) == Seq::<ToolUseView>::empty(),
            BlockView::ToolUse { call } => blocks_text(seq![block]) == Seq::<char>::empty()
                && blocks_calls(seq![block]) == seq![call],
            BlockView::ToolResult { .. } => blocks_text(seq![block]) == Seq::<char>::empty()
                && blocks_calls(seq![block]) == Seq::<ToolUseView>::empty(),
        },
{
    let one = seq![block];
    let none = Seq::<BlockView>::empty();
    assert(one.len() == 1 && one.last() == block);
    assert(one.drop_last() =~= none);
    assert(blocks_text(none) =~= Seq::<char>::empty());
    assert(blocks_calls(none) =~= Seq::<ToolUseView>::empty());
    match block {
        BlockView::Text { text } => {
            assert(blocks_text(one) =~= text);
            assert(blocks_calls(one) =~= Seq::<ToolUseView>::empty());
        },
        BlockView::ToolUse { call } => {
            assert(blocks_text(one) =~= Seq::<char>::empty());
            assert(blocks_calls(one) =~= seq![call]);
        },
        BlockView::ToolResult { .. } => {
            assert(blocks_text(one) =~= Seq::<char>::empty());
            assert(blocks_calls(one) =~= Seq::<ToolUseView>::empty());
        },
    }
}

/// A message made from a text is one text block with exactly that text, under its role;
/// one made from a tool result is one result block of the user, with exactly the
/// identifier, the content and the flag that were given.
pub proof fn law_messages_hold_what_they_are_made_from(
    role: Role,
    text: Seq<char>,
    tool_use_id: Seq<char>,
    is_error: bool,
)
    ensures
        ({
            let m = MessageView::of_text(role, text);
            &&& m.role == role
            &&& m.content.len() == 1
            &&& m.content[0] == BlockView::Text { text }
        }),
        ({
            let m = MessageView::of_tool_result(tool_use_id, text, is_error);
            &&& m.role == Role::User
            &&& m.content.len() == 1
            &&& m.content[0] == BlockView::ToolResult { tool_use_id, content: text, is_error }
        }),
{
}

/// The names of the roles on the wire.
pub proof fn law_role_names(role: Role)
    ensures
        match role {
            Role::System => role.name() == "system"@,
            Role::User => role.name() == "user"@,
            Role::Assistant => role.name() == "assistant"@,
        },
{
}

/// A reason is described by the name of its variant; one of the provider's own stands in
/// quotes and brackets.
pub proof fn law_reasons_described(reason: FinishReasonView)
    ensures
        match reason {
            FinishReasonView::Stop => reason.described() == "Stop"@,
            FinishReasonView::MaxTokens => reason.described() == "MaxTokens"@,
            FinishReasonView::ContentFilter => reason.described() == "ContentFilter"@,
            FinishReasonView::ToolUse => reason.described() == "ToolUse"@,
            FinishReasonView::Other(other) => reason.described() == "Other("@ + quoted(other)
                + ")"@,
        },
{
}

/// The text for a reader is three pieces, whatever the response holds: the model and the
/// latency, the whole text between two newlines, and the counts in full with the reason.
pub proof fn law_summary_is_complete(response: ResponseView, latency: Seq<char>)
    ensures
        ({
            let head = "["@ + response.model + "] ("@ + latency + ")"@;
            let counts = "tokens: "@ + text::decimal(response.usage.input_tokens as nat)
                + " in / "@ + text::decimal(response.usage.output_tokens as nat)
                + " out | finish: "@ + response.finish_reason.described();
            response.summary(latency) == head + seq!['\n'] + response.content + seq!['\n']
                + counts
        }),
{
    reveal_strlit(")");
    reveal_strlit(")\n");
    reveal_strlit("tokens: ");
    reveal_strlit("\ntokens: ");
    let counts = "tokens: "@ + text::decimal(response.usage.input_tokens as nat) + " in / "@
        + text::decimal(response.usage.output_tokens as nat) + " out | finish: "@
        + response.finish_reason.described();
    let head = "["@ + response.model + "] ("@ + latency + ")"@;
    assert(")\n"@ =~= ")"@ + seq!['\n']);
    assert("\ntokens: "@ =~= seq!['\n'] + "tokens: "@);
    assert(response.summary(latency) =~= head + seq!['\n'] + response.content + seq!['\n']
        + counts);
}

/// The assistant turn of a response, block by block: its whole text first, where it has
/// any, then each call as it was requested, and nothing else.
pub proof fn law_turn_block_by_block(response: ResponseView)
    ensures
        ({
            let blocks = response.turn().content;
            let first: int = if response.content.len() > 0 {
                1
            } else {
                0
            };
            &&& response.turn().role == Role::Assistant
            &&& blocks.len() == first + response.tool_calls.len()
            &&& response.content.len() > 0 ==> blocks[0] == BlockView::Text {
                text: response.content,
            }
            &&& forall|j: int|
                first <= j < blocks.len() ==> #[trigger] blocks[j] == BlockView::ToolUse {
                    call: response.tool_calls[j - first],
                }
        }),
{
}

/// What a message, a call and a definition say is what their fields hold: every block in
/// order, with all of its fields.
pub proof fn law_views_of_parts(message: Message, call: ToolUse, tool: ToolDefinition)
    ensures
        message@.role == message.role,
        message@.content.len() == message.content@.len(),
        forall|i: int|
            0 <= i < message.content@.len() ==> match message.content@[i] {
                ContentBlock::Text { text } => #[trigger] message@.content[i] == BlockView::Text {
                    text: text@,
                },
                ContentBlock::ToolUse { id, name, input } => message@.content[i]
                    == BlockView::ToolUse {
                    call: ToolUseView { id: id@, name: name@, input: json::json_of(input) },
                },
                ContentBlock::ToolResult { tool_use_id, content, is_error } => message@.content[i]
                    == BlockView::ToolResult {
                    tool_use_id: tool_use_id@,
                    content: content@,
                    is_error,
                },
            },
        call@.id == call.id@ && call@.name == call.name@ && call@.input == json::json_of(
            call.input,
        ),
        tool@.name == tool.name@ && tool@.description == tool.description@ && tool@.input_schema
            == json::json_of(tool.input_schema),
{
}

/// What a request asks for is what its fields hold: every message, tool and stop sequence
/// in order, and each setting where it is set.
pub proof fn law_view_of_request(req: Request)
    ensures
        req@.messages.len() == req.messages@.len(),
        forall|i: int|
            0 <= i < req.messages@.len() ==> #[trigger] req@.messages[i] == req.messages@[i]@,
        req@.model == req.model.0@,
        req@.max_tokens == req.max_tokens,
        match req.temperature {
            Some(t) => req@.temperature == Some(json::json_of(t)),
            None => req@.temperature is None,
        },
        match req.system {
            Some(s) => req@.system == Some(s@),
            None => req@.system is None,
        },
        req@.stop.len() == req.stop@.len(),
        forall|i: int| 0 <= i < req.stop@.len() ==> #[trigger] req@.stop[i] == req.stop@[i]@,
        req@.tools.len() == req.tools@.len(),
        forall|i: int| 0 <= i < req.tools@.len() ==> #[trigger] req@.tools[i] == req.tools@[i]@,
{
}

/// What a response says is what its fields hold: the whole text, every call in order, and
/// the counts, the model, the reason, the latency and the raw reply as they are.
pub proof fn law_view_of_response(response: Response)
    ensures
        response@.content == response.content@,
        response@.tool_calls.len() == response.tool_calls@.len(),
        forall|i: int|
            0 <= i < response.tool_calls@.len() ==> #[trigger] response@.tool_calls[i]
                == response.tool_calls@[i]@,
        response@.usage == response.usage,
        response@.model == response.model.0@,
        response@.latency == response.latency,
        response@.raw == json::json_of(response.raw),
        match response.finish_reason {
            FinishReason::Stop => response@.finish_reason is Stop,
            FinishReason::MaxTokens => response@.finish_reason is MaxTokens,
            FinishReason::ContentFilter => response@.finish_reason is ContentFilter,
            FinishReason::ToolUse => response@.finish_reason is ToolUse,
            FinishReason::Other(reason) => response@.finish_reason == FinishReasonView::Other(
                reason@,
            ),
        },
{
}

/// What a chunk of a stream says is what its field holds.
pub proof fn law_view_of_chunk(chunk: StreamChunk)
    ensures
        match chunk {
            StreamChunk::Delta(text) => chunk@ == StreamChunkView::Delta(text@),
            StreamChunk::Done { usage } => chunk@ == StreamChunkView::Done { usage },
            StreamChunk::Error(message) => chunk@ == StreamChunkView::Error(message@),
        },
{
}

} // verus!
