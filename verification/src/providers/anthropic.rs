//! The Anthropic Messages API.

use std::time::Duration;

use serde_json::Value;
use vstd::prelude::*;

use crate::error::ProviderError;
use crate::json;
use crate::json::{Json, Number};
use crate::providers;
use crate::text;
use crate::transport::{HttpRequest, HttpRequestView};
use crate::types;
use crate::types::{
    BlockView, ContentBlock, FinishReason, FinishReasonView, MessageView, ModelId, Request,
    RequestView, Response, ResponseView, Role, ToolDefinition, ToolDefinitionView, ToolUse,
    ToolUseView, Usage,
};

verus! {

// ---------------------------------------------------------------------------
// Provider
// ---------------------------------------------------------------------------

/// A client of the Messages API: whose key it uses, where it sends its requests, and
/// which model serves those that name none.
#[derive(Debug)]
pub struct AnthropicProvider {
    api_key: String,
    base_url: String,
    model: ModelId,
}

/// How a client of the Messages API is set up.
pub struct AnthropicView {
    pub api_key: Seq<char>,
    pub base_url: Seq<char>,
    pub model: Seq<char>,
}

impl View for AnthropicProvider {
    type V = AnthropicView;

    closed spec fn view(&self) -> AnthropicView {
        AnthropicView { api_key: self.api_key@, base_url: self.base_url@, model: self.model@ }
    }
}

/// The headers of a request.
pub open spec fn header_views(api_key: Seq<char>) -> Seq<(Seq<char>, Seq<char>)> {
    seq![
        ("x-api-key"@, api_key),
        ("anthropic-version"@, "2023-06-01"@),
        ("content-type"@, "application/json"@),
    ]
}

/// The request to the network for a request.
pub open spec fn http_request_view(
    provider: AnthropicView,
    req: RequestView,
    stream: bool,
) -> HttpRequestView {
    HttpRequestView {
        url: provider.base_url + "/v1/messages"@,
        headers: header_views(provider.api_key),
        body: messages_request_json(messages_request(req, provider.model, stream)),
    }
}

impl AnthropicProvider {
    #[verifier::type_invariant]
    spec fn well_formed(self) -> bool {
        providers::no_slash_at_end(self.base_url@)
    }

    /// A client of the public API.
    pub fn new<K: Into<String>, M: Into<String>>(api_key: K, model: M) -> (r: Self)
        ensures
            exists|k: String| text::becomes(api_key, k) && r@.api_key == #[trigger] k@,
            exists|m: String| text::becomes(model, m) && r@.model == #[trigger] m@,
            r@.base_url == "https://api.anthropic.com"@,
    {
        let k: String = api_key.into();
        let m: String = model.into();
        assert(text::becomes(api_key, k) && text::becomes(model, m));
        proof {
            reveal_strlit("https://api.anthropic.com");
        }
        let r = AnthropicProvider {
            api_key: k,
            base_url: "https://api.anthropic.com".to_string(),
            model: ModelId(m),
        };
        assert(r@.api_key == k@ && r@.model == m@);
        r
    }

    /// A client of the API at another place. Slashes at the end of the URL do not
    /// count.
    pub fn with_base_url<K: Into<String>, M: Into<String>, U: Into<String>>(
        api_key: K,
        model: M,
        base_url: U,
    ) -> (r: Self)
        ensures
            exists|k: String| text::becomes(api_key, k) && r@.api_key == #[trigger] k@,
            exists|m: String| text::becomes(model, m) && r@.model == #[trigger] m@,
            exists|u: String|
                text::becomes(base_url, u) && r@.base_url == text::without_trailing_slashes(
                    #[trigger] u@,
                ),
    {
        let k: String = api_key.into();
        let m: String = model.into();
        let u: String = base_url.into();
        assert(text::becomes(api_key, k) && text::becomes(model, m) && text::becomes(base_url, u));
        proof {
            text::law_no_trailing_slash(u@);
        }
        let r = AnthropicProvider {
            api_key: k,
            base_url: text::trim_trailing_slashes(u.as_str()),
            model: ModelId(m),
        };
        assert(r@.api_key == k@ && r@.model == m@);
        assert(r@.base_url == text::without_trailing_slashes(u@));
        r
    }

    /// Where requests are sent; no slash stands at the end.
    pub fn base_url(&self) -> (r: &str)
        ensures
            r@ == self@.base_url,
            providers::no_slash_at_end(r@),
    {
        proof {
            use_type_invariant(self);
        }
        self.base_url.as_str()
    }

    /// The model that serves requests that name none.
    pub fn model_id(&self) -> (r: &ModelId)
        ensures
            r@ == self@.model,
    {
        &self.model
    }

    fn headers(&self) -> (r: Vec<(String, String)>)
        ensures
            r@.map_values(|h: (String, String)| (h.0@, h.1@)) == header_views(self@.api_key),
    {
        let mut headers: Vec<(String, String)> = Vec::new();
        headers.push(("x-api-key".to_string(), self.api_key.clone()));
        headers.push(("anthropic-version".to_string(), "2023-06-01".to_string()));
        headers.push(("content-type".to_string(), "application/json".to_string()));
        assert(headers@.map_values(|h: (String, String)| (h.0@, h.1@)) =~= header_views(
            self@.api_key,
        ));
        headers
    }

    /// The request to the network that a completion, or a stream, starts with.
    pub fn http_request(&self, req: &Request, stream: bool) -> (r: HttpRequest)
        ensures
            r@ == (HttpRequestView {
                url: self@.base_url + "/v1/messages"@,
                headers: header_views(self@.api_key),
                body: messages_request_json(messages_request(req@, self@.model, stream)),
            }),
            r@ == http_request_view(self@, req@, stream),
    {
        let mut url = self.base_url.clone();
        url.append("/v1/messages");
        let body = MessagesRequest::from_request(req, &self.model, stream);
        HttpRequest { url, headers: self.headers(), body: body.to_value() }
    }

    /// Reads the answer to a completion.
    pub fn read_answer(&self, raw: Value, latency: Duration) -> (r: Result<
        Response,
        ProviderError,
    >)
        ensures
            r matches Ok(response) && response@ == messages_response(
                json::json_of(raw),
                self@.model,
                latency,
            ),
    {
        parse_messages_response(raw, &self.model, latency)
    }
}

// ---------------------------------------------------------------------------
// Request body
// ---------------------------------------------------------------------------

/// A content block in the form of the Messages API. The error flag of a tool result
/// is written only where it is set.
pub open spec fn block_json(block: BlockView) -> Json {
    match block {
        BlockView::Text { text } => Json::no_members().with("type"@, Json::Text("text"@)).with(
            "text"@,
            Json::Text(text),
        ),
        BlockView::ToolUse { call } => Json::no_members().with(
            "type"@,
            Json::Text("tool_use"@),
        ).with("id"@, Json::Text(call.id)).with("name"@, Json::Text(call.name)).with(
            "input"@,
            call.input,
        ),
        BlockView::ToolResult { tool_use_id, content, is_error } => {
            let result = Json::no_members().with("type"@, Json::Text("tool_result"@)).with(
                "tool_use_id"@,
                Json::Text(tool_use_id),
            ).with("content"@, Json::Text(content));
            if is_error {
                result.with("is_error"@, Json::Bool(true))
            } else {
                result
            }
        },
    }
}

/// Content blocks in the form of the Messages API, in order.
pub open spec fn blocks_json(blocks: Seq<BlockView>) -> Json {
    Json::Array(blocks.map_values(|b: BlockView| block_json(b)))
}

fn block_to_anthropic(block: &ContentBlock) -> (r: Value)
    ensures
        json::json_of(r) == block_json(block@),
{
    let mut v = json::empty_object();
    match block {
        ContentBlock::Text { text } => {
            json::set_text(&mut v, "type", "text");
            json::set_text(&mut v, "text", text.as_str());
        },
        ContentBlock::ToolUse { id, name, input } => {
            json::set_text(&mut v, "type", "tool_use");
            json::set_text(&mut v, "id", id.as_str());
            json::set_text(&mut v, "name", name.as_str());
            json::set_member(&mut v, "input", input.clone());
        },
        ContentBlock::ToolResult { tool_use_id, content, is_error } => {
            json::set_text(&mut v, "type", "tool_result");
            json::set_text(&mut v, "tool_use_id", tool_use_id.as_str());
            json::set_text(&mut v, "content", content.as_str());
            if *is_error {
                json::set_member(&mut v, "is_error", json::bool_value(true));
            }
        },
    }
    v
}

/// Serialize a message's content blocks into Anthropic's content-array format.
pub fn blocks_to_anthropic(content: &[ContentBlock]) -> (r: Value)
    ensures
        json::json_of(r) == blocks_json(types::block_views(content@)),
{
    let mut items: Vec<Value> = Vec::new();
    let mut i: usize = 0;
    while i < content.len()
        invariant
            i <= content.len(),
            items@.len() == i,
            forall|j: int|
                0 <= j < i ==> json::json_of(#[trigger] items@[j]) == block_json(content@[j]@),
        decreases content.len() - i,
    {
        items.push(block_to_anthropic(&content[i]));
        i = i + 1;
    }
    assert(json::jsons(items@) =~= types::block_views(content@).map_values(
        |b: BlockView| block_json(b),
    ));
    json::array_value(items)
}

/// A message in the form of the Messages API.
#[derive(Debug)]
pub struct ApiMessage {
    pub role: String,
    pub content: Value,
}

/// What a message of the Messages API says.
pub struct ApiMessageView {
    pub role: Seq<char>,
    pub content: Json,
}

impl View for ApiMessage {
    type V = ApiMessageView;

    open spec fn view(&self) -> ApiMessageView {
        ApiMessageView { role: self.role@, content: json::json_of(self.content) }
    }
}

/// The views of several messages of the Messages API.
pub open spec fn api_message_views(messages: Seq<ApiMessage>) -> Seq<ApiMessageView> {
    messages.map_values(|m: ApiMessage| m@)
}

/// The body of a request to the Messages API.
#[derive(Debug)]
pub struct MessagesRequest {
    pub model: String,
    pub messages: Vec<ApiMessage>,
    pub max_tokens: u32,
    pub system: Option<String>,
    pub temperature: Option<Value>,
    pub stop_sequences: Vec<String>,
    pub tools: Vec<ToolDefinition>,
    pub stream: bool,
}

/// What the body of a request to the Messages API says.
pub struct MessagesRequestView {
    pub model: Seq<char>,
    pub messages: Seq<ApiMessageView>,
    pub max_tokens: u32,
    pub system: Option<Seq<char>>,
    pub temperature: Option<Json>,
    pub stop_sequences: Seq<Seq<char>>,
    pub tools: Seq<ToolDefinitionView>,
    pub stream: bool,
}

impl View for MessagesRequest {
    type V = MessagesRequestView;

    open spec fn view(&self) -> MessagesRequestView {
        MessagesRequestView {
            model: self.model@,
            messages: api_message_views(self.messages@),
            max_tokens: self.max_tokens,
            system: types::text_option(self.system),
            temperature: types::json_option(self.temperature),
            stop_sequences: text::texts(self.stop_sequences@),
            tools: types::definition_views(self.tools@),
            stream: self.stream,
        }
    }
}

/// The texts of the system messages, in order.
pub open spec fn system_texts(messages: Seq<MessageView>) -> Seq<Seq<char>>
    decreases messages.len(),
{
    if messages.len() == 0 {
        Seq::empty()
    } else {
        let before = system_texts(messages.drop_last());
        if messages.last().role == Role::System {
            before.push(types::blocks_text(messages.last().content))
        } else {
            before
        }
    }
}

/// The messages of the user and the assistant in the form of the Messages API, in
/// order.
pub open spec fn api_messages(messages: Seq<MessageView>) -> Seq<ApiMessageView>
    decreases messages.len(),
{
    if messages.len() == 0 {
        Seq::empty()
    } else {
        let before = api_messages(messages.drop_last());
        if messages.last().role == Role::System {
            before
        } else {
            before.push(
                ApiMessageView {
                    role: messages.last().role.name(),
                    content: blocks_json(messages.last().content),
                },
            )
        }
    }
}

/// The parts of the top-level `system` field: the request's own, then the texts of
/// its system messages.
pub open spec fn system_parts(req: RequestView) -> Seq<Seq<char>> {
    match req.system {
        Some(s) => seq![s] + system_texts(req.messages),
        None => system_texts(req.messages),
    }
}

/// The number of tokens that is asked for where a request sets none.
pub const DEFAULT_MAX_TOKENS: u32 = 4096;

/// The body for a request. System messages are lifted out of the messages into the
/// top-level `system` field, one per line.
pub open spec fn messages_request(
    req: RequestView,
    default_model: Seq<char>,
    stream: bool,
) -> MessagesRequestView {
    MessagesRequestView {
        model: providers::resolved_model(req.model, default_model),
        messages: api_messages(req.messages),
        max_tokens: match req.max_tokens {
            Some(n) => n,
            None => DEFAULT_MAX_TOKENS,
        },
        system: if system_parts(req).len() == 0 {
            None
        } else {
            Some(text::joined(system_parts(req), "\n"@))
        },
        temperature: req.temperature,
        stop_sequences: req.stop,
        tools: req.tools,
        stream,
    }
}

impl MessagesRequest {
    pub fn from_request(req: &Request, default_model: &ModelId, stream: bool) -> (r: Self)
        ensures
            r@ == messages_request(req@, default_model@, stream),
    {
        let model = providers::resolve_model(&req.model, default_model);

        // Anthropic requires max_tokens.
        let max_tokens: u32 = match req.max_tokens {
            Some(n) => n,
            None => DEFAULT_MAX_TOKENS,
        };

        // Collect system messages into the top-level `system` field.
        // Anthropic doesn't allow role:"system" in the messages array.
        let mut parts: Vec<String> = Vec::new();
        if let Some(s) = &req.system {
            parts.push(s.clone());
        }
        let ghost own = text::texts(parts@);
        assert(own =~= match req@.system {
            Some(s) => seq![s],
            None => Seq::empty(),
        });

        let mut messages: Vec<ApiMessage> = Vec::new();
        let mut i: usize = 0;
        assert(own + Seq::<Seq<char>>::empty() =~= own);
        assert(api_message_views(messages@) =~= Seq::<ApiMessageView>::empty());
        while i < req.messages.len()
            invariant
                i <= req.messages.len(),
                text::texts(parts@) == own + system_texts(req@.messages.take(i as int)),
                api_message_views(messages@) == api_messages(req@.messages.take(i as int)),
            decreases req.messages.len() - i,
        {
            let m = &req.messages[i];
            let ghost parts_before = text::texts(parts@);
            let ghost messages_before = api_message_views(messages@);
            proof {
                assert(req@.messages.take(i + 1).drop_last() =~= req@.messages.take(i as int));
                assert(req@.messages.take(i + 1).last() == m@);
            }
            match m.role {
                // System messages contribute only their text to the top-level
                // system field (Anthropic disallows role:"system" in the array).
                Role::System => {
                    let t = m.text();
                    parts.push(t);
                    assert(text::texts(parts@) =~= parts_before.push(t@));
                    assert(text::texts(parts@) =~= own + system_texts(req@.messages.take(i + 1)));
                },
                _ => {
                    let message = ApiMessage {
                        role: m.role.as_str().to_string(),
                        content: blocks_to_anthropic(m.content.as_slice()),
                    };
                    messages.push(message);
                    assert(api_message_views(messages@) =~= messages_before.push(message@));
                },
            }
            i = i + 1;
        }
        assert(req@.messages.take(i as int) =~= req@.messages);
        assert(text::texts(parts@) =~= system_parts(req@));

        let system = if parts.len() == 0 {
            None
        } else {
            Some(text::join(&parts, "\n"))
        };

        let r = MessagesRequest {
            model,
            messages,
            max_tokens,
            system,
            temperature: req.temperature.clone(),
            stop_sequences: req.stop.clone(),
            tools: req.tools.clone(),
            stream,
        };
        assert(r@.stop_sequences =~= req@.stop);
        assert(r@.tools =~= req@.tools);
        r
    }
}

/// A message of the Messages API as JSON.
pub open spec fn api_message_json(message: ApiMessageView) -> Json {
    Json::no_members().with("role"@, Json::Text(message.role)).with("content"@, message.content)
}

/// A tool definition as JSON.
pub open spec fn definition_json(tool: ToolDefinitionView) -> Json {
    Json::no_members().with("name"@, Json::Text(tool.name)).with(
        "description"@,
        Json::Text(tool.description),
    ).with("input_schema"@, tool.input_schema)
}

/// The body of a request as JSON. What is not set, and lists that are empty, are left
/// out.
pub open spec fn messages_request_json(body: MessagesRequestView) -> Json {
    let required = Json::no_members().with("model"@, Json::Text(body.model)).with(
        "messages"@,
        Json::Array(body.messages.map_values(|m: ApiMessageView| api_message_json(m))),
    ).with("max_tokens"@, Json::Number(Number::Unsigned(body.max_tokens as u64))).with(
        "stream"@,
        Json::Bool(body.stream),
    );
    let with_system = match body.system {
        Some(system) => required.with("system"@, Json::Text(system)),
        None => required,
    };
    let with_temperature = match body.temperature {
        Some(temperature) => with_system.with("temperature"@, temperature),
        None => with_system,
    };
    let with_stop = if body.stop_sequences.len() > 0 {
        with_temperature.with("stop_sequences"@, Json::strings(body.stop_sequences))
    } else {
        with_temperature
    };
    if body.tools.len() > 0 {
        with_stop.with(
            "tools"@,
            Json::Array(body.tools.map_values(|t: ToolDefinitionView| definition_json(t))),
        )
    } else {
        with_stop
    }
}

impl ApiMessage {
    fn to_value(&self) -> (r: Value)
        ensures
            json::json_of(r) == api_message_json(self@),
    {
        let mut v = json::empty_object();
        json::set_text(&mut v, "role", self.role.as_str());
        json::set_member(&mut v, "content", self.content.clone());
        v
    }
}

fn definition_to_value(tool: &ToolDefinition) -> (r: Value)
    ensures
        json::json_of(r) == definition_json(tool@),
{
    let mut v = json::empty_object();
    json::set_text(&mut v, "name", tool.name.as_str());
    json::set_text(&mut v, "description", tool.description.as_str());
    json::set_member(&mut v, "input_schema", tool.input_schema.clone());
    v
}

fn messages_to_value(messages: &Vec<ApiMessage>) -> (r: Value)
    ensures
        json::json_of(r) == Json::Array(
            api_message_views(messages@).map_values(|m: ApiMessageView| api_message_json(m)),
        ),
{
    let mut items: Vec<Value> = Vec::new();
    let mut i: usize = 0;
    while i < messages.len()
        invariant
            i <= messages.len(),
            items@.len() == i,
            forall|j: int|
                0 <= j < i ==> json::json_of(#[trigger] items@[j]) == api_message_json(
                    messages@[j]@,
                ),
        decreases messages.len() - i,
    {
        items.push(messages[i].to_value());
        i = i + 1;
    }
    assert(json::jsons(items@) =~= api_message_views(messages@).map_values(
        |m: ApiMessageView| api_message_json(m),
    ));
    json::array_value(items)
}

fn definitions_to_value(tools: &Vec<ToolDefinition>) -> (r: Value)
    ensures
        json::json_of(r) == Json::Array(
            types::definition_views(tools@).map_values(
                |t: ToolDefinitionView| definition_json(t),
            ),
        ),
{
    let mut items: Vec<Value> = Vec::new();
    let mut i: usize = 0;
    while i < tools.len()
        invariant
            i <= tools.len(),
            items@.len() == i,
            forall|j: int|
                0 <= j < i ==> json::json_of(#[trigger] items@[j]) == definition_json(tools@[j]@),
        decreases tools.len() - i,
    {
        items.push(definition_to_value(&tools[i]));
        i = i + 1;
    }
    assert(json::jsons(items@) =~= types::definition_views(tools@).map_values(
        |t: ToolDefinitionView| definition_json(t),
    ));
    json::array_value(items)
}

impl MessagesRequest {
    /// The body as JSON. What is not set, and lists that are empty, are left out.
    pub fn to_value(&self) -> (r: Value)
        ensures
            json::json_of(r) == messages_request_json(self@),
    {
        let mut v = json::empty_object();
        json::set_text(&mut v, "model", self.model.as_str());
        json::set_member(&mut v, "messages", messages_to_value(&self.messages));
        json::set_member(&mut v, "max_tokens", json::number_value(self.max_tokens));
        json::set_member(&mut v, "stream", json::bool_value(self.stream));
        if let Some(system) = &self.system {
            json::set_text(&mut v, "system", system.as_str());
        }
        if let Some(temperature) = &self.temperature {
            json::set_member(&mut v, "temperature", temperature.clone());
        }
        if self.stop_sequences.len() > 0 {
            json::set_member(&mut v, "stop_sequences", json::strings_value(&self.stop_sequences));
        }
        // Anthropic's tool schema matches our ToolDefinition field-for-field
        // ({name, description, input_schema}).
        if self.tools.len() > 0 {
            json::set_member(&mut v, "tools", definitions_to_value(&self.tools));
        }
        v
    }
}

// ---------------------------------------------------------------------------
// Response parsing
// ---------------------------------------------------------------------------

/// The text blocks of a reply, one after another.
pub open spec fn reply_text(blocks: Seq<Json>) -> Seq<char>
    decreases blocks.len(),
{
    if blocks.len() == 0 {
        Seq::empty()
    } else {
        let before = reply_text(blocks.drop_last());
        if blocks.last().at("type"@) == Json::Text("text"@) {
            before + blocks.last().at("text"@).text_or(""@)
        } else {
            before
        }
    }
}

/// The tool calls of a reply, in order.
pub open spec fn reply_calls(blocks: Seq<Json>) -> Seq<ToolUseView>
    decreases blocks.len(),
{
    if blocks.len() == 0 {
        Seq::empty()
    } else {
        let before = reply_calls(blocks.drop_last());
        if blocks.last().at("type"@) == Json::Text("tool_use"@) {
            before.push(
                ToolUseView {
                    id: blocks.last().at("id"@).text_or(""@),
                    name: blocks.last().at("name"@).text_or(""@),
                    input: blocks.last().at("input"@),
                },
            )
        } else {
            before
        }
    }
}

/// Why the model stopped, from the API's name for it.
pub open spec fn finish_reason_of(stop_reason: Seq<char>) -> FinishReasonView {
    if stop_reason == "end_turn"@ || stop_reason == "stop_sequence"@ {
        FinishReasonView::Stop
    } else if stop_reason == "max_tokens"@ {
        FinishReasonView::MaxTokens
    } else if stop_reason == "tool_use"@ {
        FinishReasonView::ToolUse
    } else {
        FinishReasonView::Other(stop_reason)
    }
}

/// What a reply of the Messages API says.
pub open spec fn messages_response(
    raw: Json,
    default_model: Seq<char>,
    latency: Duration,
) -> ResponseView {
    ResponseView {
        content: reply_text(raw.at("content"@).items()),
        tool_calls: reply_calls(raw.at("content"@).items()),
        usage: Usage {
            input_tokens: raw.at("usage"@).at("input_tokens"@).count(),
            output_tokens: raw.at("usage"@).at("output_tokens"@).count(),
        },
        model: raw.at("model"@).text_or(default_model),
        finish_reason: finish_reason_of(raw.at("stop_reason"@).text_or("end_turn"@)),
        latency,
        raw,
    }
}

fn finish_reason(stop_reason: String) -> (r: FinishReason)
    ensures
        r@ == finish_reason_of(stop_reason@),
{
    if text::same_text(stop_reason.as_str(), "end_turn") || text::same_text(
        stop_reason.as_str(),
        "stop_sequence",
    ) {
        FinishReason::Stop
    } else if text::same_text(stop_reason.as_str(), "max_tokens") {
        FinishReason::MaxTokens
    } else if text::same_text(stop_reason.as_str(), "tool_use") {
        FinishReason::ToolUse
    } else {
        FinishReason::Other(stop_reason)
    }
}

/// Reads a reply of the Messages API. It reads what is there: a field that is
/// missing, or of another type, counts as empty.
pub fn parse_messages_response(
    raw: Value,
    default_model: &ModelId,
    latency: Duration,
) -> (r: Result<Response, ProviderError>)
    ensures
        r matches Ok(response) && response@ == messages_response(
            json::json_of(raw),
            default_model@,
            latency,
        ),
{
    // Walk the content blocks: concatenate text, collect tool_use calls.
    let mut content = String::new();
    let mut tool_calls: Vec<ToolUse> = Vec::new();
    let ghost items = json::json_of(raw).at("content"@).items();
    assert(types::call_views(tool_calls@) =~= Seq::<ToolUseView>::empty());
    if let Some(blocks) = json::member(&raw, "content").as_array() {
        let mut i: usize = 0;
        while i < blocks.len()
            invariant
                i <= blocks.len(),
                json::jsons(blocks@) == items,
                content@ == reply_text(items.take(i as int)),
                types::call_views(tool_calls@) == reply_calls(items.take(i as int)),
            decreases blocks.len() - i,
        {
            let b = &blocks[i];
            let ghost calls_before = types::call_views(tool_calls@);
            proof {
                assert(items.take(i + 1).drop_last() =~= items.take(i as int));
                assert(items.take(i + 1).last() == json::json_of(*b));
            }
            if let Some(kind) = json::member(b, "type").as_str() {
                if text::same_text(kind, "text") {
                    content.append(json::text_or(json::member(b, "text"), "").as_str());
                    proof {
                        reveal_strlit("text");
                        reveal_strlit("tool_use");
                        assert("text"@.len() != "tool_use"@.len());
                    }
                } else if text::same_text(kind, "tool_use") {
                    let call = ToolUse {
                        id: json::text_or(json::member(b, "id"), ""),
                        name: json::text_or(json::member(b, "name"), ""),
                        input: json::member(b, "input").clone(),
                    };
                    tool_calls.push(call);
                    assert(types::call_views(tool_calls@) =~= calls_before.push(call@));
                }
            }
            i = i + 1;
        }
        assert(items.take(i as int) =~= items);
    }
    let finish_reason = finish_reason(
        json::text_or(json::member(&raw, "stop_reason"), "end_turn"),
    );

    let model = ModelId(json::text_or(json::member(&raw, "model"), default_model.as_str()));

    let counts = json::member(&raw, "usage");
    let usage = Usage {
        input_tokens: json::count(json::member(counts, "input_tokens")),
        output_tokens: json::count(json::member(counts, "output_tokens")),
    };

    Ok(Response { content, tool_calls, usage, model, finish_reason, latency, raw })
}

// ---------------------------------------------------------------------------
// Laws
// ---------------------------------------------------------------------------

/// Nothing of a conversation is lost, and no system message is among the messages:
/// each message is either a part of the `system` field or a message of the user or
/// the assistant.
pub proof fn law_system_messages_are_lifted(messages: Seq<MessageView>)
    ensures
        system_texts(messages).len() + api_messages(messages).len() == messages.len(),
        forall|i: int|
            0 <= i < api_messages(messages).len() ==> {
                ||| (#[trigger] api_messages(messages)[i]).role == "user"@
                ||| api_messages(messages)[i].role == "assistant"@
            },
        forall|i: int|
            0 <= i < api_messages(messages).len() ==> (#[trigger] api_messages(messages)[i]).role
                != "system"@,
    decreases messages.len(),
{
    reveal_strlit("system");
    reveal_strlit("user");
    reveal_strlit("assistant");
    assert("system"@[0] != "user"@[0]);
    assert("system"@[0] != "assistant"@[0]);
    if messages.len() > 0 {
        law_system_messages_are_lifted(messages.drop_last());
    }
}

/// A conversation that goes on keeps its beginning: the messages of two parts are
/// those of the first followed by those of the second, and so are the parts of the
/// `system` field.
pub proof fn law_messages_keep_their_order(a: Seq<MessageView>, b: Seq<MessageView>)
    ensures
        api_messages(a + b) == api_messages(a) + api_messages(b),
        system_texts(a + b) == system_texts(a) + system_texts(b),
    decreases b.len(),
{
    if b.len() == 0 {
        assert(a + b =~= a);
        assert(api_messages(a) + api_messages(b) =~= api_messages(a));
        assert(system_texts(a) + system_texts(b) =~= system_texts(a));
    } else {
        law_messages_keep_their_order(a, b.drop_last());
        assert((a + b).drop_last() =~= a + b.drop_last());
        assert(api_messages(a + b) =~= api_messages(a) + api_messages(b));
        assert(system_texts(a + b) =~= system_texts(a) + system_texts(b));
    }
}

proof fn lemma_body_keys_differ()
    ensures
        "model"@ != "messages"@ && "model"@ != "max_tokens"@ && "model"@ != "stream"@ && "model"@
            != "system"@ && "model"@ != "temperature"@ && "model"@ != "stop_sequences"@
            && "model"@ != "tools"@,
        "messages"@ != "max_tokens"@ && "messages"@ != "stream"@ && "messages"@ != "system"@
            && "messages"@ != "temperature"@ && "messages"@ != "stop_sequences"@ && "messages"@
            != "tools"@,
        "max_tokens"@ != "stream"@ && "max_tokens"@ != "system"@ && "max_tokens"@
            != "temperature"@ && "max_tokens"@ != "stop_sequences"@ && "max_tokens"@ != "tools"@,
        "stream"@ != "system"@ && "stream"@ != "temperature"@ && "stream"@ != "stop_sequences"@
            && "stream"@ != "tools"@,
        "system"@ != "temperature"@ && "system"@ != "stop_sequences"@ && "system"@ != "tools"@,
        "temperature"@ != "stop_sequences"@ && "temperature"@ != "tools"@,
        "stop_sequences"@ != "tools"@,
{
    reveal_strlit("model");
    reveal_strlit("messages");
    reveal_strlit("max_tokens");
    reveal_strlit("stream");
    reveal_strlit("system");
    reveal_strlit("temperature");
    reveal_strlit("stop_sequences");
    reveal_strlit("tools");
    assert("model"@.len() == 5 && "tools"@.len() == 5 && "stream"@.len() == 6 && "system"@.len()
        == 6 && "messages"@.len() == 8 && "max_tokens"@.len() == 10 && "temperature"@.len() == 11
        && "stop_sequences"@.len() == 14);
    assert("stream"@[1] != "system"@[1]);
    assert("model"@[0] != "tools"@[0]);
}

/// What is not set, and a list that is empty, leaves no field in the body; what is set
/// does.
pub proof fn law_unset_fields_are_left_out(body: MessagesRequestView)
    ensures
        messages_request_json(body) matches Json::Object(members) && {
            &&& members.dom().contains("system"@) <==> body.system is Some
            &&& members.dom().contains("temperature"@) <==> body.temperature is Some
            &&& members.dom().contains("stop_sequences"@) <==> body.stop_sequences.len() > 0
            &&& members.dom().contains("tools"@) <==> body.tools.len() > 0
        },
{
    lemma_body_keys_differ();
}

proof fn lemma_block_read_back(block: BlockView)
    ensures
        block_json(block).at("type"@) == Json::Text(
            match block {
                BlockView::Text { .. } => "text"@,
                BlockView::ToolUse { .. } => "tool_use"@,
                BlockView::ToolResult { .. } => "tool_result"@,
            },
        ),
        block matches BlockView::Text { text } ==> block_json(block).at("text"@) == Json::Text(
            text,
        ),
        block matches BlockView::ToolUse { call } ==> block_json(block).at("id"@) == Json::Text(
            call.id,
        ) && block_json(block).at("name"@) == Json::Text(call.name) && block_json(block).at(
            "input"@,
        ) == call.input,
{
    reveal_strlit("type");
    reveal_strlit("text");
    reveal_strlit("id");
    reveal_strlit("name");
    reveal_strlit("input");
    reveal_strlit("tool_use_id");
    reveal_strlit("content");
    reveal_strlit("is_error");
    assert("type"@[1] != "text"@[1]);
    assert("type"@[0] != "name"@[0]);
    assert("id"@.len() < "name"@.len() < "input"@.len());
}

/// What the library writes it reads back: a reply whose content is the blocks of a
/// message, as the library writes them, has the text of the message and exactly its
/// tool calls.
pub proof fn law_blocks_are_read_back(blocks: Seq<BlockView>)
    ensures
        reply_text(blocks_json(blocks).items()) == types::blocks_text(blocks),
        reply_calls(blocks_json(blocks).items()) == types::blocks_calls(blocks),
    decreases blocks.len(),
{
    let items = blocks_json(blocks).items();
    if blocks.len() > 0 {
        law_blocks_are_read_back(blocks.drop_last());
        lemma_block_read_back(blocks.last());
        assert(items.drop_last() =~= blocks_json(blocks.drop_last()).items());
        assert(items.last() == block_json(blocks.last()));
        reveal_strlit("text");
        reveal_strlit("tool_use");
        reveal_strlit("tool_result");
        assert("text"@.len() != "tool_use"@.len() && "text"@.len() != "tool_result"@.len()
            && "tool_use"@.len() != "tool_result"@.len());
        assert(types::blocks_text(blocks.drop_last()) + Seq::<char>::empty()
            =~= types::blocks_text(blocks.drop_last()));
        assert(reply_text(items) =~= types::blocks_text(blocks));
    }
}

/// A response that is put back into the conversation as an assistant turn, sent and
/// read again, has the same text and the same tool calls.
pub proof fn law_turn_is_read_back(
    response: ResponseView,
    raw: Json,
    default_model: Seq<char>,
    latency: Duration,
)
    requires
        raw.at("content"@) == blocks_json(response.turn().content),
    ensures
        messages_response(raw, default_model, latency).content == response.content,
        messages_response(raw, default_model, latency).tool_calls == response.tool_calls,
{
    law_blocks_are_read_back(response.turn().content);
    types::law_turn_carries_response(response);
}

/// The headers of a request are the key, the version of the API and the type of the body.
pub proof fn law_headers(api_key: Seq<char>)
    ensures
        header_views(api_key).len() == 3,
        header_views(api_key)[0] == ("x-api-key"@, api_key),
        header_views(api_key)[1] == ("anthropic-version"@, "2023-06-01"@),
        header_views(api_key)[2] == ("content-type"@, "application/json"@),
{
}

/// Content blocks on the wire, one element for each block in order. Each is an object
/// with exactly its members: the type, and all that the block holds. The error flag is
/// there only where it is set.
pub proof fn law_blocks_on_the_wire(blocks: Seq<BlockView>)
    ensures
        blocks_json(blocks) matches Json::Array(items) && {
            &&& items.len() == blocks.len()
            &&& forall|i: int|
                0 <= i < blocks.len() ==> #[trigger] items[i] == Json::Object(
                    match blocks[i] {
                        BlockView::Text { text } => map![
                            "type"@ => Json::Text("text"@),
                            "text"@ => Json::Text(text),
                        ],
                        BlockView::ToolUse { call } => map![
                            "type"@ => Json::Text("tool_use"@),
                            "id"@ => Json::Text(call.id),
                            "name"@ => Json::Text(call.name),
                            "input"@ => call.input,
                        ],
                        BlockView::ToolResult { tool_use_id, content, is_error } => if is_error {
                            map![
                                "type"@ => Json::Text("tool_result"@),
                                "tool_use_id"@ => Json::Text(tool_use_id),
                                "content"@ => Json::Text(content),
                                "is_error"@ => Json::Bool(true),
                            ]
                        } else {
                            map![
                                "type"@ => Json::Text("tool_result"@),
                                "tool_use_id"@ => Json::Text(tool_use_id),
                                "content"@ => Json::Text(content),
                            ]
                        },
                    },
                )
        },
{
}

/// Where a single message goes: one of the user or the assistant is sent under its role
/// with all of its blocks, and adds nothing to the `system` field; a system message adds
/// its whole text there, and is not among the messages.
pub proof fn law_where_a_message_goes(message: MessageView)
    ensures
        api_messages(Seq::empty()) == Seq::<ApiMessageView>::empty(),
        system_texts(Seq::empty()) == Seq::<Seq<char>>::empty(),
        match message.role {
            Role::System => api_messages(seq![message]) == Seq::<ApiMessageView>::empty()
                && system_texts(seq![message]) == seq![types::blocks_text(message.content)],
            Role::User => api_messages(seq![message]) == seq![
                ApiMessageView { role: "user"@, content: blocks_json(message.content) },
            ] && system_texts(seq![message]) == Seq::<Seq<char>>::empty(),
            Role::Assistant => api_messages(seq![message]) == seq![
                ApiMessageView { role: "assistant"@, content: blocks_json(message.content) },
            ] && system_texts(seq![message]) == Seq::<Seq<char>>::empty(),
        },
{
    let one = seq![message];
    let none = Seq::<MessageView>::empty();
    assert(one.len() == 1 && one.last() == message);
    assert(one.drop_last() =~= none);
    assert(api_messages(none) =~= Seq::<ApiMessageView>::empty());
    assert(system_texts(none) =~= Seq::<Seq<char>>::empty());
    if message.role == Role::System {
        assert(api_messages(one) =~= Seq::<ApiMessageView>::empty());
        assert(system_texts(one) =~= seq![types::blocks_text(message.content)]);
    } else {
        assert(api_messages(one) =~= seq![
            ApiMessageView { role: message.role.name(), content: blocks_json(message.content) },
        ]);
        assert(system_texts(one) =~= Seq::<Seq<char>>::empty());
    }
}

/// The body asks for what the request asks for: the model that it names, or the default
/// one; its limit, or the usual one; its temperature, its stop sequences and its tools,
/// all as they are; and the system texts, its own first, one per line.
pub proof fn law_body_asks_for_the_request(
    req: RequestView,
    default_model: Seq<char>,
    stream: bool,
)
    ensures
        ({
            let body = messages_request(req, default_model, stream);
            let own: Seq<Seq<char>> = match req.system {
                Some(system) => seq![system],
                None => Seq::empty(),
            };
            let parts = own + system_texts(req.messages);
            &&& req.model == "default"@ ==> body.model == default_model
            &&& req.model != "default"@ ==> body.model == req.model
            &&& body.messages == api_messages(req.messages)
            &&& req.max_tokens matches Some(n) ==> body.max_tokens == n
            &&& req.max_tokens is None ==> body.max_tokens == 4096
            &&& parts.len() == 0 ==> body.system is None
            &&& parts.len() > 0 ==> body.system == Some(text::joined(parts, seq!['\n']))
            &&& body.temperature == req.temperature
            &&& body.stop_sequences == req.stop
            &&& body.tools == req.tools
            &&& body.stream == stream
        }),
{
    reveal_strlit("\n");
    assert("\n"@ =~= seq!['\n']);
    let own: Seq<Seq<char>> = match req.system {
        Some(system) => seq![system],
        None => Seq::empty(),
    };
    assert(own + system_texts(req.messages) =~= system_parts(req));
}

/// The body on the wire has exactly its members, each with all that it holds: every
/// message with its role and its content, every stop sequence, and every tool with its
/// name, its description and its schema, all in order.
pub proof fn law_body_on_the_wire(body: MessagesRequestView)
    ensures
        messages_request_json(body) matches Json::Object(members) && {
            &&& forall|key: Seq<char>| #[trigger]
                members.dom().contains(key) <==> {
                    ||| key == "model"@
                    ||| key == "messages"@
                    ||| key == "max_tokens"@
                    ||| key == "stream"@
                    ||| key == "system"@ && body.system is Some
                    ||| key == "temperature"@ && body.temperature is Some
                    ||| key == "stop_sequences"@ && body.stop_sequences.len() > 0
                    ||| key == "tools"@ && body.tools.len() > 0
                }
            &&& members["model"@] == Json::Text(body.model)
            &&& members["max_tokens"@] == Json::Number(Number::Unsigned(body.max_tokens as u64))
            &&& members["stream"@] == Json::Bool(body.stream)
            &&& members["messages"@] matches Json::Array(items) && {
                &&& items.len() == body.messages.len()
                &&& forall|i: int|
                    0 <= i < body.messages.len() ==> #[trigger] items[i] == Json::Object(
                        map![
                            "role"@ => Json::Text(body.messages[i].role),
                            "content"@ => body.messages[i].content,
                        ],
                    )
            }
            &&& body.system matches Some(system) ==> members["system"@] == Json::Text(system)
            &&& body.temperature matches Some(t) ==> members["temperature"@] == t
            &&& body.stop_sequences.len() > 0 ==> (members["stop_sequences"@] matches Json::Array(
                items,
            ) && {
                &&& items.len() == body.stop_sequences.len()
                &&& forall|i: int|
                    0 <= i < items.len() ==> #[trigger] items[i] == Json::Text(
                        body.stop_sequences[i],
                    )
            })
            &&& body.tools.len() > 0 ==> (members["tools"@] matches Json::Array(items) && {
                &&& items.len() == body.tools.len()
                &&& forall|i: int|
                    0 <= i < body.tools.len() ==> #[trigger] items[i] == Json::Object(
                        map![
                            "name"@ => Json::Text(body.tools[i].name),
                            "description"@ => Json::Text(body.tools[i].description),
                            "input_schema"@ => body.tools[i].input_schema,
                        ],
                    )
            })
        },
{
    lemma_body_keys_differ();
}

/// The text and the calls of two runs of reply blocks are those of the first followed by
/// those of the second.
pub proof fn law_reply_of_concatenation(a: Seq<Json>, b: Seq<Json>)
    ensures
        reply_text(a + b) == reply_text(a) + reply_text(b),
        reply_calls(a + b) == reply_calls(a) + reply_calls(b),
    decreases b.len(),
{
    if b.len() == 0 {
        assert(a + b =~= a);
        assert(reply_text(a) + reply_text(b) =~= reply_text(a));
        assert(reply_calls(a) + reply_calls(b) =~= reply_calls(a));
    } else {
        law_reply_of_concatenation(a, b.drop_last());
        assert((a + b).drop_last() =~= a + b.drop_last());
        assert(reply_text(a + b) =~= reply_text(a) + reply_text(b));
        assert(reply_calls(a + b) =~= reply_calls(a) + reply_calls(b));
    }
}

/// What a single block of a reply contributes: a text block its whole text; a `tool_use`
/// block one call, with its identifier, its name and its input as they are; any other
/// block nothing. An identifier, a name or a text that is not a string counts as empty.
pub proof fn law_reply_of_one_block(block: Json)
    ensures
        reply_text(Seq::empty()) == Seq::<char>::empty(),
        reply_calls(Seq::empty()) == Seq::<ToolUseView>::empty(),
        block.at("type"@) == Json::Text("text"@) ==> match block.at("text"@) {
            Json::Text(text) => reply_text(seq![block]) == text,
            _ => reply_text(seq![block]) == Seq::<char>::empty(),
        },
        block.at("type"@) != Json::Text("text"@) ==> reply_text(seq![block]) == Seq::<
            char,
        >::empty(),
        block.at("type"@) == Json::Text("tool_use"@) ==> {
            let calls = reply_calls(seq![block]);
            &&& calls.len() == 1
            &&& match block.at("id"@) {
                Json::Text(id) => calls[0].id == id,
                _ => calls[0].id == Seq::<char>::empty(),
            }
            &&& match block.at("name"@) {
                Json::Text(name) => calls[0].name == name,
                _ => calls[0].name == Seq::<char>::empty(),
            }
            &&& calls[0].input == block.at("input"@)
        },
        block.at("type"@) != Json::Text("tool_use"@) ==> reply_calls(seq![block]) == Seq::<
            ToolUseView,
        >::empty(),
{
    reveal_strlit("");
    assert(""@ =~= Seq::<char>::empty());
    let one = seq![block];
    let none = Seq::<Json>::empty();
    assert(one.len() == 1 && one.last() == block);
    assert(one.drop_last() =~= none);
    assert(reply_text(none) =~= Seq::<char>::empty());
    assert(reply_calls(none) =~= Seq::<ToolUseView>::empty());
    let text = block.at("text"@).text_or(""@);
    assert(reply_text(none) + text =~= text);
    if block.at("type"@) == Json::Text("tool_use"@) {
        assert(reply_calls(one).len() == 1);
    } else {
        assert(reply_calls(one) =~= Seq::<ToolUseView>::empty());
    }
}

/// The API's names for why the model stopped: the turn or a stop sequence ended, the
/// limit was reached, tools are to be called; any other name is handed on as it is.
pub proof fn law_stop_reasons(name: Seq<char>)
    ensures
        name == "end_turn"@ || name == "stop_sequence"@ ==> finish_reason_of(name) is Stop,
        name == "max_tokens"@ ==> finish_reason_of(name) is MaxTokens,
        name == "tool_use"@ ==> finish_reason_of(name) is ToolUse,
        name != "end_turn"@ && name != "stop_sequence"@ && name != "max_tokens"@ && name
            != "tool_use"@ ==> finish_reason_of(name) == FinishReasonView::Other(name),
{
    reveal_strlit("end_turn");
    reveal_strlit("stop_sequence");
    reveal_strlit("max_tokens");
    reveal_strlit("tool_use");
    assert("end_turn"@[0] != "tool_use"@[0]);
    assert("end_turn"@.len() != "max_tokens"@.len());
    assert("stop_sequence"@.len() != "max_tokens"@.len());
    assert("stop_sequence"@.len() != "tool_use"@.len());
    assert("max_tokens"@.len() != "tool_use"@.len());
}

/// What a response takes from a reply, each part by itself and whatever the others are:
/// the text and the calls of its content, its counts, its model, why it stopped, and the
/// whole reply with the latency that was measured. What is not there counts as nothing,
/// as the default model and as the end of the turn.
pub proof fn law_response_takes_what_the_reply_says(
    raw: Json,
    default_model: Seq<char>,
    latency: Duration,
)
    ensures
        ({
            let response = messages_response(raw, default_model, latency);
            let input = raw.at("usage"@).at("input_tokens"@);
            let output = raw.at("usage"@).at("output_tokens"@);
            &&& match raw.at("content"@) {
                Json::Array(blocks) => response.content == reply_text(blocks)
                    && response.tool_calls == reply_calls(blocks),
                _ => response.content.len() == 0 && response.tool_calls.len() == 0,
            }
            &&& match input {
                Json::Number(Number::Unsigned(n)) => response.usage.input_tokens as int == n as int
                    % 0x1_0000_0000,
                _ => response.usage.input_tokens == 0,
            }
            &&& match output {
                Json::Number(Number::Unsigned(n)) => response.usage.output_tokens as int == n as int
                    % 0x1_0000_0000,
                _ => response.usage.output_tokens == 0,
            }
            &&& match raw.at("model"@) {
                Json::Text(model) => response.model == model,
                _ => response.model == default_model,
            }
            &&& match raw.at("stop_reason"@) {
                Json::Text(name) => response.finish_reason == finish_reason_of(name),
                _ => response.finish_reason is Stop,
            }
            &&& response.latency == latency
            &&& response.raw == raw
        }),
{
}

/// The counts of a reply are kept: where they are whole numbers below 2^32, the usage is
/// exactly these, whatever else the reply holds.
pub proof fn law_counts_are_kept(
    raw: Map<Seq<char>, Json>,
    usage: Map<Seq<char>, Json>,
    input: u32,
    output: u32,
    default_model: Seq<char>,
    latency: Duration,
)
    requires
        raw.dom().contains("usage"@),
        raw["usage"@] == Json::Object(usage),
        usage.dom().contains("input_tokens"@),
        usage.dom().contains("output_tokens"@),
        usage["input_tokens"@] == Json::Number(Number::Unsigned(input as u64)),
        usage["output_tokens"@] == Json::Number(Number::Unsigned(output as u64)),
    ensures
        messages_response(Json::Object(raw), default_model, latency).usage == (Usage {
            input_tokens: input,
            output_tokens: output,
        }),
{
}

/// What a body says is what its fields hold: every message, stop sequence and tool in
/// order, and each setting as it is.
pub proof fn law_view_of_body(body: MessagesRequest)
    ensures
        body@.model == body.model@,
        body@.messages.len() == body.messages@.len(),
        forall|i: int|
            0 <= i < body.messages@.len() ==> #[trigger] body@.messages[i] == (ApiMessageView {
                role: body.messages@[i].role@,
                content: json::json_of(body.messages@[i].content),
            }),
        body@.max_tokens == body.max_tokens,
        match body.system {
            Some(system) => body@.system == Some(system@),
            None => body@.system is None,
        },
        match body.temperature {
            Some(t) => body@.temperature == Some(json::json_of(t)),
            None => body@.temperature is None,
        },
        body@.stop_sequences.len() == body.stop_sequences@.len(),
        forall|i: int|
            0 <= i < body.stop_sequences@.len() ==> #[trigger] body@.stop_sequences[i]
                == body.stop_sequences@[i]@,
        body@.tools.len() == body.tools@.len(),
        forall|i: int|
            0 <= i < body.tools@.len() ==> #[trigger] body@.tools[i] == body.tools@[i]@,
        body@.stream == body.stream,
{
}

/// What is sent for a request: to the endpoint below the provider's URL, with its key,
/// and with the model, the flag for streaming, and every tool of the request in order.
pub proof fn law_request_is_sent(provider: AnthropicView, req: RequestView, stream: bool)
    ensures
        ({
            let sent = http_request_view(provider, req, stream);
            &&& sent.url == provider.base_url + "/v1/messages"@
            &&& sent.headers.len() == 3
            &&& sent.headers[0] == ("x-api-key"@, provider.api_key)
            &&& sent.body matches Json::Object(members) && {
                &&& members["model"@] == Json::Text(
                    if req.model == "default"@ {
                        provider.model
                    } else {
                        req.model
                    },
                )
                &&& members["stream"@] == Json::Bool(stream)
                &&& members["messages"@].items().len() + system_texts(req.messages).len()
                    == req.messages.len()
                &&& members.dom().contains("tools"@) <==> req.tools.len() > 0
                &&& req.tools.len() > 0 ==> (members["tools"@] matches Json::Array(items) && {
                    &&& items.len() == req.tools.len()
                    &&& forall|i: int|
                        0 <= i < req.tools.len() ==> {
                            &&& (#[trigger] items[i]).at("name"@) == Json::Text(req.tools[i].name)
                            &&& items[i].at("description"@) == Json::Text(req.tools[i].description)
                            &&& items[i].at("input_schema"@) == req.tools[i].input_schema
                        }
                })
            }
        }),
{
    let body = messages_request(req, provider.model, stream);
    law_body_on_the_wire(body);
    law_unset_fields_are_left_out(body);
    law_system_messages_are_lifted(req.messages);
    reveal_strlit("name");
    reveal_strlit("description");
    reveal_strlit("input_schema");
    assert("name"@.len() == 4 && "description"@.len() == 11 && "input_schema"@.len() == 12);
}

} // verus!
