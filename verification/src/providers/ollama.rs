//! The Ollama chat and embedding API.

use std::time::Duration;

use serde_json::Value;
use vstd::prelude::*;

use crate::error::ProviderError;
use crate::json;
use crate::json::{Json, Number};
use crate::providers;
use crate::text;
use crate::transport::{HttpRequest, HttpRequestView, NetEvent};
use crate::types;
use crate::types::{
    EmbedRequest, Embedding, FinishReason, FinishReasonView, MessageView, ModelId, Request,
    RequestView, Response, ResponseView, Role, StreamChunk, StreamChunkView, ToolUse, Usage,
};

verus! {

// ---------------------------------------------------------------------------
// Provider
// ---------------------------------------------------------------------------

/// A client of an Ollama server: where the server is, and which model serves the
/// requests that name none.
#[derive(Debug)]
pub struct OllamaProvider {
    base_url: String,
    model: ModelId,
}

/// How a client of an Ollama server is set up.
pub struct OllamaView {
    pub base_url: Seq<char>,
    pub model: Seq<char>,
}

impl View for OllamaProvider {
    type V = OllamaView;

    closed spec fn view(&self) -> OllamaView {
        OllamaView { base_url: self.base_url@, model: self.model@ }
    }
}

/// The request to the network for a request.
pub open spec fn http_request_view(
    provider: OllamaView,
    req: RequestView,
    stream: bool,
) -> HttpRequestView {
    HttpRequestView {
        url: provider.base_url + "/api/chat"@,
        headers: Seq::empty(),
        body: chat_request_json(chat_request(req, provider.model, stream)),
    }
}

/// The request to the network for an embedding.
pub open spec fn embed_request_view(
    provider: OllamaView,
    model: Seq<char>,
    input: Seq<Seq<char>>,
) -> HttpRequestView {
    HttpRequestView {
        url: provider.base_url + "/api/embed"@,
        headers: Seq::empty(),
        body: embed_request_json(model, input),
    }
}

/// What a stream hands out for an event from the network.
pub open spec fn event_chunk(event: NetEvent) -> Option<StreamChunkView> {
    match event {
        NetEvent::Bytes(bytes) => Some(bytes_chunk(bytes@)),
        NetEvent::Failed(message) => Some(StreamChunkView::Error(message@)),
        NetEvent::Ended => None,
    }
}

impl OllamaProvider {
    #[verifier::type_invariant]
    spec fn well_formed(self) -> bool {
        providers::no_slash_at_end(self.base_url@)
    }

    /// A client of the server on this machine, at its default port.
    pub fn new<M: Into<String>>(model: M) -> (r: Self)
        ensures
            exists|m: String| text::becomes(model, m) && r@.model == #[trigger] m@,
            r@.base_url == "http://localhost:11434"@,
    {
        let r = OllamaProvider::with_base_url(model, "http://localhost:11434");
        proof {
            reveal_strlit("http://localhost:11434");
            let u = choose|u: String|
                text::becomes("http://localhost:11434", u) && r@.base_url
                    == text::without_trailing_slashes(#[trigger] u@);
            assert(u@ == "http://localhost:11434"@);
        }
        r
    }

    /// A client of the server at some place. Slashes at the end of the URL do not
    /// count.
    pub fn with_base_url<M: Into<String>, U: Into<String>>(model: M, base_url: U) -> (r: Self)
        ensures
            exists|m: String| text::becomes(model, m) && r@.model == #[trigger] m@,
            exists|u: String|
                text::becomes(base_url, u) && r@.base_url == text::without_trailing_slashes(
                    #[trigger] u@,
                ),
    {
        let m: String = model.into();
        let u: String = base_url.into();
        assert(text::becomes(model, m) && text::becomes(base_url, u));
        proof {
            text::law_no_trailing_slash(u@);
        }
        let r = OllamaProvider {
            base_url: text::trim_trailing_slashes(u.as_str()),
            model: ModelId(m),
        };
        assert(r@.model == m@);
        assert(r@.base_url == text::without_trailing_slashes(u@));
        r
    }

    /// Where requests are sent; no slash stands at the end.
    pub fn base_url(&self) -> (r: &str)
        ensures
            r@ == self@.base_url,
            providers::no_slash_at_end(r@),
    {
        proof {
            use_type_invariant(self);
        }
        self.base_url.as_str()
    }

    /// The model that serves requests that name none.
    pub fn model_id(&self) -> (r: &ModelId)
        ensures
            r@ == self@.model,
    {
        &self.model
    }

    /// The request to the network that a completion, or a stream, starts with.
    pub fn http_request(&self, req: &Request, stream: bool) -> (r: HttpRequest)
        ensures
            r@ == (HttpRequestView {
                url: self@.base_url + "/api/chat"@,
                headers: Seq::empty(),
                body: chat_request_json(chat_request(req@, self@.model, stream)),
            }),
            r@ == http_request_view(self@, req@, stream),
    {
        let mut url = self.base_url.clone();
        url.append("/api/chat");
        let body = ChatRequest::from_request(req, &self.model, stream);
        let r = HttpRequest { url, headers: Vec::new(), body: body.to_value() };
        assert(r@.headers =~= Seq::empty());
        r
    }

    /// Reads the answer to a completion.
    pub fn read_answer(&self, raw: Value, latency: Duration) -> (r: Result<
        Response,
        ProviderError,
    >)
        ensures
            r matches Ok(response) && response@ == chat_response(
                json::json_of(raw),
                self@.model,
                latency,
            ),
    {
        parse_chat_response(raw, &self.model, latency)
    }

    /// The request to the network that an embedding starts with.
    pub fn embed_request(&self, req: &EmbedRequest) -> (r: HttpRequest)
        ensures
            r@ == (HttpRequestView {
                url: self@.base_url + "/api/embed"@,
                headers: Seq::empty(),
                body: embed_request_json(req.model@, text::texts(req.input@)),
            }),
            r@ == embed_request_view(self@, req.model@, text::texts(req.input@)),
    {
        let mut url = self.base_url.clone();
        url.append("/api/embed");
        let mut body = json::empty_object();
        json::set_text(&mut body, "model", req.model.as_str());
        json::set_member(&mut body, "input", json::strings_value(&req.input));
        let r = HttpRequest { url, headers: Vec::new(), body };
        assert(r@.headers =~= Seq::empty());
        r
    }

    /// The answer to an embedding: the vectors of the reply, under the model of the
    /// request. The API counts no tokens.
    pub fn embedding(&self, req: &EmbedRequest, vectors: Vec<Vec<u32>>) -> (r: Embedding)
        ensures
            r.vectors == vectors,
            r.model@ == req.model@,
            r.usage == (Usage { input_tokens: 0, output_tokens: 0 }),
    {
        Embedding { vectors, model: req.model.clone(), usage: Usage::default() }
    }

    /// What a stream hands out for an event from the network: one chunk for each
    /// piece of the body or failure, and nothing at its end.
    pub fn stream_chunk(&self, event: NetEvent) -> (r: Option<StreamChunk>)
        ensures
            match event {
                NetEvent::Bytes(bytes) => r matches Some(chunk) && chunk@ == bytes_chunk(bytes@),
                NetEvent::Failed(message) => r matches Some(chunk) && chunk@
                    == StreamChunkView::Error(message@),
                NetEvent::Ended => r is None,
            },
            match event_chunk(event) {
                Some(chunk) => r matches Some(c) && c@ == chunk,
                None => r is None,
            },
    {
        match event {
            NetEvent::Bytes(bytes) => Some(parse_stream_chunk(bytes.as_slice())),
            NetEvent::Failed(message) => Some(StreamChunk::Error(message)),
            NetEvent::Ended => None,
        }
    }
}

/// The body of an embedding request as JSON.
pub open spec fn embed_request_json(model: Seq<char>, input: Seq<Seq<char>>) -> Json {
    Json::no_members().with("model"@, Json::Text(model)).with("input"@, Json::strings(input))
}

// ---------------------------------------------------------------------------
// Request body
// ---------------------------------------------------------------------------

/// A message in the form of the chat API.
#[derive(Debug)]
pub struct ChatMessage {
    pub role: String,
    pub content: String,
}

/// What a message of the chat API says.
pub struct ChatMessageView {
    pub role: Seq<char>,
    pub content: Seq<char>,
}

impl View for ChatMessage {
    type V = ChatMessageView;

    open spec fn view(&self) -> ChatMessageView {
        ChatMessageView { role: self.role@, content: self.content@ }
    }
}

/// The views of several messages of the chat API.
pub open spec fn chat_message_views(messages: Seq<ChatMessage>) -> Seq<ChatMessageView> {
    messages.map_values(|m: ChatMessage| m@)
}

/// The options of a chat request.
#[derive(Debug)]
pub struct ChatOptions {
    pub temperature: Option<Value>,
    pub num_predict: Option<u32>,
    pub stop: Vec<String>,
}

/// What the options of a chat request say.
pub struct ChatOptionsView {
    pub temperature: Option<Json>,
    pub num_predict: Option<u32>,
    pub stop: Seq<Seq<char>>,
}

impl View for ChatOptions {
    type V = ChatOptionsView;

    open spec fn view(&self) -> ChatOptionsView {
        ChatOptionsView {
            temperature: types::json_option(self.temperature),
            num_predict: self.num_predict,
            stop: text::texts(self.stop@),
        }
    }
}

/// The body of a chat request.
#[derive(Debug)]
pub struct ChatRequest {
    pub model: String,
    pub messages: Vec<ChatMessage>,
    pub stream: bool,
    pub options: Option<ChatOptions>,
}

/// What the body of a chat request says.
pub struct ChatRequestView {
    pub model: Seq<char>,
    pub messages: Seq<ChatMessageView>,
    pub stream: bool,
    pub options: Option<ChatOptionsView>,
}

impl View for ChatRequest {
    type V = ChatRequestView;

    open spec fn view(&self) -> ChatRequestView {
        ChatRequestView {
            model: self.model@,
            messages: chat_message_views(self.messages@),
            stream: self.stream,
            options: match self.options {
                Some(options) => Some(options@),
                None => None,
            },
        }
    }
}

/// A message of a conversation in the form of the chat API: its role and its text.
pub open spec fn chat_message(message: MessageView) -> ChatMessageView {
    ChatMessageView { role: message.role.name(), content: types::blocks_text(message.content) }
}

/// The messages of a request in the form of the chat API: the request's own system
/// text first, then every message in order.
pub open spec fn chat_messages(req: RequestView) -> Seq<ChatMessageView> {
    let conversation = req.messages.map_values(|m: MessageView| chat_message(m));
    match req.system {
        Some(system) => seq![ChatMessageView { role: "system"@, content: system }] + conversation,
        None => conversation,
    }
}

/// The body for a request. Options are there only where the request sets one.
pub open spec fn chat_request(
    req: RequestView,
    default_model: Seq<char>,
    stream: bool,
) -> ChatRequestView {
    ChatRequestView {
        model: providers::resolved_model(req.model, default_model),
        messages: chat_messages(req),
        stream,
        options: if req.temperature is Some || req.max_tokens is Some || req.stop.len() > 0 {
            Some(
                ChatOptionsView {
                    temperature: req.temperature,
                    num_predict: req.max_tokens,
                    stop: req.stop,
                },
            )
        } else {
            None
        },
    }
}

impl ChatRequest {
    pub fn from_request(req: &Request, default_model: &ModelId, stream: bool) -> (r: Self)
        ensures
            r@ == chat_request(req@, default_model@, stream),
    {
        let model = providers::resolve_model(&req.model, default_model);

        let mut messages: Vec<ChatMessage> = Vec::new();
        if let Some(system) = &req.system {
            messages.push(ChatMessage { role: "system".to_string(), content: system.clone() });
        }
        let ghost head = chat_message_views(messages@);
        let ghost conversation = req@.messages.map_values(|m: MessageView| chat_message(m));
        assert(head =~= match req@.system {
            Some(system) => seq![ChatMessageView { role: "system"@, content: system }],
            None => Seq::empty(),
        });
        assert(head + conversation.take(0) =~= head);

        let mut i: usize = 0;
        while i < req.messages.len()
            invariant
                i <= req.messages.len(),
                conversation == req@.messages.map_values(|m: MessageView| chat_message(m)),
                chat_message_views(messages@) == head + conversation.take(i as int),
            decreases req.messages.len() - i,
        {
            let m = &req.messages[i];
            let ghost before = chat_message_views(messages@);
            let message = ChatMessage { role: m.role.as_str().to_string(), content: m.text() };
            assert(message@ == conversation[i as int]);
            messages.push(message);
            assert(chat_message_views(messages@) =~= before.push(message@));
            assert(chat_message_views(messages@) =~= head + conversation.take(i + 1));
            i = i + 1;
        }
        assert(conversation.take(i as int) =~= conversation);
        assert(chat_message_views(messages@) =~= chat_messages(req@));

        let options = ChatOptions {
            temperature: req.temperature.clone(),
            num_predict: req.max_tokens,
            stop: req.stop.clone(),
        };
        assert(options@.stop =~= req@.stop);

        let has_options = options.temperature.is_some() || options.num_predict.is_some()
            || options.stop.len() > 0;

        ChatRequest {
            model,
            messages,
            stream,
            options: if has_options {
                Some(options)
            } else {
                None
            },
        }
    }
}

/// A message of the chat API as JSON.
pub open spec fn chat_message_json(message: ChatMessageView) -> Json {
    Json::no_members().with("role"@, Json::Text(message.role)).with(
        "content"@,
        Json::Text(message.content),
    )
}

/// The options of a chat request as JSON. What is not set is left out.
pub open spec fn chat_options_json(options: ChatOptionsView) -> Json {
    let with_temperature = match options.temperature {
        Some(temperature) => Json::no_members().with("temperature"@, temperature),
        None => Json::no_members(),
    };
    let with_limit = match options.num_predict {
        Some(n) => with_temperature.with(
            "num_predict"@,
            Json::Number(Number::Unsigned(n as u64)),
        ),
        None => with_temperature,
    };
    if options.stop.len() > 0 {
        with_limit.with("stop"@, Json::strings(options.stop))
    } else {
        with_limit
    }
}

/// The body of a chat request as JSON. Options that are not there are left out.
pub open spec fn chat_request_json(body: ChatRequestView) -> Json {
    let required = Json::no_members().with("model"@, Json::Text(body.model)).with(
        "messages"@,
        Json::Array(body.messages.map_values(|m: ChatMessageView| chat_message_json(m))),
    ).with("stream"@, Json::Bool(body.stream));
    match body.options {
        Some(options) => required.with("options"@, chat_options_json(options)),
        None => required,
    }
}

impl ChatMessage {
    fn to_value(&self) -> (r: Value)
        ensures
            json::json_of(r) == chat_message_json(self@),
    {
        let mut v = json::empty_object();
        json::set_text(&mut v, "role", self.role.as_str());
        json::set_text(&mut v, "content", self.content.as_str());
        v
    }
}

impl ChatOptions {
    fn to_value(&self) -> (r: Value)
        ensures
            json::json_of(r) == chat_options_json(self@),
    {
        let mut v = json::empty_object();
        if let Some(temperature) = &self.temperature {
            json::set_member(&mut v, "temperature", temperature.clone());
        }
        if let Some(n) = self.num_predict {
            json::set_member(&mut v, "num_predict", json::number_value(n));
        }
        if self.stop.len() > 0 {
            json::set_member(&mut v, "stop", json::strings_value(&self.stop));
        }
        v
    }
}

impl ChatRequest {
    /// The body as JSON. Options that are not there are left out.
    pub fn to_value(&self) -> (r: Value)
        ensures
            json::json_of(r) == chat_request_json(self@),
    {
        let mut items: Vec<Value> = Vec::new();
        let mut i: usize = 0;
        while i < self.messages.len()
            invariant
                i <= self.messages.len(),
                items@.len() == i,
                forall|j: int|
                    0 <= j < i ==> json::json_of(#[trigger] items@[j]) == chat_message_json(
                        self.messages@[j]@,
                    ),
            decreases self.messages.len() - i,
        {
            items.push(self.messages[i].to_value());
            i = i + 1;
        }
        assert(json::jsons(items@) =~= self@.messages.map_values(
            |m: ChatMessageView| chat_message_json(m),
        ));
        let mut v = json::empty_object();
        json::set_text(&mut v, "model", self.model.as_str());
        json::set_member(&mut v, "messages", json::array_value(items));
        json::set_member(&mut v, "stream", json::bool_value(self.stream));
        if let Some(options) = &self.options {
            json::set_member(&mut v, "options", options.to_value());
        }
        v
    }
}

// ---------------------------------------------------------------------------
// Response parsing
// ---------------------------------------------------------------------------

/// Why the model stopped, from the API's name for it.
pub open spec fn finish_reason_of(done_reason: Seq<char>) -> FinishReasonView {
    if done_reason == "stop"@ {
        FinishReasonView::Stop
    } else if done_reason == "length"@ {
        FinishReasonView::MaxTokens
    } else {
        FinishReasonView::Other(done_reason)
    }
}

/// The token counts of a reply.
pub open spec fn reply_usage(raw: Json) -> Usage {
    Usage {
        input_tokens: raw.at("prompt_eval_count"@).count(),
        output_tokens: raw.at("eval_count"@).count(),
    }
}

/// What a reply of the chat API says. The library asks this API for no tool calls.
pub open spec fn chat_response(
    raw: Json,
    default_model: Seq<char>,
    latency: Duration,
) -> ResponseView {
    ResponseView {
        content: raw.at("message"@).at("content"@).text_or(""@),
        tool_calls: Seq::empty(),
        usage: reply_usage(raw),
        model: raw.at("model"@).text_or(default_model),
        finish_reason: finish_reason_of(raw.at("done_reason"@).text_or("stop"@)),
        latency,
        raw,
    }
}

fn finish_reason(done_reason: String) -> (r: FinishReason)
    ensures
        r@ == finish_reason_of(done_reason@),
{
    if text::same_text(done_reason.as_str(), "stop") {
        FinishReason::Stop
    } else if text::same_text(done_reason.as_str(), "length") {
        FinishReason::MaxTokens
    } else {
        FinishReason::Other(done_reason)
    }
}

fn usage(raw: &Value) -> (r: Usage)
    ensures
        r == reply_usage(json::json_of(*raw)),
{
    Usage {
        input_tokens: json::count(json::member(raw, "prompt_eval_count")),
        output_tokens: json::count(json::member(raw, "eval_count")),
    }
}

/// Reads a reply of the chat API. It reads what is there: a field that is missing, or
/// of another type, counts as empty.
pub fn parse_chat_response(raw: Value, default_model: &ModelId, latency: Duration) -> (r: Result<
    Response,
    ProviderError,
>)
    ensures
        r matches Ok(response) && response@ == chat_response(
            json::json_of(raw),
            default_model@,
            latency,
        ),
{
    let content = json::text_or(json::member(json::member(&raw, "message"), "content"), "");
    let finish_reason = finish_reason(json::text_or(json::member(&raw, "done_reason"), "stop"));
    let model = ModelId(json::text_or(json::member(&raw, "model"), default_model.as_str()));
    let usage = usage(&raw);
    let tool_calls: Vec<ToolUse> = Vec::new();
    assert(types::call_views(tool_calls@) =~= Seq::empty());
    Ok(Response { content, tool_calls, usage, model, finish_reason, latency, raw })
}

// ---------------------------------------------------------------------------
// Streaming
// ---------------------------------------------------------------------------

/// What one document of a stream says; `None` where it carries neither the end nor
/// any text.
pub open spec fn document_chunk(document: Json) -> Option<StreamChunkView> {
    let delta = document.at("message"@).at("content"@).text_or(""@);
    if document.at("done"@) == Json::Bool(true) {
        Some(StreamChunkView::Done { usage: Some(reply_usage(document)) })
    } else if delta.len() > 0 {
        Some(StreamChunkView::Delta(delta))
    } else {
        None
    }
}

/// The first line that says something, where each line that is not blank is a
/// document; an empty delta where none does.
pub open spec fn lines_chunk(lines: Seq<Seq<char>>) -> StreamChunkView
    decreases lines.len(),
{
    if lines.len() == 0 {
        StreamChunkView::Delta(Seq::empty())
    } else if text::trimmed(lines[0]).len() == 0 {
        lines_chunk(lines.skip(1))
    } else {
        match json::parsed_json(text::trimmed(lines[0])) {
            Err(message) => StreamChunkView::Error(message),
            Ok(document) => match document_chunk(document) {
                Some(chunk) => chunk,
                None => lines_chunk(lines.skip(1)),
            },
        }
    }
}

/// What a piece of the body of a stream says.
pub open spec fn bytes_chunk(bytes: Seq<u8>) -> StreamChunkView {
    if vstd::utf8::valid_utf8(bytes) {
        lines_chunk(text::text_lines(vstd::utf8::decode_utf8(bytes)))
    } else {
        StreamChunkView::Error(text::utf8_error_message(bytes))
    }
}

/// Reads one document of a stream.
pub fn read_document(document: &Value) -> (r: Option<StreamChunk>)
    ensures
        match document_chunk(json::json_of(*document)) {
            Some(chunk) => r matches Some(c) && c@ == chunk,
            None => r is None,
        },
{
    if let Some(done) = json::member(document, "done").as_bool() {
        if done {
            return Some(StreamChunk::Done { usage: Some(usage(document)) });
        }
    }
    let delta = json::text_or(json::member(json::member(document, "message"), "content"), "");
    if delta.as_str().is_empty() {
        None
    } else {
        Some(StreamChunk::Delta(delta))
    }
}

/// Reads a piece of the body of a stream, which holds one document on each line.
pub fn parse_stream_chunk(bytes: &[u8]) -> (r: StreamChunk)
    ensures
        r@ == bytes_chunk(bytes@),
{
    let body = match std::str::from_utf8(bytes) {
        Ok(body) => body,
        Err(e) => {
            return StreamChunk::Error(e.to_string());
        },
    };

    let lines = text::lines(body);
    let ghost all = text::text_lines(body@);
    let mut i: usize = 0;
    assert(all.skip(0) =~= all);
    while i < lines.len()
        invariant
            i <= lines.len(),
            text::slices(lines@) == all,
            lines_chunk(all.skip(i as int)) == bytes_chunk(bytes@),
        decreases lines.len() - i,
    {
        proof {
            assert(all[i as int] == lines@[i as int]@);
            assert(all.skip(i as int).skip(1) =~= all.skip(i + 1));
        }
        let line = text::trim(lines[i]);
        if !line.is_empty() {
            match json::parse(line) {
                Ok(document) => {
                    if let Some(chunk) = read_document(&document) {
                        return chunk;
                    }
                },
                Err(e) => {
                    return StreamChunk::Error(e.to_string());
                },
            }
        }
        i = i + 1;
    }
    let r = StreamChunk::Delta(String::new());
    assert(r@ == StreamChunkView::Delta(Seq::empty()));
    r
}

// ---------------------------------------------------------------------------
// Laws
// ---------------------------------------------------------------------------

proof fn lemma_body_keys_differ()
    ensures
        "model"@ != "messages"@ && "model"@ != "stream"@ && "model"@ != "options"@,
        "messages"@ != "stream"@ && "messages"@ != "options"@ && "stream"@ != "options"@,
        "temperature"@ != "num_predict"@ && "temperature"@ != "stop"@ && "num_predict"@ != "stop"@,
        "role"@ != "content"@,
{
    reveal_strlit("model");
    reveal_strlit("messages");
    reveal_strlit("stream");
    reveal_strlit("options");
    reveal_strlit("temperature");
    reveal_strlit("num_predict");
    reveal_strlit("stop");
    reveal_strlit("role");
    reveal_strlit("content");
    assert("model"@.len() == 5 && "messages"@.len() == 8 && "stream"@.len() == 6 && "options"@.len()
        == 7);
    assert("temperature"@[0] != "num_predict"@[0]);
    assert("temperature"@.len() == 11 && "num_predict"@.len() == 11 && "stop"@.len() == 4);
    assert("role"@.len() == 4 && "content"@.len() == 7);
}

/// What a request does not set leaves no field in the body, and where it sets no option
/// at all there is no `options` field.
pub proof fn law_unset_options_are_left_out(
    req: RequestView,
    default_model: Seq<char>,
    stream: bool,
)
    ensures
        ({
            let body = chat_request_json(chat_request(req, default_model, stream));
            let options = body.at("options"@);
            &&& body is Object
            &&& body->Object_0.dom().contains("options"@) <==> (req.temperature is Some
                || req.max_tokens is Some || req.stop.len() > 0)
            &&& options matches Json::Object(members) ==> {
                &&& members.dom().contains("temperature"@) <==> req.temperature is Some
                &&& members.dom().contains("num_predict"@) <==> req.max_tokens is Some
                &&& members.dom().contains("stop"@) <==> req.stop.len() > 0
            }
        }),
{
    lemma_body_keys_differ();
}

/// Each message is sent under its role with its whole text, in order and behind the
/// request's own system text, where there is one.
pub proof fn law_messages_are_sent_in_order(req: RequestView)
    ensures
        ({
            let sent = chat_messages(req);
            let first: int = if req.system is Some {
                1
            } else {
                0
            };
            &&& sent.len() == first + req.messages.len()
            &&& req.system matches Some(system) ==> sent[0].role == "system"@ && sent[0].content
                == system
            &&& forall|j: int|
                first <= j < sent.len() ==> {
                    let message = #[trigger] sent[j];
                    &&& message.content == types::blocks_text(req.messages[j - first].content)
                    &&& match req.messages[j - first].role {
                        Role::System => message.role == "system"@,
                        Role::User => message.role == "user"@,
                        Role::Assistant => message.role == "assistant"@,
                    }
                }
        }),
{
}

/// The body asks for what the request asks for: the model that it names, or the default
/// one, its messages, and its temperature, its limit and its stop sequences as they are.
/// Where it sets none of these there are no options.
pub proof fn law_body_asks_for_the_request(
    req: RequestView,
    default_model: Seq<char>,
    stream: bool,
)
    ensures
        ({
            let body = chat_request(req, default_model, stream);
            &&& req.model == "default"@ ==> body.model == default_model
            &&& req.model != "default"@ ==> body.model == req.model
            &&& body.messages == chat_messages(req)
            &&& body.stream == stream
            &&& body.options is None <==> req.temperature is None && req.max_tokens is None
                && req.stop.len() == 0
            &&& body.options matches Some(options) ==> {
                &&& options.temperature == req.temperature
                &&& options.num_predict == req.max_tokens
                &&& options.stop == req.stop
            }
        }),
{
}

/// The body on the wire has exactly its members, each with all that it holds: every
/// message with its role and its text, and every option that is set.
pub proof fn law_body_on_the_wire(body: ChatRequestView)
    ensures
        chat_request_json(body) matches Json::Object(members) && {
            &&& forall|key: Seq<char>| #[trigger]
                members.dom().contains(key) <==> {
                    ||| key == "model"@
                    ||| key == "messages"@
                    ||| key == "stream"@
                    ||| key == "options"@ && body.options is Some
                }
            &&& members["model"@] == Json::Text(body.model)
            &&& members["stream"@] == Json::Bool(body.stream)
            &&& members["messages"@] matches Json::Array(items) && {
                &&& items.len() == body.messages.len()
                &&& forall|i: int|
                    0 <= i < body.messages.len() ==> #[trigger] items[i] == Json::Object(
                        map![
                            "role"@ => Json::Text(body.messages[i].role),
                            "content"@ => Json::Text(body.messages[i].content),
                        ],
                    )
            }
            &&& body.options matches Some(options) ==> (members["options"@] matches Json::Object(
                set,
            ) && {
                &&& forall|key: Seq<char>| #[trigger]
                    set.dom().contains(key) <==> {
                        ||| key == "temperature"@ && options.temperature is Some
                        ||| key == "num_predict"@ && options.num_predict is Some
                        ||| key == "stop"@ && options.stop.len() > 0
                    }
                &&& options.temperature matches Some(t) ==> set["temperature"@] == t
                &&& options.num_predict matches Some(n) ==> set["num_predict"@] == Json::Number(
                    Number::Unsigned(n as u64),
                )
                &&& options.stop.len() > 0 ==> (set["stop"@] matches Json::Array(items) && {
                    &&& items.len() == options.stop.len()
                    &&& forall|i: int|
                        0 <= i < items.len() ==> #[trigger] items[i] == Json::Text(options.stop[i])
                })
            })
        },
{
    lemma_body_keys_differ();
}

/// An embedding request on the wire is the model and every input, in order, and nothing
/// else.
pub proof fn law_embedding_on_the_wire(model: Seq<char>, input: Seq<Seq<char>>)
    ensures
        embed_request_json(model, input) matches Json::Object(members) && {
            &&& members.dom() == set!["model"@, "input"@]
            &&& members["model"@] == Json::Text(model)
            &&& members["input"@] matches Json::Array(items) && {
                &&& items.len() == input.len()
                &&& forall|i: int|
                    0 <= i < input.len() ==> #[trigger] items[i] == Json::Text(input[i])
            }
        },
{
    reveal_strlit("model");
    reveal_strlit("input");
    assert("model"@[0] != "input"@[0]);
    let json = embed_request_json(model, input);
    assert(json->Object_0.dom() =~= set!["model"@, "input"@]);
}

/// The API's names for why the model stopped: it was done, or the limit was reached; any
/// other name is handed on as it is.
pub proof fn law_done_reasons(name: Seq<char>)
    ensures
        name == "stop"@ ==> finish_reason_of(name) is Stop,
        name == "length"@ ==> finish_reason_of(name) is MaxTokens,
        name != "stop"@ && name != "length"@ ==> finish_reason_of(name)
            == FinishReasonView::Other(name),
{
    reveal_strlit("stop");
    reveal_strlit("length");
    assert("stop"@.len() != "length"@.len());
}

/// The counts of a reply are kept: a whole number below 2^32 is itself, one above keeps
/// its low bits, and anything else counts as zero.
pub proof fn law_counts_are_kept(raw: Json)
    ensures
        match raw.at("prompt_eval_count"@) {
            Json::Number(Number::Unsigned(n)) => {
                &&& n < 0x1_0000_0000 ==> reply_usage(raw).input_tokens == n
                &&& reply_usage(raw).input_tokens as int == n as int % 0x1_0000_0000
            },
            _ => reply_usage(raw).input_tokens == 0,
        },
        match raw.at("eval_count"@) {
            Json::Number(Number::Unsigned(n)) => {
                &&& n < 0x1_0000_0000 ==> reply_usage(raw).output_tokens == n
                &&& reply_usage(raw).output_tokens as int == n as int % 0x1_0000_0000
            },
            _ => reply_usage(raw).output_tokens == 0,
        },
{
}

/// What a response takes from a reply, each part by itself and whatever the others are:
/// the whole text, the counts, the model, why it stopped, and the whole reply with the
/// latency that was measured; no tool calls. What is not there counts as nothing, as the
/// default model and as a plain stop.
pub proof fn law_response_takes_what_the_reply_says(
    raw: Json,
    default_model: Seq<char>,
    latency: Duration,
)
    ensures
        ({
            let response = chat_response(raw, default_model, latency);
            &&& match raw.at("message"@).at("content"@) {
                Json::Text(content) => response.content == content,
                _ => response.content.len() == 0,
            }
            &&& response.tool_calls.len() == 0
            &&& response.usage == reply_usage(raw)
            &&& match raw.at("model"@) {
                Json::Text(model) => response.model == model,
                _ => response.model == default_model,
            }
            &&& match raw.at("done_reason"@) {
                Json::Text(name) => response.finish_reason == finish_reason_of(name),
                _ => response.finish_reason is Stop,
            }
            &&& response.latency == latency
            &&& response.raw == raw
        }),
{
    reveal_strlit("");
}

/// What a document of a stream says: where it is done, the end with its counts; otherwise
/// its text as it is, the white space in it too; and nothing where it has no text.
pub proof fn law_documents(document: Json)
    ensures
        document.at("done"@) == Json::Bool(true) ==> document_chunk(document) == Some(
            StreamChunkView::Done { usage: Some(reply_usage(document)) },
        ),
        document.at("done"@) != Json::Bool(true) ==> match document.at("message"@).at("content"@) {
            Json::Text(t) => {
                &&& t.len() > 0 ==> document_chunk(document) == Some(StreamChunkView::Delta(t))
                &&& t.len() == 0 ==> document_chunk(document) is None
            },
            _ => document_chunk(document) is None,
        },
{
    reveal_strlit("");
}

/// What the lines of a piece of a stream say, from the first one on: a blank line, and a
/// document that says nothing, are as if they were not there; any other document is what
/// the piece says; a line that is no document brings its error. Where no line says
/// anything, the text is empty.
pub proof fn law_lines_of_a_piece(line: Seq<char>, rest: Seq<Seq<char>>)
    ensures
        lines_chunk(Seq::empty()) == StreamChunkView::Delta(Seq::empty()),
        text::trimmed(line).len() == 0 ==> lines_chunk(seq![line] + rest) == lines_chunk(rest),
        text::trimmed(line).len() > 0 ==> match json::parsed_json(text::trimmed(line)) {
            Err(message) => lines_chunk(seq![line] + rest) == StreamChunkView::Error(message),
            Ok(document) => match document_chunk(document) {
                Some(chunk) => lines_chunk(seq![line] + rest) == chunk,
                None => lines_chunk(seq![line] + rest) == lines_chunk(rest),
            },
        },
{
    assert((seq![line] + rest).skip(1) =~= rest);
}

/// A piece of a stream is what its lines say, where it is text; otherwise it is the error
/// that says why it is none.
pub proof fn law_pieces_of_a_stream(bytes: Seq<u8>)
    ensures
        vstd::utf8::valid_utf8(bytes) ==> bytes_chunk(bytes) == lines_chunk(
            text::text_lines(vstd::utf8::decode_utf8(bytes)),
        ),
        !vstd::utf8::valid_utf8(bytes) ==> bytes_chunk(bytes) == StreamChunkView::Error(
            text::utf8_error_message(bytes),
        ),
{
}

/// What a body says is what its fields hold: every message in order, and each option as
/// it is.
pub proof fn law_view_of_body(body: ChatRequest)
    ensures
        body@.model == body.model@,
        body@.messages.len() == body.messages@.len(),
        forall|i: int|
            0 <= i < body.messages@.len() ==> #[trigger] body@.messages[i] == (ChatMessageView {
                role: body.messages@[i].role@,
                content: body.messages@[i].content@,
            }),
        body@.stream == body.stream,
        match body.options {
            None => body@.options is None,
            Some(options) => body@.options matches Some(o) && {
                &&& match options.temperature {
                    Some(t) => o.temperature == Some(json::json_of(t)),
                    None => o.temperature is None,
                }
                &&& o.num_predict == options.num_predict
                &&& o.stop.len() == options.stop@.len()
                &&& forall|i: int|
                    0 <= i < options.stop@.len() ==> #[trigger] o.stop[i] == options.stop@[i]@
            },
        },
{
}

/// A piece of a stream that is one document, with white space around it or not, hands out
/// the text of the document as it is, where the document is not the last and has a text.
pub proof fn law_piece_hands_out_its_text(bytes: Seq<u8>, document: Json, t: Seq<char>)
    requires
        vstd::utf8::valid_utf8(bytes),
        forall|j: int|
            0 <= j < vstd::utf8::decode_utf8(bytes).len() ==> vstd::utf8::decode_utf8(bytes)[j]
                != '\n',
        text::trimmed(vstd::utf8::decode_utf8(bytes)).len() > 0,
        json::parsed_json(text::trimmed(vstd::utf8::decode_utf8(bytes))) == Ok::<Json, Seq<char>>(
            document,
        ),
        document.at("done"@) != Json::Bool(true),
        document.at("message"@).at("content"@) == Json::Text(t),
        t.len() > 0,
    ensures
        bytes_chunk(bytes) == StreamChunkView::Delta(t),
{
    let line = vstd::utf8::decode_utf8(bytes);
    let none = Seq::<Seq<char>>::empty();
    if line.len() == 0 {
        assert(text::trimmed(line) =~= line);
    }
    text::law_lines_of_a_text(line, Seq::empty());
    law_documents(document);
    law_lines_of_a_piece(line, none);
    assert(seq![line] + none =~= seq![line]);
}

/// What is sent for a request: to the endpoint below the provider's URL, without headers
/// of its own, with the model, the flag for streaming, and every message of the request
/// behind its own system text. An embedding goes to its own endpoint, with the model that
/// it names and every input.
pub proof fn law_request_is_sent(
    provider: OllamaView,
    req: RequestView,
    stream: bool,
    model: Seq<char>,
    input: Seq<Seq<char>>,
)
    ensures
        ({
            let sent = http_request_view(provider, req, stream);
            let first: int = if req.system is Some {
                1
            } else {
                0
            };
            &&& sent.url == provider.base_url + "/api/chat"@
            &&& sent.headers.len() == 0
            &&& sent.body.at("model"@) == Json::Text(
                if req.model == "default"@ {
                    provider.model
                } else {
                    req.model
                },
            )
            &&& sent.body.at("stream"@) == Json::Bool(stream)
            &&& sent.body.at("messages"@) matches Json::Array(items) && {
                &&& items.len() == first + req.messages.len()
                &&& forall|j: int|
                    first <= j < items.len() ==> (#[trigger] items[j]).at("content"@)
                        == Json::Text(types::blocks_text(req.messages[j - first].content))
                &&& req.system matches Some(system) ==> items[0].at("content"@) == Json::Text(
                    system,
                )
            }
        }),
        ({
            let sent = embed_request_view(provider, model, input);
            &&& sent.url == provider.base_url + "/api/embed"@
            &&& sent.headers.len() == 0
            &&& sent.body.at("model"@) == Json::Text(model)
            &&& sent.body.at("input"@) matches Json::Array(items) && {
                &&& items.len() == input.len()
                &&& forall|i: int|
                    0 <= i < input.len() ==> #[trigger] items[i] == Json::Text(input[i])
            }
        }),
{
    let body = chat_request(req, provider.model, stream);
    law_body_on_the_wire(body);
    law_messages_are_sent_in_order(req);
    law_embedding_on_the_wire(model, input);
    lemma_body_keys_differ();
}

/// A stream hands out one chunk for each event but its end: what the piece says, or the
/// whole message of a failure.
pub proof fn law_one_chunk_for_each_event(event: NetEvent)
    ensures
        event_chunk(event) is None <==> event is Ended,
        event matches NetEvent::Bytes(bytes) ==> event_chunk(event) == Some(bytes_chunk(bytes@)),
        event matches NetEvent::Failed(message) ==> event_chunk(event) == Some(
            StreamChunkView::Error(message@),
        ),
{
}

} // verus!
