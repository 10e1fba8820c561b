//! What a provider asks of the network, and what the network answers.

use serde_json::Value;
use vstd::prelude::*;

use crate::error::{ProviderError, ProviderErrorView};
use crate::json;
use crate::json::Json;
use crate::text;
use crate::types;

verus! {

/// A `POST` request with a JSON body.
#[derive(Debug)]
pub struct HttpRequest {
    pub url: String,
    pub headers: Vec<(String, String)>,
    pub body: Value,
}

/// What a request to the network says.
pub struct HttpRequestView {
    pub url: Seq<char>,
    pub headers: Seq<(Seq<char>, Seq<char>)>,
    pub body: Json,
}

impl View for HttpRequest {
    type V = HttpRequestView;

    open spec fn view(&self) -> HttpRequestView {
        HttpRequestView {
            url: self.url@,
            headers: self.headers@.map_values(|h: (String, String)| (h.0@, h.1@)),
            body: json::json_of(self.body),
        }
    }
}

/// What comes next from the body of a reply.
#[derive(Debug)]
pub enum NetEvent {
    /// Some bytes of the body.
    Bytes(Vec<u8>),
    /// The connection failed, with this message.
    Failed(String),
    /// The body is over.
    Ended,
}

/// What to read from a reply.
#[derive(Debug, Clone, Copy, PartialEq, Eq, Structural)]
pub enum Reading {
    /// The answer that was asked for.
    Answer,
    /// The text that says why the request was refused.
    Refusal,
}

/// Whether a status code says that the request succeeded.
pub open spec fn is_success(status: u16) -> bool {
    200 <= status < 300
}

/// What to read from a reply with this status code.
pub fn reading(status: u16) -> (r: Reading)
    ensures
        r == (if is_success(status) {
            Reading::Answer
        } else {
            Reading::Refusal
        }),
{
    if 200 <= status && status < 300 {
        Reading::Answer
    } else {
        Reading::Refusal
    }
}

/// The error of a refused request, given the text of the reply where it could be read.
pub open spec fn refused(status: u16, text: Option<Seq<char>>) -> ProviderErrorView {
    match text {
        Some(message) => ProviderErrorView::Api { status, message },
        None => ProviderErrorView::Api { status, message: Seq::empty() },
    }
}

/// The error of a refused request: its status and the text of the reply, or no
/// text where that could not be read.
pub fn refusal(status: u16, text: Option<String>) -> (r: ProviderError)
    ensures
        r@ == (ProviderErrorView::Api {
            status,
            message: match text {
                Some(t) => t@,
                None => Seq::empty(),
            },
        }),
        r@ == refused(status, types::text_option(text)),
{
    let message = match text {
        Some(t) => t,
        None => String::new(),
    };
    ProviderError::Api { status, message }
}

/// A request succeeded exactly where its status code is one of the two hundreds.
pub proof fn law_success(status: u16)
    ensures
        is_success(status) <==> status / 100 == 2,
{
}

/// What a request to the network says is what its fields hold: the whole URL, every
/// header in order, and the body.
pub proof fn law_view_of_http_request(http: HttpRequest)
    ensures
        http@.url == http.url@,
        http@.headers.len() == http.headers@.len(),
        forall|i: int|
            0 <= i < http.headers@.len() ==> #[trigger] http@.headers[i] == (
                http.headers@[i].0@,
                http.headers@[i].1@,
            ),
        http@.body == json::json_of(http.body),
{
}

/// The message of a refused request names the status and carries the whole text of the
/// reply.
pub proof fn law_refusal_carries_the_reply(status: u16, reply: Seq<char>, t: Seq<char>)
    ensures
        refused(status, Some(reply)).described_by(t) <==> t == "API error ("@ + text::decimal(
            status as nat,
        ) + "): "@ + reply,
        refused(status, None).described_by(t) <==> t == "API error ("@ + text::decimal(
            status as nat,
        ) + "): "@,
{
    let head = "API error ("@ + text::decimal(status as nat) + "): "@;
    assert(head + Seq::<char>::empty() =~= head);
}

} // verus!
