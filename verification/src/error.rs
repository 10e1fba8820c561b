//! What can go wrong between a caller and a provider.

use vstd::prelude::*;

use crate::text;

verus! {

/// `reqwest::Error`, opaque.
#[verifier::external_type_specification]
#[verifier::external_body]
pub struct ExHttpError(reqwest::Error);

#[derive(Debug)]
pub enum ProviderError {
    /// The request could not be sent, or the reply not be read.
    Http(reqwest::Error),
    /// A JSON document could not be written or read.
    Json(serde_json::Error),
    /// The provider answered with a status that is not a success.
    Api { status: u16, message: String },
    Stream(String),
    Unsupported(String),
    Other(String),
}

/// What went wrong.
pub enum ProviderErrorView {
    Http(reqwest::Error),
    Json(serde_json::Error),
    Api { status: u16, message: Seq<char> },
    Stream(Seq<char>),
    Unsupported(Seq<char>),
    Other(Seq<char>),
}

impl View for ProviderError {
    type V = ProviderErrorView;

    open spec fn view(&self) -> ProviderErrorView {
        match self {
            ProviderError::Http(e) => ProviderErrorView::Http(*e),
            ProviderError::Json(e) => ProviderErrorView::Json(*e),
            ProviderError::Api { status, message } => ProviderErrorView::Api {
                status: *status,
                message: message@,
            },
            ProviderError::Stream(message) => ProviderErrorView::Stream(message@),
            ProviderError::Unsupported(operation) => ProviderErrorView::Unsupported(operation@),
            ProviderError::Other(message) => ProviderErrorView::Other(message@),
        }
    }
}

impl From<reqwest::Error> for ProviderError {
    fn from(e: reqwest::Error) -> (r: Self) {
        ProviderError::Http(e)
    }
}

impl vstd::std_specs::convert::FromSpecImpl<reqwest::Error> for ProviderError {
    open spec fn obeys_from_spec() -> bool {
        true
    }

    open spec fn from_spec(e: reqwest::Error) -> Self {
        ProviderError::Http(e)
    }
}

impl From<serde_json::Error> for ProviderError {
    fn from(e: serde_json::Error) -> (r: Self) {
        ProviderError::Json(e)
    }
}

impl vstd::std_specs::convert::FromSpecImpl<serde_json::Error> for ProviderError {
    open spec fn obeys_from_spec() -> bool {
        true
    }

    open spec fn from_spec(e: serde_json::Error) -> Self {
        ProviderError::Json(e)
    }
}

impl ProviderErrorView {
    /// Whether `t` is the message of the error, given how the error of the
    /// transport or of the JSON document prints itself.
    pub open spec fn described_by(self, t: Seq<char>) -> bool {
        match self {
            ProviderErrorView::Http(e) => exists|cause: String|
                vstd::string::to_string_from_display_ensures(&e, cause) && t == "HTTP error: "@
                    + #[trigger] cause@,
            ProviderErrorView::Json(e) => exists|cause: String|
                vstd::string::to_string_from_display_ensures(&e, cause) && t
                    == "JSON serialization error: "@ + #[trigger] cause@,
            ProviderErrorView::Api { status, message } => t == "API error ("@ + text::decimal(
                status as nat,
            ) + "): "@ + message,
            ProviderErrorView::Stream(message) => t == "Stream error: "@ + message,
            ProviderErrorView::Unsupported(operation) => t == "Unsupported operation: "@
                + operation,
            ProviderErrorView::Other(message) => t == message,
        }
    }
}

impl ProviderError {
    /// The error as a message for a reader.
    pub fn to_string(&self) -> (r: String)
        ensures
            self@.described_by(r@),
    {
        match self {
            ProviderError::Http(e) => {
                let cause = e.to_string();
                let mut out = "HTTP error: ".to_string();
                out.append(cause.as_str());
                assert(vstd::string::to_string_from_display_ensures(e, cause) && out@
                    == "HTTP error: "@ + cause@);
                assert(self@.described_by(out@));
                out
            },
            ProviderError::Json(e) => {
                let cause = e.to_string();
                let mut out = "JSON serialization error: ".to_string();
                out.append(cause.as_str());
                assert(vstd::string::to_string_from_display_ensures(e, cause) && out@
                    == "JSON serialization error: "@ + cause@);
                assert(self@.described_by(out@));
                out
            },
            ProviderError::Api { status, message } => {
                let mut out = "API error (".to_string();
                out.append(text::to_decimal(*status as u64).as_str());
                out.append("): ");
                out.append(message.as_str());
                out
            },
            ProviderError::Stream(message) => {
                let mut out = "Stream error: ".to_string();
                out.append(message.as_str());
                out
            },
            ProviderError::Unsupported(operation) => {
                let mut out = "Unsupported operation: ".to_string();
                out.append(operation.as_str());
                out
            },
            ProviderError::Other(message) => message.clone(),
        }
    }
}

/// Each error has exactly one message, which carries all that the error holds: the cause
/// as it prints itself, the status in decimal, and the text in full.
pub proof fn law_messages_of_errors(error: ProviderErrorView, t: Seq<char>)
    ensures
        match error {
            ProviderErrorView::Http(e) => error.described_by(t) ==> exists|cause: String|
                vstd::string::to_string_from_display_ensures(&e, cause) && t == "HTTP error: "@
                    + #[trigger] cause@,
            ProviderErrorView::Json(e) => error.described_by(t) ==> exists|cause: String|
                vstd::string::to_string_from_display_ensures(&e, cause) && t
                    == "JSON serialization error: "@ + #[trigger] cause@,
            ProviderErrorView::Api { status, message } => error.described_by(t) <==> t
                == "API error ("@ + text::decimal(status as nat) + "): "@ + message,
            ProviderErrorView::Stream(message) => error.described_by(t) <==> t
                == "Stream error: "@ + message,
            ProviderErrorView::Unsupported(operation) => error.described_by(t) <==> t
                == "Unsupported operation: "@ + operation,
            ProviderErrorView::Other(message) => error.described_by(t) <==> t == message,
        },
{
}

/// What went wrong is what the error's fields hold.
pub proof fn law_view_of_error(error: ProviderError)
    ensures
        match error {
            ProviderError::Http(e) => error@ == ProviderErrorView::Http(e),
            ProviderError::Json(e) => error@ == ProviderErrorView::Json(e),
            ProviderError::Api { status, message } => error@ == ProviderErrorView::Api {
                status,
                message: message@,
            },
            ProviderError::Stream(message) => error@ == ProviderErrorView::Stream(message@),
            ProviderError::Unsupported(message) => error@ == ProviderErrorView::Unsupported(
                message@,
            ),
            ProviderError::Other(message) => error@ == ProviderErrorView::Other(message@),
        },
{
}

} // verus!
