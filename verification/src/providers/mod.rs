//! The providers, and what they share.

use vstd::prelude::*;

use crate::providers::anthropic::ApiMessageView;
use crate::providers::ollama::ChatMessageView;
use crate::text;
use crate::types::{MessageView, ModelId, RequestView};

pub mod anthropic;
pub mod ollama;
pub mod sse;

verus! {

/// Whether no slash stands at the end of a URL.
pub open spec fn no_slash_at_end(url: Seq<char>) -> bool {
    url.len() > 0 ==> url.last() != '/'
}

/// The model that a request runs on: the one it names, or the provider's own where
/// it names none.
pub open spec fn resolved_model(requested: Seq<char>, default_model: Seq<char>) -> Seq<char> {
    if requested == "default"@ {
        default_model
    } else {
        requested
    }
}

/// Chooses the model that a request runs on.
pub fn resolve_model(requested: &ModelId, default_model: &ModelId) -> (r: String)
    ensures
        r@ == resolved_model(requested@, default_model@),
{
    if text::same_text(requested.as_str(), "default") {
        default_model.as_str().to_string()
    } else {
        requested.as_str().to_string()
    }
}

/// A message of the Messages API in the form of the chat API: its role and its text.
pub open spec fn as_chat_message(message: ApiMessageView) -> ChatMessageView {
    ChatMessageView {
        role: message.role,
        content: anthropic::reply_text(message.content.items()),
    }
}

proof fn lemma_same_conversation(messages: Seq<MessageView>)
    ensures
        ({
            let chat = messages.map_values(|m: MessageView| ollama::chat_message(m));
            &&& chat.filter(|m: ChatMessageView| m.role == "system"@).map_values(
                |m: ChatMessageView| m.content,
            ) == anthropic::system_texts(messages)
            &&& chat.filter(|m: ChatMessageView| m.role != "system"@) == anthropic::api_messages(
                messages,
            ).map_values(|m: ApiMessageView| as_chat_message(m))
        }),
    decreases messages.len(),
{
    reveal(Seq::filter);
    reveal_strlit("system");
    reveal_strlit("user");
    reveal_strlit("assistant");
    assert("system"@[0] != "user"@[0]);
    assert("system"@[0] != "assistant"@[0]);
    let chat = messages.map_values(|m: MessageView| ollama::chat_message(m));
    let system = chat.filter(|m: ChatMessageView| m.role == "system"@);
    let others = chat.filter(|m: ChatMessageView| m.role != "system"@);
    let api = anthropic::api_messages(messages);
    if messages.len() > 0 {
        lemma_same_conversation(messages.drop_last());
        anthropic::law_blocks_are_read_back(messages.last().content);
        assert(chat.drop_last() =~= messages.drop_last().map_values(
            |m: MessageView| ollama::chat_message(m),
        ));
    }
    assert(system.map_values(|m: ChatMessageView| m.content) =~= anthropic::system_texts(messages));
    assert(others =~= api.map_values(|m: ApiMessageView| as_chat_message(m)));
}

/// The same request works with any provider: both ask for the same model, under the
/// same settings, and send the same texts under the same roles, except that Anthropic
/// is sent the system texts apart from the messages.
pub proof fn law_providers_agree(req: RequestView, default_model: Seq<char>, stream: bool)
    ensures
        ({
            let a = anthropic::messages_request(req, default_model, stream);
            let o = ollama::chat_request(req, default_model, stream);
            &&& a.model == o.model
            &&& a.stream == o.stream
            &&& a.temperature == match o.options {
                Some(options) => options.temperature,
                None => None,
            }
            &&& a.stop_sequences == match o.options {
                Some(options) => options.stop,
                None => Seq::empty(),
            }
            &&& req.max_tokens matches Some(n) ==> a.max_tokens == n && (o.options matches Some(
                options,
            ) && options.num_predict == Some(n))
            &&& o.messages.filter(|m: ChatMessageView| m.role == "system"@).map_values(
                |m: ChatMessageView| m.content,
            ) == anthropic::system_parts(req)
            &&& o.messages.filter(|m: ChatMessageView| m.role != "system"@)
                == a.messages.map_values(|m: ApiMessageView| as_chat_message(m))
        }),
{
    let is_system = |m: ChatMessageView| m.role == "system"@;
    let is_other = |m: ChatMessageView| m.role != "system"@;
    let content = |m: ChatMessageView| m.content;
    let conversation = req.messages.map_values(|m: MessageView| ollama::chat_message(m));
    lemma_same_conversation(req.messages);
    if let Some(system) = req.system {
        let head = seq![ChatMessageView { role: "system"@, content: system }];
        Seq::filter_distributes_over_add(head, conversation, is_system);
        Seq::filter_distributes_over_add(head, conversation, is_other);
        reveal(Seq::filter);
        let nothing = Seq::<ChatMessageView>::empty();
        assert(head.drop_last() =~= nothing);
        assert(nothing.filter(is_other) =~= nothing);
        assert(!is_other(head.last()));
        assert(head.filter(is_system) =~= head);
        assert(head.filter(is_other) =~= nothing);
        assert((head + conversation.filter(is_system)).map_values(content) =~= seq![system]
            + conversation.filter(is_system).map_values(content));
        assert(nothing + conversation.filter(is_other) =~= conversation.filter(is_other));
    }
}

/// Which model a request runs on: the provider's own exactly where it names `default`.
/// And a URL has no slash at its end where it is empty or ends otherwise.
pub proof fn law_shared_rules(requested: Seq<char>, default_model: Seq<char>, url: Seq<char>)
    ensures
        requested == "default"@ ==> resolved_model(requested, default_model) == default_model,
        requested != "default"@ ==> resolved_model(requested, default_model) == requested,
        no_slash_at_end(url) <==> url.len() == 0 || url.last() != '/',
{
}

} // verus!
