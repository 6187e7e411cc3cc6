//! The AI gateway: role-tagged messages, the capability a provider client
//! offers, and the choice of a provider endpoint for a model identifier.

use crate::config::model_index;
use crate::config::server_index;
use crate::config::Config;
use crate::error::AppError;
use crate::json::json_first_choice;
use crate::json::json_literal;
use crate::json::read_first_choice;
use crate::json::write_literal;
use crate::text::chars_of;
use crate::text::push_chars;
use crate::text::push_str;
use crate::text::string_of;
use crate::text::colon_index;
use crate::text::first_colon;
use crate::text::slice_chars;
use crate::text::str_eq;
use vstd::prelude::*;
use vstd::string::StringExecFns;

verus! {

/// One message of a provider request. The role is `system`, `user` or
/// `assistant`.
#[derive(Debug, Clone, PartialEq, Eq)]
pub struct AiMessage {
    pub role: String,
    pub content: String,
}

/// What a provider client offers: it takes the messages and gives the
/// generated text, or fails.
pub trait AiClient {
    fn send_request(&self, messages: Vec<AiMessage>) -> Result<String, AppError>;
}

/// The endpoint of an OpenAI-compatible provider, with the provider's own
/// name of the model to ask for.
#[derive(Debug, Clone, PartialEq, Eq)]
pub struct OpenAiClient {
    pub api_url: String,
    pub api_key: String,
    pub model: String,
}

impl OpenAiClient {
    /// The endpoint at `api_url`, asked with `api_key` for `model`.
    pub fn new(api_url: &str, api_key: &str, model: &str) -> (client: OpenAiClient)
        ensures
            client.api_url@ == api_url@,
            client.api_key@ == api_key@,
            client.model@ == model@,
    {
        OpenAiClient {
            api_url: String::from_str(api_url),
            api_key: String::from_str(api_key),
            model: String::from_str(model),
        }
    }
}

/// The endpoint that a model identifier `server:display_name` names: where
/// to send requests, with which token, for which of the provider's models.
pub struct Endpoint {
    pub api_url: Seq<char>,
    pub api_key: Seq<char>,
    pub model: Seq<char>,
}

/// The endpoint for a model identifier, if it maps to one: the identifier
/// holds a colon, the part before the first colon names a configured
/// provider, the part after it names one of that provider's models, and the
/// provider is of type `openai`.
pub open spec fn resolve_model(config: Config, model_identifier: Seq<char>) -> Option<Endpoint> {
    let colon = first_colon(model_identifier);
    if colon >= model_identifier.len() {
        None
    } else {
        let s = server_index(config.server.servers@, model_identifier.take(colon));
        if s < 0 {
            None
        } else {
            let detail = config.server.servers@[s].detail;
            let m = model_index(detail.model_list@, model_identifier.skip(colon + 1));
            if m < 0 || detail.server_type@ != "openai"@ {
                None
            } else {
                Some(
                    Endpoint {
                        api_url: detail.url@,
                        api_key: detail.token@,
                        model: detail.model_list@[m].model@,
                    },
                )
            }
        }
    }
}

/// Chooses the provider client for a model identifier. Fails with a
/// `ConfigError` where the identifier maps to no configured endpoint.
pub fn create_client(config: &Config, model_identifier: &str) -> (r: Result<OpenAiClient, AppError>)
    ensures
        match r {
            Ok(client) => resolve_model(*config, model_identifier@) == Some(
                Endpoint { api_url: client.api_url@, api_key: client.api_key@, model: client.model@ },
            ),
            Err(e) => resolve_model(*config, model_identifier@) is None && e is ConfigError,
        },
{
    let id = chars_of(model_identifier);
    let colon = colon_index(&id, 0);
    assert(id@.skip(0) =~= id@);
    if colon >= id.len() {
        return Err(
            AppError::ConfigError(
                String::from_str("Invalid model identifier format. Expected 'server:model'."),
            ),
        );
    }
    let server_name = slice_chars(&id, 0, colon);
    let display_name = slice_chars(&id, colon + 1, id.len());
    assert(id@.subrange(0, colon as int) =~= id@.take(colon as int));
    assert(id@.subrange(colon + 1, id.len() as int) =~= id@.skip(colon + 1));
    let s = match config.server.find_server(&server_name) {
        Some(s) => s,
        None => {
            return Err(AppError::ConfigError(String::from_str("Server configuration not found.")));
        },
    };
    let detail = &config.server.servers[s].detail;
    let m = match detail.find_model(&display_name) {
        Some(m) => m,
        None => {
            return Err(AppError::ConfigError(String::from_str("Model not found for server.")));
        },
    };
    if !str_eq(detail.server_type.as_str(), "openai") {
        return Err(AppError::ConfigError(String::from_str("Unsupported AI server type.")));
    }
    Ok(
        OpenAiClient::new(
            detail.url.as_str(),
            detail.token.as_str(),
            detail.model_list[m].model.as_str(),
        ),
    )
}

/// The mathematical value of a message: its role and its content.
pub struct MessageView {
    pub role: Seq<char>,
    pub content: Seq<char>,
}

impl View for AiMessage {
    type V = MessageView;

    open spec fn view(&self) -> MessageView {
        MessageView { role: self.role@, content: self.content@ }
    }
}

/// The values of a sequence of messages.
pub open spec fn messages_view(messages: Seq<AiMessage>) -> Seq<MessageView> {
    messages.map_values(|m: AiMessage| m@)
}

/// The JSON objects of the messages, with a comma between neighbours.
pub open spec fn messages_text(messages: Seq<MessageView>) -> Seq<char>
    decreases messages.len(),
{
    if messages.len() == 0 {
        Seq::empty()
    } else {
        messages_text(messages.drop_last()) + (if messages.len() > 1 {
            ","@
        } else {
            Seq::empty()
        }) + "{\"role\":"@ + json_literal(messages.last().role) + ",\"content\":"@ + json_literal(
            messages.last().content,
        ) + "}"@
    }
}

/// The body of a provider request: the model, then the messages in order.
pub open spec fn request_text(model: Seq<char>, messages: Seq<MessageView>) -> Seq<char> {
    "{\"model\":"@ + json_literal(model) + ",\"messages\":["@ + messages_text(messages) + "]}"@
}

/// What a provider response gives: the answer where the request succeeded
/// and the body holds one, `None` otherwise.
pub open spec fn answer_of(success: bool, body: Seq<u8>) -> Option<Seq<char>> {
    if success {
        match json_first_choice(body) {
            Some(Some(text)) => Some(text),
            _ => None,
        }
    } else {
        None
    }
}

impl OpenAiClient {
    /// The body of the request for these messages.
    pub fn request_body(&self, messages: &Vec<AiMessage>) -> (body: String)
        ensures
            body@ == request_text(self.model@, messages_view(messages@)),
    {
        let ghost all = messages_view(messages@);
        let mut list: Vec<char> = Vec::new();
        let mut i: usize = 0;
        assert(all.take(0).len() == 0);
        while i < messages.len()
            invariant
                i <= messages.len(),
                all == messages_view(messages@),
                list@ == messages_text(all.take(i as int)),
            decreases messages.len() - i,
        {
            proof {
                assert(all.take(i + 1).drop_last() =~= all.take(i as int));
                assert(all.take(i + 1).last() == messages@[i as int]@);
            }
            let ghost before = list@;
            if i > 0 {
                push_str(&mut list, ",");
            }
            push_str(&mut list, "{\"role\":");
            push_str(&mut list, write_literal(messages[i].role.as_str()).as_str());
            push_str(&mut list, ",\"content\":");
            push_str(&mut list, write_literal(messages[i].content.as_str()).as_str());
            push_str(&mut list, "}");
            assert(list@ =~= messages_text(all.take(i + 1)));
            i += 1;
        }
        assert(all.take(messages.len() as int) =~= all);
        let mut out: Vec<char> = Vec::new();
        push_str(&mut out, "{\"model\":");
        push_str(&mut out, write_literal(self.model.as_str()).as_str());
        push_str(&mut out, ",\"messages\":[");
        push_chars(&mut out, &list);
        push_str(&mut out, "]}");
        assert(out@ =~= request_text(self.model@, all));
        string_of(&out)
    }

    /// Reads the provider's response. Every failure is an `AiServiceError`:
    /// a status that is no success, a body that is not JSON, a body without
    /// an answer.
    pub fn read_response(success: bool, status: &str, body: &[u8]) -> (r: Result<String, AppError>)
        ensures
            match r {
                Ok(text) => answer_of(success, body@) == Some(text@),
                Err(e) => answer_of(success, body@) is None && e is AiServiceError,
            },
    {
        if !success {
            let text = crate::json::read_utf8_lossy(body);
            return Err(
                AppError::AiServiceError(
                    String::from_str("API request failed with status ").concat(status).concat(
                        ": ",
                    ).concat(text.as_str()),
                ),
            );
        }
        match read_first_choice(body) {
            Ok(Some(text)) => Ok(text),
            Ok(None) => Err(AppError::AiServiceError(String::from_str("No content in AI response"))),
            Err(e) => Err(AppError::AiServiceError(e.to_text())),
        }
    }
}

} // verus!
