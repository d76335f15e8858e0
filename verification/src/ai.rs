//! Talking to model providers: the providers a configuration selects, the
//! requests they are sent and the answers read back, and the conversation
//! loop around tool calls.
use vstd::prelude::*;

use crate::config::{AIConfig, AIProviderConfig, ProviderType};
use crate::json::Json;
use crate::message::{Message, Usage};
use crate::text::{chars_of, push_str, seq_starts_with, starts_with, str_eq, string_from_chars, to_owned_string};

pub mod openai;
pub mod openrouter;
pub mod session;
pub mod summarizer;

verus! {

/// Why a provider call failed.
#[derive(Debug)]
pub enum ProviderError {
    RequestFailed(String),
    Authentication(String),
    RateLimited(String),
    InvalidRequest(String),
    Unknown(String),
}

/// How a provider error reads.
pub open spec fn provider_error_text(e: ProviderError) -> Seq<char> {
    match e {
        ProviderError::RequestFailed(m) => "Request failed: "@ + m@,
        ProviderError::Authentication(m) => "Authentication error: "@ + m@,
        ProviderError::RateLimited(m) => "Rate limited: "@ + m@,
        ProviderError::InvalidRequest(m) => "Invalid request: "@ + m@,
        ProviderError::Unknown(m) => "Unknown error: "@ + m@,
    }
}

impl ProviderError {
    /// How the error reads.
    pub fn to_text(&self) -> (res: String)
        ensures
            res@ == provider_error_text(*self),
    {
        let (prefix, m) = match self {
            ProviderError::RequestFailed(m) => ("Request failed: ", m),
            ProviderError::Authentication(m) => ("Authentication error: ", m),
            ProviderError::RateLimited(m) => ("Rate limited: ", m),
            ProviderError::InvalidRequest(m) => ("Invalid request: ", m),
            ProviderError::Unknown(m) => ("Unknown error: ", m),
        };
        let mut s = to_owned_string(prefix);
        push_str(&mut s, m.as_str());
        s
    }
}

/// A provider's answer.
#[derive(Debug)]
pub struct CompletionResponse {
    pub message: Message,
    pub usage: Usage,
}

/// A tool as a model is told about it: its name, what it does and the JSON
/// schema of its arguments (an object).
#[derive(Debug)]
pub struct Tool {
    pub name: String,
    pub description: Option<String>,
    pub input_schema: Vec<(String, Json)>,
}

/// A character that may stand in an HTTP header value: a visible ASCII
/// character, a space, a tab, or any character outside ASCII.
pub open spec fn header_char(c: char) -> bool {
    ((c as u32) >= 32 && (c as u32) != 127) || c == '\t'
}

/// A bearer authorization header for `api_key` can be made: every character
/// of `Bearer ` followed by the key may stand in a header.
pub open spec fn bearer_ok(api_key: Seq<char>) -> bool {
    forall|i: int| 0 <= i < ("Bearer "@ + api_key).len() ==> header_char(#[trigger] ("Bearer "@ + api_key)[i])
}

/// `http::HeaderValue::from_str(s).is_ok()`: its source accepts a text whose
/// every byte is at least 32 and not 127, or a tab. Bytes of characters outside
/// ASCII are all at least 128, so this holds exactly when every character is a
/// `header_char`.
#[verifier::external_body]
fn header_value_ok(s: &str) -> (res: bool)
    ensures
        res == forall|i: int| 0 <= i < s@.len() ==> header_char(#[trigger] s@[i]),
{
    http::HeaderValue::from_str(s).is_ok()
}

/// The connection settings of a provider: its model and the authorization
/// header its requests carry.
#[derive(Debug)]
pub struct ProviderSettings {
    pub model: String,
    pub authorization: String,
}

/// The settings for `model` with `api_key`: the key goes into a bearer
/// authorization header, which fails when it cannot stand in a header.
pub fn provider_settings(model: &str, api_key: &str) -> (res: Result<ProviderSettings, String>)
    ensures
        match res {
            Ok(p) => p.model@ == model@ && p.authorization@ == "Bearer "@ + api_key@
                && forall|i: int| 0 <= i < p.authorization@.len() ==> header_char(#[trigger] p.authorization@[i]),
            Err(e) => e@ == "failed to parse header value"@ && !bearer_ok(api_key@),
        },
        res is Ok <==> bearer_ok(api_key@),
{
    let mut auth = to_owned_string("Bearer ");
    push_str(&mut auth, api_key);
    if !header_value_ok(auth.as_str()) {
        return Err(to_owned_string("failed to parse header value"));
    }
    Ok(ProviderSettings { model: to_owned_string(model), authorization: auth })
}

/// The provider a configuration selects.
#[derive(Debug)]
pub enum ProviderChoice {
    OpenAI(openai::OpenAIProvider),
    OpenRouter(openrouter::OpenRouterProvider),
}

/// The model a chosen provider runs.
pub open spec fn choice_model(p: ProviderChoice) -> Seq<char> {
    match p {
        ProviderChoice::OpenAI(o) => o.settings.model@,
        ProviderChoice::OpenRouter(o) => o.settings.model@,
    }
}

/// The authorization header a chosen provider sends.
pub open spec fn choice_auth(p: ProviderChoice) -> Seq<char> {
    match p {
        ProviderChoice::OpenAI(o) => o.settings.authorization@,
        ProviderChoice::OpenRouter(o) => o.settings.authorization@,
    }
}

/// The provider type a choice stands for.
pub open spec fn choice_type(p: ProviderChoice) -> ProviderType {
    match p {
        ProviderChoice::OpenAI(_) => ProviderType::OpenAI,
        ProviderChoice::OpenRouter(_) => ProviderType::OpenRouter,
    }
}

/// The provider for a model configuration.
pub fn create_provider_from_config(config: &AIProviderConfig) -> (res: Result<ProviderChoice, String>)
    ensures
        match res {
            Ok(p) => choice_type(p) == config.provider && choice_model(p) == config.model@
                && choice_auth(p) == "Bearer "@ + config.api_key@,
            Err(e) => e@ == "failed to parse header value"@,
        },
        res is Ok <==> bearer_ok(config.api_key@),
{
    match config.provider {
        ProviderType::OpenAI => match openai::OpenAIProvider::new(config.model.as_str(), config.api_key.as_str()) {
            Ok(p) => Ok(ProviderChoice::OpenAI(p)),
            Err(e) => Err(e),
        },
        ProviderType::OpenRouter => match openrouter::OpenRouterProvider::new(config.model.as_str(), config.api_key.as_str()) {
            Ok(p) => Ok(ProviderChoice::OpenRouter(p)),
            Err(e) => Err(e),
        },
    }
}

/// The provider of the workhorse model.
pub fn create_workhorse_provider(config: &AIConfig) -> (res: Result<ProviderChoice, String>)
    ensures
        match res {
            Ok(p) => choice_type(p) == config.workhorse.provider && choice_model(p) == config.workhorse.model@
                && choice_auth(p) == "Bearer "@ + config.workhorse.api_key@,
            Err(e) => e@ == "failed to parse header value"@,
        },
        res is Ok <==> bearer_ok(config.workhorse.api_key@),
{
    create_provider_from_config(&config.workhorse)
}

/// The provider used for summaries and pruning: the summarisation model when
/// one is configured, else the workhorse.
pub fn create_summarization_provider(config: &AIConfig) -> (res: Result<ProviderChoice, String>)
    ensures
        match res {
            Ok(p) => match config.summarization {
                Some(s) => choice_type(p) == s.provider && choice_model(p) == s.model@
                    && choice_auth(p) == "Bearer "@ + s.api_key@,
                None => choice_type(p) == config.workhorse.provider && choice_model(p) == config.workhorse.model@
                    && choice_auth(p) == "Bearer "@ + config.workhorse.api_key@,
            },
            Err(e) => e@ == "failed to parse header value"@,
        },
        res is Ok <==> match config.summarization {
            Some(s) => bearer_ok(s.api_key@),
            None => bearer_ok(config.workhorse.api_key@),
        },
{
    match &config.summarization {
        Some(s) => create_provider_from_config(s),
        None => create_provider_from_config(&config.workhorse),
    }
}

/// What a line of a streamed answer is.
#[derive(Debug)]
pub enum StreamLine {
    /// Not a data line: skipped.
    Skip,
    /// The end marker `[DONE]`.
    Done,
    /// An event, as JSON text.
    Data(String),
}

/// Sorts a line of a streamed answer: a line that does not start with
/// `data: ` is skipped; after that prefix, `[DONE]` ends the stream and
/// anything else is an event.
pub fn classify_line(line: &str) -> (res: StreamLine)
    ensures
        !seq_starts_with(line@, "data: "@) ==> res is Skip,
        seq_starts_with(line@, "data: "@) && line@.skip(6) == "[DONE]"@ ==> res is Done,
        seq_starts_with(line@, "data: "@) && line@.skip(6) != "[DONE]"@ ==> (res matches StreamLine::Data(d) && d@ == line@.skip(6)),
{
    if !starts_with(line, "data: ") {
        return StreamLine::Skip;
    }
    proof {
        reveal_strlit("data: ");
    }
    let cs = chars_of(line);
    let mut data: Vec<char> = Vec::new();
    for i in 6..cs.len()
        invariant
            cs@ == line@,
            6 <= cs.len(),
            data@ == cs@.subrange(6, i as int),
    {
        data.push(cs[i]);
        assert(cs@.subrange(6, i + 1) =~= cs@.subrange(6, i as int).push(cs@[i as int]));
    }
    assert(data@ =~= line@.skip(6));
    let text = string_from_chars(&data);
    if str_eq(text.as_str(), "[DONE]") {
        StreamLine::Done
    } else {
        StreamLine::Data(text)
    }
}

} // verus!
