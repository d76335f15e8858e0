use boomerang::ai::openai::OpenAIProvider;
use boomerang::ai::openrouter::OpenRouterProvider;
use boomerang::ai::session::{Session, SessionStep};
use boomerang::ai::summarizer::Summarizer;
use boomerang::ai::{
    classify_line, create_provider_from_config, create_summarization_provider, create_workhorse_provider, provider_settings, CompletionResponse, ProviderChoice, ProviderError,
    StreamLine,
};
use boomerang::config::{AIConfig, AIProviderConfig, ProviderType};
use boomerang::json::{get, Json, JsonNumber};
use boomerang::message::{FunctionCall, Message, MessageRole, ToolCall, Usage};

fn s(t: &str) -> Json {
    Json::Str(t.to_string())
}

fn obj(members: Vec<(&str, Json)>) -> Json {
    Json::Object(members.into_iter().map(|(k, v)| (k.to_string(), v)).collect())
}

fn n(v: u64) -> Json {
    Json::Number(JsonNumber::PosInt(v))
}

#[test]
fn provider_error_texts() {
    assert_eq!(ProviderError::RequestFailed("x".to_string()).to_text(), "Request failed: x");
    assert_eq!(ProviderError::Authentication("x".to_string()).to_text(), "Authentication error: x");
    assert_eq!(ProviderError::RateLimited("x".to_string()).to_text(), "Rate limited: x");
    assert_eq!(ProviderError::InvalidRequest("x".to_string()).to_text(), "Invalid request: x");
    assert_eq!(ProviderError::Unknown("x".to_string()).to_text(), "Unknown error: x");
}

#[test]
fn provider_settings_put_the_key_in_a_bearer_header() {
    let p = provider_settings("gpt", "sk-1").unwrap();
    assert_eq!(p.model, "gpt");
    assert_eq!(p.authorization, "Bearer sk-1");
    assert_eq!(provider_settings("gpt", "bad\nkey").unwrap_err(), "failed to parse header value");
    assert!(OpenAIProvider::new("m", "k\u{7f}").is_err());
}

#[test]
fn summarization_provider_prefers_its_own_model() {
    let workhorse = AIProviderConfig { provider: ProviderType::OpenAI, model: "big".to_string(), api_key: "k".to_string() };
    let small = AIProviderConfig { provider: ProviderType::OpenRouter, model: "small".to_string(), api_key: "k".to_string() };
    let with = AIConfig { workhorse, summarization: Some(small) };
    match create_summarization_provider(&with).unwrap() {
        ProviderChoice::OpenRouter(p) => assert_eq!(p.model_name(), "small"),
        other => panic!("unexpected {:?}", other),
    }
    let without = AIConfig {
        workhorse: AIProviderConfig { provider: ProviderType::OpenAI, model: "big".to_string(), api_key: "k".to_string() },
        summarization: None,
    };
    match create_summarization_provider(&without).unwrap() {
        ProviderChoice::OpenAI(p) => assert_eq!(p.model_name(), "big"),
        other => panic!("unexpected {:?}", other),
    }
}

#[test]
fn providers_are_made_exactly_when_the_key_fits_a_header() {
    let good = AIProviderConfig { provider: ProviderType::OpenRouter, model: "m".to_string(), api_key: "sk-1".to_string() };
    let bad = AIProviderConfig { provider: ProviderType::OpenAI, model: "m".to_string(), api_key: "a\nb".to_string() };
    assert!(create_provider_from_config(&good).is_ok());
    assert_eq!(create_provider_from_config(&bad).unwrap_err(), "failed to parse header value");
    let config = AIConfig { workhorse: bad, summarization: Some(good) };
    assert!(create_workhorse_provider(&config).is_err());
    assert!(create_summarization_provider(&config).is_ok());
    assert!(OpenRouterProvider::new("m", "tab\tkey").is_ok());
}

#[test]
fn stream_lines() {
    assert!(matches!(classify_line(": keep-alive"), StreamLine::Skip));
    assert!(matches!(classify_line("data: [DONE]"), StreamLine::Done));
    match classify_line("data: {\"a\":1}") {
        StreamLine::Data(d) => assert_eq!(d, "{\"a\":1}"),
        other => panic!("unexpected {:?}", other),
    }
}

#[test]
fn openai_response_is_read() {
    let provider = OpenAIProvider::new("gpt", "k").unwrap();
    let body = obj(vec![
        ("output", Json::Array(vec![
            obj(vec![
                ("type", s("message")),
                ("role", s("assistant")),
                ("content", Json::Array(vec![obj(vec![("type", s("output_text")), ("text", s("Hi there"))])])),
            ]),
            obj(vec![("type", s("function_call")), ("call_id", s("c1")), ("name", s("web_search")), ("arguments", s("{}"))]),
        ])),
        ("usage", obj(vec![("input_tokens", n(3)), ("output_tokens", n(4))])),
    ]);
    let r = provider.parse_response(&body).unwrap();
    assert_eq!(r.message.role, MessageRole::Assistant);
    assert_eq!(r.message.content.as_deref(), Some("Hi there"));
    let calls = r.message.tool_calls.unwrap();
    assert_eq!(calls.len(), 1);
    assert_eq!(calls[0].id, "c1");
    assert_eq!(calls[0].function.name, "web_search");
    assert_eq!(r.usage.prompt_tokens, 3);
    assert_eq!(r.usage.completion_tokens, 4);
    assert!(matches!(provider.parse_response(&obj(vec![])), Err(ProviderError::InvalidRequest(m)) if m == "No output array in response"));
}

#[test]
fn openai_payload_names_the_model() {
    let provider = OpenAIProvider::new("gpt", "k").unwrap();
    let payload = provider.create_request_payload("Be kind", &vec![Message::user("hi")], None, false);
    assert!(matches!(get(&payload, "model"), Some(Json::Str(m)) if m == "gpt"));
    assert!(matches!(get(&payload, "instructions"), Some(Json::Str(m)) if m == "Be kind"));
    assert!(matches!(get(&payload, "stream"), Some(Json::Bool(false))));
    assert!(get(&payload, "tools").is_none());
    let quiet = provider.create_request_payload("", &vec![], None, true);
    assert!(get(&quiet, "instructions").is_none());
}

#[test]
fn openrouter_response_errors() {
    let provider = OpenRouterProvider::new("m", "k").unwrap();
    let no_choices = provider.parse_response(&obj(vec![]));
    assert!(matches!(no_choices, Err(ProviderError::InvalidRequest(m)) if m == "No choices array in response"));
    let empty = provider.parse_response(&obj(vec![("choices", Json::Array(vec![]))]));
    assert!(matches!(empty, Err(ProviderError::InvalidRequest(m)) if m == "Empty choices array in response"));
    let no_message = provider.parse_response(&obj(vec![("choices", Json::Array(vec![obj(vec![])]))]));
    assert!(matches!(no_message, Err(ProviderError::InvalidRequest(m)) if m == "No message in choice"));
}

#[test]
fn openrouter_response_is_read() {
    let provider = OpenRouterProvider::new("m", "k").unwrap();
    let body = obj(vec![
        ("choices", Json::Array(vec![obj(vec![("message", obj(vec![("content", s("Hello"))]))])])),
        ("usage", obj(vec![("prompt_tokens", n(5)), ("completion_tokens", n(6)), ("total_tokens", n(11))])),
    ]);
    let r = provider.parse_response(&body).unwrap();
    assert_eq!(r.message.content.as_deref(), Some("Hello"));
    assert!(r.message.tool_calls.is_none());
    assert_eq!(r.usage.prompt_tokens, 5);
    assert_eq!(r.usage.completion_tokens, 6);
}

fn answer(calls: Option<Vec<ToolCall>>) -> CompletionResponse {
    let mut m = Message::assistant("thinking");
    m.tool_calls = calls;
    CompletionResponse { message: m, usage: Usage::default() }
}

#[test]
fn session_finishes_without_tool_calls() {
    let mut session = Session::new();
    assert_eq!(session.system_prompt, "You are a helpful assistant.");
    session.add_user_message("hi");
    assert!(matches!(session.complete(&answer(None)), SessionStep::Finished));
    assert_eq!(session.messages().len(), 2);
    session.clear_messages();
    assert!(session.messages().is_empty());
    assert!(session.offered_tools().is_none());
}

#[test]
fn session_dispatches_tool_calls() {
    let tool = boomerang::ai::Tool { name: "web_search".to_string(), description: None, input_schema: vec![] };
    let mut session = Session::new().with_tools(vec![tool]);
    let calls = vec![
        ToolCall { id: "a".to_string(), tool_type: "function".to_string(), function: FunctionCall { name: "web_search".to_string(), arguments: "{}".to_string() } },
        ToolCall { id: "b".to_string(), tool_type: "function".to_string(), function: FunctionCall { name: "nope".to_string(), arguments: "{}".to_string() } },
    ];
    match session.complete(&answer(Some(calls))) {
        SessionStep::RunTools(ds) => {
            assert_eq!(ds.len(), 2);
            assert_eq!(ds[0].tool, Some(0));
            assert_eq!(ds[1].tool, None);
            let ok = Session::tool_result(&ds[0], Some(Ok("found".to_string())));
            assert_eq!(ok.content.as_deref(), Some("found"));
            assert_eq!(ok.tool_call_id.as_deref(), Some("a"));
            let failed = Session::tool_result(&ds[0], Some(Err("boom".to_string())));
            assert_eq!(failed.content.as_deref(), Some("Error executing tool: boom"));
            let unknown = Session::tool_result(&ds[1], None);
            assert_eq!(unknown.content.as_deref(), Some("Unknown tool: nope"));
            session.add_tool_results(vec![ok, unknown]);
            assert_eq!(session.messages().len(), 3);
        },
        other => panic!("unexpected {:?}", other),
    }
}

#[test]
fn summary_requests() {
    assert!(Summarizer::summarize("Summarize.", &vec![]).is_none());
    let prompt = Summarizer::summarize("Summarize.", &vec![Message::system("sys"), Message::user("hi"), Message::assistant("yo")]).unwrap();
    assert_eq!(prompt, "Summarize.\n\n---\nMessages to summarize:\n[1] User: hi\n\n[2] Assistant: yo");
    let m = Summarizer::summary_message(Some("short".to_string()), 3);
    assert_eq!(m.content.as_deref(), Some("short"));
    assert_eq!(m.metadata.unwrap().summarized_range, Some((0, 2)));
    assert_eq!(Summarizer::empty_summary().content.as_deref(), Some("No messages to summarize."));
}

fn arr(items: Vec<Json>) -> Json {
    Json::Array(items)
}

#[test]
fn openai_stream_gathers_until_completed_or_end() {
    let text_event = obj(vec![(
        "output",
        arr(vec![obj(vec![
            ("type", s("message")),
            ("role", s("assistant")),
            ("content", arr(vec![obj(vec![("type", s("output_text")), ("text", s("Hel"))])])),
        ])]),
    )]);
    let more = obj(vec![(
        "output",
        arr(vec![obj(vec![
            ("type", s("message")),
            ("role", s("assistant")),
            ("content", arr(vec![obj(vec![("type", s("output_text")), ("text", s("lo"))])])),
        ])]),
    )]);
    let mut state = OpenAIProvider::stream_start();
    assert!(OpenAIProvider::stream_event(&mut state, &text_event).is_none());
    assert!(OpenAIProvider::stream_event(&mut state, &more).is_none());
    let ended = OpenAIProvider::stream_finish(state);
    assert_eq!(ended.message.content.as_deref(), Some("Hello"));
    assert!(ended.message.tool_calls.is_none());
    assert_eq!(ended.usage.total_tokens, 0);
    assert_eq!(ended.usage.prompt_tokens, 0);

    let mut state = OpenAIProvider::stream_start();
    let call = obj(vec![(
        "output",
        arr(vec![obj(vec![
            ("type", s("function_call")),
            ("call_id", s("c1")),
            ("name", s("web_search")),
            ("arguments", s("{}")),
        ])]),
    )]);
    assert!(OpenAIProvider::stream_event(&mut state, &call).is_none());
    let done = obj(vec![
        ("status", s("completed")),
        ("usage", obj(vec![("input_tokens", n(3)), ("output_tokens", n(4))])),
    ]);
    let r = OpenAIProvider::stream_event(&mut state, &done).unwrap();
    assert!(r.message.content.is_none());
    assert_eq!(r.message.tool_calls.unwrap()[0].id, "c1");
    assert_eq!(r.usage.prompt_tokens, 3);
}

#[test]
fn providers_carry_the_configured_key() {
    let config = AIConfig {
        workhorse: AIProviderConfig { provider: ProviderType::OpenAI, model: "big".to_string(), api_key: "sk-w".to_string() },
        summarization: Some(AIProviderConfig { provider: ProviderType::OpenRouter, model: "small".to_string(), api_key: "sk-s".to_string() }),
    };
    match create_workhorse_provider(&config).unwrap() {
        ProviderChoice::OpenAI(p) => assert_eq!(p.settings.authorization, "Bearer sk-w"),
        other => panic!("unexpected {:?}", other),
    }
    match create_summarization_provider(&config).unwrap() {
        ProviderChoice::OpenRouter(p) => assert_eq!(p.settings.authorization, "Bearer sk-s"),
        other => panic!("unexpected {:?}", other),
    }
}
