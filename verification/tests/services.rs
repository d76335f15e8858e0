use boomerang::adapters::{
    AdapterCommand, AdapterManager, BotCommand, CommandAction, IncomingMessage, MessagePayload, Route, TelegramBot,
};
use boomerang::agent_config::{config_file, default_host, default_port};
use boomerang::chat::PlatformContext;
use boomerang::config::{Config, MemoryConfig, ProviderType};
use boomerang::executor::AgentExecutor;
use boomerang::json::{Json, JsonNumber};
use boomerang::message::Usage;
use boomerang::notifications::{NotificationService, NtfyService};
use boomerang::restate::{ChatSessionAction, RestateClient, Service, TaskArgs};
use boomerang::task_execution::TaskExecutionImpl;
use boomerang::tasks::AgentOutput;
use boomerang::telemetry::{init_telemetry, record_token_usage, trim_trailing_slashes};
use boomerang::pruning::evaluator::{PruningEvaluator, RawDecision};
use boomerang::pruning::PruneAction;
use boomerang::text::{i64_to_decimal, u64_to_decimal};
use boomerang::tools::introspection::{IntrospectionTools, ScheduledTask};
use boomerang::turn::Turn;
use boomerang::tools::web_search::{WebSearchParams, WebSearchResponse, WebSearchResult, WebSearchTool};
use boomerang::turn::TurnKind;

#[test]
fn restate_urls_and_turns() {
    let client = RestateClient::new("http://ingress:8080", "telegram");
    assert_eq!(
        client.invoke_url(Service::ChatSession(ChatSessionAction::Message), "chat-1"),
        "http://ingress:8080/ChatSession/chat-1/message"
    );
    assert_eq!(client.invoke_url(client.clear_history(), "c"), "http://ingress:8080/ChatSession/c/clear");
    let (service, turn) = client.send_message("telegram", "42", "hello");
    assert_eq!(service, Service::ChatSession(ChatSessionAction::Message));
    assert!(matches!(&turn.kind, TurnKind::UserMessage { content } if content == "hello"));
    assert_eq!(turn.platform_origin.unwrap().adapter_key, "telegram");
}

fn task_args(chat: Option<&str>, adapter: Option<&str>) -> TaskArgs {
    TaskArgs {
        task_id: "task-1".to_string(),
        description: "do it".to_string(),
        parent_task_id: Some("parent".to_string()),
        constraints: None,
        chat_key: chat.map(|c| c.to_string()),
        adapter_key: adapter.map(|a| a.to_string()),
    }
}

#[test]
fn task_runs_are_recorded() {
    let args = task_args(Some("chat-9"), Some("tg"));
    let start = TaskExecutionImpl::start(&args);
    assert_eq!(start.record.status, "running");
    assert!(start.record.started_at.is_some());
    assert_eq!(start.task.description, "do it");
    let done = TaskExecutionImpl::run(&args, &start.record, Ok(AgentOutput::new("all done")));
    assert_eq!(done.result.status, "completed");
    assert_eq!(done.result.result.as_deref(), Some("all done"));
    let (adapter, request) = done.delivery.unwrap();
    assert_eq!(adapter, "tg");
    assert_eq!(request.platform_type, "task");
    assert_eq!(request.external_chat_id, "chat-9");
    let failed = TaskExecutionImpl::run(&task_args(None, None), &start.record, Err("bad".to_string()));
    assert_eq!(failed.result.status, "failed");
    assert_eq!(failed.result.error.as_deref(), Some("bad"));
    assert!(failed.delivery.is_none());
}

#[test]
fn task_status_and_cancel() {
    let missing = TaskExecutionImpl::status("k", None);
    assert_eq!(missing.status, "not_found");
    assert_eq!(missing.task_id, "k");
    let start = TaskExecutionImpl::start(&task_args(None, None));
    let cancelled = TaskExecutionImpl::cancel(start.record).unwrap();
    assert_eq!(cancelled.status, "cancelled");
    assert!(cancelled.completed_at.is_some());
    assert!(TaskExecutionImpl::cancel(cancelled).is_none());
}

#[test]
fn executor_plans_tools() {
    let ctx = PlatformContext { platform_type: "telegram".to_string(), external_chat_id: "1".to_string(), adapter_key: "tg".to_string() };
    let plan = AgentExecutor::new("chat").with_platform_context(ctx).build_agent_config("http://ingress");
    assert!(plan.standard);
    assert_eq!(plan.schedule.unwrap().restate_ingress_url, "http://ingress");
    assert!(AgentExecutor::new("chat").build_agent_config("x").schedule.is_none());
    assert!(!AgentExecutor::new_without_tools().build_agent_config("x").standard);
}

#[test]
fn executor_prompts() {
    assert_eq!(AgentExecutor::platform_note(None), "");
    assert_eq!(AgentExecutor::platform_note(Some("slack")), "\n\nYou are communicating with the user via slack.");
    assert!(AgentExecutor::platform_note(Some("telegram")).contains("via Telegram"));
    let prompt = AgentExecutor::default_system_prompt("Base.", Some("slack"));
    assert!(prompt.starts_with("Base.\n\nYou are communicating with the user via slack.\n\nCurrent time: "));
    assert!(prompt.contains(" (UTC"));
    assert!(prompt.ends_with(')'));
}

#[test]
fn adapters_route_messages() {
    match AdapterManager::route_message(&IncomingMessage::text("telegram", "42", "hi")) {
        Route::Send { chat_key, platform_type, content, .. } => {
            assert_eq!(chat_key, "42");
            assert_eq!(platform_type, "telegram");
            assert_eq!(content, "hi");
        },
        other => panic!("unexpected {:?}", other),
    }
    match AdapterManager::route_message(&IncomingMessage::command("telegram", "42", AdapterCommand::ClearHistory)) {
        Route::Clear { chat_key, service } => {
            assert_eq!(chat_key, "42");
            assert_eq!(service, Service::ChatSession(ChatSessionAction::Clear));
        },
        other => panic!("unexpected {:?}", other),
    }
    assert!(IncomingMessage::text("a", "b", "c").with_metadata(Json::Null).metadata.is_some());
}

#[test]
fn adapter_restart_backoff_doubles_up_to_a_minute() {
    assert_eq!(AdapterManager::run_adapter_with_restart(1), 2);
    assert_eq!(AdapterManager::run_adapter_with_restart(30), 60);
    assert_eq!(AdapterManager::run_adapter_with_restart(45), 60);
}

#[test]
fn telegram_bot_commands() {
    assert!(matches!(TelegramBot::handle_command(BotCommand::Start, 1), CommandAction::Reply(r) if r == "Hello! Send me a message and I'll respond."));
    match TelegramBot::handle_command(BotCommand::Clear, -100) {
        CommandAction::Clear { message, ok_reply, failed_reply } => {
            assert_eq!(message.external_chat_id, "-100");
            assert_eq!(message.adapter_id, "telegram");
            assert!(matches!(message.payload, MessagePayload::Command(AdapterCommand::ClearHistory)));
            assert_eq!(ok_reply, "Conversation cleared!");
            assert_eq!(failed_reply, "Failed to clear history.");
        },
        other => panic!("unexpected {:?}", other),
    }
    assert!(matches!(TelegramBot::handle_command(BotCommand::Help, 1), CommandAction::Help));
    assert!(TelegramBot::handle_message(Some("/start"), 1).is_none());
    assert!(TelegramBot::handle_message(None, 1).is_none());
    let m = TelegramBot::handle_message(Some("hello"), 7).unwrap();
    assert_eq!(m.external_chat_id, "7");
    assert_eq!(TelegramBot::failure_reply(), "Sorry, something went wrong.");
}

#[test]
fn telemetry_endpoints() {
    assert_eq!(trim_trailing_slashes("http://otel:4318///"), "http://otel:4318");
    let e = init_telemetry("http://otel:4318/");
    assert_eq!(e.metrics, "http://otel:4318/v1/metrics");
    assert_eq!(e.traces, "http://otel:4318/v1/traces");
    let records = record_token_usage(&Usage { prompt_tokens: 5, completion_tokens: 0, total_tokens: 5 });
    assert_eq!(records, vec![("prompt", 5), ("total", 5)]);
}

#[test]
fn notifications() {
    let service = NtfyService::new("https://ntfy.sh/topic".to_string());
    let request = service.send_notification("Title", "Body");
    assert_eq!(request.url, "https://ntfy.sh/topic");
    assert_eq!(request.title, "Title");
    assert_eq!(request.body, "Body");
    assert!(NtfyService::outcome(true, "200", None).is_ok());
    assert_eq!(NtfyService::outcome(false, "500", Some("down")).unwrap_err(), "Failed to send notification: 500 - down");
    assert_eq!(
        NtfyService::outcome(false, "500", None).unwrap_err(),
        "Failed to send notification: 500 - Failed to read response"
    );
}

#[test]
fn configuration_defaults() {
    assert_eq!(default_host(), "0.0.0.0");
    assert_eq!(default_port(), 9080);
    assert_eq!(config_file(Some("prod")), "config/prod");
    assert_eq!(config_file(None), "config/dev");
    assert_eq!(MemoryConfig::default_for_home(Some("/home/u")).scratch_space_path, "/home/u/.boomerang/memory");
    assert_eq!(MemoryConfig::default_for_home(None).scratch_space_path, "/tmp/boomerang/memory");
    let config = Config::default_for_home(None);
    assert_eq!(config.ai.workhorse.provider, ProviderType::OpenAI);
    assert_eq!(config.ai.workhorse.model, "gpt-4o-mini");
    assert_eq!(config.agent.pruning.soft_limit, 40);
    assert_eq!(config.restate.ingress_url, "http://localhost:8080");
    let current = Config::default();
    assert_eq!(current.ai.workhorse.model, "gpt-4o-mini");
    assert!(current.memory.scratch_space_path.ends_with("boomerang/memory"));
    assert!(MemoryConfig::default().scratch_space_path.ends_with("boomerang/memory"));
}

#[test]
fn text_helpers() {
    assert_eq!(u64_to_decimal(0), "0");
    assert_eq!(u64_to_decimal(18446744073709551615), "18446744073709551615");
    assert_eq!(i64_to_decimal(-42), "-42");
    assert_eq!(i64_to_decimal(i64::MIN), "-9223372036854775808");
}

#[test]
fn memory_keys_keep_unicode_letters_and_digits() {
    let evaluator = PruningEvaluator::new("c");
    assert_eq!(evaluator.memory_key_at("héllo-wörld 1!", 0), "c/context/0_héllo-wörld1");
}

#[test]
fn decision_actions_are_read_in_any_case() {
    let evaluator = PruningEvaluator::new("c");
    let raw = |action: &str| RawDecision { index: 0, action: action.to_string(), memory_key: None, reason: String::new() };
    let ds = evaluator.parse_decisions(Some(vec![raw("BoTh"), raw("PERSIST"), raw("Ärger")]), &vec![0]);
    assert_eq!(ds.iter().map(|d| d.action).collect::<Vec<_>>(), vec![PruneAction::Both, PruneAction::Persist, PruneAction::Drop]);
}

#[test]
fn unscheduled_tasks_show_none() {
    let task = ScheduledTask {
        id: "i".to_string(),
        target: "t".to_string(),
        status: "s".to_string(),
        scheduled_at: None,
        retry_count: 0,
    };
    assert_eq!(IntrospectionTools::list_scheduled_tasks(&vec![task]).content, "Found 1 scheduled task(s):\n- i | t | scheduled: None");
}

#[test]
fn clock_readings() {
    let turn = Turn::user_message("x");
    assert!(turn.timestamp.secs > 1_600_000_000);
    assert!(turn.timestamp.nanos < 1_000_000_000);
    let start = TaskExecutionImpl::start(&task_args(None, None));
    assert!(start.record.started_at.unwrap().contains('T'));
}

fn hit(title: &str) -> WebSearchResult {
    WebSearchResult {
        title: title.to_string(),
        url: "https://x".to_string(),
        content: "c".to_string(),
        score_bits: 0,
        published_date: None,
        raw_content: None,
        favicon: Some("f.ico".to_string()),
    }
}

#[test]
fn web_search_tool() {
    let tool = WebSearchTool::new("key".to_string());
    assert_eq!(tool.base_url, "https://api.tavily.com/search");
    let args = Json::Object(vec![
        ("query".to_string(), Json::Str("rust".to_string())),
        ("max_results".to_string(), Json::Number(JsonNumber::PosInt(5))),
    ]);
    let params = tool.execute(&args);
    assert_eq!(params.query, "rust");
    assert_eq!(params.max_results, Some(5));
    assert_eq!(params.days, Some(3));
    let mut with_country = WebSearchParams::default();
    with_country.topic = Some("news".to_string());
    with_country.country = Some("france".to_string());
    assert_eq!(tool.search(with_country).topic.as_deref(), Some("general"));
    assert_eq!(WebSearchTool::check_status(401).as_deref(), Some("Invalid API key"));
    assert_eq!(WebSearchTool::check_status(429).as_deref(), Some("Usage limit exceeded"));
    assert_eq!(WebSearchTool::check_status(200), None);
    let response = WebSearchResponse {
        query: "rust".to_string(),
        follow_up_questions: None,
        answer: Some("Yes".to_string()),
        images: None,
        results: vec![hit("One")],
    };
    let text = tool.format_results(&response);
    assert!(text.starts_with("Answer: Yes\nDetailed Results:\n\nTitle: One\nURL: https://x\nContent: c\nFavicon: f.ico"));
    assert_eq!(tool.respond(Err("timeout".to_string())).unwrap_err().message, "Search failed: timeout");
}

#[test]
fn restate_replies_decide_the_outcome() {
    assert!(RestateClient::invoke_outcome(200, "200 OK", "").is_ok());
    assert!(RestateClient::invoke_outcome(299, "299 <unknown status code>", "").is_ok());
    assert_eq!(
        RestateClient::invoke_outcome(404, "404 Not Found", "no such service").unwrap_err(),
        "Restate error 404 Not Found: no such service"
    );
    assert!(RestateClient::invoke_outcome(302, "302 Found", "").is_err());
}
