//! The messages exchanged with the Restate services, and how a client
//! addresses them.
use vstd::prelude::*;

use crate::text::{push_str, to_owned_string};
use crate::turn::{same_turn, PlatformOrigin, Turn, TurnKind};

verus! {

/// A reply to deliver on a platform.
#[derive(Debug)]
pub struct SendMessageRequest {
    pub platform_type: String,
    pub external_chat_id: String,
    pub content: String,
}

/// What a scheduled session is asked to run.
#[derive(Debug)]
pub struct ScheduleArgs {
    /// The original request, with its timing words.
    pub request: String,
    pub recurring: bool,
    pub chat_key: String,
    pub platform_type: String,
    pub external_chat_id: String,
    pub adapter_key: String,
}

/// A snapshot of a scheduled task.
#[derive(Debug)]
pub struct CronTaskStatus {
    pub task: String,
    pub is_recurring: bool,
    pub created_at: String,
    pub last_run_at: Option<String>,
    pub next_run_at: Option<String>,
    pub run_count: u32,
    pub interval_seconds: Option<u32>,
}

/// Limits passed with a task.
#[derive(Debug)]
pub struct TaskConstraintsArgs {
    pub max_tokens: Option<usize>,
    pub allowed_tools: Option<Vec<String>>,
    pub timeout_seconds: Option<u64>,
}

/// A task handed to the task execution service.
#[derive(Debug)]
pub struct TaskArgs {
    pub task_id: String,
    pub description: String,
    pub parent_task_id: Option<String>,
    pub constraints: Option<TaskConstraintsArgs>,
    pub chat_key: Option<String>,
    pub adapter_key: Option<String>,
}

/// How a task ended.
#[derive(Debug)]
pub struct TaskResult {
    pub task_id: String,
    pub status: String,
    pub result: Option<String>,
    pub error: Option<String>,
    pub subtasks: Vec<String>,
}

/// Where a task stands.
#[derive(Debug)]
pub struct TaskStatusResponse {
    pub task_id: String,
    pub status: String,
    pub started_at: Option<String>,
    pub completed_at: Option<String>,
}

/// An action of the chat session service.
#[derive(Debug, Clone, Copy, PartialEq, Eq, Structural)]
pub enum ChatSessionAction {
    Message,
    History,
    Clear,
}

/// A Restate service together with the action invoked on it.
#[derive(Debug, Clone, Copy, PartialEq, Eq, Structural)]
pub enum Service {
    ChatSession(ChatSessionAction),
}

/// The name of an action in a URL.
pub open spec fn action_name(a: ChatSessionAction) -> Seq<char> {
    match a {
        ChatSessionAction::Message => "message"@,
        ChatSessionAction::History => "history"@,
        ChatSessionAction::Clear => "clear"@,
    }
}

/// The name of a service in a URL.
pub open spec fn service_name(s: Service) -> Seq<char> {
    match s {
        Service::ChatSession(_) => "ChatSession"@,
    }
}

/// The action of a service.
pub open spec fn service_action(s: Service) -> ChatSessionAction {
    match s {
        Service::ChatSession(a) => a,
    }
}

impl ChatSessionAction {
    /// The action's name in a URL.
    pub fn as_str(&self) -> (res: &'static str)
        ensures
            res@ == action_name(*self),
    {
        match self {
            ChatSessionAction::Message => "message",
            ChatSessionAction::History => "history",
            ChatSessionAction::Clear => "clear",
        }
    }
}

impl Service {
    /// The service's name in a URL.
    pub fn as_str(&self) -> (res: &'static str)
        ensures
            res@ == service_name(*self),
    {
        match self {
            Service::ChatSession(_) => "ChatSession",
        }
    }

    /// The name of the action in a URL.
    pub fn action_str(&self) -> (res: &'static str)
        ensures
            res@ == action_name(service_action(*self)),
    {
        match self {
            Service::ChatSession(action) => action.as_str(),
        }
    }
}

/// The URL of an invocation: `<base>/<service>/<key>/<action>`.
pub open spec fn invoke_url_text(base: Seq<char>, service: Service, key: Seq<char>) -> Seq<char> {
    base + "/"@ + service_name(service) + "/"@ + key + "/"@ + action_name(service_action(service))
}

/// Sends chat messages to the Restate ingress.
#[derive(Debug)]
pub struct RestateClient {
    pub base_url: String,
    pub adapter_key: String,
}

impl RestateClient {
    /// A client of the ingress at `base_url`, speaking for the adapter `adapter_key`.
    pub fn new(base_url: &str, adapter_key: &str) -> (res: Self)
        ensures
            res.base_url@ == base_url@,
            res.adapter_key@ == adapter_key@,
    {
        RestateClient { base_url: to_owned_string(base_url), adapter_key: to_owned_string(adapter_key) }
    }

    /// The URL an invocation of `service` for `key` is posted to.
    pub fn invoke_url(&self, service: Service, key: &str) -> (res: String)
        ensures
            res@ == invoke_url_text(self.base_url@, service, key@),
    {
        let mut url = to_owned_string(self.base_url.as_str());
        push_str(&mut url, "/");
        push_str(&mut url, service.as_str());
        push_str(&mut url, "/");
        push_str(&mut url, key);
        push_str(&mut url, "/");
        push_str(&mut url, service.action_str());
        url
    }

    /// What an invocation returns once the ingress replied with `status`
    /// (written `status_text`, as HTTP shows it) and `body`: success exactly
    /// for a 2xx status, else an error naming the status and the body.
    pub fn invoke_outcome(status: u16, status_text: &str, body: &str) -> (res: Result<(), String>)
        ensures
            res is Ok <==> 200 <= status < 300,
            res matches Err(e) ==> e@ == "Restate error "@ + status_text@ + ": "@ + body@,
    {
        if 200 <= status && status < 300 {
            return Ok(());
        }
        let mut e = to_owned_string("Restate error ");
        push_str(&mut e, status_text);
        push_str(&mut e, ": ");
        push_str(&mut e, body);
        Err(e)
    }

    /// The turn that carries a user's message into the chat session, marked
    /// as coming from this adapter, and the service that receives it.
    pub fn send_message(&self, platform_type: &str, external_chat_id: &str, content: &str) -> (res: (Service, Turn))
        ensures
            res.0 == Service::ChatSession(ChatSessionAction::Message),
            res.1.kind matches TurnKind::UserMessage { content: c } && c@ == content@,
            res.1.platform_origin matches Some(o) && o.platform_type@ == platform_type@
                && o.external_chat_id@ == external_chat_id@ && o.adapter_key@ == self.adapter_key@,
    {
        let turn = Turn::user_message(content).with_platform_origin(PlatformOrigin {
            platform_type: to_owned_string(platform_type),
            external_chat_id: to_owned_string(external_chat_id),
            adapter_key: self.adapter_key.clone(),
        });
        (Service::ChatSession(ChatSessionAction::Message), turn)
    }

    /// The service that clears a conversation (it takes no body).
    pub fn clear_history(&self) -> (res: Service)
        ensures
            res == Service::ChatSession(ChatSessionAction::Clear),
    {
        Service::ChatSession(ChatSessionAction::Clear)
    }
}

} // verus!
