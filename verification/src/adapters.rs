//! Messages from chat platforms and where they go: the adapter manager's
//! routing and restart back-off, and the Telegram bot's answers. Receiving
//! and sending on the platforms happens in the caller.
use vstd::prelude::*;

use crate::json::Json;
use crate::restate::{ChatSessionAction, Service};
use crate::text::{i64_to_decimal, int_decimal, seq_starts_with, starts_with, to_owned_string};

verus! {

/// A command sent through an adapter.
#[derive(Debug, Clone, Copy, PartialEq, Eq, Structural)]
pub enum AdapterCommand {
    ClearHistory,
}

/// What a platform message carries.
#[derive(Debug)]
pub enum MessagePayload {
    Text(String),
    Command(AdapterCommand),
}

/// A message received on a platform.
#[derive(Debug)]
pub struct IncomingMessage {
    pub adapter_id: String,
    pub external_chat_id: String,
    pub payload: MessagePayload,
    pub metadata: Option<Json>,
}

impl IncomingMessage {
    /// A text message.
    pub fn text(adapter_id: &str, external_chat_id: &str, content: &str) -> (res: Self)
        ensures
            res.adapter_id@ == adapter_id@,
            res.external_chat_id@ == external_chat_id@,
            res.payload matches MessagePayload::Text(c) && c@ == content@,
            res.metadata is None,
    {
        IncomingMessage {
            adapter_id: to_owned_string(adapter_id),
            external_chat_id: to_owned_string(external_chat_id),
            payload: MessagePayload::Text(to_owned_string(content)),
            metadata: None,
        }
    }

    /// A command.
    pub fn command(adapter_id: &str, external_chat_id: &str, command: AdapterCommand) -> (res: Self)
        ensures
            res.adapter_id@ == adapter_id@,
            res.external_chat_id@ == external_chat_id@,
            res.payload == MessagePayload::Command(command),
            res.metadata is None,
    {
        IncomingMessage {
            adapter_id: to_owned_string(adapter_id),
            external_chat_id: to_owned_string(external_chat_id),
            payload: MessagePayload::Command(command),
            metadata: None,
        }
    }

    /// The same message with metadata.
    pub fn with_metadata(self, metadata: Json) -> (res: Self)
        ensures
            res.adapter_id == self.adapter_id,
            res.external_chat_id == self.external_chat_id,
            res.payload == self.payload,
            res.metadata == Some(metadata),
    {
        let mut m = self;
        m.metadata = Some(metadata);
        m
    }
}

/// Where a platform message goes.
#[derive(Debug)]
pub enum Route {
    /// To the chat session `chat_key`, as a user message from the platform.
    Send { chat_key: String, platform_type: String, external_chat_id: String, content: String },
    /// Clear the chat session `chat_key`.
    Clear { chat_key: String, service: Service },
}

/// Runs the input adapters and routes what they receive.
#[derive(Debug)]
pub struct AdapterManager;

/// The longest wait before an adapter is restarted, in seconds.
pub const MAX_BACKOFF_SECS: u64 = 60;

impl AdapterManager {
    /// Where a message goes: a text to the conversation of its chat (the
    /// adapter is the platform), a clear command to that conversation.
    pub fn route_message(msg: &IncomingMessage) -> (res: Route)
        ensures
            match msg.payload {
                MessagePayload::Text(c) => res matches Route::Send { chat_key, platform_type, external_chat_id, content }
                    && chat_key@ == msg.external_chat_id@ && platform_type@ == msg.adapter_id@
                    && external_chat_id@ == msg.external_chat_id@ && content@ == c@,
                MessagePayload::Command(AdapterCommand::ClearHistory) => res matches Route::Clear { chat_key, service }
                    && chat_key@ == msg.external_chat_id@ && service == Service::ChatSession(ChatSessionAction::Clear),
            },
    {
        match &msg.payload {
            MessagePayload::Text(c) => Route::Send {
                chat_key: msg.external_chat_id.clone(),
                platform_type: msg.adapter_id.clone(),
                external_chat_id: msg.external_chat_id.clone(),
                content: c.clone(),
            },
            MessagePayload::Command(AdapterCommand::ClearHistory) => Route::Clear {
                chat_key: msg.external_chat_id.clone(),
                service: Service::ChatSession(ChatSessionAction::Clear),
            },
        }
    }

    /// The wait before the next restart of a failed adapter: twice the last
    /// one, at most a minute (starting from one second).
    pub fn run_adapter_with_restart(backoff_secs: u64) -> (res: u64)
        ensures
            res == if 2 * backoff_secs <= MAX_BACKOFF_SECS { 2 * backoff_secs } else { MAX_BACKOFF_SECS as int },
    {
        if backoff_secs <= MAX_BACKOFF_SECS / 2 {
            2 * backoff_secs
        } else {
            MAX_BACKOFF_SECS
        }
    }
}

/// The Telegram adapter's name.
pub open spec fn telegram_id() -> Seq<char> {
    "telegram"@
}

/// A bot command.
#[derive(Debug, Clone, Copy, PartialEq, Eq, Structural)]
pub enum BotCommand {
    Start,
    Clear,
    Help,
}

/// What the bot does with a command: a reply, and for `/clear` the command
/// to pass on (its reply depends on whether that worked).
#[derive(Debug)]
pub enum CommandAction {
    /// Send this reply.
    Reply(String),
    /// Pass on the clear command, then say whether it went through.
    Clear { message: IncomingMessage, ok_reply: String, failed_reply: String },
    /// Send the list of commands.
    Help,
}

/// Handles the Telegram bot's commands and messages.
#[derive(Debug)]
pub struct TelegramBot;

impl TelegramBot {
    /// What a command in chat `chat_id` does.
    pub fn handle_command(cmd: BotCommand, chat_id: i64) -> (res: CommandAction)
        ensures
            cmd == BotCommand::Start ==> (res matches CommandAction::Reply(r) && r@ == "Hello! Send me a message and I'll respond."@),
            cmd == BotCommand::Clear ==> (res matches CommandAction::Clear { message, ok_reply, failed_reply }
                && message.adapter_id@ == telegram_id() && message.external_chat_id@ == int_decimal(chat_id as int)
                && message.payload == MessagePayload::Command(AdapterCommand::ClearHistory)
                && ok_reply@ == "Conversation cleared!"@ && failed_reply@ == "Failed to clear history."@),
            cmd == BotCommand::Help ==> res is Help,
    {
        match cmd {
            BotCommand::Start => CommandAction::Reply(to_owned_string("Hello! Send me a message and I'll respond.")),
            BotCommand::Clear => {
                let chat = i64_to_decimal(chat_id);
                CommandAction::Clear {
                    message: IncomingMessage::command("telegram", chat.as_str(), AdapterCommand::ClearHistory),
                    ok_reply: to_owned_string("Conversation cleared!"),
                    failed_reply: to_owned_string("Failed to clear history."),
                }
            },
            BotCommand::Help => CommandAction::Help,
        }
    }

    /// The message to pass on for a chat message: none for a message without
    /// text or one that starts with `/`; else the text from chat `chat_id`.
    pub fn handle_message(text: Option<&str>, chat_id: i64) -> (res: Option<IncomingMessage>)
        ensures
            match text {
                None => res is None,
                Some(t) => if seq_starts_with(t@, "/"@) {
                    res is None
                } else {
                    res matches Some(m) && m.adapter_id@ == telegram_id()
                        && m.external_chat_id@ == int_decimal(chat_id as int)
                        && (m.payload matches MessagePayload::Text(c) && c@ == t@)
                },
            },
    {
        let t = match text {
            Some(t) => t,
            None => { return None; },
        };
        if starts_with(t, "/") {
            return None;
        }
        let chat = i64_to_decimal(chat_id);
        Some(IncomingMessage::text("telegram", chat.as_str(), t))
    }

    /// The reply when a message could not be passed on.
    pub fn failure_reply() -> (res: String)
        ensures
            res@ == "Sorry, something went wrong."@,
    {
        to_owned_string("Sorry, something went wrong.")
    }
}

} // verus!
