//! Messages as the language-model providers see them, and their conversion
//! to and from conversation turns.
use vstd::prelude::*;

use crate::clock::{is_uuid_v4_text, now_utc, Timestamp};
use crate::text::to_owned_string;
use crate::turn::{
    clone_opt_string, kind_equiv, ContextType, Turn, TurnId, TurnKind, ToolCategory,
};
use crate::turn;

verus! {

/// Extra facts about a message: whether it is a summary, what it summarizes,
/// and the memory key it was persisted under.
#[derive(Debug, PartialEq, Eq)]
pub struct MessageMetadata {
    pub is_summary: bool,
    pub summarized_range: Option<(usize, usize)>,
    pub persisted_key: Option<String>,
}

impl Default for MessageMetadata {
    fn default() -> (res: Self)
        ensures
            !res.is_summary,
            res.summarized_range is None,
            res.persisted_key is None,
    {
        MessageMetadata { is_summary: false, summarized_range: None, persisted_key: None }
    }
}

impl Clone for MessageMetadata {
    fn clone(&self) -> (res: Self)
        ensures
            res == *self,
    {
        MessageMetadata {
            is_summary: self.is_summary,
            summarized_range: self.summarized_range,
            persisted_key: clone_opt_string(&self.persisted_key),
        }
    }
}

/// Who speaks in a message.
#[derive(Debug, Clone, Copy, PartialEq, Eq, Structural)]
pub enum MessageRole {
    System,
    User,
    Assistant,
    Tool,
}

/// The function part of a tool call requested by a model.
#[derive(Debug, PartialEq, Eq)]
pub struct FunctionCall {
    pub name: String,
    pub arguments: String,
}

/// A tool call requested by a model.
#[derive(Debug, PartialEq, Eq)]
pub struct ToolCall {
    pub id: String,
    pub tool_type: String,
    pub function: FunctionCall,
}

impl Clone for FunctionCall {
    fn clone(&self) -> (res: Self)
        ensures
            res == *self,
    {
        FunctionCall { name: self.name.clone(), arguments: self.arguments.clone() }
    }
}

impl Clone for ToolCall {
    fn clone(&self) -> (res: Self)
        ensures
            res == *self,
    {
        ToolCall { id: self.id.clone(), tool_type: self.tool_type.clone(), function: self.function.clone() }
    }
}

/// One message of a provider conversation.
#[derive(Debug)]
pub struct Message {
    pub role: MessageRole,
    pub content: Option<String>,
    pub tool_calls: Option<Vec<ToolCall>>,
    pub tool_call_id: Option<String>,
    pub timestamp: Timestamp,
    pub metadata: Option<MessageMetadata>,
}

/// Token counts reported by a provider.
#[derive(Debug, Clone, Copy, PartialEq, Eq, Structural)]
pub struct Usage {
    pub prompt_tokens: u32,
    pub completion_tokens: u32,
    pub total_tokens: u32,
}

impl Default for Usage {
    fn default() -> (res: Self)
        ensures
            res.prompt_tokens == 0 && res.completion_tokens == 0 && res.total_tokens == 0,
    {
        Usage { prompt_tokens: 0, completion_tokens: 0, total_tokens: 0 }
    }
}

/// The message's tool calls, viewed as a sequence.
pub open spec fn calls_view(c: Option<Vec<ToolCall>>) -> Option<Seq<ToolCall>> {
    match c {
        Some(v) => Some(v@),
        None => None,
    }
}

/// Copy of a list of tool calls.
pub fn clone_calls(v: &Vec<ToolCall>) -> (res: Vec<ToolCall>)
    ensures
        res@ == v@,
{
    let mut out: Vec<ToolCall> = Vec::new();
    for i in 0..v.len()
        invariant
            out@ == v@.take(i as int),
    {
        out.push(v[i].clone());
        assert(v@.take(i + 1) == v@.take(i as int).push(v@[i as int]));
    }
    assert(v@.take(v.len() as int) == v@);
    out
}

impl Message {
    /// A system message stamped now.
    pub fn system(content: &str) -> (res: Self)
        ensures
            res.role == MessageRole::System,
            res.content matches Some(c) && c@ == content@,
            res.tool_calls is None && res.tool_call_id is None && res.metadata is None,
    {
        Message {
            role: MessageRole::System,
            content: Some(to_owned_string(content)),
            tool_calls: None,
            tool_call_id: None,
            timestamp: now_utc(),
            metadata: None,
        }
    }

    /// A user message stamped now.
    pub fn user(content: &str) -> (res: Self)
        ensures
            res.role == MessageRole::User,
            res.content matches Some(c) && c@ == content@,
            res.tool_calls is None && res.tool_call_id is None && res.metadata is None,
    {
        Self::user_at(content, now_utc())
    }

    /// A user message with the given time stamp.
    pub fn user_at(content: &str, timestamp: Timestamp) -> (res: Self)
        ensures
            res.role == MessageRole::User,
            res.content matches Some(c) && c@ == content@,
            res.tool_calls is None && res.tool_call_id is None && res.metadata is None,
            res.timestamp == timestamp,
    {
        Message {
            role: MessageRole::User,
            content: Some(to_owned_string(content)),
            tool_calls: None,
            tool_call_id: None,
            timestamp,
            metadata: None,
        }
    }

    /// An assistant answer stamped now.
    pub fn assistant(content: &str) -> (res: Self)
        ensures
            res.role == MessageRole::Assistant,
            res.content matches Some(c) && c@ == content@,
            res.tool_calls is None && res.tool_call_id is None && res.metadata is None,
    {
        Message {
            role: MessageRole::Assistant,
            content: Some(to_owned_string(content)),
            tool_calls: None,
            tool_call_id: None,
            timestamp: now_utc(),
            metadata: None,
        }
    }

    /// An assistant message that asks for tools, stamped now.
    pub fn assistant_with_tools(content: Option<String>, tool_calls: Vec<ToolCall>) -> (res: Self)
        ensures
            res.role == MessageRole::Assistant,
            res.content == content,
            calls_view(res.tool_calls) == Some(tool_calls@),
            res.tool_call_id is None && res.metadata is None,
    {
        Message {
            role: MessageRole::Assistant,
            content,
            tool_calls: Some(tool_calls),
            tool_call_id: None,
            timestamp: now_utc(),
            metadata: None,
        }
    }

    /// The output of a tool, stamped now.
    pub fn tool_result(tool_call_id: &str, content: &str) -> (res: Self)
        ensures
            res.role == MessageRole::Tool,
            res.content matches Some(c) && c@ == content@,
            res.tool_call_id matches Some(i) && i@ == tool_call_id@,
            res.tool_calls is None && res.metadata is None,
    {
        Message {
            role: MessageRole::Tool,
            content: Some(to_owned_string(content)),
            tool_calls: None,
            tool_call_id: Some(to_owned_string(tool_call_id)),
            timestamp: now_utc(),
            metadata: None,
        }
    }

    /// An assistant summary of the messages in `summarized_range`, stamped now.
    pub fn summary(content: &str, summarized_range: (usize, usize)) -> (res: Self)
        ensures
            res.role == MessageRole::Assistant,
            res.content matches Some(c) && c@ == content@,
            res.tool_calls is None && res.tool_call_id is None,
            res.metadata == Some(MessageMetadata {
                is_summary: true,
                summarized_range: Some(summarized_range),
                persisted_key: None,
            }),
    {
        Message {
            role: MessageRole::Assistant,
            content: Some(to_owned_string(content)),
            tool_calls: None,
            tool_call_id: None,
            timestamp: now_utc(),
            metadata: Some(MessageMetadata {
                is_summary: true,
                summarized_range: Some(summarized_range),
                persisted_key: None,
            }),
        }
    }

    /// Whether the metadata marks the message as a summary.
    pub fn is_summary(&self) -> (res: bool)
        ensures
            res == (self.metadata matches Some(m) && m.is_summary),
    {
        match &self.metadata {
            Some(m) => m.is_summary,
            None => false,
        }
    }
}

/// A conversation tool call as a provider tool call.
pub open spec fn call_from_turn(c: turn::ToolCall) -> ToolCall {
    ToolCall {
        id: c.id,
        tool_type: c.tool_type,
        function: FunctionCall { name: c.function.name, arguments: c.function.arguments },
    }
}

/// A provider tool call as a conversation tool call.
pub open spec fn call_to_turn(c: ToolCall) -> turn::ToolCall {
    turn::ToolCall {
        id: c.id,
        tool_type: c.tool_type,
        function: turn::FunctionCall { name: c.function.name, arguments: c.function.arguments },
    }
}

fn calls_from_turn(v: &Vec<turn::ToolCall>) -> (res: Vec<ToolCall>)
    ensures
        res@ == v@.map_values(|c: turn::ToolCall| call_from_turn(c)),
{
    let mut out: Vec<ToolCall> = Vec::new();
    for i in 0..v.len()
        invariant
            out@ == v@.take(i as int).map_values(|c: turn::ToolCall| call_from_turn(c)),
    {
        let c = &v[i];
        out.push(ToolCall {
            id: c.id.clone(),
            tool_type: c.tool_type.clone(),
            function: FunctionCall { name: c.function.name.clone(), arguments: c.function.arguments.clone() },
        });
        assert(v@.take(i + 1).map_values(|c: turn::ToolCall| call_from_turn(c))
            =~= v@.take(i as int).map_values(|c: turn::ToolCall| call_from_turn(c)).push(call_from_turn(v@[i as int])));
    }
    assert(v@.take(v.len() as int) == v@);
    out
}

fn calls_to_turn(v: &Vec<ToolCall>) -> (res: Vec<turn::ToolCall>)
    ensures
        res@ == v@.map_values(|c: ToolCall| call_to_turn(c)),
{
    let mut out: Vec<turn::ToolCall> = Vec::new();
    for i in 0..v.len()
        invariant
            out@ == v@.take(i as int).map_values(|c: ToolCall| call_to_turn(c)),
    {
        let c = &v[i];
        out.push(turn::ToolCall {
            id: c.id.clone(),
            tool_type: c.tool_type.clone(),
            function: turn::FunctionCall { name: c.function.name.clone(), arguments: c.function.arguments.clone() },
        });
        assert(v@.take(i + 1).map_values(|c: ToolCall| call_to_turn(c))
            =~= v@.take(i as int).map_values(|c: ToolCall| call_to_turn(c)).push(call_to_turn(v@[i as int])));
    }
    assert(v@.take(v.len() as int) == v@);
    out
}

/// The message that a turn becomes when it is sent to a provider.
pub open spec fn message_of_turn(m: Message, t: Turn) -> bool {
    &&& m.timestamp == t.timestamp
    &&& m.tool_call_id == (match t.kind {
        TurnKind::ToolResult { tool_call_id, .. } => Some(tool_call_id),
        _ => None::<String>,
    })
    &&& calls_view(m.tool_calls) == (match t.kind {
        TurnKind::ToolInvocation { tool_calls, .. } =>
            Some(tool_calls@.map_values(|c: turn::ToolCall| call_from_turn(c))),
        _ => None::<Seq<ToolCall>>,
    })
    &&& match t.kind {
        TurnKind::UserMessage { content } =>
            m.role == MessageRole::User && m.content == Some(content) && m.metadata is None,
        TurnKind::AssistantResponse { content } =>
            m.role == MessageRole::Assistant && m.content == Some(content) && m.metadata is None,
        TurnKind::ToolInvocation { content, .. } =>
            m.role == MessageRole::Assistant && m.content == content && m.metadata is None,
        TurnKind::ToolResult { content, .. } =>
            m.role == MessageRole::Tool && m.content == Some(content) && m.metadata is None,
        TurnKind::ScheduledCompletion { result, .. } =>
            m.role == MessageRole::Assistant && m.content == Some(result) && m.metadata is None,
        TurnKind::InjectedContext { content, context_type } =>
            m.role == MessageRole::Assistant && m.content == Some(content) && m.metadata == Some(
                match context_type {
                    ContextType::Summary { summarized_range } => MessageMetadata {
                        is_summary: true,
                        summarized_range: Some(summarized_range),
                        persisted_key: None,
                    },
                    ContextType::MemoryRetrieval { memory_key } => MessageMetadata {
                        is_summary: false,
                        summarized_range: None,
                        persisted_key: Some(memory_key),
                    },
                },
            ),
        TurnKind::SystemPrompt { content } =>
            m.role == MessageRole::System && m.content == Some(content) && m.metadata is None,
    }
}

/// The text of an optional content, empty when absent.
pub open spec fn content_or_empty(c: Option<String>) -> Seq<char> {
    match c {
        Some(s) => s@,
        None => Seq::empty(),
    }
}

/// The turn kind that a provider message is read back as.
pub open spec fn kind_of_message(k: TurnKind, m: Message) -> bool {
    match m.role {
        MessageRole::System => k matches TurnKind::SystemPrompt { content } && content@ == content_or_empty(m.content),
        MessageRole::User => k matches TurnKind::UserMessage { content } && content@ == content_or_empty(m.content),
        MessageRole::Assistant => match m.tool_calls {
            Some(calls) => k matches TurnKind::ToolInvocation { content, tool_calls }
                && content == m.content
                && tool_calls@ == calls@.map_values(|c: ToolCall| call_to_turn(c)),
            None => if m.metadata matches Some(md) && md.is_summary {
                k matches TurnKind::InjectedContext { content, context_type: ContextType::Summary { summarized_range } }
                    && content@ == content_or_empty(m.content)
                    && summarized_range == (match m.metadata {
                        Some(md) => match md.summarized_range {
                            Some(r) => r,
                            None => (0usize, 0usize),
                        },
                        None => (0usize, 0usize),
                    })
            } else {
                k matches TurnKind::AssistantResponse { content } && content@ == content_or_empty(m.content)
            },
        },
        MessageRole::Tool => k matches TurnKind::ToolResult { tool_call_id, tool_category, content }
            && tool_call_id@ == content_or_empty(m.tool_call_id)
            && tool_category == ToolCategory::Unknown
            && content@ == content_or_empty(m.content),
    }
}

fn string_or_empty(c: &Option<String>) -> (res: String)
    ensures
        res@ == content_or_empty(*c),
{
    match c {
        Some(s) => s.clone(),
        None => String::new(),
    }
}

/// The provider message for a conversation turn: roles follow the turn kind, scheduled results and
/// injected context become assistant messages, and the time stamp is kept.
pub fn message_from_turn(t: &Turn) -> (res: Message)
    ensures
        message_of_turn(res, *t),
{
    match &t.kind {
        TurnKind::UserMessage { content } => Message {
            role: MessageRole::User,
            content: Some(content.clone()),
            tool_calls: None,
            tool_call_id: None,
            timestamp: t.timestamp,
            metadata: None,
        },
        TurnKind::AssistantResponse { content } => Message {
            role: MessageRole::Assistant,
            content: Some(content.clone()),
            tool_calls: None,
            tool_call_id: None,
            timestamp: t.timestamp,
            metadata: None,
        },
        TurnKind::ToolInvocation { content, tool_calls } => Message {
            role: MessageRole::Assistant,
            content: clone_opt_string(content),
            tool_calls: Some(calls_from_turn(tool_calls)),
            tool_call_id: None,
            timestamp: t.timestamp,
            metadata: None,
        },
        TurnKind::ToolResult { tool_call_id, content, .. } => Message {
            role: MessageRole::Tool,
            content: Some(content.clone()),
            tool_calls: None,
            tool_call_id: Some(tool_call_id.clone()),
            timestamp: t.timestamp,
            metadata: None,
        },
        TurnKind::ScheduledCompletion { result, .. } => Message {
            role: MessageRole::Assistant,
            content: Some(result.clone()),
            tool_calls: None,
            tool_call_id: None,
            timestamp: t.timestamp,
            metadata: None,
        },
        TurnKind::InjectedContext { content, context_type } => {
            let metadata = match context_type {
                ContextType::Summary { summarized_range } => MessageMetadata {
                    is_summary: true,
                    summarized_range: Some(*summarized_range),
                    persisted_key: None,
                },
                ContextType::MemoryRetrieval { memory_key } => MessageMetadata {
                    is_summary: false,
                    summarized_range: None,
                    persisted_key: Some(memory_key.clone()),
                },
            };
            Message {
                role: MessageRole::Assistant,
                content: Some(content.clone()),
                tool_calls: None,
                tool_call_id: None,
                timestamp: t.timestamp,
                metadata: Some(metadata),
            }
        },
        TurnKind::SystemPrompt { content } => Message {
            role: MessageRole::System,
            content: Some(content.clone()),
            tool_calls: None,
            tool_call_id: None,
            timestamp: t.timestamp,
            metadata: None,
        },
    }
}

/// The conversation turn for a provider message: a fresh identifier, the message's time stamp, no
/// origin, and the kind that `kind_of_message` describes.
pub fn turn_from_message(m: &Message) -> (res: Turn)
    ensures
        kind_of_message(res.kind, *m),
        res.timestamp == m.timestamp,
        res.platform_origin is None,
        is_uuid_v4_text(res.id.0@),
{
    let kind = match m.role {
        MessageRole::System => TurnKind::SystemPrompt { content: string_or_empty(&m.content) },
        MessageRole::User => TurnKind::UserMessage { content: string_or_empty(&m.content) },
        MessageRole::Assistant => {
            if let Some(tool_calls) = &m.tool_calls {
                TurnKind::ToolInvocation {
                    content: clone_opt_string(&m.content),
                    tool_calls: calls_to_turn(tool_calls),
                }
            } else if m.is_summary() {
                let summarized_range = match &m.metadata {
                    Some(md) => match md.summarized_range {
                        Some(r) => r,
                        None => (0usize, 0usize),
                    },
                    None => (0usize, 0usize),
                };
                TurnKind::InjectedContext {
                    content: string_or_empty(&m.content),
                    context_type: ContextType::Summary { summarized_range },
                }
            } else {
                TurnKind::AssistantResponse { content: string_or_empty(&m.content) }
            }
        },
        MessageRole::Tool => TurnKind::ToolResult {
            tool_call_id: string_or_empty(&m.tool_call_id),
            tool_category: ToolCategory::Unknown,
            content: string_or_empty(&m.content),
        },
    };
    Turn { id: TurnId::new(), kind, timestamp: m.timestamp, platform_origin: None }
}

/// A turn sent to a provider and read back keeps its kind and text, except that
/// a tool result comes back with an unknown tool category, and a scheduled
/// task's result or a memory context comes back as a plain assistant answer
/// with the same text. (The time stamp is kept by both conversions.)
pub proof fn lemma_turn_round_trip(t: Turn, m: Message, k: TurnKind)
    requires
        message_of_turn(m, t),
        kind_of_message(k, m),
    ensures
        match t.kind {
            TurnKind::ToolResult { tool_call_id, content, .. } =>
                k matches TurnKind::ToolResult { tool_call_id: i, tool_category: g, content: c }
                    && i@ == tool_call_id@ && c@ == content@ && g == ToolCategory::Unknown,
            TurnKind::ScheduledCompletion { result, .. } =>
                k matches TurnKind::AssistantResponse { content } && content@ == result@,
            TurnKind::InjectedContext { content, context_type: ContextType::MemoryRetrieval { .. } } =>
                k matches TurnKind::AssistantResponse { content: c } && c@ == content@,
            _ => kind_equiv(k, t.kind),
        },
{
    if let TurnKind::ToolInvocation { content, tool_calls } = t.kind {
        let calls = tool_calls@.map_values(|c: turn::ToolCall| call_from_turn(c));
        if let TurnKind::ToolInvocation { content: c2, tool_calls: t2 } = k {
            assert(t2@ =~= tool_calls@) by {
                assert forall|i: int| 0 <= i < tool_calls@.len() implies t2@[i] == tool_calls@[i] by {
                    assert(calls[i] == call_from_turn(tool_calls@[i]));
                }
            }
        }
    }
}

/// A provider message read back as a turn and sent again keeps its role; an
/// assistant message keeps its tool calls, and a message that had text keeps
/// that text.
pub proof fn lemma_message_round_trip(m: Message, t: Turn, m2: Message)
    requires
        kind_of_message(t.kind, m),
        message_of_turn(m2, t),
    ensures
        m2.role == m.role,
        m.role == MessageRole::Assistant ==> calls_view(m2.tool_calls) == calls_view(m.tool_calls),
        m.content matches Some(c) ==> (m2.content matches Some(c2) && c2@ == c@),
{
    if m.role == MessageRole::Assistant {
        if let Some(calls) = m.tool_calls {
            if let TurnKind::ToolInvocation { content, tool_calls } = t.kind {
                let back = tool_calls@.map_values(|c: turn::ToolCall| call_from_turn(c));
                assert(back =~= calls@) by {
                    assert forall|i: int| 0 <= i < calls@.len() implies back[i] == calls@[i] by {
                        assert(tool_calls@[i] == call_to_turn(calls@[i]));
                    }
                }
            }
        }
    }
}

} // verus!
