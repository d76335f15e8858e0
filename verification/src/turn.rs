//! The conversation model: a chat is a sequence of turns.
use vstd::prelude::*;

use crate::clock::{is_uuid_v4_text, new_uuid_v4, now_utc, Timestamp};
use crate::text::to_owned_string;

verus! {

/// Identifier of a turn (a UUID string when generated here).
#[derive(Debug, PartialEq, Eq, Hash)]
pub struct TurnId(pub String);

impl Clone for TurnId {
    fn clone(&self) -> (res: Self)
        ensures
            res == *self,
    {
        TurnId(self.0.clone())
    }
}

impl TurnId {
    /// A fresh random identifier.
    pub fn new() -> (res: Self)
        ensures
            is_uuid_v4_text(res.0@),
    {
        TurnId(new_uuid_v4())
    }

    /// The text that `Display` shows for this identifier: the string itself.
    pub fn display_text(&self) -> (res: String)
        ensures
            res@ == self.0@,
    {
        self.0.clone()
    }
}

impl Default for TurnId {
    fn default() -> (res: Self)
        ensures
            is_uuid_v4_text(res.0@),
    {
        Self::new()
    }
}

/// Where a turn came from: which platform, which chat there, which adapter.
#[derive(Debug, PartialEq, Eq)]
pub struct PlatformOrigin {
    pub platform_type: String,
    pub external_chat_id: String,
    pub adapter_key: String,
}

impl Clone for PlatformOrigin {
    fn clone(&self) -> (res: Self)
        ensures
            res == *self,
    {
        PlatformOrigin {
            platform_type: self.platform_type.clone(),
            external_chat_id: self.external_chat_id.clone(),
            adapter_key: self.adapter_key.clone(),
        }
    }
}

/// The family of tool that produced a tool result.
#[derive(Debug, Clone, Copy, PartialEq, Eq, Structural)]
pub enum ToolCategory {
    WebSearch,
    Memory,
    Schedule,
    Unknown,
}

impl Default for ToolCategory {
    fn default() -> (res: Self)
        ensures
            res == ToolCategory::Unknown,
    {
        ToolCategory::Unknown
    }
}

/// What kind of context was injected into a conversation.
#[derive(Debug, PartialEq, Eq)]
pub enum ContextType {
    /// A summary that replaces the turns in `summarized_range` (inclusive).
    Summary { summarized_range: (usize, usize) },
    /// Content retrieved from memory under `memory_key`.
    MemoryRetrieval { memory_key: String },
}

impl Clone for ContextType {
    fn clone(&self) -> (res: Self)
        ensures
            res == *self,
    {
        match self {
            ContextType::Summary { summarized_range } => ContextType::Summary {
                summarized_range: *summarized_range,
            },
            ContextType::MemoryRetrieval { memory_key } => ContextType::MemoryRetrieval {
                memory_key: memory_key.clone(),
            },
        }
    }
}

/// The function part of a tool call.
#[derive(Debug, PartialEq, Eq)]
pub struct FunctionCall {
    pub name: String,
    pub arguments: String,
}

impl Clone for FunctionCall {
    fn clone(&self) -> (res: Self)
        ensures
            res == *self,
    {
        FunctionCall { name: self.name.clone(), arguments: self.arguments.clone() }
    }
}

/// A tool call requested by the assistant.
#[derive(Debug, PartialEq, Eq)]
pub struct ToolCall {
    pub id: String,
    pub tool_type: String,
    pub function: FunctionCall,
}

impl Clone for ToolCall {
    fn clone(&self) -> (res: Self)
        ensures
            res == *self,
    {
        ToolCall { id: self.id.clone(), tool_type: self.tool_type.clone(), function: self.function.clone() }
    }
}

/// A copy of a list of tool calls.
pub fn clone_tool_calls(v: &Vec<ToolCall>) -> (res: Vec<ToolCall>)
    ensures
        res@ == v@,
{
    let mut out: Vec<ToolCall> = Vec::new();
    for i in 0..v.len()
        invariant
            out@ == v@.take(i as int),
    {
        out.push(v[i].clone());
        assert(v@.take(i + 1) == v@.take(i as int).push(v@[i as int]));
    }
    assert(v@.take(v.len() as int) == v@);
    out
}

/// What happened in a turn.
#[derive(Debug, PartialEq, Eq)]
pub enum TurnKind {
    UserMessage { content: String },
    AssistantResponse { content: String },
    ToolInvocation { content: Option<String>, tool_calls: Vec<ToolCall> },
    ToolResult { tool_call_id: String, tool_category: ToolCategory, content: String },
    ScheduledCompletion { original_query: String, result: String, is_final: bool },
    InjectedContext { content: String, context_type: ContextType },
    SystemPrompt { content: String },
}

/// A copy of an optional string.
pub fn clone_opt_string(s: &Option<String>) -> (res: Option<String>)
    ensures
        res == *s,
{
    match s {
        Some(x) => Some(x.clone()),
        None => None,
    }
}

/// Two kinds are the same up to how their tool-call lists are stored.
pub open spec fn same_kind(a: TurnKind, b: TurnKind) -> bool {
    match (a, b) {
        (TurnKind::ToolInvocation { content: c1, tool_calls: t1 },
         TurnKind::ToolInvocation { content: c2, tool_calls: t2 }) => c1 == c2 && t1@ == t2@,
        (TurnKind::ToolInvocation { .. }, _) => false,
        (_, TurnKind::ToolInvocation { .. }) => false,
        _ => a == b,
    }
}

/// Two context types carry the same text.
pub open spec fn context_equiv(a: ContextType, b: ContextType) -> bool {
    match (a, b) {
        (ContextType::Summary { summarized_range: r1 }, ContextType::Summary { summarized_range: r2 }) => r1 == r2,
        (ContextType::MemoryRetrieval { memory_key: k1 }, ContextType::MemoryRetrieval { memory_key: k2 }) => k1@ == k2@,
        _ => false,
    }
}

/// Two kinds are the same variant and carry the same text and tool calls.
pub open spec fn kind_equiv(a: TurnKind, b: TurnKind) -> bool {
    match (a, b) {
        (TurnKind::UserMessage { content: c1 }, TurnKind::UserMessage { content: c2 }) => c1@ == c2@,
        (TurnKind::AssistantResponse { content: c1 }, TurnKind::AssistantResponse { content: c2 }) => c1@ == c2@,
        (TurnKind::ToolInvocation { content: c1, tool_calls: t1 },
         TurnKind::ToolInvocation { content: c2, tool_calls: t2 }) => c1 == c2 && t1@ == t2@,
        (TurnKind::ToolResult { tool_call_id: i1, tool_category: g1, content: c1 },
         TurnKind::ToolResult { tool_call_id: i2, tool_category: g2, content: c2 }) =>
            i1@ == i2@ && g1 == g2 && c1@ == c2@,
        (TurnKind::ScheduledCompletion { original_query: q1, result: r1, is_final: f1 },
         TurnKind::ScheduledCompletion { original_query: q2, result: r2, is_final: f2 }) =>
            q1@ == q2@ && r1@ == r2@ && f1 == f2,
        (TurnKind::InjectedContext { content: c1, context_type: x1 },
         TurnKind::InjectedContext { content: c2, context_type: x2 }) => c1@ == c2@ && context_equiv(x1, x2),
        (TurnKind::SystemPrompt { content: c1 }, TurnKind::SystemPrompt { content: c2 }) => c1@ == c2@,
        _ => false,
    }
}

/// Two turns are the same up to how their tool-call lists are stored.
pub open spec fn same_turn(a: Turn, b: Turn) -> bool {
    &&& a.id == b.id
    &&& same_kind(a.kind, b.kind)
    &&& a.timestamp == b.timestamp
    &&& a.platform_origin == b.platform_origin
}

impl Clone for TurnKind {
    fn clone(&self) -> (res: Self)
        ensures
            same_kind(res, *self),
    {
        match self {
            TurnKind::UserMessage { content } => TurnKind::UserMessage { content: content.clone() },
            TurnKind::AssistantResponse { content } => TurnKind::AssistantResponse {
                content: content.clone(),
            },
            TurnKind::ToolInvocation { content, tool_calls } => TurnKind::ToolInvocation {
                content: clone_opt_string(content),
                tool_calls: clone_tool_calls(tool_calls),
            },
            TurnKind::ToolResult { tool_call_id, tool_category, content } => TurnKind::ToolResult {
                tool_call_id: tool_call_id.clone(),
                tool_category: *tool_category,
                content: content.clone(),
            },
            TurnKind::ScheduledCompletion { original_query, result, is_final } =>
                TurnKind::ScheduledCompletion {
                    original_query: original_query.clone(),
                    result: result.clone(),
                    is_final: *is_final,
                },
            TurnKind::InjectedContext { content, context_type } => TurnKind::InjectedContext {
                content: content.clone(),
                context_type: context_type.clone(),
            },
            TurnKind::SystemPrompt { content } => TurnKind::SystemPrompt { content: content.clone() },
        }
    }
}

/// One entry of a conversation.
#[derive(Debug)]
pub struct Turn {
    pub id: TurnId,
    pub kind: TurnKind,
    pub timestamp: Timestamp,
    pub platform_origin: Option<PlatformOrigin>,
}

impl Clone for Turn {
    fn clone(&self) -> (res: Self)
        ensures
            same_turn(res, *self),
    {
        let origin = match &self.platform_origin {
            Some(o) => Some(o.clone()),
            None => None,
        };
        Turn { id: self.id.clone(), kind: self.kind.clone(), timestamp: self.timestamp, platform_origin: origin }
    }
}

/// A copy of a list of turns.
pub fn clone_turns(v: &Vec<Turn>) -> (res: Vec<Turn>)
    ensures
        res@.len() == v@.len(),
        forall|i: int| 0 <= i < v@.len() ==> same_turn(#[trigger] res@[i], v@[i]),
{
    let mut out: Vec<Turn> = Vec::new();
    for i in 0..v.len()
        invariant
            out@.len() == i,
            forall|j: int| 0 <= j < i ==> same_turn(#[trigger] out@[j], v@[j]),
    {
        out.push(v[i].clone());
    }
    out
}

/// The text a turn carries, if any.
pub open spec fn kind_content(k: TurnKind) -> Option<Seq<char>> {
    match k {
        TurnKind::UserMessage { content } => Some(content@),
        TurnKind::AssistantResponse { content } => Some(content@),
        TurnKind::ToolInvocation { content, .. } => match content {
            Some(c) => Some(c@),
            None => None,
        },
        TurnKind::ToolResult { content, .. } => Some(content@),
        TurnKind::ScheduledCompletion { result, .. } => Some(result@),
        TurnKind::InjectedContext { content, .. } => Some(content@),
        TurnKind::SystemPrompt { content } => Some(content@),
    }
}

/// The turn is a summary of earlier turns.
pub open spec fn kind_is_summary(k: TurnKind) -> bool {
    k matches TurnKind::InjectedContext { context_type: ContextType::Summary { .. }, .. }
}

/// The tool calls of a tool invocation.
pub open spec fn kind_tool_calls(k: TurnKind) -> Option<Seq<ToolCall>> {
    match k {
        TurnKind::ToolInvocation { tool_calls, .. } => Some(tool_calls@),
        _ => None,
    }
}

/// The call a tool result answers.
pub open spec fn kind_tool_call_id(k: TurnKind) -> Option<Seq<char>> {
    match k {
        TurnKind::ToolResult { tool_call_id, .. } => Some(tool_call_id@),
        _ => None,
    }
}

impl Turn {
    /// A turn of the given kind, with a fresh identifier, stamped now, with no origin.
    pub fn new(kind: TurnKind) -> (res: Self)
        ensures
            res.kind == kind,
            is_uuid_v4_text(res.id.0@),
            res.platform_origin is None,
            res.timestamp.nanos < 1_000_000_000,
    {
        Turn { id: TurnId::new(), kind, timestamp: now_utc(), platform_origin: None }
    }

    /// The same turn with its origin set.
    pub fn with_platform_origin(self, origin: PlatformOrigin) -> (res: Self)
        ensures
            res.id == self.id,
            res.kind == self.kind,
            res.timestamp == self.timestamp,
            res.platform_origin == Some(origin),
    {
        let mut t = self;
        t.platform_origin = Some(origin);
        t
    }

    /// The same turn with another time stamp.
    pub fn with_timestamp(self, timestamp: Timestamp) -> (res: Self)
        ensures
            res.id == self.id,
            res.kind == self.kind,
            res.timestamp == timestamp,
            res.platform_origin == self.platform_origin,
    {
        let mut t = self;
        t.timestamp = timestamp;
        t
    }

    /// A message from the user.
    pub fn user_message(content: &str) -> (res: Self)
        ensures
            res.kind matches TurnKind::UserMessage { content: c } && c@ == content@,
            res.platform_origin is None,
    {
        Self::new(TurnKind::UserMessage { content: to_owned_string(content) })
    }

    /// A plain answer from the assistant.
    pub fn assistant_response(content: &str) -> (res: Self)
        ensures
            res.kind matches TurnKind::AssistantResponse { content: c } && c@ == content@,
            res.platform_origin is None,
    {
        Self::new(TurnKind::AssistantResponse { content: to_owned_string(content) })
    }

    /// The assistant asking for tools to run.
    pub fn tool_invocation(content: Option<String>, tool_calls: Vec<ToolCall>) -> (res: Self)
        ensures
            res.kind == (TurnKind::ToolInvocation { content, tool_calls }),
            res.platform_origin is None,
    {
        Self::new(TurnKind::ToolInvocation { content, tool_calls })
    }

    /// The output of a tool.
    pub fn tool_result(tool_call_id: &str, content: &str, tool_category: ToolCategory) -> (res: Self)
        ensures
            res.kind matches TurnKind::ToolResult { tool_call_id: i, tool_category: cat, content: c }
                && i@ == tool_call_id@ && c@ == content@ && cat == tool_category,
            res.platform_origin is None,
    {
        Self::new(TurnKind::ToolResult {
            tool_call_id: to_owned_string(tool_call_id),
            tool_category,
            content: to_owned_string(content),
        })
    }

    /// The outcome of a scheduled task.
    pub fn scheduled_completion(original_query: &str, result: &str, is_final: bool) -> (res: Self)
        ensures
            res.kind matches TurnKind::ScheduledCompletion { original_query: q, result: r, is_final: f }
                && q@ == original_query@ && r@ == result@ && f == is_final,
            res.platform_origin is None,
    {
        Self::new(TurnKind::ScheduledCompletion {
            original_query: to_owned_string(original_query),
            result: to_owned_string(result),
            is_final,
        })
    }

    /// A summary standing for the turns in `summarized_range`.
    pub fn summary(content: &str, summarized_range: (usize, usize)) -> (res: Self)
        ensures
            res.kind matches TurnKind::InjectedContext { content: c, context_type: ContextType::Summary { summarized_range: r } }
                && c@ == content@ && r == summarized_range,
            res.platform_origin is None,
    {
        Self::new(TurnKind::InjectedContext {
            content: to_owned_string(content),
            context_type: ContextType::Summary { summarized_range },
        })
    }

    /// The system prompt.
    pub fn system_prompt(content: &str) -> (res: Self)
        ensures
            res.kind matches TurnKind::SystemPrompt { content: c } && c@ == content@,
            res.platform_origin is None,
    {
        Self::new(TurnKind::SystemPrompt { content: to_owned_string(content) })
    }

    /// Whether the turn is a summary of earlier turns.
    pub fn is_summary(&self) -> (res: bool)
        ensures
            res == kind_is_summary(self.kind),
    {
        match &self.kind {
            TurnKind::InjectedContext { context_type: ContextType::Summary { .. }, .. } => true,
            _ => false,
        }
    }

    /// The range a summary stands for.
    pub fn summarized_range(&self) -> (res: Option<(usize, usize)>)
        ensures
            match self.kind {
                TurnKind::InjectedContext { context_type: ContextType::Summary { summarized_range }, .. } =>
                    res == Some(summarized_range),
                _ => res is None,
            },
    {
        match &self.kind {
            TurnKind::InjectedContext { context_type: ContextType::Summary { summarized_range }, .. } =>
                Some(*summarized_range),
            _ => None,
        }
    }

    /// The tool calls, when the turn is a tool invocation.
    pub fn tool_calls(&self) -> (res: Option<&Vec<ToolCall>>)
        ensures
            match res {
                Some(v) => kind_tool_calls(self.kind) == Some(v@),
                None => kind_tool_calls(self.kind) is None,
            },
    {
        match &self.kind {
            TurnKind::ToolInvocation { tool_calls, .. } => Some(tool_calls),
            _ => None,
        }
    }

    /// The answered call, when the turn is a tool result.
    pub fn tool_call_id(&self) -> (res: Option<&str>)
        ensures
            match res {
                Some(s) => kind_tool_call_id(self.kind) == Some(s@),
                None => kind_tool_call_id(self.kind) is None,
            },
    {
        match &self.kind {
            TurnKind::ToolResult { tool_call_id, .. } => Some(tool_call_id.as_str()),
            _ => None,
        }
    }

    /// The text of the turn: its content, or a scheduled task's result.
    pub fn content(&self) -> (res: Option<&str>)
        ensures
            match res {
                Some(s) => kind_content(self.kind) == Some(s@),
                None => kind_content(self.kind) is None,
            },
    {
        match &self.kind {
            TurnKind::UserMessage { content } => Some(content.as_str()),
            TurnKind::AssistantResponse { content } => Some(content.as_str()),
            TurnKind::ToolInvocation { content, .. } => match content {
                Some(c) => Some(c.as_str()),
                None => None,
            },
            TurnKind::ToolResult { content, .. } => Some(content.as_str()),
            TurnKind::ScheduledCompletion { result, .. } => Some(result.as_str()),
            TurnKind::InjectedContext { content, .. } => Some(content.as_str()),
            TurnKind::SystemPrompt { content } => Some(content.as_str()),
        }
    }

    /// A message from the user.
    pub fn is_user(&self) -> (res: bool)
        ensures
            res == (self.kind is UserMessage),
    {
        match &self.kind {
            TurnKind::UserMessage { .. } => true,
            _ => false,
        }
    }

    /// A turn of the assistant: an answer or a tool invocation.
    pub fn is_assistant(&self) -> (res: bool)
        ensures
            res == (self.kind is AssistantResponse || self.kind is ToolInvocation),
    {
        match &self.kind {
            TurnKind::AssistantResponse { .. } | TurnKind::ToolInvocation { .. } => true,
            _ => false,
        }
    }

    /// The output of a tool.
    pub fn is_tool_result(&self) -> (res: bool)
        ensures
            res == (self.kind is ToolResult),
    {
        match &self.kind {
            TurnKind::ToolResult { .. } => true,
            _ => false,
        }
    }

    /// The system prompt.
    pub fn is_system(&self) -> (res: bool)
        ensures
            res == (self.kind is SystemPrompt),
    {
        match &self.kind {
            TurnKind::SystemPrompt { .. } => true,
            _ => false,
        }
    }

    /// The outcome of a scheduled task.
    pub fn is_scheduled(&self) -> (res: bool)
        ensures
            res == (self.kind is ScheduledCompletion),
    {
        match &self.kind {
            TurnKind::ScheduledCompletion { .. } => true,
            _ => false,
        }
    }
}

} // verus!
