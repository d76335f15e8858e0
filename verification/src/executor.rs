//! The agent executor: the system prompt of a conversation and the tools it
//! gets. The model is called by the caller.
use vstd::prelude::*;

use crate::chat::PlatformContext;
use crate::text::{push_str, str_eq, to_owned_string};
use crate::tools::schedule::ScheduleTool;

verus! {

/// The local time now as `chrono` writes it with `%A, %B %d, %Y %H:%M:%S`,
/// and the local offset as `%:z`.
///
/// Trusted: both texts depend on the clock and the machine's time zone;
/// nothing is stated of them.
#[verifier::external_body]
pub(crate) fn local_now_texts() -> (res: (String, String)) {
    let now = chrono::Local::now();
    (now.format("%A, %B %d, %Y %H:%M:%S").to_string(), now.format("%:z").to_string())
}

/// The view of an optional text.
pub open spec fn str_opt_view(p: Option<&str>) -> Option<Seq<char>> {
    match p {
        Some(s) => Some(s@),
        None => None,
    }
}

/// What the system prompt says of the platform.
pub open spec fn platform_note(platform_type: Option<Seq<char>>) -> Seq<char> {
    match platform_type {
        Some(p) => if p == "telegram"@ {
            "\n\nYou are communicating with the user via Telegram. When they ask you to message or text them, you are already doing so - just respond directly in this chat."@
        } else {
            "\n\nYou are communicating with the user via "@ + p + "."@
        },
        None => Seq::empty(),
    }
}

/// The system prompt from the base instructions, the platform and the local
/// time and offset.
pub open spec fn system_prompt_text(base: Seq<char>, platform_type: Option<Seq<char>>, time: Seq<char>, offset: Seq<char>) -> Seq<char> {
    base + platform_note(platform_type) + "\n\nCurrent time: "@ + time + " (UTC"@ + offset + ")"@
}

/// The tools a conversation gets.
#[derive(Debug)]
pub struct ToolPlan {
    /// Web search and the memory tools.
    pub standard: bool,
    /// The schedule tool, when the conversation has a platform.
    pub schedule: Option<ScheduleTool>,
}

/// Runs a conversation turn with the agent's model and tools.
#[derive(Debug)]
pub struct AgentExecutor {
    pub chat_key: String,
    pub platform_ctx: Option<PlatformContext>,
    pub no_tools: bool,
}

impl AgentExecutor {
    /// An executor for the conversation `chat_key`, with tools.
    pub fn new(chat_key: &str) -> (res: Self)
        ensures
            res.chat_key@ == chat_key@,
            res.platform_ctx is None,
            !res.no_tools,
    {
        AgentExecutor { chat_key: to_owned_string(chat_key), platform_ctx: None, no_tools: false }
    }

    /// An executor without tools and without a conversation.
    pub fn new_without_tools() -> (res: Self)
        ensures
            res.chat_key@.len() == 0,
            res.platform_ctx is None,
            res.no_tools,
    {
        AgentExecutor { chat_key: String::new(), platform_ctx: None, no_tools: true }
    }

    /// The same executor answering on a platform.
    pub fn with_platform_context(self, ctx: PlatformContext) -> (res: Self)
        ensures
            res.chat_key == self.chat_key,
            res.platform_ctx == Some(ctx),
            res.no_tools == self.no_tools,
    {
        let mut e = self;
        e.platform_ctx = Some(ctx);
        e
    }

    /// The tools of the conversation: none without tools; otherwise web
    /// search and memory, and scheduling through `ingress_url` when the
    /// conversation has a platform.
    pub fn build_agent_config(&self, ingress_url: &str) -> (res: ToolPlan)
        ensures
            self.no_tools ==> !res.standard && res.schedule is None,
            !self.no_tools ==> res.standard && match self.platform_ctx {
                Some(ctx) => res.schedule matches Some(s) && s.restate_ingress_url@ == ingress_url@
                    && s.chat_key@ == self.chat_key@ && s.platform_type@ == ctx.platform_type@
                    && s.external_chat_id@ == ctx.external_chat_id@ && s.adapter_key@ == ctx.adapter_key@,
                None => res.schedule is None,
            },
    {
        if self.no_tools {
            return ToolPlan { standard: false, schedule: None };
        }
        let schedule = match &self.platform_ctx {
            Some(ctx) => Some(ScheduleTool::new(
                to_owned_string(ingress_url),
                self.chat_key.clone(),
                ctx.platform_type.clone(),
                ctx.external_chat_id.clone(),
                ctx.adapter_key.clone(),
            )),
            None => None,
        };
        ToolPlan { standard: true, schedule }
    }

    /// What the system prompt says of the platform.
    pub fn platform_note(platform_type: Option<&str>) -> (res: String)
        ensures
            res@ == platform_note(str_opt_view(platform_type)),
    {
        match platform_type {
            Some(p) => {
                if str_eq(p, "telegram") {
                    to_owned_string("\n\nYou are communicating with the user via Telegram. When they ask you to message or text them, you are already doing so - just respond directly in this chat.")
                } else {
                    let mut t = to_owned_string("\n\nYou are communicating with the user via ");
                    push_str(&mut t, p);
                    push_str(&mut t, ".");
                    t
                }
            },
            None => String::new(),
        }
    }

    /// The system prompt of a conversation: the base instructions, what the
    /// platform is, and the local time now.
    pub fn default_system_prompt(base: &str, platform_type: Option<&str>) -> (res: String)
        ensures
            exists|time: Seq<char>, offset: Seq<char>|
                res@ == #[trigger] system_prompt_text(base@, str_opt_view(platform_type), time, offset),
    {
        let (time, offset) = local_now_texts();
        let mut p = to_owned_string(base);
        let note = Self::platform_note(platform_type);
        push_str(&mut p, note.as_str());
        push_str(&mut p, "\n\nCurrent time: ");
        push_str(&mut p, time.as_str());
        push_str(&mut p, " (UTC");
        push_str(&mut p, offset.as_str());
        push_str(&mut p, ")");
        assert(p@ == system_prompt_text(base@, str_opt_view(platform_type), time@, offset@));
        p
    }
}

} // verus!
