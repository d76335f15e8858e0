//! The worker: runs one task with the agent's tools and reports the answer.
//! The model call is made by the caller.
use vstd::prelude::*;

use super::{AgentOutput, Context, Task};
use crate::chat::PlatformContext;
use crate::message::Message;
use crate::text::{i64_to_decimal, join, nat_decimal, push_str, seq_join, string_views, to_owned_string, u64_to_decimal};

verus! {

/// What a worker can do unless told otherwise.
pub open spec fn default_worker_capabilities() -> Seq<Seq<char>> {
    seq!["web_search"@, "memory_write"@, "memory_read"@, "memory_list"@, "memory_search"@, "memory_delete"@]
}

/// The system prompt for running `task` in `context`.
pub open spec fn worker_prompt_text(task: Task, context: Context) -> Seq<char> {
    "You are a worker agent executing a specific task. Complete the task thoroughly and report your findings.\n\n"@
        + (match task.constraints {
            Some(c) => match c.allowed_tools {
                Some(tools) => "You may only use the following tools: "@ + seq_join(string_views(tools@), ", "@) + "\n\n"@,
                None => Seq::empty(),
            },
            None => Seq::empty(),
        })
        + (if context.depth > 0 {
            "This is a subtask (depth: "@ + nat_decimal(context.depth as nat) + "). Focus only on your assigned portion.\n\n"@
        } else {
            Seq::empty()
        })
        + "Task ID: "@ + task.id@ + "\n"@
        + (match task.parent_task_id {
            Some(p) => "Parent Task ID: "@ + p@ + "\n"@,
            None => Seq::empty(),
        })
}

/// Runs tasks with the agent's tools.
#[derive(Debug)]
pub struct WorkerAgent {
    pub id: String,
    pub capabilities: Vec<String>,
    pub platform_ctx: Option<PlatformContext>,
}

impl WorkerAgent {
    /// A worker with the default capabilities and no platform.
    pub fn new(id: &str) -> (res: Self)
        ensures
            res.id@ == id@,
            string_views(res.capabilities@) == default_worker_capabilities(),
            res.platform_ctx is None,
    {
        let mut c: Vec<String> = Vec::new();
        c.push(to_owned_string("web_search"));
        c.push(to_owned_string("memory_write"));
        c.push(to_owned_string("memory_read"));
        c.push(to_owned_string("memory_list"));
        c.push(to_owned_string("memory_search"));
        c.push(to_owned_string("memory_delete"));
        assert(string_views(c@) =~= default_worker_capabilities());
        WorkerAgent { id: to_owned_string(id), capabilities: c, platform_ctx: None }
    }

    /// The same worker with other capabilities.
    pub fn with_capabilities(self, capabilities: Vec<String>) -> (res: Self)
        ensures
            res.id == self.id,
            res.capabilities == capabilities,
            res.platform_ctx == self.platform_ctx,
    {
        let mut w = self;
        w.capabilities = capabilities;
        w
    }

    /// The same worker answering on a platform.
    pub fn with_platform_context(self, ctx: PlatformContext) -> (res: Self)
        ensures
            res.id == self.id,
            res.capabilities == self.capabilities,
            res.platform_ctx == Some(ctx),
    {
        let mut w = self;
        w.platform_ctx = Some(ctx);
        w
    }

    /// The worker's identifier.
    pub fn id(&self) -> (res: &str)
        ensures
            res@ == self.id@,
    {
        self.id.as_str()
    }

    /// What the worker can do.
    pub fn capabilities(&self) -> (res: &Vec<String>)
        ensures
            *res == self.capabilities,
    {
        &self.capabilities
    }

    /// The conversation key a task runs under: `task:<id>`.
    pub fn chat_key(task: &Task) -> (res: String)
        ensures
            res@ == "task:"@ + task.id@,
    {
        let mut k = to_owned_string("task:");
        push_str(&mut k, task.id.as_str());
        k
    }

    /// The system prompt for running `task` in `context`: the worker's
    /// instructions, the allowed tools if the task limits them, the depth of
    /// a subtask, the task's identifier and its parent's.
    pub fn build_system_prompt(&self, task: &Task, context: &Context) -> (res: String)
        ensures
            res@ == worker_prompt_text(*task, *context),
    {
        let mut p = to_owned_string("You are a worker agent executing a specific task. Complete the task thoroughly and report your findings.\n\n");
        match &task.constraints {
            Some(c) => match &c.allowed_tools {
                Some(tools) => {
                    push_str(&mut p, "You may only use the following tools: ");
                    let listed = join(tools, ", ");
                    push_str(&mut p, listed.as_str());
                    push_str(&mut p, "\n\n");
                },
                None => {},
            },
            None => {},
        }
        if context.depth > 0 {
            push_str(&mut p, "This is a subtask (depth: ");
            let d = u64_to_decimal(context.depth as u64);
            push_str(&mut p, d.as_str());
            push_str(&mut p, "). Focus only on your assigned portion.\n\n");
        }
        push_str(&mut p, "Task ID: ");
        push_str(&mut p, task.id.as_str());
        push_str(&mut p, "\n");
        match &task.parent_task_id {
            Some(parent) => {
                push_str(&mut p, "Parent Task ID: ");
                push_str(&mut p, parent.as_str());
                push_str(&mut p, "\n");
            },
            None => {},
        }
        p
    }

    /// The worker's output for the model's answer: its text, or nothing.
    pub fn output_for(answer: &Message) -> (res: AgentOutput)
        ensures
            res.result@ == match answer.content {
                Some(c) => c@,
                None => Seq::<char>::empty(),
            },
            res.artifacts@.len() == 0,
            res.subtasks_spawned@.len() == 0,
    {
        match &answer.content {
            Some(c) => AgentOutput::new(c.as_str()),
            None => AgentOutput::default(),
        }
    }
}

} // verus!
