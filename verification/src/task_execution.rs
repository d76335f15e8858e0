//! The task execution service: the record it keeps of a task, the task and
//! context a run starts from, and what a run, a status query and a cancel
//! leave behind. The worker's run and the delivery happen in the caller.
use vstd::prelude::*;

use crate::clock::now_rfc3339;
use crate::restate::{SendMessageRequest, TaskArgs, TaskResult, TaskStatusResponse};
use crate::tasks::{AgentOutput, Context, Task, TaskConstraints};
use crate::text::{push_str, str_eq, string_views, to_owned_string};
use crate::turn::clone_opt_string;

verus! {

/// The record the service keeps of a task.
#[derive(Debug)]
pub struct TaskRecord {
    pub task_id: String,
    pub status: String,
    pub result: Option<String>,
    pub error: Option<String>,
    pub subtasks: Vec<String>,
    pub started_at: Option<String>,
    pub completed_at: Option<String>,
}

/// How a run ends.
#[derive(Debug)]
pub struct RunEnd {
    /// The record to store.
    pub record: TaskRecord,
    /// The answer of the service.
    pub result: TaskResult,
    /// The result to deliver, and the adapter to deliver it through, when the
    /// task names both a conversation and an adapter and produced a result.
    pub delivery: Option<(String, SendMessageRequest)>,
}

/// The start of a run.
#[derive(Debug)]
pub struct RunStart {
    /// The record stored while the task runs.
    pub record: TaskRecord,
    /// The task the worker runs.
    pub task: Task,
    /// The worker's identifier.
    pub worker_id: String,
    /// The context the task runs in.
    pub context: Context,
}

fn clone_strings(v: &Vec<String>) -> (res: Vec<String>)
    ensures
        res@ == v@,
{
    let mut out: Vec<String> = Vec::new();
    for i in 0..v.len()
        invariant
            out@ == v@.take(i as int),
    {
        out.push(v[i].clone());
        assert(v@.take(i + 1) == v@.take(i as int).push(v@[i as int]));
    }
    assert(v@.take(v.len() as int) == v@);
    out
}

/// The task execution service.
#[derive(Debug)]
pub struct TaskExecutionImpl;

impl TaskExecutionImpl {
    /// The start of a run of `args`: a running record stamped now, the task
    /// the arguments describe, the worker `worker-<id>`, and a context one
    /// level below the parent when there is one.
    pub fn start(args: &TaskArgs) -> (res: RunStart)
        ensures
            res.record.task_id@ == args.task_id@,
            res.record.status@ == "running"@,
            res.record.result is None && res.record.error is None,
            res.record.subtasks@.len() == 0,
            res.record.started_at is Some && res.record.completed_at is None,
            res.task.id@ == args.task_id@,
            res.task.description@ == args.description@,
            res.task.parent_task_id == args.parent_task_id,
            match args.constraints {
                Some(c) => res.task.constraints matches Some(t) && t.max_tokens == c.max_tokens
                    && t.timeout_seconds == c.timeout_seconds
                    && match c.allowed_tools {
                        Some(a) => t.allowed_tools matches Some(b) && b@ == a@,
                        None => t.allowed_tools is None,
                    },
                None => res.task.constraints is None,
            },
            res.worker_id@ == "worker-"@ + args.task_id@,
            res.context.depth == (if args.parent_task_id is Some { 1usize } else { 0usize }),
            match args.parent_task_id {
                Some(p) => res.context.parent_task_id matches Some(q) && q@ == p@,
                None => res.context.parent_task_id is None,
            },
    {
        let record = TaskRecord {
            task_id: args.task_id.clone(),
            status: to_owned_string("running"),
            result: None,
            error: None,
            subtasks: Vec::new(),
            started_at: Some(now_rfc3339()),
            completed_at: None,
        };
        let constraints = match &args.constraints {
            Some(c) => Some(TaskConstraints {
                max_tokens: c.max_tokens,
                allowed_tools: match &c.allowed_tools {
                    Some(a) => Some(clone_strings(a)),
                    None => None,
                },
                timeout_seconds: c.timeout_seconds,
            }),
            None => None,
        };
        let task = Task {
            id: args.task_id.clone(),
            description: args.description.clone(),
            parent_task_id: clone_opt_string(&args.parent_task_id),
            constraints,
        };
        let mut worker_id = to_owned_string("worker-");
        push_str(&mut worker_id, task.id.as_str());
        let context = match &args.parent_task_id {
            Some(p) => Context::new().child(p.as_str()),
            None => Context::new(),
        };
        RunStart { record, task, worker_id, context }
    }

    /// How a run of `args`, started as `started`, ends with the worker's
    /// `outcome`: completed with its result and subtasks, or failed with its
    /// error; stamped now; and the result delivered when the task names an
    /// adapter and a conversation.
    pub fn run(args: &TaskArgs, started: &TaskRecord, outcome: Result<AgentOutput, String>) -> (res: RunEnd)
        ensures
            res.result.task_id@ == args.task_id@,
            res.record.task_id@ == args.task_id@,
            res.record.started_at == started.started_at,
            res.record.completed_at is Some,
            res.record.status == res.result.status,
            res.record.result == res.result.result,
            res.record.error == res.result.error,
            res.record.subtasks@ == res.result.subtasks@,
            match outcome {
                Ok(o) => res.result.status@ == "completed"@ && res.result.error is None
                    && string_views(res.result.subtasks@) == string_views(o.subtasks_spawned@)
                    && (res.result.result matches Some(r) && r@ == o.result@),
                Err(e) => res.result.status@ == "failed"@ && res.result.result is None
                    && res.result.error == Some(e) && res.result.subtasks@.len() == 0,
            },
            match (args.adapter_key, res.result.result, args.chat_key) {
                (Some(a), Some(r), Some(c)) => res.delivery matches Some((key, req)) && key@ == a@
                    && req.platform_type@ == "task"@ && req.external_chat_id@ == c@ && req.content@ == r@,
                _ => res.delivery is None,
            },
    {
        let (status, result, error, subtasks) = match outcome {
            Ok(o) => (to_owned_string("completed"), Some(o.result), None, o.subtasks_spawned),
            Err(e) => (to_owned_string("failed"), None, Some(e), Vec::new()),
        };
        let record = TaskRecord {
            task_id: args.task_id.clone(),
            status: status.clone(),
            result: clone_opt_string(&result),
            error: clone_opt_string(&error),
            subtasks: clone_strings(&subtasks),
            started_at: clone_opt_string(&started.started_at),
            completed_at: Some(now_rfc3339()),
        };
        let delivery = match (&args.adapter_key, &result, &args.chat_key) {
            (Some(a), Some(r), Some(c)) => Some((a.clone(), SendMessageRequest {
                platform_type: to_owned_string("task"),
                external_chat_id: c.clone(),
                content: r.clone(),
            })),
            _ => None,
        };
        RunEnd {
            record,
            result: TaskResult { task_id: args.task_id.clone(), status, result, error, subtasks },
            delivery,
        }
    }

    /// The status of the task stored under `key`: from its record, or
    /// `not_found` under the key when there is none.
    pub fn status(key: &str, stored: Option<TaskRecord>) -> (res: TaskStatusResponse)
        ensures
            match stored {
                Some(r) => res.task_id == r.task_id && res.status == r.status
                    && res.started_at == r.started_at && res.completed_at == r.completed_at,
                None => res.task_id@ == key@ && res.status@ == "not_found"@
                    && res.started_at is None && res.completed_at is None,
            },
    {
        match stored {
            Some(r) => TaskStatusResponse {
                task_id: r.task_id,
                status: r.status,
                started_at: r.started_at,
                completed_at: r.completed_at,
            },
            None => TaskStatusResponse {
                task_id: to_owned_string(key),
                status: to_owned_string("not_found"),
                started_at: None,
                completed_at: None,
            },
        }
    }

    /// The record after a cancel: a running or pending task becomes
    /// cancelled, stamped now; any other record is left as it is (`None`:
    /// nothing to store).
    pub fn cancel(stored: TaskRecord) -> (res: Option<TaskRecord>)
        ensures
            (stored.status@ == "running"@ || stored.status@ == "pending"@) ==> (res matches Some(r)
                && r.status@ == "cancelled"@ && r.completed_at is Some
                && r.task_id == stored.task_id && r.result == stored.result && r.error == stored.error
                && r.subtasks == stored.subtasks && r.started_at == stored.started_at),
            !(stored.status@ == "running"@ || stored.status@ == "pending"@) ==> res is None,
    {
        if str_eq(stored.status.as_str(), "running") || str_eq(stored.status.as_str(), "pending") {
            let mut r = stored;
            r.status = to_owned_string("cancelled");
            r.completed_at = Some(now_rfc3339());
            Some(r)
        } else {
            None
        }
    }
}

} // verus!
