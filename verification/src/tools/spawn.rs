//! The `spawn_subtask` tool: starts a task that runs on its own.
use vstd::prelude::*;

use super::{object_schema_json, str_array, str_array1, typed, typed_json, HttpOutcome, ToolError, ToolOutput};
use crate::clock::{is_uuid_v4_text, new_uuid_v4};
use crate::json::{json_str, members_view, object2, object3, put, Json, JsonV};
use crate::restate::{TaskArgs, TaskConstraintsArgs};
use crate::text::{push_str, to_owned_string};
use crate::turn::clone_opt_string;

verus! {

/// The arguments of a spawn, as the model gave them.
#[derive(Debug)]
pub struct SpawnArgs {
    pub description: String,
    pub allowed_tools: Option<Vec<String>>,
    pub timeout_seconds: Option<u64>,
}

/// The task to start and where to post it.
#[derive(Debug)]
pub struct SpawnRequest {
    pub url: String,
    pub task: TaskArgs,
}

/// Spawns subtasks through the Restate ingress.
#[derive(Debug)]
pub struct SpawnSubtaskTool {
    pub restate_ingress_url: String,
    pub parent_task_id: Option<String>,
    pub chat_key: Option<String>,
    pub adapter_key: Option<String>,
}

impl SpawnSubtaskTool {
    /// A tool posting to the ingress at `restate_ingress_url`, with no parent
    /// task and no conversation.
    pub fn new(restate_ingress_url: &str) -> (res: Self)
        ensures
            res.restate_ingress_url@ == restate_ingress_url@,
            res.parent_task_id is None && res.chat_key is None && res.adapter_key is None,
    {
        SpawnSubtaskTool { restate_ingress_url: to_owned_string(restate_ingress_url), parent_task_id: None, chat_key: None, adapter_key: None }
    }

    /// The same tool spawning subtasks of `task_id`.
    pub fn with_parent_task(self, task_id: &str) -> (res: Self)
        ensures
            res.restate_ingress_url == self.restate_ingress_url,
            res.parent_task_id matches Some(p) && p@ == task_id@,
            res.chat_key == self.chat_key && res.adapter_key == self.adapter_key,
    {
        let mut t = self;
        t.parent_task_id = Some(to_owned_string(task_id));
        t
    }

    /// The same tool reporting to a conversation through an adapter.
    pub fn with_chat_context(self, chat_key: &str, adapter_key: &str) -> (res: Self)
        ensures
            res.restate_ingress_url == self.restate_ingress_url,
            res.parent_task_id == self.parent_task_id,
            res.chat_key matches Some(c) && c@ == chat_key@,
            res.adapter_key matches Some(a) && a@ == adapter_key@,
    {
        let mut t = self;
        t.chat_key = Some(to_owned_string(chat_key));
        t.adapter_key = Some(to_owned_string(adapter_key));
        t
    }

    /// The tool's name.
    pub fn name(&self) -> (res: &'static str)
        ensures
            res@ == "spawn_subtask"@,
    {
        "spawn_subtask"
    }

    /// What the tool does.
    pub fn description(&self) -> (res: &'static str)
        ensures
            res@ == "Spawn an autonomous subtask that will execute independently. Use this when a task can be broken down into independent pieces that don't require immediate results. The subtask will run asynchronously and its results will be available later. Returns the task ID for tracking."@,
    {
        "Spawn an autonomous subtask that will execute independently. Use this when a task can be broken down into independent pieces that don't require immediate results. The subtask will run asynchronously and its results will be available later. Returns the task ID for tracking."
    }

    /// The tool never only reads.
    pub fn is_read_only(&self) -> (res: bool)
        ensures
            !res,
    {
        false
    }

    /// The arguments the tool takes: a `description` (required), the allowed
    /// tools and a timeout.
    pub fn parameters_schema(&self) -> (res: Json)
        ensures
            res.view_json() == JsonV::Object(seq![
                ("type"@, JsonV::Str("object"@)),
                ("properties"@, JsonV::Object(seq![
                    ("description"@, typed("string"@, "A clear description of what the subtask should accomplish"@)),
                    ("allowed_tools"@, JsonV::Object(seq![
                        ("type"@, JsonV::Str("array"@)),
                        ("items"@, JsonV::Object(seq![("type"@, JsonV::Str("string"@))])),
                        ("description"@, JsonV::Str("Optional list of tool names the subtask is allowed to use"@)),
                    ])),
                    ("timeout_seconds"@, typed("integer"@, "Optional timeout in seconds for the subtask"@)),
                ])),
                ("required"@, str_array(seq!["description"@])),
            ]),
    {
        let mut items: Vec<(String, Json)> = Vec::new();
        put(&mut items, "type", json_str("string"));
        proof {
            crate::json::lemma_object_view(items);
        }
        let items_json = Json::Object(items);
        assert(items_json.view_json()->Object_0 =~= seq![("type"@, JsonV::Str("string"@))]);
        let mut props: Vec<(String, Json)> = Vec::new();
        put(&mut props, "description", typed_json("string", "A clear description of what the subtask should accomplish"));
        put(&mut props, "allowed_tools", object3(
            "type", json_str("array"),
            "items", items_json,
            "description", json_str("Optional list of tool names the subtask is allowed to use"),
        ));
        put(&mut props, "timeout_seconds", typed_json("integer", "Optional timeout in seconds for the subtask"));
        let ghost pv = members_view(props@);
        assert(pv =~= seq![
            ("description"@, typed("string"@, "A clear description of what the subtask should accomplish"@)),
            ("allowed_tools"@, JsonV::Object(seq![
                ("type"@, JsonV::Str("array"@)),
                ("items"@, JsonV::Object(seq![("type"@, JsonV::Str("string"@))])),
                ("description"@, JsonV::Str("Optional list of tool names the subtask is allowed to use"@)),
            ])),
            ("timeout_seconds"@, typed("integer"@, "Optional timeout in seconds for the subtask"@)),
        ]);
        let res = object_schema_json(props, Some(str_array1("description")));
        assert(res.view_json()->Object_0 =~= seq![
            ("type"@, JsonV::Str("object"@)),
            ("properties"@, JsonV::Object(pv)),
            ("required"@, str_array(seq!["description"@])),
        ]);
        res
    }

    /// The task to start for `args` (or why they did not parse): a fresh id
    /// `task-<uuid>`, the description, this tool's parent and conversation,
    /// and constraints when the arguments give any; posted to
    /// `<ingress>/TaskExecution/<id>/run`.
    pub fn execute(&self, args: Result<SpawnArgs, String>) -> (res: Result<SpawnRequest, ToolError>)
        ensures
            match args {
                Err(e) => res matches Err(err) && err.message@ == "Invalid arguments: "@ + e@ && !err.is_retryable,
                Ok(a) => res matches Ok(r)
                    && r.task.task_id@.len() > 5 && r.task.task_id@.take(5) == "task-"@
                    && is_uuid_v4_text(r.task.task_id@.skip(5))
                    && r.url@ == self.restate_ingress_url@ + "/TaskExecution/"@ + r.task.task_id@ + "/run"@
                    && r.task.description == a.description
                    && r.task.parent_task_id == self.parent_task_id
                    && r.task.chat_key == self.chat_key
                    && r.task.adapter_key == self.adapter_key
                    && (a.allowed_tools is None && a.timeout_seconds is None ==> r.task.constraints is None)
                    && (a.allowed_tools is Some || a.timeout_seconds is Some ==> (r.task.constraints matches Some(c)
                        && c.max_tokens is None && c.allowed_tools == a.allowed_tools && c.timeout_seconds == a.timeout_seconds)),
            },
    {
        let a = match args {
            Err(e) => {
                let mut t = to_owned_string("Invalid arguments: ");
                push_str(&mut t, e.as_str());
                return Err(ToolError::new(t.as_str()));
            },
            Ok(a) => a,
        };
        let uuid = new_uuid_v4();
        let mut task_id = to_owned_string("task-");
        push_str(&mut task_id, uuid.as_str());
        proof {
            reveal_strlit("task-");
            assert(task_id@.take(5) =~= "task-"@);
            assert(task_id@.skip(5) =~= uuid@);
        }
        let mut url = to_owned_string(self.restate_ingress_url.as_str());
        push_str(&mut url, "/TaskExecution/");
        push_str(&mut url, task_id.as_str());
        push_str(&mut url, "/run");
        let constraints = if a.allowed_tools.is_some() || a.timeout_seconds.is_some() {
            Some(TaskConstraintsArgs { max_tokens: None, allowed_tools: a.allowed_tools, timeout_seconds: a.timeout_seconds })
        } else {
            None
        };
        let task = TaskArgs {
            task_id,
            description: a.description,
            parent_task_id: clone_opt_string(&self.parent_task_id),
            constraints,
            chat_key: clone_opt_string(&self.chat_key),
            adapter_key: clone_opt_string(&self.adapter_key),
        };
        Ok(SpawnRequest { url, task })
    }

    /// The tool's answer once the task was posted.
    pub fn finish(request: &SpawnRequest, outcome: HttpOutcome) -> (res: Result<ToolOutput, ToolError>)
        ensures
            match outcome {
                HttpOutcome::Accepted => res matches Ok(o)
                    && o.content@ == "Subtask spawned successfully.\nTask ID: "@ + request.task.task_id@
                        + "\nDescription: "@ + request.task.description@,
                HttpOutcome::Unreachable(e) => res matches Err(err) && err.is_retryable
                    && err.message@ == "Failed to spawn subtask: "@ + e@,
                HttpOutcome::Rejected { status, body } => res matches Err(err) && err.is_retryable
                    && err.message@ == "Failed to spawn subtask (HTTP "@ + status@ + "): "@ + body@,
            },
    {
        match outcome {
            HttpOutcome::Accepted => {
                let mut t = to_owned_string("Subtask spawned successfully.\nTask ID: ");
                push_str(&mut t, request.task.task_id.as_str());
                push_str(&mut t, "\nDescription: ");
                push_str(&mut t, request.task.description.as_str());
                Ok(ToolOutput::new(t.as_str()))
            },
            HttpOutcome::Unreachable(e) => {
                let mut t = to_owned_string("Failed to spawn subtask: ");
                push_str(&mut t, e.as_str());
                Err(ToolError::retryable(t.as_str()))
            },
            HttpOutcome::Rejected { status, body } => {
                let mut t = to_owned_string("Failed to spawn subtask (HTTP ");
                push_str(&mut t, status.as_str());
                push_str(&mut t, "): ");
                push_str(&mut t, body.as_str());
                Err(ToolError::retryable(t.as_str()))
            },
        }
    }
}

} // verus!
