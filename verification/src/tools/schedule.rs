//! The `schedule` tool: hands a request with its timing to the scheduler.
use vstd::prelude::*;

use super::{object_schema_json, str_array, str_array1, typed, typed_json, HttpOutcome, ToolError, ToolOutput};
use crate::clock::{is_uuid_v4_text, new_uuid_v4};
use crate::json::{field, get, json_str, lemma_object_view, members_view, object3, put, str_of, Json, JsonV};
use crate::text::{push_str, to_owned_string};

verus! {

/// A boolean value (`Value::as_bool`).
pub open spec fn bool_of(v: Option<Json>) -> Option<bool> {
    match v {
        Some(Json::Bool(b)) => Some(b),
        _ => None,
    }
}

/// A value as a boolean, if it is one.
pub fn as_bool(v: Option<&Json>) -> (res: Option<bool>)
    ensures
        res == bool_of(match v { Some(j) => Some(*j), None => None }),
{
    match v {
        Some(Json::Bool(b)) => Some(*b),
        _ => None,
    }
}

/// The request to post to the scheduler.
#[derive(Debug)]
pub struct ScheduleRequest {
    /// The key the scheduled session runs under.
    pub key: String,
    pub url: String,
    pub body: Json,
    pub recurring: bool,
}

/// The description of the tool.
pub open spec fn schedule_description() -> Seq<char> {
    "Schedule a task to be executed at a future time. Pass the COMPLETE user request including timing information - the scheduler will extract when to run and what to do.\n\nExamples of requests to pass:\n- \"in 5 minutes check the weather in NYC\"\n- \"tomorrow at 10AM EST remind me to call mom\"\n- \"Monday at 8am look at Mark's code review comments\"\n- \"every day at 9AM check my emails and summarize\"\n\nThe scheduled task runs as an independent agent with its own tools and no access to the current conversation history. Include all relevant context in the request."@
}

/// Schedules tasks for the conversation it serves.
#[derive(Debug)]
pub struct ScheduleTool {
    pub restate_ingress_url: String,
    pub chat_key: String,
    pub platform_type: String,
    pub external_chat_id: String,
    pub adapter_key: String,
}

impl ScheduleTool {
    /// A tool that schedules through the ingress at `restate_ingress_url` for
    /// the conversation `chat_key` on the given platform.
    pub fn new(restate_ingress_url: String, chat_key: String, platform_type: String, external_chat_id: String, adapter_key: String) -> (res: Self)
        ensures
            res.restate_ingress_url == restate_ingress_url,
            res.chat_key == chat_key,
            res.platform_type == platform_type,
            res.external_chat_id == external_chat_id,
            res.adapter_key == adapter_key,
    {
        ScheduleTool { restate_ingress_url, chat_key, platform_type, external_chat_id, adapter_key }
    }

    /// The tool's name.
    pub fn name(&self) -> (res: &'static str)
        ensures
            res@ == "schedule"@,
    {
        "schedule"
    }

    /// What the tool does.
    pub fn description(&self) -> (res: &'static str)
        ensures
            res@ == schedule_description(),
    {
        "Schedule a task to be executed at a future time. Pass the COMPLETE user request including timing information - the scheduler will extract when to run and what to do.\n\nExamples of requests to pass:\n- \"in 5 minutes check the weather in NYC\"\n- \"tomorrow at 10AM EST remind me to call mom\"\n- \"Monday at 8am look at Mark's code review comments\"\n- \"every day at 9AM check my emails and summarize\"\n\nThe scheduled task runs as an independent agent with its own tools and no access to the current conversation history. Include all relevant context in the request."
    }

    /// The tool never only reads.
    pub fn is_read_only(&self) -> (res: bool)
        ensures
            !res,
    {
        false
    }

    /// The arguments the tool takes: the full `request` (required) and whether
    /// it is `recurring`.
    pub fn parameters_schema(&self) -> (res: Json)
        ensures
            res.view_json() == JsonV::Object(seq![
                ("type"@, JsonV::Str("object"@)),
                ("properties"@, JsonV::Object(seq![
                    ("request"@, typed("string"@, "The complete user request INCLUDING timing information (e.g., 'Monday at 8am remind me to check emails'). Do NOT strip timing - pass the full request as the user said it."@)),
                    ("recurring"@, JsonV::Object(seq![
                        ("type"@, JsonV::Str("boolean"@)),
                        ("description"@, JsonV::Str("Set to true if this is a recurring task (e.g., 'every day', 'every Monday'). Default is false for one-time tasks."@)),
                        ("default"@, JsonV::Bool(false)),
                    ])),
                ])),
                ("required"@, str_array(seq!["request"@])),
            ]),
    {
        let mut props: Vec<(String, Json)> = Vec::new();
        put(&mut props, "request", typed_json("string", "The complete user request INCLUDING timing information (e.g., 'Monday at 8am remind me to check emails'). Do NOT strip timing - pass the full request as the user said it."));
        put(&mut props, "recurring", object3(
            "type", json_str("boolean"),
            "description", json_str("Set to true if this is a recurring task (e.g., 'every day', 'every Monday'). Default is false for one-time tasks."),
            "default", Json::Bool(false),
        ));
        let ghost pv = members_view(props@);
        assert(pv =~= seq![
            ("request"@, typed("string"@, "The complete user request INCLUDING timing information (e.g., 'Monday at 8am remind me to check emails'). Do NOT strip timing - pass the full request as the user said it."@)),
            ("recurring"@, JsonV::Object(seq![
                ("type"@, JsonV::Str("boolean"@)),
                ("description"@, JsonV::Str("Set to true if this is a recurring task (e.g., 'every day', 'every Monday'). Default is false for one-time tasks."@)),
                ("default"@, JsonV::Bool(false)),
            ])),
        ]);
        let res = object_schema_json(props, Some(str_array1("request")));
        assert(res.view_json()->Object_0 =~= seq![
            ("type"@, JsonV::Str("object"@)),
            ("properties"@, JsonV::Object(pv)),
            ("required"@, str_array(seq!["request"@])),
        ]);
        res
    }

    /// The request for `args` under a fresh key: a missing or empty `request`
    /// fails; `recurring` defaults to false. It is posted to
    /// `<ingress>/ScheduledSession/<key>/run/send` with the conversation's
    /// details.
    pub fn execute(&self, args: &Json) -> (res: Result<ScheduleRequest, ToolError>)
        ensures
            ({
                let request = match str_of(field(*args, "request"@)) { Some(r) => r, None => Seq::empty() };
                &&& request.len() == 0 ==> (res matches Err(e) && e.message@ == "Request cannot be empty"@ && !e.is_retryable)
                &&& request.len() > 0 ==> (res matches Ok(r)
                    && is_uuid_v4_text(r.key@)
                    && r.url@ == self.restate_ingress_url@ + "/ScheduledSession/"@ + r.key@ + "/run/send"@
                    && r.recurring == match bool_of(field(*args, "recurring"@)) { Some(b) => b, None => false }
                    && r.body.view_json() == JsonV::Object(seq![
                        ("request"@, JsonV::Str(request)),
                        ("recurring"@, JsonV::Bool(r.recurring)),
                        ("chat_key"@, JsonV::Str(self.chat_key@)),
                        ("platform_type"@, JsonV::Str(self.platform_type@)),
                        ("external_chat_id"@, JsonV::Str(self.external_chat_id@)),
                        ("adapter_key"@, JsonV::Str(self.adapter_key@)),
                    ]))
            }),
    {
        let request: String = match super::super::json::as_str(get(args, "request")) {
            Some(r) => to_owned_string(r),
            None => String::new(),
        };
        let recurring = match as_bool(get(args, "recurring")) {
            Some(b) => b,
            None => false,
        };
        if request.as_str().is_empty() {
            return Err(ToolError::new("Request cannot be empty"));
        }
        let key = new_uuid_v4();
        let mut url = to_owned_string(self.restate_ingress_url.as_str());
        push_str(&mut url, "/ScheduledSession/");
        push_str(&mut url, key.as_str());
        push_str(&mut url, "/run/send");
        let mut m: Vec<(String, Json)> = Vec::new();
        put(&mut m, "request", json_str(request.as_str()));
        put(&mut m, "recurring", Json::Bool(recurring));
        put(&mut m, "chat_key", json_str(self.chat_key.as_str()));
        put(&mut m, "platform_type", json_str(self.platform_type.as_str()));
        put(&mut m, "external_chat_id", json_str(self.external_chat_id.as_str()));
        put(&mut m, "adapter_key", json_str(self.adapter_key.as_str()));
        proof {
            lemma_object_view(m);
        }
        let body = Json::Object(m);
        assert(body.view_json()->Object_0 =~= seq![
            ("request"@, JsonV::Str(request@)),
            ("recurring"@, JsonV::Bool(recurring)),
            ("chat_key"@, JsonV::Str(self.chat_key@)),
            ("platform_type"@, JsonV::Str(self.platform_type@)),
            ("external_chat_id"@, JsonV::Str(self.external_chat_id@)),
            ("adapter_key"@, JsonV::Str(self.adapter_key@)),
        ]);
        Ok(ScheduleRequest { key, url, body, recurring })
    }

    /// The tool's answer once the request was sent: the scheduler's key on
    /// success; why it failed otherwise.
    pub fn finish(request: &ScheduleRequest, outcome: HttpOutcome) -> (res: Result<ToolOutput, ToolError>)
        ensures
            match outcome {
                HttpOutcome::Accepted => res matches Ok(o)
                    && o.content@ == (if request.recurring { "Recurring task"@ } else { "Task"@ })
                        + " scheduled (key: "@ + request.key@ + "). The scheduler will extract the timing and execute accordingly."@,
                HttpOutcome::Unreachable(e) => res matches Err(err) && !err.is_retryable
                    && err.message@ == "Failed to reach Restate: "@ + e@,
                HttpOutcome::Rejected { status, body } => res matches Err(err) && !err.is_retryable
                    && err.message@ == "Restate returned error "@ + status@ + ": "@ + body@,
            },
    {
        match outcome {
            HttpOutcome::Accepted => {
                let mut t = if request.recurring { to_owned_string("Recurring task") } else { to_owned_string("Task") };
                push_str(&mut t, " scheduled (key: ");
                push_str(&mut t, request.key.as_str());
                push_str(&mut t, "). The scheduler will extract the timing and execute accordingly.");
                Ok(ToolOutput::new(t.as_str()))
            },
            HttpOutcome::Unreachable(e) => {
                let mut t = to_owned_string("Failed to reach Restate: ");
                push_str(&mut t, e.as_str());
                Err(ToolError::new(t.as_str()))
            },
            HttpOutcome::Rejected { status, body } => {
                let mut t = to_owned_string("Restate returned error ");
                push_str(&mut t, status.as_str());
                push_str(&mut t, ": ");
                push_str(&mut t, body.as_str());
                Err(ToolError::new(t.as_str()))
            },
        }
    }
}

} // verus!
