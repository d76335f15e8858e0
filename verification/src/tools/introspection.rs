//! The introspection tools: what the Restate system is doing, read from its
//! tables by the caller and shown here.
use vstd::prelude::*;

use super::{object_schema_json, str_array, typed, typed_json, ToolError, ToolOutput};
use crate::json::{as_str, field, get, json_str, members_view, object4, put, str_of, Json, JsonNumber, JsonV};
use crate::text::{debug_option, debug_option_text, i64_to_decimal, int_decimal, join, nat_decimal, push_str, seq_join, string_views, to_owned_string, u64_to_decimal};

verus! {

/// A task waiting for its time.
#[derive(Debug)]
pub struct ScheduledTask {
    pub id: String,
    pub target: String,
    pub status: String,
    pub scheduled_at: Option<String>,
    pub retry_count: i64,
}

/// A task the system is working on.
#[derive(Debug)]
pub struct TaskStatus {
    pub id: String,
    pub target: String,
    pub service_name: Option<String>,
    pub service_key: Option<String>,
    pub handler: String,
    pub status: String,
    pub retry_count: i64,
    pub last_failure: Option<String>,
    pub created_at: Option<String>,
    pub modified_at: Option<String>,
}

/// Counts of tasks by state.
#[derive(Debug)]
pub struct SystemOverview {
    pub total_active: i64,
    pub pending: i64,
    pub running: i64,
    pub suspended: i64,
    pub backing_off: i64,
    pub scheduled: i64,
    pub failed_recently: i64,
}

/// The view of an optional text.
pub open spec fn ov(o: Option<String>) -> Option<Seq<char>> {
    match o {
        Some(s) => Some(s@),
        None => None,
    }
}

/// The line of a scheduled task.
pub open spec fn scheduled_line(t: ScheduledTask) -> Seq<char> {
    "- "@ + t.id@ + " | "@ + t.target@ + " | scheduled: "@ + debug_option_text(ov(t.scheduled_at))
}

/// The line of an active task.
pub open spec fn active_line(t: TaskStatus) -> Seq<char> {
    "- "@ + t.id@ + " | "@ + t.target@ + " | status: "@ + t.status@ + " | retries: "@ + int_decimal(t.retry_count as int)
        + match t.last_failure {
            Some(f) => " | last error: "@ + f@,
            None => Seq::empty(),
        }
}

/// A list of items under a heading: a note when empty, else
/// `Found <n> <what>:` and one line each.
pub open spec fn listing(lines: Seq<Seq<char>>, empty: Seq<char>, what: Seq<char>) -> Seq<char> {
    if lines.len() == 0 {
        empty
    } else {
        "Found "@ + nat_decimal(lines.len()) + " "@ + what + ":\n"@ + seq_join(lines, "\n"@)
    }
}

/// The details of a task.
pub open spec fn details_text(t: TaskStatus) -> Seq<char> {
    "Task ID: "@ + t.id@ + "\nTarget: "@ + t.target@ + "\nStatus: "@ + t.status@
        + "\nService: "@ + debug_option_text(ov(t.service_name))
        + "\nKey: "@ + debug_option_text(ov(t.service_key))
        + "\nHandler: "@ + t.handler@
        + "\nRetries: "@ + int_decimal(t.retry_count as int)
        + "\nCreated: "@ + debug_option_text(ov(t.created_at))
        + "\nModified: "@ + debug_option_text(ov(t.modified_at))
        + "\nLast Error: "@ + debug_option_text(ov(t.last_failure))
}

/// The summary of the system's state.
pub open spec fn overview_text(o: SystemOverview) -> Seq<char> {
    "System Overview:\n- Total active tasks: "@ + int_decimal(o.total_active as int)
        + "\n- Pending: "@ + int_decimal(o.pending as int)
        + "\n- Running: "@ + int_decimal(o.running as int)
        + "\n- Suspended: "@ + int_decimal(o.suspended as int)
        + "\n- Backing off (retrying): "@ + int_decimal(o.backing_off as int)
        + "\n- Scheduled for future: "@ + int_decimal(o.scheduled as int)
        + "\n- Failed recently: "@ + int_decimal(o.failed_recently as int)
}

/// A member's text, or `unknown`.
pub open spec fn text_or_unknown(item: Json, key: Seq<char>) -> Seq<char> {
    match str_of(field(item, key)) {
        Some(s) => s,
        None => "unknown"@,
    }
}

/// The line of a queued item.
pub open spec fn queue_line(item: Json) -> Seq<char> {
    "- "@ + text_or_unknown(item, "service"@) + " ("@ + text_or_unknown(item, "key"@) + "): "@ + text_or_unknown(item, "invocation_id"@)
}

fn listing_text(lines: &Vec<String>, empty: &str, what: &str) -> (res: String)
    ensures
        res@ == listing(string_views(lines@), empty@, what@),
{
    if lines.len() == 0 {
        return to_owned_string(empty);
    }
    let mut t = to_owned_string("Found ");
    let n = u64_to_decimal(lines.len() as u64);
    push_str(&mut t, n.as_str());
    push_str(&mut t, " ");
    push_str(&mut t, what);
    push_str(&mut t, ":\n");
    let joined = join(lines, "\n");
    push_str(&mut t, joined.as_str());
    t
}

fn text_of(item: &Json, key: &str) -> (res: String)
    ensures
        res@ == text_or_unknown(*item, key@),
{
    match as_str(get(item, key)) {
        Some(s) => to_owned_string(s),
        None => to_owned_string("unknown"),
    }
}

/// The schema of a tool without arguments.
pub open spec fn no_arguments() -> JsonV {
    JsonV::Object(seq![
        ("type"@, JsonV::Str("object"@)),
        ("properties"@, JsonV::Object(Seq::empty())),
        ("required"@, str_array(Seq::empty())),
    ])
}

/// `{"type": "object", "properties": {}, "required": []}`.
pub fn no_arguments_json() -> (res: Json)
    ensures
        res.view_json() == no_arguments(),
{
    let props: Vec<(String, Json)> = Vec::new();
    let req: Vec<Json> = Vec::new();
    proof {
        crate::json::lemma_array_view(req);
        assert(crate::json::elements_view(req@) =~= Seq::<Seq<char>>::empty().map_values(|s: Seq<char>| JsonV::Str(s)));
    }
    let res = object_schema_json(props, Some(Json::Array(req)));
    assert(members_view(Seq::<(String, Json)>::empty()) =~= Seq::<(Seq<char>, JsonV)>::empty());
    assert(res.view_json()->Object_0 =~= no_arguments()->Object_0);
    res
}

/// The introspection tools.
#[derive(Debug)]
pub struct IntrospectionTools;

impl IntrospectionTools {
    /// The answer of `list_scheduled_tasks`.
    pub fn list_scheduled_tasks(tasks: &Vec<ScheduledTask>) -> (res: ToolOutput)
        ensures
            res.content@ == listing(tasks@.map_values(|t: ScheduledTask| scheduled_line(t)), "No scheduled tasks found."@, "scheduled task(s)"@),
    {
        let mut lines: Vec<String> = Vec::new();
        for i in 0..tasks.len()
            invariant
                string_views(lines@) == tasks@.take(i as int).map_values(|t: ScheduledTask| scheduled_line(t)),
        {
            let t = &tasks[i];
            let mut l = to_owned_string("- ");
            push_str(&mut l, t.id.as_str());
            push_str(&mut l, " | ");
            push_str(&mut l, t.target.as_str());
            push_str(&mut l, " | scheduled: ");
            let d = debug_option(&t.scheduled_at);
            push_str(&mut l, d.as_str());
            let ghost prev = lines@;
            lines.push(l);
            assert(string_views(lines@) =~= string_views(prev).push(scheduled_line(*t)));
            assert(tasks@.take(i + 1).map_values(|t: ScheduledTask| scheduled_line(t))
                =~= tasks@.take(i as int).map_values(|t: ScheduledTask| scheduled_line(t)).push(scheduled_line(*t)));
        }
        assert(tasks@.take(tasks.len() as int) =~= tasks@);
        let text = listing_text(&lines, "No scheduled tasks found.", "scheduled task(s)");
        ToolOutput::new(text.as_str())
    }

    /// The answer of `list_active_tasks`.
    pub fn list_active_tasks(tasks: &Vec<TaskStatus>) -> (res: ToolOutput)
        ensures
            res.content@ == listing(tasks@.map_values(|t: TaskStatus| active_line(t)), "No active tasks found."@, "active task(s)"@),
    {
        let mut lines: Vec<String> = Vec::new();
        for i in 0..tasks.len()
            invariant
                string_views(lines@) == tasks@.take(i as int).map_values(|t: TaskStatus| active_line(t)),
        {
            let t = &tasks[i];
            let mut l = to_owned_string("- ");
            push_str(&mut l, t.id.as_str());
            push_str(&mut l, " | ");
            push_str(&mut l, t.target.as_str());
            push_str(&mut l, " | status: ");
            push_str(&mut l, t.status.as_str());
            push_str(&mut l, " | retries: ");
            let r = i64_to_decimal(t.retry_count);
            push_str(&mut l, r.as_str());
            let ghost base = l@;
            if let Some(f) = &t.last_failure {
                push_str(&mut l, " | last error: ");
                push_str(&mut l, f.as_str());
            }
            assert(l@ =~= base + match t.last_failure {
                Some(f) => " | last error: "@ + f@,
                None => Seq::empty(),
            });
            let ghost prev = lines@;
            lines.push(l);
            assert(string_views(lines@) =~= string_views(prev).push(active_line(*t)));
            assert(tasks@.take(i + 1).map_values(|t: TaskStatus| active_line(t))
                =~= tasks@.take(i as int).map_values(|t: TaskStatus| active_line(t)).push(active_line(*t)));
        }
        assert(tasks@.take(tasks.len() as int) =~= tasks@);
        let text = listing_text(&lines, "No active tasks found.", "active task(s)");
        ToolOutput::new(text.as_str())
    }

    /// The arguments of `get_task_details`: the `task_id` to look up.
    pub fn task_details_schema() -> (res: Json)
        ensures
            res.view_json() == JsonV::Object(seq![
                ("type"@, JsonV::Str("object"@)),
                ("properties"@, JsonV::Object(seq![("task_id"@, typed("string"@, "The unique ID of the task to look up"@))])),
                ("required"@, str_array(seq!["task_id"@])),
            ]),
    {
        let mut props: Vec<(String, Json)> = Vec::new();
        put(&mut props, "task_id", typed_json("string", "The unique ID of the task to look up"));
        let ghost pv = members_view(props@);
        assert(pv =~= seq![("task_id"@, typed("string"@, "The unique ID of the task to look up"@))]);
        let res = object_schema_json(props, Some(super::str_array1("task_id")));
        assert(res.view_json()->Object_0 =~= seq![
            ("type"@, JsonV::Str("object"@)),
            ("properties"@, JsonV::Object(pv)),
            ("required"@, str_array(seq!["task_id"@])),
        ]);
        res
    }

    /// The task `get_task_details` is asked about: a missing or empty
    /// `task_id` fails.
    pub fn task_details_request(args: &Json) -> (res: Result<String, ToolError>)
        ensures
            ({
                let id = match str_of(field(*args, "task_id"@)) { Some(s) => s, None => Seq::empty() };
                &&& id.len() == 0 ==> (res matches Err(e) && e.message@ == "task_id is required"@)
                &&& id.len() > 0 ==> (res matches Ok(t) && t@ == id)
            }),
    {
        let id: String = match as_str(get(args, "task_id")) {
            Some(s) => to_owned_string(s),
            None => String::new(),
        };
        if id.as_str().is_empty() {
            Err(ToolError::new("task_id is required"))
        } else {
            Ok(id)
        }
    }

    /// The answer of `get_task_details`.
    pub fn task_details(task_id: &str, found: &Option<TaskStatus>) -> (res: ToolOutput)
        ensures
            match found {
                Some(t) => res.content@ == details_text(*t),
                None => res.content@ == "Task "@ + task_id@ + " not found"@,
            },
    {
        match found {
            Some(t) => {
                let mut s = to_owned_string("Task ID: ");
                push_str(&mut s, t.id.as_str());
                push_str(&mut s, "\nTarget: ");
                push_str(&mut s, t.target.as_str());
                push_str(&mut s, "\nStatus: ");
                push_str(&mut s, t.status.as_str());
                push_str(&mut s, "\nService: ");
                let a = debug_option(&t.service_name);
                push_str(&mut s, a.as_str());
                push_str(&mut s, "\nKey: ");
                let b = debug_option(&t.service_key);
                push_str(&mut s, b.as_str());
                push_str(&mut s, "\nHandler: ");
                push_str(&mut s, t.handler.as_str());
                push_str(&mut s, "\nRetries: ");
                let r = i64_to_decimal(t.retry_count);
                push_str(&mut s, r.as_str());
                push_str(&mut s, "\nCreated: ");
                let c = debug_option(&t.created_at);
                push_str(&mut s, c.as_str());
                push_str(&mut s, "\nModified: ");
                let m = debug_option(&t.modified_at);
                push_str(&mut s, m.as_str());
                push_str(&mut s, "\nLast Error: ");
                let l = debug_option(&t.last_failure);
                push_str(&mut s, l.as_str());
                ToolOutput::new(s.as_str())
            },
            None => {
                let mut s = to_owned_string("Task ");
                push_str(&mut s, task_id);
                push_str(&mut s, " not found");
                ToolOutput::new(s.as_str())
            },
        }
    }

    /// The answer of `get_system_overview`.
    pub fn system_overview(o: &SystemOverview) -> (res: ToolOutput)
        ensures
            res.content@ == overview_text(*o),
    {
        let mut s = to_owned_string("System Overview:\n- Total active tasks: ");
        push_str(&mut s, i64_to_decimal(o.total_active).as_str());
        push_str(&mut s, "\n- Pending: ");
        push_str(&mut s, i64_to_decimal(o.pending).as_str());
        push_str(&mut s, "\n- Running: ");
        push_str(&mut s, i64_to_decimal(o.running).as_str());
        push_str(&mut s, "\n- Suspended: ");
        push_str(&mut s, i64_to_decimal(o.suspended).as_str());
        push_str(&mut s, "\n- Backing off (retrying): ");
        push_str(&mut s, i64_to_decimal(o.backing_off).as_str());
        push_str(&mut s, "\n- Scheduled for future: ");
        push_str(&mut s, i64_to_decimal(o.scheduled).as_str());
        push_str(&mut s, "\n- Failed recently: ");
        push_str(&mut s, i64_to_decimal(o.failed_recently).as_str());
        ToolOutput::new(s.as_str())
    }

    /// A queued item as the tool sees it.
    pub fn inbox_item(service: &str, key: &str, invocation_id: &str, sequence: i64) -> (res: Json)
        ensures
            res.view_json() == JsonV::Object(seq![
                ("service"@, JsonV::Str(service@)),
                ("key"@, JsonV::Str(key@)),
                ("invocation_id"@, JsonV::Str(invocation_id@)),
                ("sequence"@, JsonV::Number(if sequence >= 0 { JsonNumber::PosInt(sequence as u64) } else { JsonNumber::NegInt(sequence) })),
            ]),
    {
        let n = if sequence >= 0 { JsonNumber::PosInt(sequence as u64) } else { JsonNumber::NegInt(sequence) };
        object4("service", json_str(service), "key", json_str(key), "invocation_id", json_str(invocation_id), "sequence", Json::Number(n))
    }

    /// The answer of `list_pending_queue`.
    pub fn list_pending_queue(items: &Vec<Json>) -> (res: ToolOutput)
        ensures
            res.content@ == listing(items@.map_values(|i: Json| queue_line(i)), "No items in the pending queue."@, "item(s) in pending queue"@),
    {
        let mut lines: Vec<String> = Vec::new();
        for i in 0..items.len()
            invariant
                string_views(lines@) == items@.take(i as int).map_values(|i: Json| queue_line(i)),
        {
            let item = &items[i];
            let mut l = to_owned_string("- ");
            push_str(&mut l, text_of(item, "service").as_str());
            push_str(&mut l, " (");
            push_str(&mut l, text_of(item, "key").as_str());
            push_str(&mut l, "): ");
            push_str(&mut l, text_of(item, "invocation_id").as_str());
            let ghost prev = lines@;
            lines.push(l);
            assert(string_views(lines@) =~= string_views(prev).push(queue_line(*item)));
            assert(items@.take(i + 1).map_values(|i: Json| queue_line(i))
                =~= items@.take(i as int).map_values(|i: Json| queue_line(i)).push(queue_line(*item)));
        }
        assert(items@.take(items.len() as int) =~= items@);
        let text = listing_text(&lines, "No items in the pending queue.", "item(s) in pending queue");
        ToolOutput::new(text.as_str())
    }
}

} // verus!
