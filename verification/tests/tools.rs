use boomerang::clock::Timestamp;
use boomerang::json::{get, Json, JsonNumber};
use boomerang::memory::{MemoryEntry, Metadata};
use boomerang::tools::introspection::{IntrospectionTools, ScheduledTask, SystemOverview, TaskStatus};
use boomerang::tools::memory_tools::{DeleteMemoryTool, ListMemoryTool, ReadMemoryTool, SearchMemoryTool, WriteMemoryTool};
use boomerang::tools::registry::{ToolInfo, ToolRegistry};
use boomerang::tools::schedule::ScheduleTool;
use boomerang::tools::{HttpOutcome, ToolError, ToolOutput};

fn obj(members: Vec<(&str, Json)>) -> Json {
    Json::Object(members.into_iter().map(|(k, v)| (k.to_string(), v)).collect())
}

fn s(t: &str) -> Json {
    Json::Str(t.to_string())
}

fn entry(key: &str, content: &str, tags: &[&str]) -> MemoryEntry {
    MemoryEntry {
        key: key.to_string(),
        content: content.to_string(),
        metadata: Some(Metadata { tags: tags.iter().map(|t| t.to_string()).collect(), source: None }),
        created_at: Timestamp { secs: 0, nanos: 0 },
        updated_at: Timestamp { secs: 86400, nanos: 0 },
    }
}

#[test]
fn outputs_and_errors() {
    let o = ToolOutput::new("x").with_metadata(Json::Null);
    assert_eq!(o.content, "x");
    assert!(matches!(o.metadata, Some(Json::Null)));
    assert!(!ToolError::new("a").is_retryable);
    assert!(ToolError::retryable("b").is_retryable);
    assert_eq!(ToolError::new("c").to_text(), "c");
}

fn schedule_tool() -> ScheduleTool {
    ScheduleTool::new(
        "http://ingress".to_string(),
        "chat".to_string(),
        "telegram".to_string(),
        "42".to_string(),
        "tg".to_string(),
    )
}

#[test]
fn schedule_tool_requests() {
    let tool = schedule_tool();
    let empty = tool.execute(&obj(vec![("request", s(""))])).unwrap_err();
    assert_eq!(empty.message, "Request cannot be empty");
    let missing = tool.execute(&obj(vec![])).unwrap_err();
    assert_eq!(missing.message, "Request cannot be empty");
    let r = tool.execute(&obj(vec![("request", s("remind me at 9")), ("recurring", Json::Bool(true))])).unwrap();
    assert_eq!(r.key.len(), 36);
    assert_eq!(r.url, format!("http://ingress/ScheduledSession/{}/run/send", r.key));
    assert!(r.recurring);
    assert!(matches!(get(&r.body, "adapter_key"), Some(Json::Str(a)) if a == "tg"));
    let ok = ScheduleTool::finish(&r, HttpOutcome::Accepted).unwrap();
    assert_eq!(
        ok.content,
        format!("Recurring task scheduled (key: {}). The scheduler will extract the timing and execute accordingly.", r.key)
    );
    let down = ScheduleTool::finish(&r, HttpOutcome::Unreachable("refused".to_string())).unwrap_err();
    assert_eq!(down.message, "Failed to reach Restate: refused");
    let rejected = ScheduleTool::finish(&r, HttpOutcome::Rejected { status: "500".to_string(), body: "oops".to_string() }).unwrap_err();
    assert_eq!(rejected.message, "Restate returned error 500: oops");
}

#[test]
fn memory_write_tool() {
    let tool = WriteMemoryTool;
    assert_eq!(tool.execute(&obj(vec![])).unwrap_err().message, "Missing required parameter: key");
    assert_eq!(tool.execute(&obj(vec![("key", s("k"))])).unwrap_err().message, "Missing required parameter: content");
    let w = tool
        .execute(&obj(vec![("key", s("k")), ("content", s("c")), ("tags", Json::Array(vec![s("a"), Json::Null, s("b")]))]))
        .unwrap();
    assert_eq!(w.metadata.as_ref().unwrap().tags, vec!["a", "b"]);
    let plain = tool.execute(&obj(vec![("key", s("k")), ("content", s("c"))])).unwrap();
    assert!(plain.metadata.is_none());
    assert_eq!(WriteMemoryTool::finish(&w, Ok(())).unwrap().content, "Successfully saved memory entry: k");
    assert_eq!(WriteMemoryTool::finish(&w, Err("disk full".to_string())).unwrap_err().message, "Failed to write memory: disk full");
}

#[test]
fn memory_read_tool() {
    assert_eq!(ReadMemoryTool.execute(&obj(vec![("key", s("k"))])).unwrap(), "k");
    let shown = ReadMemoryTool::finish("k", Ok(Some(entry("k", "body", &["t1", "t2"])))).unwrap().content;
    assert_eq!(
        shown,
        "Key: k\nTags: t1, t2\nCreated: 1970-01-01 00:00:00 UTC\nUpdated: 1970-01-02 00:00:00 UTC\n\nbody"
    );
    assert_eq!(ReadMemoryTool::finish("k", Ok(None)).unwrap().content, "No memory entry found for key: k");
    assert_eq!(ReadMemoryTool::finish("k", Err("io".to_string())).unwrap_err().message, "Failed to read memory: io");
}

#[test]
fn memory_list_tool() {
    assert_eq!(ListMemoryTool.execute(&obj(vec![("prefix", s("notes/"))])), Some("notes/"));
    assert_eq!(ListMemoryTool::finish(Ok(vec![])).unwrap().content, "No memory entries found.");
    assert_eq!(
        ListMemoryTool::finish(Ok(vec!["a".to_string(), "b".to_string()])).unwrap().content,
        "Memory entries (2 total):\na\nb"
    );
}

#[test]
fn memory_search_tool() {
    let r = SearchMemoryTool.execute(&obj(vec![("query", s("rust"))])).unwrap();
    assert_eq!(r.limit, 10);
    let r5 = SearchMemoryTool
        .execute(&obj(vec![("query", s("rust")), ("limit", Json::Number(JsonNumber::PosInt(5)))]))
        .unwrap();
    assert_eq!(r5.limit, 5);
    assert_eq!(
        SearchMemoryTool::finish("rust", Ok(vec![])).unwrap().content,
        "No memory entries found matching query: rust"
    );
    let hits = SearchMemoryTool::finish("rust", Ok(vec![entry("notes", "Rust is fun", &["lang"])])).unwrap().content;
    assert_eq!(hits, "Search results for 'rust':\n\n[1] Key: notes\n    Tags: lang\n    Preview: Rust is fun");
    let long = "x".repeat(250);
    let clipped = SearchMemoryTool::finish("x", Ok(vec![entry("k", &long, &[])])).unwrap().content;
    assert!(clipped.ends_with(&format!("Preview: {}...", "x".repeat(200))));
}

#[test]
fn memory_delete_tool() {
    assert_eq!(DeleteMemoryTool.execute(&obj(vec![])).unwrap_err().message, "Missing required parameter: key");
    assert!(DeleteMemoryTool::finish("k", Ok(())).unwrap().content.contains('k'));
}

fn info(name: &str) -> ToolInfo {
    ToolInfo {
        name: name.to_string(),
        description: format!("{} tool", name),
        parameters_schema: obj(vec![("type", s("object"))]),
        is_read_only: true,
    }
}

#[test]
fn registry_replaces_tools_by_name() {
    let mut registry = ToolRegistry::new();
    assert!(registry.is_empty());
    registry.register(info("a"));
    registry.register(info("b"));
    let mut again = info("a");
    again.description = "newer".to_string();
    registry.register(again);
    assert_eq!(registry.len(), 2);
    assert_eq!(registry.names(), vec!["a", "b"]);
    assert_eq!(registry.get("b"), Some(1));
    assert_eq!(registry.get("c"), None);
    let specs = registry.specs();
    assert_eq!(specs[0].description.as_deref(), Some("newer"));
    assert!(matches!(&specs[0].input_schema[1], (k, Json::Object(p)) if k == "properties" && p.is_empty()));
}

#[test]
fn introspection_listings() {
    assert_eq!(IntrospectionTools::list_scheduled_tasks(&vec![]).content, "No scheduled tasks found.");
    let tasks = vec![ScheduledTask {
        id: "inv1".to_string(),
        target: "svc/run".to_string(),
        status: "scheduled".to_string(),
        scheduled_at: Some("tomorrow".to_string()),
        retry_count: 0,
    }];
    assert_eq!(
        IntrospectionTools::list_scheduled_tasks(&tasks).content,
        "Found 1 scheduled task(s):\n- inv1 | svc/run | scheduled: Some(\"tomorrow\")"
    );
    let status = TaskStatus {
        id: "t".to_string(),
        target: "x".to_string(),
        service_name: None,
        service_key: Some("k".to_string()),
        handler: "run".to_string(),
        status: "running".to_string(),
        retry_count: 2,
        last_failure: None,
        created_at: None,
        modified_at: None,
    };
    let details = IntrospectionTools::task_details("t", &Some(status)).content;
    assert!(details.contains("Service: None\nKey: Some(\"k\")\nHandler: run\nRetries: 2"));
    let overview = SystemOverview {
        total_active: 3,
        pending: 1,
        running: 1,
        suspended: 0,
        backing_off: 1,
        scheduled: 0,
        failed_recently: -1,
    };
    let text = IntrospectionTools::system_overview(&overview).content;
    assert!(text.starts_with("System Overview:\n- Total active tasks: 3"));
    assert!(text.ends_with("- Failed recently: -1"));
}
