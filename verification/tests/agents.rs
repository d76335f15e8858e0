use boomerang::json::{as_array, get, Json};
use boomerang::server::{
    bind_address, execution_url, login, run_execution, AuthUser, Config, CorsConfig, LoginRequest, ServerConfig,
};
use boomerang::tasks::orchestrator::{OrchestratorAgent, OrchestratorStep, SubtaskResult, SubtaskSpec};
use boomerang::tasks::worker::WorkerAgent;
use boomerang::tasks::{AgentOutput, Context, Task};
use boomerang::tools::spawn::SpawnSubtaskTool;

#[test]
fn test_orchestrator_creation() {
    let orchestrator = OrchestratorAgent::new("test-orchestrator");
    assert_eq!(orchestrator.id(), "test-orchestrator");
    assert!(orchestrator.capabilities().contains(&"planning".to_string()));
}

#[test]
fn test_worker_agent_creation() {
    let agent = WorkerAgent::new("test-worker");
    assert_eq!(agent.id(), "test-worker");
    assert!(!agent.capabilities().is_empty());
}

#[test]
fn test_worker_with_custom_capabilities() {
    let agent = WorkerAgent::new("test-worker").with_capabilities(vec!["web_search".to_string()]);
    assert_eq!(agent.capabilities(), &["web_search"]);
}

#[test]
fn orchestrator_without_workers_fails() {
    let orchestrator = OrchestratorAgent::new("o");
    assert_eq!(orchestrator.start(&Context::new()), Err("Orchestrator has no workers configured".to_string()));
}

#[test]
fn orchestrator_plans_until_the_depth_limit() {
    let orchestrator = OrchestratorAgent::new("o").with_workers(vec!["w".to_string()]);
    let top = Context::new();
    assert_eq!(orchestrator.start(&top), Ok(OrchestratorStep::Plan));
    let deep = top.child("a").child("b").child("c");
    assert_eq!(deep.depth, 3);
    assert_eq!(orchestrator.start(&deep), Ok(OrchestratorStep::Direct));
}

#[test]
fn plan_text_takes_the_braced_object() {
    assert_eq!(OrchestratorAgent::plan_text("Plan: {\"a\": 1} done").as_deref(), Some("{\"a\": 1}"));
    assert_eq!(OrchestratorAgent::plan_text("no plan").as_deref(), Some("no plan"));
    assert_eq!(OrchestratorAgent::plan_text("} {"), None);
    let fallback = OrchestratorAgent::fallback_plan();
    assert!(!OrchestratorAgent::decomposes(&fallback));
    assert_eq!(fallback.reasoning, "Failed to parse planning response");
}

#[test]
fn subtask_ids_extend_the_parent() {
    let parent = Task::new("t1", "big job").with_parent("root");
    let spec = SubtaskSpec { id: "s1".to_string(), description: "small job".to_string(), dependencies: vec![] };
    let sub = OrchestratorAgent::subtask(&parent, &spec);
    assert_eq!(sub.id, "t1:s1");
    assert_eq!(sub.description, "small job");
    assert_eq!(sub.parent_task_id.as_deref(), Some("t1"));
}

#[test]
fn aggregation_lists_each_outcome() {
    let task = Task::new("t", "Find facts");
    let results = vec![
        OrchestratorAgent::subtask_result("a".to_string(), Ok(AgentOutput::new("fact A"))),
        OrchestratorAgent::subtask_result("b".to_string(), Err("timeout".to_string())),
    ];
    let prompt = OrchestratorAgent::aggregate(&task, &results);
    assert!(prompt.contains("Original Task: Find facts"));
    assert!(prompt.contains("Subtask 'a': SUCCESS\nResult: fact A\n\nSubtask 'b': FAILED\nError: timeout"));
    let output = OrchestratorAgent::aggregate_output("answer", results);
    assert_eq!(output.result, "answer");
    assert_eq!(output.subtasks_spawned, vec!["a", "b"]);
    assert_eq!(output.artifacts.len(), 1);
    assert_eq!(output.artifacts[0].name, "subtask-a");
    assert_eq!(output.artifacts[0].data, "fact A");
}

#[test]
fn failed_subtask_keeps_its_error() {
    let r: SubtaskResult = OrchestratorAgent::subtask_result("x".to_string(), Err("boom".to_string()));
    assert!(!r.success);
    assert_eq!(r.error.as_deref(), Some("boom"));
    assert!(r.output.is_none());
}

#[test]
fn worker_chat_key_names_the_task() {
    assert_eq!(WorkerAgent::chat_key(&Task::new("abc", "d")), "task:abc");
}

#[test]
fn test_spawn_tool_schema() {
    let tool = SpawnSubtaskTool::new("http://localhost:8080");
    let schema = tool.parameters_schema();
    let properties = get(&schema, "properties");
    assert!(properties.is_some());
    assert!(get(properties.unwrap(), "description").is_some());
    let required = as_array(get(&schema, "required")).unwrap();
    assert!(required.iter().any(|v| matches!(v, Json::Str(s) if s == "description")));
}

#[test]
fn test_spawn_tool_with_context() {
    let tool = SpawnSubtaskTool::new("http://localhost:8080")
        .with_parent_task("parent-123")
        .with_chat_context("chat-456", "adapter-789");
    assert_eq!(tool.parent_task_id, Some("parent-123".to_string()));
    assert_eq!(tool.chat_key, Some("chat-456".to_string()));
    assert_eq!(tool.adapter_key, Some("adapter-789".to_string()));
}

fn cors(origins: &[&str], localhost: Option<bool>) -> CorsConfig {
    CorsConfig { allowed_origins: origins.iter().map(|o| o.to_string()).collect(), allow_all_localhost: localhost }
}

#[test]
fn test_default_cors_allows_localhost() {
    assert!(CorsConfig::default().allows_origin("http://localhost:3000"));
}

#[test]
fn test_default_cors_allows_127_0_0_1() {
    assert!(CorsConfig::default().allows_origin("http://127.0.0.1:8080"));
}

#[test]
fn test_default_cors_rejects_external_origin() {
    assert!(!CorsConfig::default().allows_origin("https://evil.com"));
}

#[test]
fn test_custom_allowed_origins() {
    let config = cors(&["https://example.com"], Some(false));
    assert!(config.allows_origin("https://example.com"));
}

#[test]
fn test_custom_config_rejects_localhost_when_disabled() {
    let config = cors(&["https://example.com"], Some(false));
    assert!(!config.allows_origin("http://localhost:3000"));
}

#[test]
fn test_mixed_config_allows_both_localhost_and_custom() {
    let config = cors(&["https://example.com"], Some(true));
    assert!(config.allows_origin("http://localhost:3000"));
    assert!(config.allows_origin("https://example.com"));
}

#[test]
fn unset_localhost_flag_allows_no_local_origin() {
    assert!(!cors(&[], None).allows_origin("http://localhost:3000"));
}

fn server_config(password: &str) -> Config {
    Config {
        server: ServerConfig { host: "0.0.0.0".to_string(), port: 3000 },
        cors: CorsConfig::default(),
        password: password.to_string(),
        jwt_secret: "secret".to_string(),
    }
}

#[test]
fn login_refuses_a_wrong_password() {
    let config = server_config("right");
    assert_eq!(login(&config, &LoginRequest { password: "wrong".to_string() }).unwrap_err(), 401);
}

#[test]
fn login_signs_a_token_for_the_right_password() {
    let config = server_config("right");
    let token = login(&config, &LoginRequest { password: "right".to_string() }).unwrap().token;
    assert_eq!(token.split('.').count(), 3);
}

#[test]
fn bearer_tokens() {
    assert_eq!(AuthUser::bearer_token(Some("Bearer abc")), Ok("abc".to_string()));
    assert_eq!(AuthUser::bearer_token(Some("Basic abc")), Err(401));
    assert_eq!(AuthUser::bearer_token(None), Err(401));
    assert!(AuthUser::from_request_parts(Ok("t".to_string()), true).is_ok());
    assert_eq!(AuthUser::from_request_parts(Ok("t".to_string()), false).unwrap_err(), 401);
}

#[test]
fn execution_requests() {
    assert_eq!(execution_url("http://r:8080", "k"), "http://r:8080/ScheduledSession/k/run/send/");
    assert_eq!(run_execution(None).unwrap_err(), 500);
    assert_eq!(run_execution(Some(false)).unwrap_err(), 502);
    assert!(run_execution(Some(true)).unwrap().success);
    assert_eq!(bind_address(&ServerConfig { host: "127.0.0.1".to_string(), port: 9 }), "127.0.0.1:9");
}
