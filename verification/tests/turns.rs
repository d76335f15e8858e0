use boomerang::message::{message_from_turn, turn_from_message, Message, MessageRole};
use boomerang::turn::{ContextType, FunctionCall, ToolCall, ToolCategory, Turn, TurnId, TurnKind};

fn search_call() -> ToolCall {
    ToolCall {
        id: "call_123".to_string(),
        tool_type: "function".to_string(),
        function: FunctionCall { name: "web_search".to_string(), arguments: "{}".to_string() },
    }
}

#[test]
fn test_scheduled_completion() {
    let turn = Turn::scheduled_completion("check weather", "It's sunny", false);
    assert!(turn.is_scheduled());
    assert!(!turn.is_user());
}

#[test]
fn test_summary_methods() {
    let turn = Turn::summary("Summary of conversation", (0, 5));
    assert!(turn.is_summary());
    assert_eq!(turn.summarized_range(), Some((0, 5)));
}

#[test]
fn test_tool_calls() {
    let turn = Turn::tool_invocation(Some("Searching...".to_string()), vec![search_call()]);
    assert!(turn.tool_calls().is_some());
    assert_eq!(turn.tool_calls().unwrap().len(), 1);
}

#[test]
fn turn_ids_are_fresh_uuids() {
    let a = TurnId::new();
    let b = TurnId::new();
    assert_eq!(a.0.len(), 36);
    assert_eq!(a.0.chars().nth(14), Some('4'));
    assert_ne!(a, b);
    assert_eq!(a.display_text(), a.0);
}

#[test]
fn turn_accessors() {
    let result = Turn::tool_result("call_9", "42", ToolCategory::Unknown);
    assert!(result.is_tool_result());
    assert_eq!(result.tool_call_id(), Some("call_9"));
    assert_eq!(result.content(), Some("42"));
    assert!(Turn::system_prompt("be nice").is_system());
    assert!(Turn::assistant_response("hi").is_assistant());
    assert_eq!(Turn::user_message("x").summarized_range(), None);
    assert!(Turn::user_message("x").tool_calls().is_none());
}

#[test]
fn turn_becomes_a_provider_message() {
    let user = message_from_turn(&Turn::user_message("Hello"));
    assert_eq!(user.role, MessageRole::User);
    assert_eq!(user.content.as_deref(), Some("Hello"));

    let scheduled = message_from_turn(&Turn::scheduled_completion("q", "done", true));
    assert_eq!(scheduled.role, MessageRole::Assistant);

    let result = message_from_turn(&Turn::tool_result("call_1", "out", ToolCategory::WebSearch));
    assert_eq!(result.role, MessageRole::Tool);
    assert_eq!(result.tool_call_id.as_deref(), Some("call_1"));

    let invocation = message_from_turn(&Turn::tool_invocation(None, vec![search_call()]));
    assert_eq!(invocation.role, MessageRole::Assistant);
    assert_eq!(invocation.tool_calls.as_ref().map(|c| c.len()), Some(1));
}

#[test]
fn tool_result_round_trip_loses_only_its_category() {
    let turn = Turn::tool_result("call_1", "out", ToolCategory::WebSearch);
    let back = turn_from_message(&message_from_turn(&turn));
    match back.kind {
        TurnKind::ToolResult { tool_call_id, tool_category, content } => {
            assert_eq!(tool_call_id, "call_1");
            assert_eq!(tool_category, ToolCategory::Unknown);
            assert_eq!(content, "out");
        },
        other => panic!("unexpected {:?}", other),
    }
    assert_eq!(back.timestamp, turn.timestamp);
}

#[test]
fn user_message_round_trip_keeps_its_text() {
    let m = Message::user("ping");
    let m2 = message_from_turn(&turn_from_message(&m));
    assert_eq!(m2.role, MessageRole::User);
    assert_eq!(m2.content.as_deref(), Some("ping"));
}

#[test]
fn summary_message_carries_its_range() {
    let turn = Turn::summary("s", (2, 7));
    let back = turn_from_message(&message_from_turn(&turn));
    match back.kind {
        TurnKind::InjectedContext { content, context_type: ContextType::Summary { summarized_range } } => {
            assert_eq!(content, "s");
            assert_eq!(summarized_range, (2, 7));
        },
        other => panic!("unexpected {:?}", other),
    }
}
