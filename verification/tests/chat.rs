use boomerang::chat::{fifo_truncate, format_scheduled_response, ChatSessionImpl, CompletionAction, MessageAction, PlatformContext};
use boomerang::config::AgentConfig;
use boomerang::message::Message;
use boomerang::turn::{PlatformOrigin, Turn, TurnKind};

fn origin() -> PlatformOrigin {
    PlatformOrigin {
        platform_type: "telegram".to_string(),
        external_chat_id: "42".to_string(),
        adapter_key: "tg".to_string(),
    }
}

fn target() -> PlatformContext {
    PlatformContext { platform_type: "telegram".to_string(), external_chat_id: "42".to_string(), adapter_key: "tg".to_string() }
}

fn turns(n: usize) -> Vec<Turn> {
    (0..n).map(|i| Turn::user_message(&format!("m{}", i))).collect()
}

#[test]
fn scheduled_response_texts() {
    assert_eq!(format_scheduled_response("done", true), "📅 Scheduled task completed:\n\ndone");
    assert_eq!(format_scheduled_response("part", false), "📅 Scheduled task result:\n\npart");
}

#[test]
fn fifo_truncate_keeps_the_newest() {
    let cut = fifo_truncate(turns(5), 2);
    assert_eq!(cut.len(), 2);
    assert_eq!(cut[0].content(), Some("m3"));
    assert_eq!(fifo_truncate(turns(2), 5).len(), 2);
}

#[test]
fn message_without_origin_is_an_error() {
    let r = ChatSessionImpl::message(&Turn::user_message("hi"), vec![]);
    assert_eq!(r.unwrap_err(), "Turn missing platform_origin");
}

#[test]
fn user_message_goes_to_the_model() {
    let turn = Turn::user_message("hi").with_platform_origin(origin());
    match ChatSessionImpl::message(&turn, turns(1)).unwrap() {
        MessageAction::Respond { turns, target } => {
            assert_eq!(turns.len(), 2);
            assert_eq!(turns[1].content(), Some("hi"));
            assert_eq!(target.adapter_key, "tg");
        },
        other => panic!("unexpected {:?}", other),
    }
}

#[test]
fn scheduled_result_is_forwarded() {
    let turn = Turn::scheduled_completion("q", "sunny", true).with_platform_origin(origin());
    match ChatSessionImpl::message(&turn, vec![]).unwrap() {
        MessageAction::Forward { turns, adapter_key, request } => {
            assert_eq!(turns.len(), 1);
            assert_eq!(adapter_key, "tg");
            assert_eq!(request.external_chat_id, "42");
            assert_eq!(request.content, "📅 Scheduled task completed:\n\nsunny");
        },
        other => panic!("unexpected {:?}", other),
    }
}

#[test]
fn other_turns_are_ignored() {
    let turn = Turn::assistant_response("x").with_platform_origin(origin());
    assert!(matches!(ChatSessionImpl::message(&turn, vec![]).unwrap(), MessageAction::Ignore));
}

#[test]
fn history_defaults_to_an_empty_array() {
    assert_eq!(ChatSessionImpl::history(None), "[]");
    assert_eq!(ChatSessionImpl::history(Some("[1]".to_string())), "[1]");
    assert_eq!(ChatSessionImpl::clear(), "[]");
}

#[test]
fn failed_completion_apologises() {
    match ChatSessionImpl::handle_user_message(&target(), turns(1), None, &AgentConfig::default()) {
        CompletionAction::Failed { reply } => {
            assert_eq!(reply.content, "Sorry, I encountered an error processing your message.")
        },
        other => panic!("unexpected {:?}", other),
    }
}

#[test]
fn answer_is_stored_within_the_soft_limit() {
    match ChatSessionImpl::handle_user_message(&target(), turns(3), Some(Message::assistant("hello")), &AgentConfig::default()) {
        CompletionAction::Store { turns, reply } => {
            assert_eq!(turns.len(), 4);
            assert!(matches!(&turns[3].kind, TurnKind::AssistantResponse { content } if content == "hello"));
            assert_eq!(reply.content, "hello");
        },
        other => panic!("unexpected {:?}", other),
    }
}

#[test]
fn answer_over_the_soft_limit_prunes() {
    let config = AgentConfig::default();
    match ChatSessionImpl::handle_user_message(&target(), turns(45), Some(Message::assistant("a")), &config) {
        CompletionAction::Prune { turns, .. } => assert_eq!(turns.len(), 46),
        other => panic!("unexpected {:?}", other),
    }
}

#[test]
fn answer_over_the_hard_limit_cuts() {
    let config = AgentConfig::default();
    match ChatSessionImpl::handle_user_message(&target(), turns(60), Some(Message::assistant("a")), &config) {
        CompletionAction::Store { turns, .. } => {
            assert_eq!(turns.len(), 50);
            assert_eq!(turns[0].content(), Some("m11"));
        },
        other => panic!("unexpected {:?}", other),
    }
}

#[test]
fn after_prune_falls_back_to_the_window() {
    assert_eq!(ChatSessionImpl::after_prune(turns(10), None, 4).len(), 4);
    assert_eq!(ChatSessionImpl::after_prune(turns(10), Some(turns(2)), 4).len(), 2);
}

#[test]
fn a_pruned_round_stays_within_the_hard_limit() {
    let config = AgentConfig::default();
    match ChatSessionImpl::handle_user_message(&target(), turns(48), Some(Message::assistant("a")), &config) {
        CompletionAction::Prune { turns: out, .. } => {
            assert_eq!(out.len(), 49);
            let failed = ChatSessionImpl::after_prune(out, None, 60);
            assert_eq!(failed.len(), 49);
            assert!(failed.len() <= config.pruning.hard_limit);
        },
        other => panic!("unexpected {:?}", other),
    }
}
