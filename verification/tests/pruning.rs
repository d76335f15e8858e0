use boomerang::config::PruningConfig;
use boomerang::pruning::evaluator::{PruningEvaluator, RawDecision};
use boomerang::pruning::pruner::{get_chain_indices, MessagePruner, PruneStart};
use boomerang::pruning::scorer::{find_tool_chains, TurnScorer};
use boomerang::pruning::{PruneAction, PruneDecision, ToolChain};
use boomerang::turn::{FunctionCall, ToolCall, ToolCategory, Turn, TurnKind};

fn numbered_turns(n: usize) -> Vec<Turn> {
    (0..n).map(|i| Turn::user_message(&format!("Message {}", i))).collect()
}

fn tool_call_turn(id: &str) -> Turn {
    let call = ToolCall {
        id: id.to_string(),
        tool_type: "function".to_string(),
        function: FunctionCall { name: "web_search".to_string(), arguments: "{}".to_string() },
    };
    Turn::tool_invocation(Some("Let me search".to_string()), vec![call])
}

fn chain_conversation() -> Vec<Turn> {
    vec![
        Turn::user_message("search for X"),
        tool_call_turn("call_123"),
        Turn::tool_result("call_123", "Search results here", ToolCategory::WebSearch),
        Turn::assistant_response("Here's what I found"),
    ]
}

fn user_content(t: &Turn) -> String {
    match &t.kind {
        TurnKind::UserMessage { content } => content.clone(),
        _ => String::new(),
    }
}

#[test]
fn test_hard_prune() {
    let turns = numbered_turns(60);
    let pruned = MessagePruner::hard_prune(turns, 50);
    assert_eq!(pruned.len(), 50);
    if let TurnKind::UserMessage { content } = &pruned[0].kind {
        assert!(content.contains("10"));
    }
}

#[test]
fn test_needs_hard_prune() {
    let turns = numbered_turns(60);
    assert!(MessagePruner::needs_hard_prune(&turns, 50));
    assert!(!MessagePruner::needs_hard_prune(&turns, 70));
}

#[test]
fn hard_prune_keeps_short_conversations_whole() {
    let turns = numbered_turns(3);
    let pruned = MessagePruner::hard_prune(turns, 5);
    assert_eq!(pruned.len(), 3);
    assert_eq!(user_content(&pruned[0]), "Message 0");
    assert_eq!(user_content(&pruned[2]), "Message 2");
}

#[test]
fn hard_prune_keeps_the_last_turns_in_order() {
    let pruned = MessagePruner::hard_prune(numbered_turns(7), 3);
    let texts: Vec<String> = pruned.iter().map(user_content).collect();
    assert_eq!(texts, vec!["Message 4", "Message 5", "Message 6"]);
    assert!(!MessagePruner::needs_hard_prune(&pruned, 3));
}

#[test]
fn test_summary_turns_score_zero() {
    let config = PruningConfig::default();
    let scorer = TurnScorer::new(&config);
    let summary = Turn::summary("This is a summary", (0, 5));
    let scored = scorer.score(&summary, 0, 1234);
    assert_eq!(scored.score, 0);
}

#[test]
fn score_keeps_the_weight_of_ordinary_turns() {
    let scorer = TurnScorer::new(&PruningConfig::default());
    let scored = scorer.score(&Turn::user_message("hello"), 7, 99);
    assert_eq!(scored.index, 7);
    assert_eq!(scored.score, 99);
    assert_eq!(scored.tool_chain_start, None);
}

#[test]
fn test_find_tool_chains() {
    let turns = chain_conversation();
    let chains = find_tool_chains(&turns);
    assert_eq!(chains.len(), 1);
    assert_eq!(chains[0].start_index, 1);
    assert_eq!(chains[0].end_index, 2);
    assert_eq!(chains[0].tool_call_ids, vec!["call_123"]);
}

#[test]
fn tool_chain_stops_at_the_next_invocation() {
    let turns = vec![
        tool_call_turn("a"),
        Turn::tool_result("a", "first", ToolCategory::Unknown),
        tool_call_turn("b"),
        Turn::tool_result("a", "late answer", ToolCategory::Unknown),
        Turn::tool_result("b", "second", ToolCategory::Unknown),
    ];
    let chains = find_tool_chains(&turns);
    assert_eq!(chains.len(), 2);
    assert_eq!((chains[0].start_index, chains[0].end_index), (0, 1));
    assert_eq!((chains[1].start_index, chains[1].end_index), (2, 4));
}

#[test]
fn invocation_without_answer_is_no_chain() {
    let turns = vec![tool_call_turn("a"), Turn::user_message("never mind")];
    assert!(find_tool_chains(&turns).is_empty());
}

#[test]
fn test_tool_chain_unified_scoring() {
    let scorer = TurnScorer::new(&PruningConfig::default());
    let turns = chain_conversation();
    let scored = scorer.score_all(&turns, &vec![10, 20, 35, 40]);
    assert_eq!(scored[1].tool_chain_start, Some(1));
    assert_eq!(scored[2].tool_chain_start, Some(1));
    assert_eq!(scored[1].score, scored[2].score);
    assert_eq!(scored[1].score, 35);
    assert_eq!(scored[0].score, 10);
    assert_eq!(scored[3].score, 40);
    assert_eq!(scored[0].tool_chain_start, None);
}

#[test]
fn select_candidates_orders_by_score_and_skips_chain_mates() {
    let scorer = TurnScorer::new(&PruningConfig::default());
    let turns = chain_conversation();
    let scored = scorer.score_all(&turns, &vec![10, 20, 35, 0]);
    let picked = scorer.select_candidates(&scored, 10);
    assert_eq!(picked, vec![1, 0]);
    let one = scorer.select_candidates(&scored, 1);
    assert_eq!(one, vec![1]);
}

#[test]
fn chain_indices_cover_the_whole_chain() {
    let chains = vec![ToolChain { start_index: 2, end_index: 5, tool_call_ids: vec!["x".to_string()] }];
    assert_eq!(get_chain_indices(3, &chains), vec![2, 3, 4, 5]);
    assert_eq!(get_chain_indices(7, &chains), vec![7]);
}

#[test]
fn test_normalize_memory_key() {
    let evaluator = PruningEvaluator::new("user123");
    let key = evaluator.normalize_memory_key("important user preferences");
    assert!(key.starts_with("user123/context/"));
    assert!(key.contains("important_user_preferences") || key.contains("importantuserpreferences"));
}

#[test]
fn memory_key_at_a_given_time() {
    let evaluator = PruningEvaluator::new("chat-1");
    assert_eq!(evaluator.memory_key_at("Favourite Colour!", 1700000000), "chat-1/context/1700000000_FavouriteColour");
    assert_eq!(evaluator.memory_key_at("!!!", 5), "chat-1/context/5_context");
}

#[test]
fn decision_text_takes_the_bracketed_array() {
    assert_eq!(PruningEvaluator::decision_text("Sure: [1, 2] ok").as_deref(), Some("[1, 2]"));
    assert_eq!(PruningEvaluator::decision_text("] nothing ["), None);
}

fn raw(index: usize, action: &str, key: Option<&str>) -> RawDecision {
    RawDecision { index, action: action.to_string(), memory_key: key.map(|k| k.to_string()), reason: "r".to_string() }
}

#[test]
fn parse_decisions_keeps_only_candidates() {
    let evaluator = PruningEvaluator::new("c");
    let decisions = evaluator.parse_decisions(
        Some(vec![raw(3, "SUMMARIZE", None), raw(9, "drop", None), raw(4, "persist", Some("note"))]),
        &vec![3, 4],
    );
    assert_eq!(decisions.len(), 2);
    assert_eq!(decisions[0].index, 3);
    assert_eq!(decisions[0].action, PruneAction::Summarize);
    assert_eq!(decisions[1].action, PruneAction::Persist);
    assert!(decisions[1].memory_key.as_ref().unwrap().starts_with("c/context/"));
}

#[test]
fn parse_failure_drops_every_candidate() {
    let evaluator = PruningEvaluator::new("c");
    let decisions = evaluator.parse_decisions(None, &vec![1, 2]);
    assert_eq!(decisions.len(), 2);
    assert!(decisions.iter().all(|d| d.action == PruneAction::Drop));
    assert_eq!(decisions[0].reason, "Parse failure, defaulting to drop");
}

#[test]
fn unknown_action_drops() {
    let evaluator = PruningEvaluator::new("c");
    let decisions = evaluator.parse_decisions(Some(vec![raw(1, "archive", None)]), &vec![1]);
    assert_eq!(decisions[0].action, PruneAction::Drop);
}

fn small_config(soft: usize, batch: usize, eval: bool) -> PruningConfig {
    PruningConfig {
        soft_limit: soft,
        hard_limit: 100,
        batch_size: batch,
        max_age_hours_bits: 0,
        enable_memory_persist: eval,
        enable_summarization: eval,
    }
}

#[test]
fn prune_within_the_soft_limit_does_nothing() {
    let pruner = MessagePruner::new("c", small_config(10, 3, true));
    let turns = numbered_turns(5);
    assert!(matches!(pruner.prune(&turns, &vec![1; 5]), PruneStart::WithinLimit));
}

#[test]
fn prune_over_the_limit_sends_candidates() {
    let pruner = MessagePruner::new("c", small_config(4, 10, true));
    let turns = numbered_turns(6);
    match pruner.prune(&turns, &vec![5, 1, 9, 3, 7, 2]) {
        PruneStart::Evaluate(c) => assert_eq!(c, vec![2, 4, 0, 3, 5, 1]),
        other => panic!("unexpected {:?}", other),
    }
}

#[test]
fn prune_without_evaluation_drops_candidates() {
    let pruner = MessagePruner::new("c", small_config(4, 2, false));
    let turns = numbered_turns(6);
    match pruner.prune(&turns, &vec![5, 1, 9, 3, 7, 2]) {
        PruneStart::Decided(ds) => {
            assert_eq!(ds.iter().map(|d| d.index).collect::<Vec<_>>(), vec![2, 4]);
            assert!(ds.iter().all(|d| d.action == PruneAction::Drop && d.reason == "Evaluation disabled"));
        },
        other => panic!("unexpected {:?}", other),
    }
}

#[test]
fn prune_with_only_zero_scores_has_no_candidates() {
    let pruner = MessagePruner::new("c", small_config(2, 2, true));
    let turns = numbered_turns(4);
    assert!(matches!(pruner.prune(&turns, &vec![0; 4]), PruneStart::NoCandidates));
}

fn decision(index: usize, action: PruneAction, key: Option<&str>) -> PruneDecision {
    PruneDecision { index, action, memory_key: key.map(|k| k.to_string()), reason: String::new() }
}

#[test]
fn pruning_one_chain_turn_removes_the_whole_chain() {
    let pruner = MessagePruner::new("c", PruningConfig::default());
    let turns = chain_conversation();
    let plan = pruner.plan_decisions(&turns, &vec![decision(2, PruneAction::Summarize, None)]);
    assert_eq!(plan.remove, vec![false, true, true, false]);
    assert_eq!(plan.summarize, vec![1, 2]);
    assert!(plan.persist.is_empty());
    let kept = pruner.apply_decisions(turns, &plan, None);
    assert_eq!(kept.len(), 2);
    assert!(kept[0].is_user());
    assert!(kept[1].is_assistant());
}

#[test]
fn plan_persists_only_keyed_saving_decisions() {
    let pruner = MessagePruner::new("c", PruningConfig::default());
    let turns = numbered_turns(4);
    let plan = pruner.plan_decisions(&turns, &vec![
        decision(0, PruneAction::Persist, Some("k0")),
        decision(1, PruneAction::Both, None),
        decision(3, PruneAction::Drop, Some("k3")),
    ]);
    assert_eq!(plan.persist, vec![(0, "k0".to_string())]);
    assert_eq!(plan.summarize, vec![1]);
    assert_eq!(plan.remove, vec![true, true, false, true]);
    let writes = pruner.persist_writes(&turns, &plan, true);
    assert_eq!(writes, vec![("k0".to_string(), "Message 0".to_string())]);
    assert!(pruner.persist_writes(&turns, &plan, false).is_empty());
}

#[test]
fn apply_decisions_puts_the_summary_first() {
    let pruner = MessagePruner::new("c", PruningConfig::default());
    let turns = numbered_turns(5);
    let plan = pruner.plan_decisions(&turns, &vec![
        decision(3, PruneAction::Summarize, None),
        decision(1, PruneAction::Summarize, None),
    ]);
    assert_eq!(plan.summarize, vec![1, 3]);
    let messages = pruner.summary_messages(&turns, &plan);
    assert_eq!(messages.len(), 2);
    assert_eq!(messages[0].content.as_deref(), Some("Message 1"));
    let summary = MessagePruner::summary_turn(&plan, Some("two turns".to_string()));
    assert_eq!(summary.summarized_range(), Some((1, 3)));
    let result = pruner.apply_decisions(turns, &plan, Some(summary));
    assert_eq!(result.len(), 4);
    assert!(result[0].is_summary());
    let texts: Vec<String> = result[1..].iter().map(user_content).collect();
    assert_eq!(texts, vec!["Message 0", "Message 2", "Message 4"]);
}

#[test]
fn summary_turns_score_zero_and_are_never_candidates() {
    let scorer = TurnScorer::new(&small_config(2, 5, true));
    let mut turns = numbered_turns(3);
    turns.insert(0, Turn::summary("earlier talk", (0, 4)));
    let scored = scorer.score_all(&turns, &vec![100, 1, 2, 3]);
    assert_eq!(scored[0].score, 0);
    assert_eq!(scored[1].score, 1);
    let pruner = MessagePruner::new("c", small_config(2, 5, true));
    match pruner.prune(&turns, &vec![100, 1, 2, 3]) {
        PruneStart::Evaluate(c) => assert_eq!(c, vec![3, 2, 1]),
        other => panic!("unexpected {:?}", other),
    }
}

#[test]
fn conclude_summarises_only_with_an_answer_and_never_grows() {
    let pruner = MessagePruner::new("c", PruningConfig::default());
    let turns = numbered_turns(5);
    let decisions = vec![decision(1, PruneAction::Summarize, None), decision(3, PruneAction::Drop, None)];
    let plan = pruner.plan_decisions(&turns, &decisions);
    let with = pruner.conclude(numbered_turns(5), &plan, Some(Some("gist".to_string())));
    assert_eq!(with.len(), 4);
    assert!(with[0].is_summary());
    assert_eq!(with[0].summarized_range(), Some((1, 1)));
    let texts: Vec<String> = with[1..].iter().map(user_content).collect();
    assert_eq!(texts, vec!["Message 0", "Message 2", "Message 4"]);
    let without = pruner.conclude(turns, &plan, None);
    assert_eq!(without.iter().map(user_content).collect::<Vec<_>>(), vec!["Message 0", "Message 2", "Message 4"]);
}

#[test]
fn a_chain_ends_at_the_last_answer_before_the_next_call() {
    let turns = vec![
        tool_call_turn("a"),
        Turn::tool_result("a", "first", ToolCategory::WebSearch),
        Turn::assistant_response("between"),
        Turn::tool_result("a", "second", ToolCategory::WebSearch),
        tool_call_turn("b"),
        Turn::tool_result("a", "late", ToolCategory::WebSearch),
        Turn::user_message("no answer to b"),
    ];
    let chains = find_tool_chains(&turns);
    assert_eq!(chains.len(), 1);
    assert_eq!((chains[0].start_index, chains[0].end_index), (0, 3));
    assert_eq!(chains[0].tool_call_ids, vec!["a".to_string()]);
}

#[test]
fn candidates_come_best_first_one_per_chain() {
    let scorer = TurnScorer::new(&small_config(2, 5, true));
    let turns = vec![
        Turn::user_message("q"),
        tool_call_turn("x"),
        Turn::tool_result("x", "r", ToolCategory::WebSearch),
        Turn::user_message("next"),
        Turn::assistant_response("done"),
    ];
    let scored = scorer.score_all(&turns, &vec![4, 1, 8, 6, 2]);
    assert_eq!(scorer.select_candidates(&scored, 5), vec![1, 3, 0, 4]);
    assert_eq!(scorer.select_candidates(&scored, 2), vec![1, 3]);
}
