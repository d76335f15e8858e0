//! The decisions of a chat session. The session's handlers load the stored
//! turns, call the model, run the pruner and deliver replies; between those
//! steps they ask this module what to do next.
use vstd::prelude::*;

use crate::config::AgentConfig;
use crate::message::{content_or_empty, kind_of_message, turn_from_message, Message};
use crate::pruning::pruner::MessagePruner;
use crate::restate::SendMessageRequest;
use crate::text::{push_str, to_owned_string};
use crate::turn::{same_turn, PlatformOrigin, Turn, TurnKind};

verus! {

/// Where the reply to a turn goes.
#[derive(Debug)]
pub struct PlatformContext {
    pub platform_type: String,
    pub external_chat_id: String,
    pub adapter_key: String,
}

/// The text that forwards a scheduled task's result.
pub open spec fn scheduled_response_text(result: Seq<char>, is_final: bool) -> Seq<char> {
    (if is_final { "📅 Scheduled task completed:\n\n"@ } else { "📅 Scheduled task result:\n\n"@ }) + result
}

/// The text that forwards a scheduled task's result.
pub fn format_scheduled_response(result: &str, is_final: bool) -> (res: String)
    ensures
        res@ == scheduled_response_text(result@, is_final),
{
    let mut out = if is_final {
        to_owned_string("📅 Scheduled task completed:\n\n")
    } else {
        to_owned_string("📅 Scheduled task result:\n\n")
    };
    push_str(&mut out, result);
    out
}

/// The reply text for a model answer: its content, or a note that it had none.
pub open spec fn response_text(m: Message) -> Seq<char> {
    match m.content {
        Some(c) => c@,
        None => "No response content"@,
    }
}

/// The apology sent when the model fails.
pub open spec fn failure_text() -> Seq<char> {
    "Sorry, I encountered an error processing your message."@
}

/// The turn that stores a model answer: of the answer's kind, with its time
/// stamp, and with no origin.
pub open spec fn answer_turn(t: Turn, m: Message) -> bool {
    &&& kind_of_message(t.kind, m)
    &&& t.timestamp == m.timestamp
    &&& t.platform_origin is None
}

/// What the session does with an incoming turn.
#[derive(Debug)]
pub enum MessageAction {
    /// Store `turns` and forward the scheduled result through the adapter.
    Forward { turns: Vec<Turn>, adapter_key: String, request: SendMessageRequest },
    /// Ask the model to answer the conversation `turns`, replying to `target`.
    Respond { turns: Vec<Turn>, target: PlatformContext },
    /// The turn is of a kind the session does not take; nothing happens.
    Ignore,
}

/// What the session does once the model has answered (or failed).
#[derive(Debug)]
pub enum CompletionAction {
    /// The model failed: send the apology, then fail.
    Failed { reply: SendMessageRequest },
    /// Store `turns`, then send the reply.
    Store { turns: Vec<Turn>, reply: SendMessageRequest },
    /// Prune `turns` with the pruner first (dropping the oldest turns beyond
    /// the context window if that fails), then store them and send the reply.
    Prune { turns: Vec<Turn>, reply: SendMessageRequest },
}

/// The conversation `before` with the answer `m` appended, as the action
/// for it leaves it: stored as it is within the soft limit, cut to the last
/// `hard` turns over the hard limit, or handed to the pruner in between.
pub open spec fn answered_as(before: Seq<Turn>, m: Message, hard: int, soft: int, action: CompletionAction) -> bool {
    let n = before.len() + 1;
    match action {
        CompletionAction::Failed { .. } => false,
        CompletionAction::Store { turns: out, .. } => {
            &&& n <= soft || n > hard
            &&& n <= hard ==> out@.len() == n && out@.take(n - 1) == before && answer_turn(out@.last(), m)
            &&& n > hard ==> out@.len() == hard && (hard > 0 ==> answer_turn(out@.last(), m))
        },
        CompletionAction::Prune { turns: out, .. } => {
            &&& soft < n <= hard
            &&& out@.len() == n && out@.take(n - 1) == before
            &&& answer_turn(out@.last(), m)
        },
    }
}

/// The conversation after a prune: what the pruner left, or, when it failed,
/// the conversation cut to its last `window` turns.
pub open spec fn pruned_or_window(turns: Seq<Turn>, pruned: Option<Seq<Turn>>, window: int) -> Seq<Turn> {
    match pruned {
        Some(p) => p,
        None => if turns.len() <= window { turns } else { turns.skip(turns.len() - window) },
    }
}

/// The history stored once an action is carried out (`pruned` is what the
/// pruner left, if it was asked and succeeded); none after a failure.
pub open spec fn stored_after(action: CompletionAction, pruned: Option<Seq<Turn>>, window: int) -> Option<Seq<Turn>> {
    match action {
        CompletionAction::Failed { .. } => None,
        CompletionAction::Store { turns: out, .. } => Some(out@),
        CompletionAction::Prune { turns: out, .. } => Some(pruned_or_window(out@, pruned, window)),
    }
}

/// After a message is answered, the history stored for the conversation
/// never exceeds the hard limit and holds at most one turn more than before;
/// when the conversation with the answer is within both limits, it is stored
/// exactly as it was with the answer appended. (The pruner never lengthens
/// what it is given; see `MessagePruner::conclude`.)
pub proof fn lemma_round_stays_bounded(
    before: Seq<Turn>,
    m: Message,
    hard: int,
    soft: int,
    action: CompletionAction,
    pruned: Option<Seq<Turn>>,
    window: int,
)
    requires
        0 <= window,
        answered_as(before, m, hard, soft, action),
        action is Prune && pruned is Some ==> pruned->0.len() <= action->Prune_turns@.len(),
    ensures
        stored_after(action, pruned, window) is Some,
        stored_after(action, pruned, window)->0.len() <= hard,
        stored_after(action, pruned, window)->0.len() <= before.len() + 1,
        before.len() + 1 <= soft && before.len() + 1 <= hard ==> {
            let s = stored_after(action, pruned, window)->0;
            &&& s.len() == before.len() + 1
            &&& s.take(before.len() as int) == before
            &&& answer_turn(s.last(), m)
        },
{
}

/// The conversation with its oldest turns dropped down to `window` turns.
pub fn fifo_truncate(turns: Vec<Turn>, window: usize) -> (res: Vec<Turn>)
    ensures
        turns.len() <= window ==> res@ == turns@,
        turns.len() > window ==> res@ == turns@.skip(turns.len() - window),
{
    if turns.len() <= window {
        return turns;
    }
    let ghost orig = turns@;
    let excess = turns.len() - window;
    let mut turns = turns;
    let rest = turns.split_off(excess);
    assert(rest@ =~= orig.skip(excess as int));
    rest
}

fn reply_to(target: &PlatformContext, content: String) -> (res: SendMessageRequest)
    ensures
        res.platform_type@ == target.platform_type@,
        res.external_chat_id@ == target.external_chat_id@,
        res.content@ == content@,
{
    SendMessageRequest {
        platform_type: target.platform_type.clone(),
        external_chat_id: target.external_chat_id.clone(),
        content,
    }
}

/// The chat session service.
#[derive(Debug)]
pub struct ChatSessionImpl;

impl ChatSessionImpl {
    /// What to do with `turn` arriving in a conversation holding `stored`: a
    /// turn without an origin cannot be answered (an error); a scheduled
    /// result is appended and forwarded; a user message is appended and goes
    /// to the model; any other kind is ignored.
    pub fn message(turn: &Turn, stored: Vec<Turn>) -> (res: Result<MessageAction, String>)
        ensures
            turn.platform_origin is None ==> (res matches Err(e) && e@ == "Turn missing platform_origin"@),
            turn.platform_origin matches Some(o) ==> match turn.kind {
                TurnKind::ScheduledCompletion { result, is_final, .. } => res matches Ok(MessageAction::Forward { turns, adapter_key, request })
                    && turns@.len() == stored@.len() + 1 && turns@.take(stored@.len() as int) == stored@
                    && same_turn(turns@.last(), *turn)
                    && adapter_key@ == o.adapter_key@
                    && request.platform_type@ == o.platform_type@
                    && request.external_chat_id@ == o.external_chat_id@
                    && request.content@ == scheduled_response_text(result@, is_final),
                TurnKind::UserMessage { .. } => res matches Ok(MessageAction::Respond { turns, target })
                    && turns@.len() == stored@.len() + 1 && turns@.take(stored@.len() as int) == stored@
                    && same_turn(turns@.last(), *turn)
                    && target.platform_type@ == o.platform_type@
                    && target.external_chat_id@ == o.external_chat_id@
                    && target.adapter_key@ == o.adapter_key@,
                _ => res matches Ok(MessageAction::Ignore),
            },
    {
        let origin = match &turn.platform_origin {
            Some(o) => o,
            None => {
                return Err(to_owned_string("Turn missing platform_origin"));
            },
        };
        let ghost before = stored@;
        match &turn.kind {
            TurnKind::ScheduledCompletion { result, is_final, .. } => {
                let mut turns = stored;
                turns.push(turn.clone());
                assert(turns@.take(before.len() as int) =~= before);
                let request = SendMessageRequest {
                    platform_type: origin.platform_type.clone(),
                    external_chat_id: origin.external_chat_id.clone(),
                    content: format_scheduled_response(result.as_str(), *is_final),
                };
                Ok(MessageAction::Forward { turns, adapter_key: origin.adapter_key.clone(), request })
            },
            TurnKind::UserMessage { .. } => {
                let mut turns = stored;
                turns.push(turn.clone());
                assert(turns@.take(before.len() as int) =~= before);
                let target = PlatformContext {
                    platform_type: origin.platform_type.clone(),
                    external_chat_id: origin.external_chat_id.clone(),
                    adapter_key: origin.adapter_key.clone(),
                };
                Ok(MessageAction::Respond { turns, target })
            },
            _ => Ok(MessageAction::Ignore),
        }
    }

    /// The stored history, or an empty JSON array when there is none.
    pub fn history(stored: Option<String>) -> (res: String)
        ensures
            res@ == match stored {
                Some(s) => s@,
                None => "[]"@,
            },
    {
        match stored {
            Some(s) => s,
            None => to_owned_string("[]"),
        }
    }

    /// The history a cleared conversation stores: an empty JSON array.
    pub fn clear() -> (res: String)
        ensures
            res@ == "[]"@,
    {
        to_owned_string("[]")
    }

    /// What to do once the model has answered the conversation `turns`
    /// (`answer` is `None` when it failed): on failure, apologise; otherwise
    /// append the answer as a turn, cut to the hard limit when over it, prune
    /// when over the soft limit, and reply with the answer's text.
    pub fn handle_user_message(target: &PlatformContext, turns: Vec<Turn>, answer: Option<Message>, config: &AgentConfig) -> (res: CompletionAction)
        ensures
            match res {
                CompletionAction::Store { turns: out, .. } => out@.len() <= config.pruning.hard_limit,
                CompletionAction::Prune { turns: out, .. } => out@.len() <= config.pruning.hard_limit,
                CompletionAction::Failed { .. } => true,
            },
            answer matches Some(m) ==> answered_as(turns@, m, config.pruning.hard_limit as int, config.pruning.soft_limit as int, res),
            answer is None ==> (res matches CompletionAction::Failed { reply }
                && reply.platform_type@ == target.platform_type@
                && reply.external_chat_id@ == target.external_chat_id@
                && reply.content@ == failure_text()),
            answer matches Some(m) ==> {
                let n = turns@.len() + 1;
                let hard = config.pruning.hard_limit;
                let soft = config.pruning.soft_limit;
                match res {
                    CompletionAction::Failed { .. } => false,
                    CompletionAction::Store { turns: out, reply } => {
                        &&& reply.platform_type@ == target.platform_type@
                        &&& reply.external_chat_id@ == target.external_chat_id@
                        &&& reply.content@ == response_text(m)
                        &&& n <= soft || n > hard
                        &&& n <= hard ==> out@.len() == n && out@.take(n - 1) == turns@
                                && answer_turn(out@.last(), m)
                        &&& n > hard ==> out@.len() == hard
                                && (hard > 0 ==> answer_turn(out@.last(), m))
                                && forall|i: int| 0 <= i < hard - 1 ==> #[trigger] out@[i] == turns@[n - hard + i]
                    },
                    CompletionAction::Prune { turns: out, reply } => {
                        &&& reply.platform_type@ == target.platform_type@
                        &&& reply.external_chat_id@ == target.external_chat_id@
                        &&& reply.content@ == response_text(m)
                        &&& soft < n <= hard
                        &&& out@.len() == n && out@.take(n - 1) == turns@
                        &&& answer_turn(out@.last(), m)
                    },
                }
            },
    {
        let m = match answer {
            None => {
                let text = to_owned_string("Sorry, I encountered an error processing your message.");
                return CompletionAction::Failed { reply: reply_to(target, text) };
            },
            Some(m) => m,
        };
        let content = match &m.content {
            Some(c) => c.clone(),
            None => to_owned_string("No response content"),
        };
        let reply = reply_to(target, content);
        let ghost before = turns@;
        let mut turns = turns;
        turns.push(turn_from_message(&m));
        assert(turns@.take(before.len() as int) =~= before);
        let hard = config.pruning.hard_limit;
        if MessagePruner::needs_hard_prune(&turns, hard) {
            let ghost full = turns@;
            let cut = MessagePruner::hard_prune(turns, hard);
            assert forall|i: int| 0 <= i < hard - 1 implies #[trigger] cut@[i] == before[full.len() - hard + i] by {
                assert(cut@[i] == full[full.len() - hard + i]);
                assert(full[full.len() - hard + i] == full.take(before.len() as int)[full.len() - hard + i]);
            }
            assert(hard > 0 ==> cut@.last() == full.last());
            CompletionAction::Store { turns: cut, reply }
        } else if turns.len() > config.pruning.soft_limit {
            CompletionAction::Prune { turns, reply }
        } else {
            CompletionAction::Store { turns, reply }
        }
    }

    /// The conversation after an intelligent prune: its result when it
    /// succeeded, else the conversation cut to the context window. A prune
    /// pass never lengthens the conversation (`MessagePruner::conclude`), and
    /// `handle_user_message` only asks for one within the hard limit, so the
    /// conversation stored after pruning stays within the hard limit too.
    pub fn after_prune(turns: Vec<Turn>, pruned: Option<Vec<Turn>>, window: usize) -> (res: Vec<Turn>)
        ensures
            pruned matches Some(p) ==> res@ == p@,
            pruned is None && turns.len() <= window ==> res@ == turns@,
            pruned is None && turns.len() > window ==> res@ == turns@.skip(turns.len() - window),
            (match pruned { Some(p) => p@.len() <= turns@.len(), None => true }) ==> res@.len() <= turns@.len(),
            res@ == pruned_or_window(turns@, match pruned { Some(p) => Some(p@), None => None }, window as int),
    {
        match pruned {
            Some(p) => p,
            None => fifo_truncate(turns, window),
        }
    }
}

} // verus!
