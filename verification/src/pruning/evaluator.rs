//! The evaluator asks the model what to do with each prune candidate: this
//! module writes the question and reads the answer.
use vstd::prelude::*;

use super::pruner::{drop_all, drops_for};
use super::{PruneAction, PruneDecision};
use crate::clock::now_utc;
use crate::text::{
    all_ascii, ascii_lower, chars_of, i64_to_decimal, int_decimal, is_alphanumeric, join, nat_decimal,
    push_char, push_str, seq_join, str_eq, string_from_chars, string_views, to_lowercase, to_owned_string,
    u64_to_decimal, unicode_alphanumeric, unicode_lowercase, delimited, span_start, span_end, clip_text, clipped_at,
    clippable_at,
};
use crate::turn::{clone_opt_string, kind_content, Turn, TurnKind};

verus! {

/// The role a turn is shown under.
pub open spec fn role_name(k: TurnKind) -> Seq<char> {
    match k {
        TurnKind::UserMessage { .. } => "User"@,
        TurnKind::AssistantResponse { .. } => "Assistant"@,
        TurnKind::ToolInvocation { .. } => "Assistant"@,
        TurnKind::ToolResult { .. } => "Tool"@,
        TurnKind::SystemPrompt { .. } => "System"@,
        TurnKind::ScheduledCompletion { .. } => "Scheduled"@,
        TurnKind::InjectedContext { .. } => "Context"@,
    }
}

/// The role a turn is shown under.
pub fn turn_role_str(turn: &Turn) -> (res: &'static str)
    ensures
        res@ == role_name(turn.kind),
{
    match &turn.kind {
        TurnKind::UserMessage { .. } => "User",
        TurnKind::AssistantResponse { .. } => "Assistant",
        TurnKind::ToolInvocation { .. } => "Assistant",
        TurnKind::ToolResult { .. } => "Tool",
        TurnKind::SystemPrompt { .. } => "System",
        TurnKind::ScheduledCompletion { .. } => "Scheduled",
        TurnKind::InjectedContext { .. } => "Context",
    }
}

/// Longest a candidate's text is shown, in bytes.
pub const CANDIDATE_TEXT_LIMIT: usize = 500;

/// A candidate's text as shown: up to the limit, then cut at the limit's byte
/// and marked with `...`.
pub open spec fn clipped(s: Seq<char>) -> Seq<char> {
    clipped_at(s, CANDIDATE_TEXT_LIMIT as int)
}

/// The text can be cut at the limit.
pub open spec fn clippable(s: Seq<char>) -> bool {
    clippable_at(s, CANDIDATE_TEXT_LIMIT as int)
}

/// The text shown for a turn: its content, or `[no content]`.
pub open spec fn shown_text(k: TurnKind) -> Seq<char> {
    match kind_content(k) {
        Some(c) => c,
        None => "[no content]"@,
    }
}

/// The line that presents candidate `i`.
pub open spec fn candidate_line(t: Turn, i: usize) -> Seq<char> {
    "[Index "@ + nat_decimal(i as nat) + "] "@ + role_name(t.kind) + ": "@ + clipped(shown_text(t.kind))
}

/// The lines of the candidates that exist, in order.
pub open spec fn candidate_lines(turns: Seq<Turn>, candidates: Seq<usize>) -> Seq<Seq<char>>
    decreases candidates.len(),
{
    if candidates.len() == 0 {
        Seq::empty()
    } else {
        let prev = candidate_lines(turns, candidates.drop_last());
        let i = candidates.last();
        if i < turns.len() { prev.push(candidate_line(turns[i as int], i)) } else { prev }
    }
}

/// Every candidate that exists can be shown.
pub open spec fn candidates_clippable(turns: Seq<Turn>, candidates: Seq<usize>) -> bool {
    forall|k: int| 0 <= k < candidates.len() && candidates[k] < turns.len()
        ==> clippable(shown_text(#[trigger] turns[candidates[k] as int].kind))
}

/// The system prompt of an evaluation.
pub open spec fn evaluator_system_prompt() -> Seq<char> {
    "You are a message pruning assistant. Always respond with valid JSON array."@
}

/// The question put to the model.
pub open spec fn evaluation_prompt(instructions: Seq<char>, chat_key: Seq<char>, turns: Seq<Turn>, candidates: Seq<usize>) -> Seq<char> {
    instructions + "\n\nChat context key: "@ + chat_key + "\n\n---\nMessages to evaluate:\n"@
        + seq_join(candidate_lines(turns, candidates), "\n\n"@)
}

/// An evaluation to put to the model.
#[derive(Debug)]
pub struct EvaluationRequest {
    pub system_prompt: String,
    pub prompt: String,
}

/// A decision as the model wrote it.
#[derive(Debug)]
pub struct RawDecision {
    pub index: usize,
    pub action: String,
    pub memory_key: Option<String>,
    pub reason: String,
}

/// The action a (lower-cased) action name stands for; an unknown name drops.
pub open spec fn action_named(name: Seq<char>) -> PruneAction {
    if name == "persist"@ {
        PruneAction::Persist
    } else if name == "summarize"@ {
        PruneAction::Summarize
    } else if name == "both"@ {
        PruneAction::Both
    } else {
        PruneAction::Drop
    }
}

/// The characters a memory key keeps from a suggestion: letters, digits, `_`
/// and `-`.
pub open spec fn slug_char(c: char) -> bool {
    unicode_alphanumeric(c) || c == '_' || c == '-'
}

/// The kept characters of a suggestion, in order.
pub open spec fn slug_chars(s: Seq<char>) -> Seq<char>
    decreases s.len(),
{
    if s.len() == 0 {
        Seq::empty()
    } else {
        let prev = slug_chars(s.drop_last());
        if slug_char(s.last()) { prev.push(s.last()) } else { prev }
    }
}

/// The slug of a suggested key: its first 50 kept characters, or `context`
/// when none is kept.
pub open spec fn slug(s: Seq<char>) -> Seq<char> {
    let kept = slug_chars(s);
    if kept.len() == 0 {
        "context"@
    } else if kept.len() <= 50 {
        kept
    } else {
        kept.take(50)
    }
}

/// The memory key for a suggestion made at time `secs`:
/// `<chat_key>/context/<secs>_<slug>`.
pub open spec fn memory_key_text(chat_key: Seq<char>, secs: int, suggested: Seq<char>) -> Seq<char> {
    chat_key + "/context/"@ + int_decimal(secs) + "_"@ + slug(suggested)
}

/// The key is the memory key for the suggestion at some moment.
pub open spec fn is_memory_key_for(chat_key: Seq<char>, suggested: Seq<char>, key: Seq<char>) -> bool {
    exists|secs: i64| secs >= 0 && key == memory_key_text(chat_key, secs as int, suggested)
}

/// A memory key made for a conversation lies under that conversation's
/// context: it starts with `<chat_key>/context/`.
pub proof fn lemma_memory_key_prefix(chat_key: Seq<char>, suggested: Seq<char>, key: Seq<char>)
    requires
        is_memory_key_for(chat_key, suggested, key),
    ensures
        key.len() >= chat_key.len() + 9,
        key.take(chat_key.len() + 9int) == chat_key + "/context/"@,
{
    let secs = choose|secs: i64| secs >= 0 && key == memory_key_text(chat_key, secs as int, suggested);
    reveal_strlit("/context/");
    let head = chat_key + "/context/"@;
    assert(key == head + (int_decimal(secs as int) + "_"@ + slug(suggested)));
    assert(key.take(head.len() as int) =~= head);
}

/// The raw decisions for candidates, in order.
pub open spec fn for_candidates(raw: Seq<RawDecision>, candidates: Seq<usize>) -> Seq<RawDecision>
    decreases raw.len(),
{
    if raw.len() == 0 {
        Seq::empty()
    } else {
        let prev = for_candidates(raw.drop_last(), candidates);
        if candidates.contains(raw.last().index) { prev.push(raw.last()) } else { prev }
    }
}

/// The decision read from a raw one, its memory key made at some moment.
pub open spec fn decision_from(chat_key: Seq<char>, raw: RawDecision, d: PruneDecision) -> bool {
    &&& d.index == raw.index
    &&& d.action == action_named(unicode_lowercase(raw.action@))
    &&& d.reason@ == raw.reason@
    &&& match raw.memory_key {
        Some(k) => d.memory_key matches Some(m) && is_memory_key_for(chat_key, k@, m@),
        None => d.memory_key is None,
    }
}

/// The action an action name stands for.
fn action_from_name(name: &str) -> (res: PruneAction)
    ensures
        res == action_named(name@),
{
    if str_eq(name, "persist") {
        PruneAction::Persist
    } else if str_eq(name, "summarize") {
        PruneAction::Summarize
    } else if str_eq(name, "both") {
        PruneAction::Both
    } else {
        PruneAction::Drop
    }
}

/// The line presenting candidate `i`.
fn candidate_text(turn: &Turn, i: usize) -> (res: String)
    requires
        clippable(shown_text(turn.kind)),
    ensures
        res@ == candidate_line(*turn, i),
{
    let role = turn_role_str(turn);
    let content: &str = match turn.content() {
        Some(c) => c,
        None => "[no content]",
    };
    let clipped_text = clip_text(content, CANDIDATE_TEXT_LIMIT);
    let mut line = to_owned_string("[Index ");
    let digits = u64_to_decimal(i as u64);
    push_str(&mut line, digits.as_str());
    push_str(&mut line, "] ");
    push_str(&mut line, role);
    push_str(&mut line, ": ");
    push_str(&mut line, clipped_text.as_str());
    line
}

/// Asks the model about prune candidates.
#[derive(Debug)]
pub struct PruningEvaluator {
    pub chat_key: String,
}

impl PruningEvaluator {
    /// An evaluator for the conversation `chat_key`.
    pub fn new(chat_key: &str) -> (res: Self)
        ensures
            res.chat_key@ == chat_key@,
    {
        PruningEvaluator { chat_key: to_owned_string(chat_key) }
    }

    /// The evaluation for `candidates`, following the model `instructions`:
    /// none for no candidates (nothing is decided); else the fixed system
    /// prompt and a prompt that lists each candidate that exists.
    pub fn evaluation_request(&self, instructions: &str, turns: &Vec<Turn>, candidates: &Vec<usize>) -> (res: Option<EvaluationRequest>)
        requires
            candidates_clippable(turns@, candidates@),
        ensures
            candidates.len() == 0 ==> res is None,
            candidates.len() > 0 ==> (res matches Some(r) && r.system_prompt@ == evaluator_system_prompt()
                && r.prompt@ == evaluation_prompt(instructions@, self.chat_key@, turns@, candidates@)),
    {
        if candidates.len() == 0 {
            return None;
        }
        let mut lines: Vec<String> = Vec::new();
        let ghost cs = candidates@;
        for k in 0..candidates.len()
            invariant
                cs == candidates@,
                candidates_clippable(turns@, cs),
                string_views(lines@) == candidate_lines(turns@, cs.take(k as int)),
        {
            let i = candidates[k];
            let ghost prev = lines@;
            assert(cs.take(k + 1).drop_last() =~= cs.take(k as int));
            if i < turns.len() {
                let line = candidate_text(&turns[i], i);
                lines.push(line);
                assert(string_views(lines@) =~= string_views(prev).push(candidate_line(turns@[i as int], i)));
            }
        }
        assert(cs.take(cs.len() as int) =~= cs);
        let body = join(&lines, "\n\n");
        let mut prompt = to_owned_string(instructions);
        push_str(&mut prompt, "\n\nChat context key: ");
        push_str(&mut prompt, self.chat_key.as_str());
        push_str(&mut prompt, "\n\n---\nMessages to evaluate:\n");
        push_str(&mut prompt, body.as_str());
        Some(EvaluationRequest {
            system_prompt: to_owned_string("You are a message pruning assistant. Always respond with valid JSON array."),
            prompt,
        })
    }

    /// The memory key for a suggestion made at time `secs`.
    pub fn memory_key_at(&self, suggested_key: &str, secs: i64) -> (res: String)
        ensures
            res@ == memory_key_text(self.chat_key@, secs as int, suggested_key@),
    {
        let cs = chars_of(suggested_key);
        let mut kept: Vec<char> = Vec::new();
        for i in 0..cs.len()
            invariant
                cs@ == suggested_key@,
                kept@ == slug_chars(suggested_key@.take(i as int)),
        {
            let c = cs[i];
            let keep = is_alphanumeric(c) || c == '_' || c == '-';
            assert(suggested_key@.take(i + 1).drop_last() =~= suggested_key@.take(i as int));
            if keep {
                kept.push(c);
            }
        }
        assert(suggested_key@.take(cs.len() as int) =~= suggested_key@);
        let mut slug_text: Vec<char> = Vec::new();
        let limit: usize = if kept.len() < 50 { kept.len() } else { 50 };
        for i in 0..limit
            invariant
                limit <= kept.len(),
                slug_text@ == kept@.take(i as int),
        {
            slug_text.push(kept[i]);
            assert(kept@.take(i + 1) =~= kept@.take(i as int).push(kept@[i as int]));
        }
        let mut key = to_owned_string(self.chat_key.as_str());
        push_str(&mut key, "/context/");
        let stamp = i64_to_decimal(secs);
        push_str(&mut key, stamp.as_str());
        push_str(&mut key, "_");
        if kept.len() == 0 {
            push_str(&mut key, "context");
        } else {
            assert(kept.len() <= 50 ==> kept@.take(limit as int) =~= kept@);
            let s = string_from_chars(&slug_text);
            push_str(&mut key, s.as_str());
        }
        key
    }

    /// The memory key for a suggestion, stamped with the current time.
    pub fn normalize_memory_key(&self, suggested_key: &str) -> (res: String)
        ensures
            is_memory_key_for(self.chat_key@, suggested_key@, res@),
    {
        let now = now_utc();
        let key = self.memory_key_at(suggested_key, now.secs);
        assert(now.secs >= 0 && key@ == memory_key_text(self.chat_key@, now.secs as int, suggested_key@));
        key
    }

    /// The part of the model's answer that holds the JSON array: from its
    /// first `[` (or the start) to its last `]` (or the end); none when the
    /// last `]` comes before the first `[`.
    pub fn decision_text(content: &str) -> (res: Option<String>)
        ensures
            span_start(content@, '[') <= span_end(content@, ']') ==> (res matches Some(t)
                && t@ == content@.subrange(span_start(content@, '['), span_end(content@, ']'))),
            span_start(content@, '[') > span_end(content@, ']') ==> res is None,
    {
        delimited(content, '[', ']')
    }

    /// The decisions read from the model's answer, once parsed (`None` when it
    /// did not parse): a failed parse drops every candidate; otherwise each
    /// decision for a candidate is kept in order, its action read from its
    /// lower-cased name (an unknown one drops) and its suggested memory key
    /// turned into a key of this conversation.
    pub fn parse_decisions(&self, parsed: Option<Vec<RawDecision>>, candidates: &Vec<usize>) -> (res: Vec<PruneDecision>)
        ensures
            parsed is None ==> (drops_for(candidates@, "Parse failure, defaulting to drop"@))(res@),
            parsed matches Some(raw) ==> {
                let kept = for_candidates(raw@, candidates@);
                &&& res@.len() == kept.len()
                &&& forall|i: int| 0 <= i < kept.len() ==> decision_from(self.chat_key@, #[trigger] kept[i], res@[i])
            },
    {
        let raw = match parsed {
            None => {
                return drop_all(candidates, "Parse failure, defaulting to drop");
            },
            Some(r) => r,
        };
        let ghost rs = raw@;
        let mut out: Vec<PruneDecision> = Vec::new();
        let ghost mut done: Seq<RawDecision> = Seq::empty();
        for k in 0..raw.len()
            invariant
                rs == raw@,
                done == for_candidates(rs.take(k as int), candidates@),
                out@.len() == done.len(),
                forall|i: int| 0 <= i < out@.len() ==> decision_from(self.chat_key@, done[i], #[trigger] out@[i]),
        {
            let r = &raw[k];
            let ghost prev = done;
            assert(rs.take(k + 1).drop_last() =~= rs.take(k as int));
            let mut listed = false;
            for c in 0..candidates.len()
                invariant
                    listed <==> exists|q: int| 0 <= q < c && candidates@[q] == r.index,
            {
                if candidates[c] == r.index {
                    listed = true;
                }
            }
            assert(listed == candidates@.contains(r.index));
            if listed {
                let lower = to_lowercase(r.action.as_str());
                let action = action_from_name(lower.as_str());
                let memory_key = match &r.memory_key {
                    Some(key) => Some(self.normalize_memory_key(key.as_str())),
                    None => None,
                };
                let d = PruneDecision { index: r.index, action, memory_key, reason: r.reason.clone() };
                assert(decision_from(self.chat_key@, rs[k as int], d));
                out.push(d);
                assert(for_candidates(rs.take(k + 1), candidates@) == prev.push(rs[k as int]));
            }
            proof {
                done = for_candidates(rs.take(k + 1), candidates@);
            }
        }
        assert(rs.take(rs.len() as int) =~= rs);
        out
    }
}

} // verus!
