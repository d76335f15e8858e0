//! Summaries of conversation parts: the request put to the model and the
//! summary message built from its answer.
use vstd::prelude::*;

use crate::clock::now_utc;
use crate::message::{Message, MessageMetadata, MessageRole};
use crate::text::{join, nat_decimal, push_str, seq_join, string_views, to_owned_string, u64_to_decimal};

verus! {

/// The name a message is shown under; a system message is not shown.
pub open spec fn shown_role(r: MessageRole) -> Option<Seq<char>> {
    match r {
        MessageRole::User => Some("User"@),
        MessageRole::Assistant => Some("Assistant"@),
        MessageRole::Tool => Some("Tool"@),
        MessageRole::System => None,
    }
}

/// The lines presenting the messages with text, numbered by position.
pub open spec fn summary_lines(ms: Seq<Message>) -> Seq<Seq<char>>
    decreases ms.len(),
{
    if ms.len() == 0 {
        Seq::empty()
    } else {
        let prev = summary_lines(ms.drop_last());
        let m = ms.last();
        match (shown_role(m.role), m.content) {
            (Some(role), Some(c)) => prev.push("["@ + nat_decimal((ms.len() - 1) as nat) + "] "@ + role + ": "@ + c@),
            _ => prev,
        }
    }
}

/// The request for a summary of `ms`, following the model `instructions`.
pub open spec fn summary_prompt_text(instructions: Seq<char>, ms: Seq<Message>) -> Seq<char> {
    instructions + "\n\n---\nMessages to summarize:\n"@ + seq_join(summary_lines(ms), "\n\n"@)
}

/// Summarises messages with a model.
#[derive(Debug)]
pub struct Summarizer;

impl Summarizer {
    /// The system prompt of a summary.
    pub fn system_prompt() -> (res: String)
        ensures
            res@ == "You are a conversation summarizer. Be concise but preserve key information."@,
    {
        to_owned_string("You are a conversation summarizer. Be concise but preserve key information.")
    }

    /// The request for a summary of `messages`; none when there is nothing to
    /// summarise.
    pub fn summarize(instructions: &str, messages: &Vec<Message>) -> (res: Option<String>)
        ensures
            messages@.len() == 0 ==> res is None,
            messages@.len() > 0 ==> (res matches Some(p) && p@ == summary_prompt_text(instructions@, messages@)),
    {
        if messages.len() == 0 {
            return None;
        }
        let mut lines: Vec<String> = Vec::new();
        for i in 0..messages.len()
            invariant
                string_views(lines@) == summary_lines(messages@.take(i as int)),
        {
            let m = &messages[i];
            let ghost prev = lines@;
            assert(messages@.take(i + 1).drop_last() =~= messages@.take(i as int));
            assert(messages@.take(i + 1).last() == *m);
            let role: Option<&str> = match m.role {
                MessageRole::User => Some("User"),
                MessageRole::Assistant => Some("Assistant"),
                MessageRole::Tool => Some("Tool"),
                MessageRole::System => None,
            };
            match (role, &m.content) {
                (Some(r), Some(c)) => {
                    let mut line = to_owned_string("[");
                    let n = u64_to_decimal(i as u64);
                    push_str(&mut line, n.as_str());
                    push_str(&mut line, "] ");
                    push_str(&mut line, r);
                    push_str(&mut line, ": ");
                    push_str(&mut line, c.as_str());
                    lines.push(line);
                    assert(string_views(lines@) =~= string_views(prev).push(
                        "["@ + nat_decimal(i as nat) + "] "@ + r@ + ": "@ + c@));
                },
                _ => {
                    assert(string_views(lines@) =~= string_views(prev));
                },
            }
        }
        assert(messages@.take(messages.len() as int) =~= messages@);
        let body = join(&lines, "\n\n");
        let mut p = to_owned_string(instructions);
        push_str(&mut p, "\n\n---\nMessages to summarize:\n");
        push_str(&mut p, body.as_str());
        Some(p)
    }

    /// The summary of no messages.
    pub fn empty_summary() -> (res: Message)
        ensures
            res.role == MessageRole::Assistant,
            res.content matches Some(c) && c@ == "No messages to summarize."@,
            res.metadata == Some(MessageMetadata { is_summary: true, summarized_range: Some((0usize, 0usize)), persisted_key: None }),
    {
        Message::summary("No messages to summarize.", (0, 0))
    }

    /// The summary message for `count` messages from the model's answer: its
    /// text (empty when none), marked as a summary of positions `0` to
    /// `count - 1` (`0` when there were none), stamped now.
    pub fn summary_message(answer: Option<String>, count: usize) -> (res: Message)
        ensures
            res.role == MessageRole::Assistant,
            res.content matches Some(c) && c@ == match answer { Some(a) => a@, None => Seq::<char>::empty() },
            res.tool_calls is None && res.tool_call_id is None,
            res.metadata == Some(MessageMetadata {
                is_summary: true,
                summarized_range: Some((0usize, if count == 0 { 0usize } else { (count - 1) as usize })),
                persisted_key: None,
            }),
    {
        let content = match answer {
            Some(a) => a,
            None => String::new(),
        };
        Message {
            role: MessageRole::Assistant,
            content: Some(content),
            tool_calls: None,
            tool_call_id: None,
            timestamp: now_utc(),
            metadata: Some(MessageMetadata {
                is_summary: true,
                summarized_range: Some((0, count.saturating_sub(1))),
                persisted_key: None,
            }),
        }
    }
}

} // verus!
