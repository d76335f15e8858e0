//! A conversation with a model that may call tools: the loop asks the model,
//! runs the tools it asks for and feeds their outputs back until it answers
//! without tool calls. The model and tool calls are made by the caller; this
//! module keeps the conversation and decides each step.
use vstd::prelude::*;

use super::{CompletionResponse, Tool};
use crate::message::{calls_view, clone_calls, Message, MessageMetadata, ToolCall};
use crate::text::{push_str, str_eq, to_owned_string};
use crate::turn::clone_opt_string;

verus! {

/// A tool call the model asked for, and which tool (by position) runs it.
#[derive(Debug)]
pub struct ToolDispatch {
    pub call_id: String,
    pub name: String,
    pub arguments: String,
    /// The first tool with the call's name, if any.
    pub tool: Option<usize>,
}

/// What the loop does after an answer.
#[derive(Debug)]
pub enum SessionStep {
    /// The answer asks for no tools: the loop ends with it.
    Finished,
    /// Run these calls (all of them, in any order) and add their outputs.
    RunTools(Vec<ToolDispatch>),
}

/// The first tool named `name`.
pub open spec fn tool_named(tools: Seq<Tool>, name: Seq<char>) -> Option<int>
    decreases tools.len(),
{
    if tools.len() == 0 {
        None
    } else {
        match tool_named(tools.drop_last(), name) {
            Some(p) => Some(p),
            None => if tools.last().name@ == name { Some(tools.len() - 1) } else { None },
        }
    }
}

/// The same message.
pub open spec fn same_message(a: Message, b: Message) -> bool {
    &&& a.role == b.role
    &&& a.content == b.content
    &&& calls_view(a.tool_calls) == calls_view(b.tool_calls)
    &&& a.tool_call_id == b.tool_call_id
    &&& a.timestamp == b.timestamp
    &&& a.metadata == b.metadata
}

/// A copy of a message.
pub fn clone_message(m: &Message) -> (res: Message)
    ensures
        same_message(res, *m),
{
    Message {
        role: m.role,
        content: clone_opt_string(&m.content),
        tool_calls: match &m.tool_calls {
            Some(c) => Some(clone_calls(c)),
            None => None,
        },
        tool_call_id: clone_opt_string(&m.tool_call_id),
        timestamp: m.timestamp,
        metadata: match &m.metadata {
            Some(md) => Some(md.clone()),
            None => None,
        },
    }
}

/// What a tool call gives back to the model: the tool's output, its error, or
/// a note that no tool has that name.
pub open spec fn tool_output_text(name: Seq<char>, outcome: Option<Result<String, String>>) -> Seq<char> {
    match outcome {
        Some(Ok(r)) => r@,
        Some(Err(e)) => "Error executing tool: "@ + e@,
        None => "Unknown tool: "@ + name,
    }
}

/// A conversation with a model.
#[derive(Debug)]
pub struct Session {
    pub system_prompt: String,
    pub messages: Vec<Message>,
    pub tools: Vec<Tool>,
}

impl Session {
    /// A conversation with the default system prompt, no messages and no tools.
    pub fn new() -> (res: Self)
        ensures
            res.system_prompt@ == "You are a helpful assistant."@,
            res.messages@.len() == 0,
            res.tools@.len() == 0,
    {
        Session { system_prompt: to_owned_string("You are a helpful assistant."), messages: Vec::new(), tools: Vec::new() }
    }

    /// The same conversation with another system prompt.
    pub fn with_system_prompt(self, prompt: &str) -> (res: Self)
        ensures
            res.system_prompt@ == prompt@,
            res.messages == self.messages,
            res.tools == self.tools,
    {
        let mut s = self;
        s.system_prompt = to_owned_string(prompt);
        s
    }

    /// The same conversation offering `tools`.
    pub fn with_tools(self, tools: Vec<Tool>) -> (res: Self)
        ensures
            res.system_prompt == self.system_prompt,
            res.messages == self.messages,
            res.tools == tools,
    {
        let mut s = self;
        s.tools = tools;
        s
    }

    /// Appends a message.
    pub fn add_message(&mut self, message: Message)
        ensures
            final(self).messages@ == old(self).messages@.push(message),
            final(self).system_prompt == old(self).system_prompt,
            final(self).tools == old(self).tools,
    {
        self.messages.push(message);
    }

    /// Appends a user message stamped now.
    pub fn add_user_message(&mut self, content: &str)
        ensures
            final(self).messages@.len() == old(self).messages@.len() + 1,
            final(self).messages@.take(old(self).messages@.len() as int) == old(self).messages@,
            final(self).messages@.last().role == crate::message::MessageRole::User,
            final(self).messages@.last().content matches Some(c) && c@ == content@,
            final(self).system_prompt == old(self).system_prompt,
            final(self).tools == old(self).tools,
    {
        let ghost before = self.messages@;
        self.messages.push(Message::user(content));
        assert(self.messages@.take(before.len() as int) =~= before);
    }

    /// The conversation so far.
    pub fn messages(&self) -> (res: &Vec<Message>)
        ensures
            *res == self.messages,
    {
        &self.messages
    }

    /// Forgets the conversation.
    pub fn clear_messages(&mut self)
        ensures
            final(self).messages@.len() == 0,
            final(self).system_prompt == old(self).system_prompt,
            final(self).tools == old(self).tools,
    {
        self.messages = Vec::new();
    }

    /// The tools to offer with a request: none when there are none.
    pub fn offered_tools(&self) -> (res: Option<&Vec<Tool>>)
        ensures
            self.tools@.len() == 0 ==> res is None,
            self.tools@.len() > 0 ==> res == Some(&self.tools),
    {
        if self.tools.len() == 0 { None } else { Some(&self.tools) }
    }

    /// Takes in the model's answer: it joins the conversation; without tool
    /// calls the loop ends, otherwise each call goes to the first tool with
    /// its name.
    pub fn complete(&mut self, response: &CompletionResponse) -> (res: SessionStep)
        ensures
            final(self).messages@.len() == old(self).messages@.len() + 1,
            final(self).messages@.take(old(self).messages@.len() as int) == old(self).messages@,
            same_message(final(self).messages@.last(), response.message),
            final(self).system_prompt == old(self).system_prompt,
            final(self).tools == old(self).tools,
            match response.message.tool_calls {
                None => res is Finished,
                Some(calls) => res matches SessionStep::RunTools(ds) && ds@.len() == calls@.len()
                    && forall|i: int| 0 <= i < ds@.len() ==> {
                        &&& (#[trigger] ds@[i]).call_id@ == calls@[i].id@
                        &&& ds@[i].name@ == calls@[i].function.name@
                        &&& ds@[i].arguments@ == calls@[i].function.arguments@
                        &&& ds@[i].tool == match tool_named(old(self).tools@, calls@[i].function.name@) {
                            Some(p) => Some(p as usize),
                            None => None::<usize>,
                        }
                    },
            },
    {
        let ghost before = self.messages@;
        self.messages.push(clone_message(&response.message));
        assert(self.messages@.take(before.len() as int) =~= before);
        match &response.message.tool_calls {
            None => SessionStep::Finished,
            Some(calls) => {
                let mut ds: Vec<ToolDispatch> = Vec::new();
                for i in 0..calls.len()
                    invariant
                        ds@.len() == i,
                        forall|k: int| 0 <= k < i ==> {
                            &&& (#[trigger] ds@[k]).call_id@ == calls@[k].id@
                            &&& ds@[k].name@ == calls@[k].function.name@
                            &&& ds@[k].arguments@ == calls@[k].function.arguments@
                            &&& ds@[k].tool == match tool_named(self.tools@, calls@[k].function.name@) {
                                Some(p) => Some(p as usize),
                                None => None::<usize>,
                            }
                        },
                {
                    let c = &calls[i];
                    let tool = self.find_tool(c.function.name.as_str());
                    ds.push(ToolDispatch {
                        call_id: c.id.clone(),
                        name: c.function.name.clone(),
                        arguments: c.function.arguments.clone(),
                        tool,
                    });
                }
                SessionStep::RunTools(ds)
            },
        }
    }

    /// The first tool named `name`.
    fn find_tool(&self, name: &str) -> (res: Option<usize>)
        ensures
            res == match tool_named(self.tools@, name@) {
                Some(p) => Some(p as usize),
                None => None::<usize>,
            },
    {
        let mut i: usize = 0;
        while i < self.tools.len()
            invariant
                i <= self.tools.len(),
                tool_named(self.tools@.take(i as int), name@) is None,
            decreases self.tools.len() - i,
        {
            assert(self.tools@.take(i + 1).drop_last() =~= self.tools@.take(i as int));
            if str_eq(self.tools[i].name.as_str(), name) {
                proof {
                    lemma_tool_named_prefix(self.tools@, name@, i + 1);
                }
                return Some(i);
            }
            i += 1;
        }
        assert(self.tools@.take(self.tools.len() as int) =~= self.tools@);
        None
    }

    /// The message that reports a tool call's `outcome` (`None`: no tool has
    /// its name) to the model.
    pub fn tool_result(call: &ToolDispatch, outcome: Option<Result<String, String>>) -> (res: Message)
        ensures
            res.role == crate::message::MessageRole::Tool,
            res.tool_call_id matches Some(i) && i@ == call.call_id@,
            res.content matches Some(c) && c@ == tool_output_text(call.name@, outcome),
    {
        let ghost given = outcome;
        let text = match outcome {
            Some(Ok(r)) => r,
            Some(Err(e)) => {
                let mut t = to_owned_string("Error executing tool: ");
                push_str(&mut t, e.as_str());
                t
            },
            None => {
                let mut t = to_owned_string("Unknown tool: ");
                push_str(&mut t, call.name.as_str());
                t
            },
        };
        assert(text@ == tool_output_text(call.name@, given));
        Message::tool_result(call.call_id.as_str(), text.as_str())
    }

    /// Appends the tools' outputs, in the order of the calls.
    pub fn add_tool_results(&mut self, results: Vec<Message>)
        ensures
            final(self).messages@ == old(self).messages@ + results@,
            final(self).system_prompt == old(self).system_prompt,
            final(self).tools == old(self).tools,
    {
        let ghost start = self.messages@;
        let ghost rs = results@;
        let mut rest = results;
        let mut i: usize = 0;
        assert(rs.len() == rest.len());
        while rest.len() > 0
            invariant
                rs.len() <= usize::MAX,
                i + rest.len() == rs.len(),
                rest@ == rs.skip(i as int),
                self.messages@ == start + rs.take(i as int),
                self.system_prompt == old(self).system_prompt,
                self.tools == old(self).tools,
            decreases rest.len(),
        {
            let ghost r0 = rest@;
            let m = rest.remove(0);
            assert(m == rs[i as int]) by {
                assert(r0[0] == rs.skip(i as int)[0]);
            }
            assert(rest@ =~= rs.skip(i + 1));
            self.messages.push(m);
            assert(self.messages@ =~= start + rs.take(i + 1));
            i += 1;
        }
        assert(rs.take(rs.len() as int) =~= rs);
    }
}

proof fn lemma_tool_named_prefix(tools: Seq<Tool>, name: Seq<char>, n: int)
    requires
        0 < n <= tools.len(),
        tool_named(tools.take(n - 1), name) is None,
        tools[n - 1].name@ == name,
    ensures
        tool_named(tools, name) == Some(n - 1),
    decreases tools.len() - n,
{
    if n == tools.len() {
        assert(tools.take(n - 1) =~= tools.drop_last());
    } else {
        let init = tools.drop_last();
        assert(init.take(n - 1) =~= tools.take(n - 1));
        lemma_tool_named_prefix(init, name, n);
    }
}

} // verus!
