//! The OpenRouter chat completions API: the request a conversation becomes,
//! the answer read back, and the answer assembled from a stream of deltas.
//! The HTTP exchange itself happens in the caller.
use vstd::prelude::*;

use super::openai::{answer_is, answer_message, call_view, function_call, opt_view, read_usage, streamed_content, sv, usage_of};
use super::{bearer_ok, provider_settings, CompletionResponse, ProviderError, ProviderSettings, Tool};
use crate::json::{
    array_of, as_array, as_str, as_u64, clone_members, elements_view, field, get, json_str, lemma_array_view,
    lemma_object_view, members_view, object2, object3, put, str_of, u64_of, Json, JsonV,
};
use crate::message::{FunctionCall, Message, MessageRole, ToolCall, Usage};
use crate::text::{chars_of, push_str, str_eq, to_owned_string};

verus! {

/// `{"role": role, "content": content}`.
pub open spec fn chat_item(role: Seq<char>, content: Seq<char>) -> JsonV {
    JsonV::Object(seq![("role"@, sv(role)), ("content"@, sv(content))])
}

/// A tool call of the assistant as the API takes it.
pub open spec fn call_json(tc: ToolCall) -> JsonV {
    JsonV::Object(seq![
        ("id"@, sv(tc.id@)),
        ("type"@, sv("function"@)),
        ("function"@, JsonV::Object(seq![("name"@, sv(tc.function.name@)), ("arguments"@, sv(tc.function.arguments@))])),
    ])
}

/// The chat message for one message of the conversation: system and user
/// texts as they are; the assistant with its text and tool calls when it has
/// them; a tool's output with its call id; nothing for a system or user
/// message without text, or a tool output missing either.
pub open spec fn chat_items(m: Message) -> Seq<JsonV> {
    match m.role {
        MessageRole::System => match m.content {
            Some(c) => seq![chat_item("system"@, c@)],
            None => Seq::empty(),
        },
        MessageRole::User => match m.content {
            Some(c) => seq![chat_item("user"@, c@)],
            None => Seq::empty(),
        },
        MessageRole::Assistant => seq![JsonV::Object(
            seq![("role"@, sv("assistant"@))]
                + (match m.content {
                    Some(c) => seq![("content"@, sv(c@))],
                    None => Seq::empty(),
                })
                + (match m.tool_calls {
                    Some(calls) => seq![("tool_calls"@, JsonV::Array(calls@.map_values(|tc: ToolCall| call_json(tc))))],
                    None => Seq::empty(),
                }),
        )],
        MessageRole::Tool => match (m.content, m.tool_call_id) {
            (Some(c), Some(id)) => seq![JsonV::Object(seq![
                ("role"@, sv("tool"@)),
                ("tool_call_id"@, sv(id@)),
                ("content"@, sv(c@)),
            ])],
            _ => Seq::empty(),
        },
    }
}

/// The chat messages of a conversation, in order.
pub open spec fn chat_messages(ms: Seq<Message>) -> Seq<JsonV>
    decreases ms.len(),
{
    if ms.len() == 0 {
        Seq::empty()
    } else {
        chat_messages(ms.drop_last()) + chat_items(ms.last())
    }
}

/// How a tool is offered to the model.
pub open spec fn offered_tool(t: Tool) -> JsonV {
    JsonV::Object(seq![
        ("type"@, sv("function"@)),
        ("function"@, JsonV::Object(seq![
            ("name"@, sv(t.name@)),
            ("description"@, sv(match t.description { Some(d) => d@, None => Seq::empty() })),
            ("parameters"@, JsonV::Object(members_view(t.input_schema@))),
        ])),
    ])
}

/// The request body for a conversation: the system prompt first when it is
/// not empty, then the conversation; the tools when there are any.
pub open spec fn chat_payload(model: Seq<char>, system_prompt: Seq<char>, ms: Seq<Message>, tools: Option<Seq<Tool>>, stream: bool) -> JsonV {
    JsonV::Object(
        seq![
            ("model"@, sv(model)),
            ("messages"@, JsonV::Array(
                (if system_prompt.len() > 0 { seq![chat_item("system"@, system_prompt)] } else { Seq::empty() })
                    + chat_messages(ms))),
            ("stream"@, JsonV::Bool(stream)),
        ] + match tools {
            Some(ts) => if ts.len() > 0 {
                seq![("tools"@, JsonV::Array(ts.map_values(|t: Tool| offered_tool(t)))), ("tool_choice"@, sv("auto"@))]
            } else {
                Seq::empty()
            },
            None => Seq::empty(),
        },
    )
}

/// The tool call an entry of `tool_calls` stands for, if it names its id,
/// function name and arguments.
pub open spec fn listed_call(tc: Json) -> Option<(Seq<char>, Seq<char>, Seq<char>)> {
    match (str_of(field(tc, "id"@)), field(tc, "function"@)) {
        (Some(id), Some(f)) => match (str_of(field(f, "name"@)), str_of(field(f, "arguments"@))) {
            (Some(n), Some(a)) => Some((id, n, a)),
            _ => None,
        },
        _ => None,
    }
}

/// The tool calls of an answer's message, in order.
pub open spec fn listed_calls(arr: Seq<Json>) -> Seq<(Seq<char>, Seq<char>, Seq<char>)>
    decreases arr.len(),
{
    if arr.len() == 0 {
        Seq::empty()
    } else {
        let prev = listed_calls(arr.drop_last());
        match listed_call(arr.last()) {
            Some(c) => prev.push(c),
            None => prev,
        }
    }
}

/// Lexicographic order of texts by code point (the order of `String`).
pub open spec fn text_lt(a: Seq<char>, b: Seq<char>) -> bool
    decreases a.len(),
{
    if a.len() == 0 {
        b.len() > 0
    } else if b.len() == 0 {
        false
    } else if a[0] != b[0] {
        (a[0] as u32) < (b[0] as u32)
    } else {
        text_lt(a.skip(1), b.skip(1))
    }
}

/// Inserts a call after every call whose id is not greater.
pub open spec fn ins_by_id(s: Seq<(Seq<char>, Seq<char>, Seq<char>)>, x: (Seq<char>, Seq<char>, Seq<char>)) -> Seq<(Seq<char>, Seq<char>, Seq<char>)>
    decreases s.len(),
{
    if s.len() == 0 {
        seq![x]
    } else if !text_lt(x.0, s.last().0) {
        s.push(x)
    } else {
        ins_by_id(s.drop_last(), x).push(s.last())
    }
}

/// Stable sort of calls by id.
pub open spec fn sort_by_id(s: Seq<(Seq<char>, Seq<char>, Seq<char>)>) -> Seq<(Seq<char>, Seq<char>, Seq<char>)>
    decreases s.len(),
{
    if s.len() == 0 {
        s
    } else {
        ins_by_id(sort_by_id(s.drop_last()), s.last())
    }
}

/// The position of the call being assembled under `index`.
pub open spec fn entry_pos(entries: Seq<(usize, (Seq<char>, Seq<char>, Seq<char>))>, index: usize) -> Option<int>
    decreases entries.len(),
{
    if entries.len() == 0 {
        None
    } else if entries.last().0 == index {
        Some(entries.len() - 1)
    } else {
        entry_pos(entries.drop_last(), index)
    }
}

/// The text a string member holds, or nothing.
pub open spec fn text_or_empty(v: Option<Json>, key: Seq<char>) -> Seq<char> {
    match v {
        Some(j) => match str_of(field(j, key)) {
            Some(t) => t,
            None => Seq::empty(),
        },
        None => Seq::empty(),
    }
}

/// The calls being assembled after one tool-call delta: the call under the
/// delta's index (zero when missing) is created empty if new; an id replaces
/// its id; name and argument pieces are appended.
pub open spec fn apply_delta(entries: Seq<(usize, (Seq<char>, Seq<char>, Seq<char>))>, tc: Json) -> Seq<(usize, (Seq<char>, Seq<char>, Seq<char>))> {
    let index = (match u64_of(field(tc, "index"@)) { Some(n) => n, None => 0 }) as usize;
    let pos = entry_pos(entries, index);
    let base = match pos {
        Some(p) => entries[p].1,
        None => (Seq::empty(), Seq::empty(), Seq::empty()),
    };
    let f = field(tc, "function"@);
    let call = (
        match str_of(field(tc, "id"@)) { Some(i) => i, None => base.0 },
        base.1 + text_or_empty(f, "name"@),
        base.2 + text_or_empty(f, "arguments"@),
    );
    match pos {
        Some(p) => entries.update(p, (index, call)),
        None => entries.push((index, call)),
    }
}

/// The calls being assembled after a list of tool-call deltas.
pub open spec fn apply_deltas(entries: Seq<(usize, (Seq<char>, Seq<char>, Seq<char>))>, tcs: Seq<Json>) -> Seq<(usize, (Seq<char>, Seq<char>, Seq<char>))>
    decreases tcs.len(),
{
    if tcs.len() == 0 {
        entries
    } else {
        apply_delta(apply_deltas(entries, tcs.drop_last()), tcs.last())
    }
}

/// What a stream has assembled: text, calls by index, token counts.
pub struct StreamModel {
    pub content: Seq<char>,
    pub entries: Seq<(usize, (Seq<char>, Seq<char>, Seq<char>))>,
    pub usage: Usage,
}

/// The state after one choice of an event: its delta's text appended and its
/// tool-call deltas applied; when the choice has a finish reason and the
/// event reports usage, the counts taken from the event.
pub open spec fn apply_choice(s: StreamModel, choice: Json, chunk: Json) -> StreamModel {
    let delta = field(choice, "delta"@);
    let s1 = match delta {
        Some(d) => StreamModel {
            content: s.content + text_or_empty(delta, "content"@),
            entries: match array_of(field(d, "tool_calls"@)) {
                Some(tcs) => apply_deltas(s.entries, tcs),
                None => s.entries,
            },
            usage: s.usage,
        },
        None => s,
    };
    if str_of(field(choice, "finish_reason"@)) is Some && field(chunk, "usage"@) is Some {
        StreamModel { usage: usage_of(chunk, "prompt_tokens"@, "completion_tokens"@), ..s1 }
    } else {
        s1
    }
}

/// The state after the choices of an event.
pub open spec fn apply_choices(s: StreamModel, choices: Seq<Json>, chunk: Json) -> StreamModel
    decreases choices.len(),
{
    if choices.len() == 0 {
        s
    } else {
        apply_choice(apply_choices(s, choices.drop_last(), chunk), choices.last(), chunk)
    }
}

/// The calls assembled, without their indices.
pub open spec fn entry_calls(entries: Seq<(usize, (Seq<char>, Seq<char>, Seq<char>))>) -> Seq<(Seq<char>, Seq<char>, Seq<char>)> {
    entries.map_values(|e: (usize, (Seq<char>, Seq<char>, Seq<char>))| e.1)
}

/// A model reached through OpenRouter.
#[derive(Debug)]
pub struct OpenRouterProvider {
    pub settings: ProviderSettings,
}

/// What a stream has delivered so far.
#[derive(Debug)]
pub struct OpenRouterStreamState {
    pub content: String,
    pub tool_calls: Vec<(usize, ToolCall)>,
    pub usage: Usage,
}

/// The model of a stream state.
pub open spec fn stream_model(s: OpenRouterStreamState) -> StreamModel {
    StreamModel {
        content: s.content@,
        entries: s.tool_calls@.map_values(|e: (usize, ToolCall)| (e.0, call_view(e.1))),
        usage: s.usage,
    }
}

/// Every assembled call is typed `function`.
pub open spec fn typed_function(v: Seq<(usize, ToolCall)>) -> bool {
    forall|k: int| 0 <= k < v.len() ==> (#[trigger] v[k]).1.tool_type@ == "function"@
}

fn push_item(items: &mut Vec<Json>, item: Json)
    ensures
        elements_view(final(items)@) == elements_view(old(items)@).push(item.view_json()),
{
    items.push(item);
    assert(elements_view(items@) =~= elements_view(old(items)@).push(item.view_json()));
}

fn push_chat_items(items: &mut Vec<Json>, m: &Message)
    ensures
        elements_view(final(items)@) == elements_view(old(items)@) + chat_items(*m),
{
    let ghost start = elements_view(items@);
    match m.role {
        MessageRole::System => {
            if let Some(c) = &m.content {
                push_item(items, object2("role", json_str("system"), "content", json_str(c.as_str())));
            }
        },
        MessageRole::User => {
            if let Some(c) = &m.content {
                push_item(items, object2("role", json_str("user"), "content", json_str(c.as_str())));
            }
        },
        MessageRole::Assistant => {
            let mut obj: Vec<(String, Json)> = Vec::new();
            put(&mut obj, "role", json_str("assistant"));
            assert(members_view(obj@) =~= seq![("role"@, sv("assistant"@))]);
            let ghost m0 = members_view(obj@);
            if let Some(c) = &m.content {
                put(&mut obj, "content", json_str(c.as_str()));
                assert(members_view(obj@) =~= m0.push(("content"@, sv(c@))));
            }
            let ghost m1 = members_view(obj@);
            if let Some(calls) = &m.tool_calls {
                let mut arr: Vec<Json> = Vec::new();
                for i in 0..calls.len()
                    invariant
                        elements_view(arr@) == calls@.take(i as int).map_values(|tc: ToolCall| call_json(tc)),
                {
                    let tc = &calls[i];
                    let f = object2("name", json_str(tc.function.name.as_str()), "arguments", json_str(tc.function.arguments.as_str()));
                    push_item(&mut arr, object3("id", json_str(tc.id.as_str()), "type", json_str("function"), "function", f));
                    assert(calls@.take(i + 1).map_values(|tc: ToolCall| call_json(tc))
                        =~= calls@.take(i as int).map_values(|tc: ToolCall| call_json(tc)).push(call_json(calls@[i as int])));
                }
                assert(calls@.take(calls.len() as int) =~= calls@);
                proof {
                    lemma_array_view(arr);
                }
                put(&mut obj, "tool_calls", Json::Array(arr));
                assert(members_view(obj@) =~= m1.push(("tool_calls"@, JsonV::Array(calls@.map_values(|tc: ToolCall| call_json(tc))))));
            }
            proof {
                lemma_object_view(obj);
            }
            let o = Json::Object(obj);
            assert(o.view_json()->Object_0 =~= chat_items(*m)[0]->Object_0);
            push_item(items, o);
        },
        MessageRole::Tool => {
            match (&m.content, &m.tool_call_id) {
                (Some(c), Some(id)) => {
                    push_item(items, object3(
                        "role", json_str("tool"),
                        "tool_call_id", json_str(id.as_str()),
                        "content", json_str(c.as_str()),
                    ));
                },
                _ => {},
            }
        },
    }
    assert(elements_view(items@) =~= start + chat_items(*m));
}

fn offered_tool_json(t: &Tool) -> (res: Json)
    ensures
        res.view_json() == offered_tool(*t),
{
    let desc = match &t.description {
        Some(d) => json_str(d.as_str()),
        None => Json::Str(String::new()),
    };
    assert(desc.view_json() == sv(match t.description { Some(d) => d@, None => Seq::empty() }));
    let schema = clone_members(&t.input_schema);
    proof {
        lemma_object_view(schema);
    }
    let params = Json::Object(schema);
    let name = json_str(t.name.as_str());
    let f = object3("name", name, "description", desc, "parameters", params);
    assert(f.view_json()->Object_0 =~= seq![
        ("name"@, sv(t.name@)),
        ("description"@, sv(match t.description { Some(d) => d@, None => Seq::empty() })),
        ("parameters"@, JsonV::Object(members_view(t.input_schema@))),
    ]);
    let res = object2("type", json_str("function"), "function", f);
    assert(res.view_json()->Object_0 =~= offered_tool(*t)->Object_0);
    res
}

/// Whether `a` comes before `b` in the order of `String`.
fn text_less(a: &str, b: &str) -> (res: bool)
    ensures
        res == text_lt(a@, b@),
{
    let av = chars_of(a);
    let bv = chars_of(b);
    let mut i: usize = 0;
    assert(a@.skip(0) =~= a@ && b@.skip(0) =~= b@);
    while i < av.len() && i < bv.len() && av[i] == bv[i]
        invariant
            av@ == a@,
            bv@ == b@,
            i <= av.len() && i <= bv.len(),
            forall|k: int| 0 <= k < i ==> av@[k] == bv@[k],
            text_lt(a@, b@) == text_lt(a@.skip(i as int), b@.skip(i as int)),
        decreases av.len() - i,
    {
        assert(a@.skip(i as int).skip(1) =~= a@.skip(i + 1));
        assert(b@.skip(i as int).skip(1) =~= b@.skip(i + 1));
        i += 1;
    }
    if i == av.len() {
        i < bv.len()
    } else if i == bv.len() {
        false
    } else {
        (av[i] as u32) < (bv[i] as u32)
    }
}

proof fn lemma_ins_by_id_split(s: Seq<(Seq<char>, Seq<char>, Seq<char>)>, x: (Seq<char>, Seq<char>, Seq<char>), j: int)
    requires
        0 <= j <= s.len(),
        forall|k: int| j <= k < s.len() ==> text_lt(x.0, (#[trigger] s[k]).0),
        j == 0 || !text_lt(x.0, s[j - 1].0),
    ensures
        ins_by_id(s, x) == s.take(j).push(x) + s.skip(j),
    decreases s.len(),
{
    if s.len() == 0 {
        assert(s.take(j).push(x) + s.skip(j) =~= seq![x]);
    } else if !text_lt(x.0, s.last().0) {
        assert(j == s.len());
        assert(s.take(j).push(x) + s.skip(j) =~= s.push(x));
    } else {
        let init = s.drop_last();
        assert(j < s.len());
        assert forall|k: int| j <= k < init.len() implies text_lt(x.0, (#[trigger] init[k]).0) by {
            assert(init[k] == s[k]);
        }
        lemma_ins_by_id_split(init, x, j);
        assert(init.take(j).push(x) + init.skip(j) + seq![s.last()] =~= s.take(j).push(x) + s.skip(j));
    }
}

fn insert_by_id(v: &mut Vec<ToolCall>, x: ToolCall)
    ensures
        final(v)@.map_values(|tc: ToolCall| call_view(tc)) == ins_by_id(old(v)@.map_values(|tc: ToolCall| call_view(tc)), call_view(x)),
        forall|k: int| 0 <= k < final(v)@.len() ==> (#[trigger] final(v)@[k] == x || old(v)@.contains(final(v)@[k])),
        final(v)@.len() == old(v)@.len() + 1,
{
    let ghost ov = v@.map_values(|tc: ToolCall| call_view(tc));
    let mut j = v.len();
    while j > 0 && text_less(x.id.as_str(), v[j - 1].id.as_str())
        invariant
            j <= v.len(),
            v@ == old(v)@,
            ov == old(v)@.map_values(|tc: ToolCall| call_view(tc)),
            forall|k: int| j <= k < v.len() ==> text_lt(x.id@, (#[trigger] v@[k]).id@),
        decreases j,
    {
        j -= 1;
    }
    proof {
        assert forall|k: int| j <= k < ov.len() implies text_lt(call_view(x).0, (#[trigger] ov[k]).0) by {
            assert(ov[k] == call_view(v@[k]));
        }
        if j > 0 {
            assert(ov[j - 1] == call_view(v@[j - 1]));
        }
        lemma_ins_by_id_split(ov, call_view(x), j as int);
    }
    let ghost o = v@;
    v.insert(j, x);
    assert(v@.map_values(|tc: ToolCall| call_view(tc)) =~= ov.take(j as int).push(call_view(x)) + ov.skip(j as int));
    assert forall|k: int| 0 <= k < v@.len() implies (#[trigger] v@[k] == x || o.contains(v@[k])) by {
        if k < j {
            assert(v@[k] == o[k]);
        } else if k > j {
            assert(v@[k] == o[k - 1]);
        }
    }
}

impl OpenRouterProvider {
    /// A provider for `model`, authorised by `api_key`.
    pub fn new(model: &str, api_key: &str) -> (res: Result<Self, String>)
        ensures
            match res {
                Ok(p) => p.settings.model@ == model@ && p.settings.authorization@ == "Bearer "@ + api_key@,
                Err(e) => e@ == "failed to parse header value"@,
            },
            res is Ok <==> bearer_ok(api_key@),
    {
        match provider_settings(model, api_key) {
            Ok(settings) => Ok(OpenRouterProvider { settings }),
            Err(e) => Err(e),
        }
    }

    /// The model's name.
    pub fn model_name(&self) -> (res: &str)
        ensures
            res@ == self.settings.model@,
    {
        self.settings.model.as_str()
    }

    /// Answers can be streamed.
    pub fn supports_streaming(&self) -> (res: bool)
        ensures
            res,
    {
        true
    }

    /// The requests of the chat completions API go here.
    pub fn endpoint() -> (res: &'static str)
        ensures
            res@ == "https://openrouter.ai/api/v1/chat/completions"@,
    {
        "https://openrouter.ai/api/v1/chat/completions"
    }

    /// The request body for a conversation.
    pub fn create_request_payload(&self, system_prompt: &str, messages: &Vec<Message>, tools: Option<&Vec<Tool>>, stream: bool) -> (res: Json)
        ensures
            res.view_json() == chat_payload(self.settings.model@, system_prompt@, messages@,
                match tools { Some(t) => Some(t@), None => None }, stream),
    {
        let mut items: Vec<Json> = Vec::new();
        if !system_prompt.is_empty() {
            push_item(&mut items, object2("role", json_str("system"), "content", json_str(system_prompt)));
        }
        let ghost lead = elements_view(items@);
        assert(lead =~= (if system_prompt@.len() > 0 { seq![chat_item("system"@, system_prompt@)] } else { Seq::empty() }));
        for i in 0..messages.len()
            invariant
                elements_view(items@) == lead + chat_messages(messages@.take(i as int)),
        {
            push_chat_items(&mut items, &messages[i]);
            assert(messages@.take(i + 1).drop_last() =~= messages@.take(i as int));
            assert(elements_view(items@) =~= lead + chat_messages(messages@.take(i + 1)));
        }
        assert(messages@.take(messages.len() as int) =~= messages@);
        let ghost iv = elements_view(items@);
        proof {
            lemma_array_view(items);
        }
        let mut m: Vec<(String, Json)> = Vec::new();
        put(&mut m, "model", json_str(self.settings.model.as_str()));
        put(&mut m, "messages", Json::Array(items));
        put(&mut m, "stream", Json::Bool(stream));
        let ghost base = members_view(m@);
        assert(base =~= seq![("model"@, sv(self.settings.model@)), ("messages"@, JsonV::Array(iv)), ("stream"@, JsonV::Bool(stream))]);
        match tools {
            Some(ts) => {
                if ts.len() > 0 {
                    let mut arr: Vec<Json> = Vec::new();
                    for i in 0..ts.len()
                        invariant
                            elements_view(arr@) == ts@.take(i as int).map_values(|t: Tool| offered_tool(t)),
                    {
                        push_item(&mut arr, offered_tool_json(&ts[i]));
                        assert(ts@.take(i + 1).map_values(|t: Tool| offered_tool(t))
                            =~= ts@.take(i as int).map_values(|t: Tool| offered_tool(t)).push(offered_tool(ts@[i as int])));
                    }
                    assert(ts@.take(ts.len() as int) =~= ts@);
                    proof {
                        lemma_array_view(arr);
                    }
                    put(&mut m, "tools", Json::Array(arr));
                    put(&mut m, "tool_choice", json_str("auto"));
                }
            },
            None => {},
        }
        proof {
            lemma_object_view(m);
        }
        let res = Json::Object(m);
        assert(res.view_json()->Object_0 =~= chat_payload(self.settings.model@, system_prompt@, messages@,
            match tools { Some(t) => Some(t@), None => None }, stream)->Object_0);
        res
    }

    /// The answer in a response body: errors when it has no `choices` array,
    /// when that is empty, or when the first choice has no `message`;
    /// otherwise that message's text and tool calls, and the token counts.
    pub fn parse_response(&self, response: &Json) -> (res: Result<CompletionResponse, ProviderError>)
        ensures
            match array_of(field(*response, "choices"@)) {
                None => res matches Err(ProviderError::InvalidRequest(m)) && m@ == "No choices array in response"@,
                Some(choices) => if choices.len() == 0 {
                    res matches Err(ProviderError::InvalidRequest(m)) && m@ == "Empty choices array in response"@
                } else {
                    match field(choices[0], "message"@) {
                        None => res matches Err(ProviderError::InvalidRequest(m)) && m@ == "No message in choice"@,
                        Some(msg) => res matches Ok(r)
                            && answer_is(r.message, str_of(field(msg, "content"@)),
                                match array_of(field(msg, "tool_calls"@)) { Some(arr) => listed_calls(arr), None => Seq::empty() })
                            && r.usage == usage_of(*response, "prompt_tokens"@, "completion_tokens"@),
                    }
                },
            },
    {
        let choices = match as_array(get(response, "choices")) {
            Some(c) => c,
            None => {
                return Err(ProviderError::InvalidRequest(to_owned_string("No choices array in response")));
            },
        };
        if choices.len() == 0 {
            return Err(ProviderError::InvalidRequest(to_owned_string("Empty choices array in response")));
        }
        let msg = match get(&choices[0], "message") {
            Some(m) => m,
            None => {
                return Err(ProviderError::InvalidRequest(to_owned_string("No message in choice")));
            },
        };
        let content = match as_str(get(msg, "content")) {
            Some(c) => Some(to_owned_string(c)),
            None => None,
        };
        let mut calls: Vec<ToolCall> = Vec::new();
        let ghost arr_v: Seq<Json> = match array_of(field(*msg, "tool_calls"@)) { Some(a) => a, None => Seq::empty() };
        let empty: Vec<Json> = Vec::new();
        let arr = match as_array(get(msg, "tool_calls")) {
            Some(a) => a,
            None => &empty,
        };
        assert(arr@ == arr_v);
        for i in 0..arr.len()
            invariant
                calls@.map_values(|tc: ToolCall| call_view(tc)) == listed_calls(arr@.take(i as int)),
                forall|k: int| 0 <= k < calls@.len() ==> (#[trigger] calls@[k]).tool_type@ == "function"@,
        {
            let tc = &arr[i];
            let ghost prev = calls@;
            assert(arr@.take(i + 1).drop_last() =~= arr@.take(i as int));
            let id = as_str(get(tc, "id"));
            let f = get(tc, "function");
            match (id, f) {
                (Some(id), Some(f)) => {
                    let name = as_str(get(f, "name"));
                    let args = as_str(get(f, "arguments"));
                    match (name, args) {
                        (Some(n), Some(a)) => {
                            calls.push(function_call(id, n, a));
                            assert(calls@.map_values(|tc: ToolCall| call_view(tc))
                                =~= prev.map_values(|tc: ToolCall| call_view(tc)).push((id@, n@, a@)));
                        },
                        _ => {},
                    }
                },
                _ => {},
            }
        }
        assert(arr@.take(arr.len() as int) =~= arr@);
        let usage = read_usage(response, "prompt_tokens", "completion_tokens");
        Ok(CompletionResponse { message: answer_message(content, calls), usage })
    }

    /// An empty stream state.
    pub fn stream_start() -> (res: OpenRouterStreamState)
        ensures
            stream_model(res) == (StreamModel { content: Seq::empty(), entries: Seq::empty(), usage: Usage { prompt_tokens: 0, completion_tokens: 0, total_tokens: 0 } }),
            typed_function(res.tool_calls@),
    {
        let res = OpenRouterStreamState { content: String::new(), tool_calls: Vec::new(), usage: Usage::default() };
        assert(stream_model(res).entries =~= Seq::<(usize, (Seq<char>, Seq<char>, Seq<char>))>::empty());
        res
    }

    /// Applies one tool-call delta.
    fn stream_delta(state: &mut OpenRouterStreamState, tc: &Json)
        requires
            typed_function(old(state).tool_calls@),
        ensures
            typed_function(final(state).tool_calls@),
            stream_model(*final(state)) == (StreamModel { entries: apply_delta(stream_model(*old(state)).entries, *tc), ..stream_model(*old(state)) }),
    {
        let ghost entries = stream_model(*state).entries;
        let index = match as_u64(get(tc, "index")) { Some(n) => n, None => 0 } as usize;
        let mut pos: usize = state.tool_calls.len();
        let mut found = false;
        assert(entries.take(pos as int) =~= entries);
        while pos > 0 && !found
            invariant
                pos <= state.tool_calls.len(),
                entries == stream_model(*state).entries,
                *state == *old(state),
                found ==> pos < state.tool_calls.len() && entry_pos(entries, index) == Some(pos as int),
                !found ==> entry_pos(entries, index) == entry_pos(entries.take(pos as int), index),
            decreases pos + (if found { 0int } else { 1int }),
        {
            assert(entries.take(pos as int).drop_last() =~= entries.take(pos - 1));
            if state.tool_calls[pos - 1].0 == index {
                pos = pos - 1;
                found = true;
            } else {
                pos = pos - 1;
            }
        }
        assert(!found ==> entries.take(0) =~= Seq::<(usize, (Seq<char>, Seq<char>, Seq<char>))>::empty());
        let (mut id, mut name, mut args) = if found {
            let e = &state.tool_calls[pos].1;
            (e.id.clone(), e.function.name.clone(), e.function.arguments.clone())
        } else {
            (String::new(), String::new(), String::new())
        };
        if let Some(i) = as_str(get(tc, "id")) {
            id = to_owned_string(i);
        }
        if let Some(f) = get(tc, "function") {
            if let Some(n) = as_str(get(f, "name")) {
                push_str(&mut name, n);
            }
            if let Some(a) = as_str(get(f, "arguments")) {
                push_str(&mut args, a);
            }
        }
        let call = function_call(id.as_str(), name.as_str(), args.as_str());
        let ghost before = state.tool_calls@;
        if found {
            state.tool_calls.set(pos, (index, call));
            assert(stream_model(*state).entries =~= apply_delta(entries, *tc));
        } else {
            state.tool_calls.push((index, call));
            assert(stream_model(*state).entries =~= apply_delta(entries, *tc));
        }
    }

    /// Takes in one event of a stream: for each choice, its delta's text is
    /// appended and its tool-call pieces are put together by index; when a
    /// choice finishes and the event reports usage, the token counts are kept.
    pub fn stream_event(state: &mut OpenRouterStreamState, chunk: &Json)
        requires
            typed_function(old(state).tool_calls@),
        ensures
            typed_function(final(state).tool_calls@),
            stream_model(*final(state)) == match array_of(field(*chunk, "choices"@)) {
                Some(choices) => apply_choices(stream_model(*old(state)), choices, *chunk),
                None => stream_model(*old(state)),
            },
    {
        let empty: Vec<Json> = Vec::new();
        let choices = match as_array(get(chunk, "choices")) {
            Some(c) => c,
            None => &empty,
        };
        let ghost s0 = stream_model(*state);
        for i in 0..choices.len()
            invariant
                typed_function(state.tool_calls@),
                stream_model(*state) == apply_choices(s0, choices@.take(i as int), *chunk),
        {
            let choice = &choices[i];
            let ghost si = stream_model(*state);
            assert(choices@.take(i + 1).drop_last() =~= choices@.take(i as int));
            if let Some(delta) = get(choice, "delta") {
                if let Some(text) = as_str(get(delta, "content")) {
                    push_str(&mut state.content, text);
                }
                let ghost sc = stream_model(*state);
                assert(sc.content == si.content + text_or_empty(Some(*delta), "content"@));
                if let Some(tcs) = as_array(get(delta, "tool_calls")) {
                    for k in 0..tcs.len()
                        invariant
                            typed_function(state.tool_calls@),
                            stream_model(*state) == (StreamModel { entries: apply_deltas(sc.entries, tcs@.take(k as int)), ..sc }),
                    {
                        Self::stream_delta(state, &tcs[k]);
                        assert(tcs@.take(k + 1).drop_last() =~= tcs@.take(k as int));
                    }
                    assert(tcs@.take(tcs.len() as int) =~= tcs@);
                }
            }
            let finished = as_str(get(choice, "finish_reason")).is_some();
            if finished {
                if get(chunk, "usage").is_some() {
                    state.usage = read_usage(chunk, "prompt_tokens", "completion_tokens");
                }
            }
        }
        assert(choices@.take(choices.len() as int) =~= choices@);
    }

    /// The answer a finished stream has assembled: the tool calls sorted by
    /// id (stable), with the text (none when empty); or the text alone.
    pub fn stream_finish(state: OpenRouterStreamState) -> (res: CompletionResponse)
        requires
            typed_function(state.tool_calls@),
        ensures
            answer_is(res.message, streamed_content(state.content@), sort_by_id(entry_calls(stream_model(state).entries))),
            res.usage == state.usage,
    {
        let ghost ent = entry_calls(stream_model(state).entries);
        let mut sorted: Vec<ToolCall> = Vec::new();
        let mut i: usize = 0;
        let OpenRouterStreamState { content, tool_calls, usage } = state;
        let ghost all = tool_calls@;
        let mut rest = tool_calls;
        assert(all.len() == rest.len());
        while rest.len() > 0
            invariant
                all.len() <= usize::MAX,
                i + rest.len() == all.len(),
                rest@ == all.skip(i as int),
                ent == all.map_values(|e: (usize, ToolCall)| call_view(e.1)),
                typed_function(all),
                sorted@.map_values(|tc: ToolCall| call_view(tc)) == sort_by_id(ent.take(i as int)),
                forall|k: int| 0 <= k < sorted@.len() ==> (#[trigger] sorted@[k]).tool_type@ == "function"@,
            decreases rest.len(),
        {
            let ghost r0 = rest@;
            let (idx, call) = rest.remove(0);
            assert(r0[0] == all[i as int]) by {
                assert(r0[0] == all.skip(i as int)[0]);
            }
            assert(rest@ =~= all.skip(i + 1));
            assert(ent.take(i + 1).drop_last() =~= ent.take(i as int));
            assert(ent.take(i + 1).last() == call_view(call));
            let ghost before = sorted@;
            insert_by_id(&mut sorted, call);
            assert forall|k: int| 0 <= k < sorted@.len() implies (#[trigger] sorted@[k]).tool_type@ == "function"@ by {
                if sorted@[k] != call {
                    let w = choose|w: int| 0 <= w < before.len() && before[w] == sorted@[k];
                }
            }
            i += 1;
        }
        assert(ent.take(all.len() as int) =~= ent);
        let text = if content.as_str().is_empty() { None } else { Some(content) };
        let message = if sorted.len() > 0 {
            answer_message(text, sorted)
        } else {
            let m = match text {
                Some(c) => Message::assistant(c.as_str()),
                None => {
                    let e = String::new();
                    Message::assistant(e.as_str())
                },
            };
            m
        };
        CompletionResponse { message, usage }
    }
}

/// The index a tool-call delta names (zero when it names none).
pub open spec fn delta_index(tc: Json) -> usize {
    (match u64_of(field(tc, "index"@)) { Some(n) => n, None => 0 }) as usize
}

/// The piece of text a tool-call delta sends for the function member `key`
/// (`name` or `arguments`); empty when it sends none.
pub open spec fn delta_piece(tc: Json, key: Seq<char>) -> Seq<char> {
    match field(tc, "function"@) {
        Some(f) => match str_of(field(f, key)) {
            Some(t) => t,
            None => Seq::empty(),
        },
        None => Seq::empty(),
    }
}

/// No two calls under assembly share an index.
pub open spec fn indices_distinct(entries: Seq<(usize, (Seq<char>, Seq<char>, Seq<char>))>) -> bool {
    forall|a: int, b: int| 0 <= a < b < entries.len() ==> (#[trigger] entries[a]).0 != (#[trigger] entries[b]).0
}

proof fn lemma_entry_pos(entries: Seq<(usize, (Seq<char>, Seq<char>, Seq<char>))>, i: usize)
    ensures
        entry_pos(entries, i) matches Some(p) ==> 0 <= p < entries.len() && entries[p].0 == i,
        entry_pos(entries, i) is None ==> forall|p: int| 0 <= p < entries.len() ==> (#[trigger] entries[p]).0 != i,
    decreases entries.len(),
{
    if entries.len() > 0 {
        let init = entries.drop_last();
        lemma_entry_pos(init, i);
        if entries.last().0 != i {
            assert forall|p: int| 0 <= p < init.len() implies #[trigger] init[p] == entries[p] by {}
            if entry_pos(entries, i) is None {
                assert forall|p: int| 0 <= p < entries.len() implies (#[trigger] entries[p]).0 != i by {
                    if p < init.len() {
                        assert(init[p] == entries[p]);
                    }
                }
            }
        }
    }
}

/// One tool-call delta adds to the call under its index: when a call is
/// already being assembled there, the delta's name and arguments pieces are
/// appended to what that call had (an id in the delta replaces the call's id)
/// and every other call stays as it was; otherwise a new call is started from
/// the pieces alone.
pub proof fn lemma_delta_appends(entries: Seq<(usize, (Seq<char>, Seq<char>, Seq<char>))>, tc: Json)
    requires
        indices_distinct(entries),
    ensures
        ({
            let r = apply_delta(entries, tc);
            let i = delta_index(tc);
            let id = str_of(field(tc, "id"@));
            &&& indices_distinct(r)
            &&& forall|p: int| 0 <= p < entries.len() && (#[trigger] entries[p]).0 == i ==> {
                &&& r.len() == entries.len()
                &&& r[p].0 == i
                &&& r[p].1.0 == (match id { Some(x) => x, None => entries[p].1.0 })
                &&& r[p].1.1 == entries[p].1.1 + delta_piece(tc, "name"@)
                &&& r[p].1.2 == entries[p].1.2 + delta_piece(tc, "arguments"@)
                &&& forall|q: int| 0 <= q < entries.len() && q != p ==> r[q] == entries[q]
            }
            &&& (forall|p: int| 0 <= p < entries.len() ==> (#[trigger] entries[p]).0 != i) ==>
                r == entries.push((i, (match id { Some(x) => x, None => Seq::empty() },
                    delta_piece(tc, "name"@), delta_piece(tc, "arguments"@))))
        }),
{
    let i = delta_index(tc);
    lemma_entry_pos(entries, i);
    let r = apply_delta(entries, tc);
    match entry_pos(entries, i) {
        Some(p0) => {
            assert forall|p: int| 0 <= p < entries.len() && (#[trigger] entries[p]).0 == i implies p == p0 by {
                if p < p0 {
                    assert(entries[p].0 != entries[p0].0);
                } else if p > p0 {
                    assert(entries[p0].0 != entries[p].0);
                }
            }
            assert forall|a: int, b: int| 0 <= a < b < r.len() implies (#[trigger] r[a]).0 != (#[trigger] r[b]).0 by {
                if a != p0 && b != p0 {
                    assert(r[a] == entries[a] && r[b] == entries[b]);
                } else if a == p0 {
                    assert(r[b] == entries[b]);
                    assert(entries[a].0 != entries[b].0);
                } else {
                    assert(r[a] == entries[a]);
                    assert(entries[a].0 != entries[b].0);
                }
            }
        },
        None => {
            assert forall|a: int, b: int| 0 <= a < b < r.len() implies (#[trigger] r[a]).0 != (#[trigger] r[b]).0 by {
                assert(r[a] == entries[a]);
                if b < entries.len() {
                    assert(r[b] == entries[b]);
                } else {
                    assert(r[b].0 == i);
                }
            }
        },
    }
}

/// Every arguments piece sent for index `i`, in order.
pub open spec fn pieces_for(tcs: Seq<Json>, i: usize) -> Seq<char>
    decreases tcs.len(),
{
    if tcs.len() == 0 {
        Seq::empty()
    } else {
        pieces_for(tcs.drop_last(), i) + (if delta_index(tcs.last()) == i { delta_piece(tcs.last(), "arguments"@) } else { Seq::empty() })
    }
}

proof fn lemma_pieces_unsent(tcs: Seq<Json>, i: usize)
    requires
        forall|k: int| 0 <= k < tcs.len() ==> delta_index(#[trigger] tcs[k]) != i,
    ensures
        pieces_for(tcs, i) == Seq::<char>::empty(),
    decreases tcs.len(),
{
    if tcs.len() > 0 {
        let init = tcs.drop_last();
        assert forall|k: int| 0 <= k < init.len() implies delta_index(#[trigger] init[k]) != i by {
            assert(init[k] == tcs[k]);
        }
        lemma_pieces_unsent(init, i);
        assert(delta_index(tcs[tcs.len() - 1]) != i);
        assert(pieces_for(tcs, i) =~= Seq::<char>::empty());
    }
}

/// Over a whole stream of tool-call deltas, one call is assembled for each
/// index sent, and the arguments of each call are all the arguments pieces
/// sent for its index, joined in the order they came.
pub proof fn lemma_deltas_concatenate(tcs: Seq<Json>)
    ensures
        ({
            let r = apply_deltas(Seq::empty(), tcs);
            &&& indices_distinct(r)
            &&& forall|p: int| 0 <= p < r.len() ==> (#[trigger] r[p]).1.2 == pieces_for(tcs, r[p].0)
            &&& forall|k: int| 0 <= k < tcs.len() ==> exists|p: int| 0 <= p < r.len() && (#[trigger] r[p]).0 == delta_index(#[trigger] tcs[k])
        }),
    decreases tcs.len(),
{
    if tcs.len() > 0 {
        let init = tcs.drop_last();
        let tc = tcs.last();
        lemma_deltas_concatenate(init);
        let r0 = apply_deltas(Seq::empty(), init);
        let r = apply_deltas(Seq::empty(), tcs);
        assert(r == apply_delta(r0, tc));
        lemma_delta_appends(r0, tc);
        let i = delta_index(tc);
        if exists|p: int| 0 <= p < r0.len() && (#[trigger] r0[p]).0 == i {
            let p0 = choose|p: int| 0 <= p < r0.len() && (#[trigger] r0[p]).0 == i;
            assert forall|p: int| 0 <= p < r.len() implies (#[trigger] r[p]).1.2 == pieces_for(tcs, r[p].0) by {
                if p != p0 {
                    assert(r[p] == r0[p]);
                    if r0[p].0 == i {
                        assert(r0[p].0 != r0[p0].0 || p == p0);
                        if p < p0 { assert(r0[p].0 != r0[p0].0); } else { assert(r0[p0].0 != r0[p].0); }
                    }
                }
            }
            assert forall|k: int| 0 <= k < tcs.len() implies exists|p: int| 0 <= p < r.len() && (#[trigger] r[p]).0 == delta_index(#[trigger] tcs[k]) by {
                if k < init.len() {
                    assert(tcs[k] == init[k]);
                    let q = choose|q: int| 0 <= q < r0.len() && (#[trigger] r0[q]).0 == delta_index(init[k]);
                    if q == p0 { assert(r[q].0 == i); } else { assert(r[q] == r0[q]); }
                } else {
                    assert(r[p0].0 == i);
                }
            }
        } else {
            assert(forall|p: int| 0 <= p < r0.len() ==> (#[trigger] r0[p]).0 != i);
            assert forall|k: int| 0 <= k < init.len() implies delta_index(#[trigger] init[k]) != i by {
                let q = choose|q: int| 0 <= q < r0.len() && (#[trigger] r0[q]).0 == delta_index(init[k]);
                assert(r0[q].0 != i);
            }
            lemma_pieces_unsent(init, i);
            assert forall|p: int| 0 <= p < r.len() implies (#[trigger] r[p]).1.2 == pieces_for(tcs, r[p].0) by {
                if p < r0.len() {
                    assert(r[p] == r0[p]);
                } else {
                    assert(r[p].0 == i);
                    assert(pieces_for(init, i) + delta_piece(tc, "arguments"@) =~= delta_piece(tc, "arguments"@));
                }
            }
            assert forall|k: int| 0 <= k < tcs.len() implies exists|p: int| 0 <= p < r.len() && (#[trigger] r[p]).0 == delta_index(#[trigger] tcs[k]) by {
                if k < init.len() {
                    assert(tcs[k] == init[k]);
                    let q = choose|q: int| 0 <= q < r0.len() && (#[trigger] r0[q]).0 == delta_index(init[k]);
                    assert(r[q] == r0[q]);
                } else {
                    assert(r[r0.len() as int].0 == i);
                }
            }
        }
    } else {
        assert(apply_deltas(Seq::empty(), tcs) == Seq::<(usize, (Seq<char>, Seq<char>, Seq<char>))>::empty());
    }
}

} // verus!
