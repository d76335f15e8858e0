//! The OpenAI Responses API: the request a conversation becomes, the answer
//! read back, and the answer assembled from a stream of events. The HTTP
//! exchange itself happens in the caller.
use vstd::prelude::*;

use super::{bearer_ok, provider_settings, CompletionResponse, ProviderError, ProviderSettings, Tool};
use crate::json::{
    array_of, as_array, as_str, as_u64, clone_members, elements_view, field, get, json_str, lemma_array_view,
    lemma_object_view, members_view, object2, object3, object4, put, str_of, u64_of, Json, JsonV,
};
use crate::message::{calls_view, FunctionCall, Message, MessageRole, ToolCall, Usage};
use crate::text::{push_str, str_eq, to_owned_string};

verus! {

/// The view of an optional text.
pub open spec fn opt_view(o: Option<String>) -> Option<Seq<char>> {
    match o {
        Some(s) => Some(s@),
        None => None,
    }
}

/// A JSON string as a view.
pub open spec fn sv(s: Seq<char>) -> JsonV {
    JsonV::Str(s)
}

/// `{"role": role, "content": content}`.
pub open spec fn role_item(role: Seq<char>, content: Seq<char>) -> JsonV {
    JsonV::Object(seq![("role"@, sv(role)), ("content"@, sv(content))])
}

/// The input item of a tool call the assistant made.
pub open spec fn call_item(tc: ToolCall) -> JsonV {
    JsonV::Object(seq![
        ("type"@, sv("function_call"@)),
        ("call_id"@, sv(tc.id@)),
        ("name"@, sv(tc.function.name@)),
        ("arguments"@, sv(tc.function.arguments@)),
    ])
}

/// The input items of one message: a user or assistant text as a role item,
/// each tool call of the assistant, a tool's output with its call id; a
/// system message gives none (it goes in the instructions).
pub open spec fn message_items(m: Message) -> Seq<JsonV> {
    match m.role {
        MessageRole::User => match m.content {
            Some(c) => seq![role_item("user"@, c@)],
            None => Seq::empty(),
        },
        MessageRole::Assistant => (match m.content {
            Some(c) => seq![role_item("assistant"@, c@)],
            None => Seq::empty(),
        }) + (match m.tool_calls {
            Some(calls) => calls@.map_values(|tc: ToolCall| call_item(tc)),
            None => Seq::empty(),
        }),
        MessageRole::Tool => match (m.content, m.tool_call_id) {
            (Some(c), Some(id)) => seq![JsonV::Object(seq![
                ("type"@, sv("function_call_output"@)),
                ("call_id"@, sv(id@)),
                ("output"@, sv(c@)),
            ])],
            _ => Seq::empty(),
        },
        MessageRole::System => Seq::empty(),
    }
}

/// The input items of a conversation, in order.
pub open spec fn input_items(ms: Seq<Message>) -> Seq<JsonV>
    decreases ms.len(),
{
    if ms.len() == 0 {
        Seq::empty()
    } else {
        input_items(ms.drop_last()) + message_items(ms.last())
    }
}

/// How a tool is offered to the model.
pub open spec fn tool_item(t: Tool) -> JsonV {
    JsonV::Object(seq![
        ("type"@, sv("function"@)),
        ("name"@, sv(t.name@)),
        ("description"@, sv(match t.description { Some(d) => d@, None => Seq::empty() })),
        ("parameters"@, JsonV::Object(members_view(t.input_schema@))),
    ])
}

/// The members that offer tools: none when there are none.
pub open spec fn tool_members(tools: Option<Seq<Tool>>) -> Seq<(Seq<char>, JsonV)> {
    match tools {
        Some(ts) => if ts.len() > 0 {
            seq![("tools"@, JsonV::Array(ts.map_values(|t: Tool| tool_item(t)))), ("tool_choice"@, sv("auto"@))]
        } else {
            Seq::empty()
        },
        None => Seq::empty(),
    }
}

/// The request body for a conversation.
pub open spec fn request_payload(model: Seq<char>, system_prompt: Seq<char>, ms: Seq<Message>, tools: Option<Seq<Tool>>, stream: bool) -> JsonV {
    JsonV::Object(
        seq![("model"@, sv(model)), ("input"@, JsonV::Array(input_items(ms))), ("stream"@, JsonV::Bool(stream))]
            + (if system_prompt.len() > 0 { seq![("instructions"@, sv(system_prompt))] } else { Seq::empty() })
            + tool_members(tools),
    )
}

/// A tool call read back: identifier, function name and arguments.
pub open spec fn call_view(tc: ToolCall) -> (Seq<char>, Seq<char>, Seq<char>) {
    (tc.id@, tc.function.name@, tc.function.arguments@)
}

/// The text an assistant message carries: the last `output_text` part.
pub open spec fn last_output_text(parts: Seq<Json>, current: Option<Seq<char>>) -> Option<Seq<char>>
    decreases parts.len(),
{
    if parts.len() == 0 {
        current
    } else {
        let c = last_output_text(parts.drop_last(), current);
        let p = parts.last();
        if str_of(field(p, "type"@)) == Some("output_text"@) && str_of(field(p, "text"@)) is Some {
            str_of(field(p, "text"@))
        } else {
            c
        }
    }
}

/// The content parts of an assistant message item, if it is one.
pub open spec fn assistant_parts(item: Json) -> Option<Seq<Json>> {
    if str_of(field(item, "role"@)) == Some("assistant"@) {
        array_of(field(item, "content"@))
    } else {
        None
    }
}

/// The tool call a `function_call` item stands for, if it names its call,
/// function and arguments.
pub open spec fn item_call(item: Json) -> Option<(Seq<char>, Seq<char>, Seq<char>)> {
    match (str_of(field(item, "call_id"@)), str_of(field(item, "name"@)), str_of(field(item, "arguments"@))) {
        (Some(i), Some(n), Some(a)) => Some((i, n, a)),
        _ => None,
    }
}

/// The text and tool calls read from the output items of an answer.
pub open spec fn scan_output(items: Seq<Json>) -> (Option<Seq<char>>, Seq<(Seq<char>, Seq<char>, Seq<char>)>)
    decreases items.len(),
{
    if items.len() == 0 {
        (None, Seq::empty())
    } else {
        let (c, calls) = scan_output(items.drop_last());
        let item = items.last();
        let ty = str_of(field(item, "type"@));
        if ty == Some("message"@) {
            match assistant_parts(item) {
                Some(parts) => (last_output_text(parts, c), calls),
                None => (c, calls),
            }
        } else if ty == Some("function_call"@) {
            match item_call(item) {
                Some(call) => (c, calls.push(call)),
                None => (c, calls),
            }
        } else {
            (c, calls)
        }
    }
}

/// The token counts an answer reports under `usage`, each read as an
/// unsigned number (zero when missing) and cut to 32 bits.
pub open spec fn usage_of(response: Json, prompt: Seq<char>, completion: Seq<char>) -> Usage {
    match field(response, "usage"@) {
        Some(u) => Usage {
            prompt_tokens: (match u64_of(field(u, prompt)) { Some(n) => n, None => 0 }) as u32,
            completion_tokens: (match u64_of(field(u, completion)) { Some(n) => n, None => 0 }) as u32,
            total_tokens: (match u64_of(field(u, "total_tokens"@)) { Some(n) => n, None => 0 }) as u32,
        },
        None => Usage { prompt_tokens: 0, completion_tokens: 0, total_tokens: 0 },
    }
}

/// The message is the assistant's answer with `content` and `calls`: with
/// tool calls it carries them and the content as it is; without, it carries
/// the content (empty when there is none) and no calls.
pub open spec fn answer_is(m: Message, content: Option<Seq<char>>, calls: Seq<(Seq<char>, Seq<char>, Seq<char>)>) -> bool {
    &&& m.role == MessageRole::Assistant
    &&& m.tool_call_id is None
    &&& m.metadata is None
    &&& if calls.len() > 0 {
        &&& match (m.content, content) {
            (Some(a), Some(b)) => a@ == b,
            (None, None) => true,
            _ => false,
        }
        &&& match m.tool_calls {
            Some(v) => v@.map_values(|tc: ToolCall| call_view(tc)) == calls
                && forall|i: int| 0 <= i < v@.len() ==> (#[trigger] v@[i]).tool_type@ == "function"@,
            None => false,
        }
    } else {
        &&& m.tool_calls is None
        &&& m.content matches Some(a) && a@ == match content {
            Some(b) => b,
            None => Seq::empty(),
        }
    }
}

/// The tool call with the given parts, typed `function`.
pub fn function_call(id: &str, name: &str, arguments: &str) -> (res: ToolCall)
    ensures
        call_view(res) == (id@, name@, arguments@),
        res.tool_type@ == "function"@,
{
    ToolCall {
        id: to_owned_string(id),
        tool_type: to_owned_string("function"),
        function: FunctionCall { name: to_owned_string(name), arguments: to_owned_string(arguments) },
    }
}

/// The assistant's answer from its text and tool calls.
pub fn answer_message(content: Option<String>, calls: Vec<ToolCall>) -> (res: Message)
    requires
        forall|i: int| 0 <= i < calls@.len() ==> (#[trigger] calls@[i]).tool_type@ == "function"@,
    ensures
        answer_is(res, opt_view(content), calls@.map_values(|tc: ToolCall| call_view(tc))),
{
    if calls.len() > 0 {
        let ghost cv = calls@;
        let m = Message::assistant_with_tools(content, calls);
        proof {
            assert(m.tool_calls matches Some(v) && v@ == cv);
        }
        m
    } else {
        match content {
            Some(c) => Message::assistant(c.as_str()),
            None => {
                let e = String::new();
                Message::assistant(e.as_str())
            },
        }
    }
}

/// The token counts of an answer.
pub fn read_usage(response: &Json, prompt: &str, completion: &str) -> (res: Usage)
    ensures
        res == usage_of(*response, prompt@, completion@),
{
    match get(response, "usage") {
        Some(u) => {
            let p = match as_u64(get(u, prompt)) { Some(n) => n, None => 0 };
            let c = match as_u64(get(u, completion)) { Some(n) => n, None => 0 };
            let t = match as_u64(get(u, "total_tokens")) { Some(n) => n, None => 0 };
            Usage { prompt_tokens: p as u32, completion_tokens: c as u32, total_tokens: t as u32 }
        },
        None => Usage::default(),
    }
}

fn push_item(items: &mut Vec<Json>, item: Json)
    ensures
        elements_view(final(items)@) == elements_view(old(items)@).push(item.view_json()),
{
    items.push(item);
    assert(elements_view(items@) =~= elements_view(old(items)@).push(item.view_json()));
}

/// Appends the input items of one message.
fn push_message_items(items: &mut Vec<Json>, m: &Message)
    ensures
        elements_view(final(items)@) == elements_view(old(items)@) + message_items(*m),
{
    let ghost start = elements_view(items@);
    match m.role {
        MessageRole::User => {
            if let Some(c) = &m.content {
                push_item(items, object2("role", json_str("user"), "content", json_str(c.as_str())));
            }
            assert(elements_view(items@) =~= start + message_items(*m));
        },
        MessageRole::Assistant => {
            if let Some(c) = &m.content {
                push_item(items, object2("role", json_str("assistant"), "content", json_str(c.as_str())));
            }
            let ghost mid = elements_view(items@);
            assert(mid =~= start + (match m.content {
                Some(c) => seq![role_item("assistant"@, c@)],
                None => Seq::empty(),
            }));
            if let Some(calls) = &m.tool_calls {
                for i in 0..calls.len()
                    invariant
                        elements_view(items@) == mid + calls@.take(i as int).map_values(|tc: ToolCall| call_item(tc)),
                {
                    let tc = &calls[i];
                    push_item(items, object4(
                        "type", json_str("function_call"),
                        "call_id", json_str(tc.id.as_str()),
                        "name", json_str(tc.function.name.as_str()),
                        "arguments", json_str(tc.function.arguments.as_str()),
                    ));
                    assert(calls@.take(i + 1).map_values(|tc: ToolCall| call_item(tc))
                        =~= calls@.take(i as int).map_values(|tc: ToolCall| call_item(tc)).push(call_item(calls@[i as int])));
                }
                assert(calls@.take(calls.len() as int) =~= calls@);
            }
            assert(elements_view(items@) =~= start + message_items(*m));
        },
        MessageRole::Tool => {
            match (&m.content, &m.tool_call_id) {
                (Some(c), Some(id)) => {
                    push_item(items, object3(
                        "type", json_str("function_call_output"),
                        "call_id", json_str(id.as_str()),
                        "output", json_str(c.as_str()),
                    ));
                },
                _ => {},
            }
            assert(elements_view(items@) =~= start + message_items(*m));
        },
        MessageRole::System => {
            assert(elements_view(items@) =~= start + message_items(*m));
        },
    }
}

/// The item that offers a tool.
pub fn tool_json(t: &Tool) -> (res: Json)
    ensures
        res.view_json() == tool_item(*t),
{
    let desc = match &t.description {
        Some(d) => json_str(d.as_str()),
        None => Json::Str(String::new()),
    };
    assert(desc.view_json() == sv(match t.description { Some(d) => d@, None => Seq::empty() }));
    let schema = clone_members(&t.input_schema);
    proof {
        lemma_object_view(schema);
    }
    let params = Json::Object(schema);
    assert(params.view_json() == JsonV::Object(members_view(t.input_schema@)));
    let name = json_str(t.name.as_str());
    assert(name.view_json() == sv(t.name@));
    let res = object4("type", json_str("function"), "name", name, "description", desc, "parameters", params);
    assert(res.view_json()->Object_0 =~= tool_item(*t)->Object_0);
    res
}

/// The requests of the Responses API go here.
pub fn endpoint() -> (res: &'static str)
    ensures
        res@ == "https://api.openai.com/v1/responses"@,
{
    "https://api.openai.com/v1/responses"
}

/// A model reached through the OpenAI Responses API.
#[derive(Debug)]
pub struct OpenAIProvider {
    pub settings: ProviderSettings,
}

/// What a stream has delivered so far.
#[derive(Debug)]
pub struct OpenAIStreamState {
    pub content: String,
    pub tool_calls: Vec<ToolCall>,
}

/// What a stream of answer events has delivered: texts appended, calls in
/// order.
pub open spec fn stream_scan(items: Seq<Json>, content: Seq<char>, calls: Seq<(Seq<char>, Seq<char>, Seq<char>)>) -> (Seq<char>, Seq<(Seq<char>, Seq<char>, Seq<char>)>)
    decreases items.len(),
{
    if items.len() == 0 {
        (content, calls)
    } else {
        let (c, k) = stream_scan(items.drop_last(), content, calls);
        let item = items.last();
        let ty = str_of(field(item, "type"@));
        if ty == Some("message"@) {
            match assistant_parts(item) {
                Some(parts) => (c + output_texts(parts), k),
                None => (c, k),
            }
        } else if ty == Some("function_call"@) {
            match item_call(item) {
                Some(call) => (c, k.push(call)),
                None => (c, k),
            }
        } else {
            (c, k)
        }
    }
}

/// The `output_text` parts of a message, joined.
pub open spec fn output_texts(parts: Seq<Json>) -> Seq<char>
    decreases parts.len(),
{
    if parts.len() == 0 {
        Seq::empty()
    } else {
        let prev = output_texts(parts.drop_last());
        let p = parts.last();
        if str_of(field(p, "type"@)) == Some("output_text"@) {
            match str_of(field(p, "text"@)) {
                Some(t) => prev + t,
                None => prev,
            }
        } else {
            prev
        }
    }
}

/// The streamed text as the answer carries it: none when empty.
pub open spec fn streamed_content(c: Seq<char>) -> Option<Seq<char>> {
    if c.len() == 0 { None } else { Some(c) }
}

impl OpenAIProvider {
    /// A provider for `model`, authorised by `api_key`.
    pub fn new(model: &str, api_key: &str) -> (res: Result<Self, String>)
        ensures
            match res {
                Ok(p) => p.settings.model@ == model@ && p.settings.authorization@ == "Bearer "@ + api_key@,
                Err(e) => e@ == "failed to parse header value"@,
            },
            res is Ok <==> bearer_ok(api_key@),
    {
        match provider_settings(model, api_key) {
            Ok(settings) => Ok(OpenAIProvider { settings }),
            Err(e) => Err(e),
        }
    }

    /// The model's name.
    pub fn model_name(&self) -> (res: &str)
        ensures
            res@ == self.settings.model@,
    {
        self.settings.model.as_str()
    }

    /// Answers can be streamed.
    pub fn supports_streaming(&self) -> (res: bool)
        ensures
            res,
    {
        true
    }

    /// The request body for a conversation: the model, the input items of the
    /// messages, whether to stream, the system prompt as instructions when it
    /// is not empty, and the tools when there are any.
    pub fn create_request_payload(&self, system_prompt: &str, messages: &Vec<Message>, tools: Option<&Vec<Tool>>, stream: bool) -> (res: Json)
        ensures
            res.view_json() == request_payload(self.settings.model@, system_prompt@, messages@,
                match tools { Some(t) => Some(t@), None => None }, stream),
    {
        let mut items: Vec<Json> = Vec::new();
        for i in 0..messages.len()
            invariant
                elements_view(items@) == input_items(messages@.take(i as int)),
        {
            push_message_items(&mut items, &messages[i]);
            assert(messages@.take(i + 1).drop_last() =~= messages@.take(i as int));
        }
        assert(messages@.take(messages.len() as int) =~= messages@);
        let mut m: Vec<(String, Json)> = Vec::new();
        put(&mut m, "model", json_str(self.settings.model.as_str()));
        let ghost iv = elements_view(items@);
        proof {
            lemma_array_view(items);
        }
        put(&mut m, "input", Json::Array(items));
        put(&mut m, "stream", Json::Bool(stream));
        let ghost base = m@;
        assert(members_view(m@) =~= seq![("model"@, sv(self.settings.model@)), ("input"@, JsonV::Array(iv)), ("stream"@, JsonV::Bool(stream))]);
        let ghost with_sp = members_view(m@);
        if !system_prompt.is_empty() {
            put(&mut m, "instructions", json_str(system_prompt));
            assert(members_view(m@) =~= with_sp.push(("instructions"@, sv(system_prompt@))));
        }
        let ghost before_tools = members_view(m@);
        match tools {
            Some(ts) => {
                if ts.len() > 0 {
                    let mut arr: Vec<Json> = Vec::new();
                    for i in 0..ts.len()
                        invariant
                            elements_view(arr@) == ts@.take(i as int).map_values(|t: Tool| tool_item(t)),
                    {
                        push_item(&mut arr, tool_json(&ts[i]));
                        assert(ts@.take(i + 1).map_values(|t: Tool| tool_item(t))
                            =~= ts@.take(i as int).map_values(|t: Tool| tool_item(t)).push(tool_item(ts@[i as int])));
                    }
                    assert(ts@.take(ts.len() as int) =~= ts@);
                    proof {
                        lemma_array_view(arr);
                    }
                    put(&mut m, "tools", Json::Array(arr));
                    put(&mut m, "tool_choice", json_str("auto"));
                }
            },
            None => {},
        }
        assert(members_view(m@) =~= before_tools + tool_members(match tools { Some(t) => Some(t@), None => None }));
        assert(before_tools =~= seq![("model"@, sv(self.settings.model@)), ("input"@, JsonV::Array(input_items(messages@))), ("stream"@, JsonV::Bool(stream))]
            + (if system_prompt@.len() > 0 { seq![("instructions"@, sv(system_prompt@))] } else { Seq::empty() }));
        proof {
            lemma_object_view(m);
        }
        Json::Object(m)
    }

    /// The answer in a response body: an error when it has no `output` array;
    /// otherwise the text of the last `output_text` part of an assistant
    /// message, the `function_call` items as tool calls, and the token counts.
    pub fn parse_response(&self, response: &Json) -> (res: Result<CompletionResponse, ProviderError>)
        ensures
            array_of(field(*response, "output"@)) is None ==> (res matches Err(ProviderError::InvalidRequest(m))
                && m@ == "No output array in response"@),
            array_of(field(*response, "output"@)) matches Some(items) ==> (res matches Ok(r)
                && answer_is(r.message, scan_output(items).0, scan_output(items).1)
                && r.usage == usage_of(*response, "input_tokens"@, "output_tokens"@)),
    {
        let output = match as_array(get(response, "output")) {
            Some(o) => o,
            None => {
                return Err(ProviderError::InvalidRequest(to_owned_string("No output array in response")));
            },
        };
        let mut content: Option<String> = None;
        let mut calls: Vec<ToolCall> = Vec::new();
        for i in 0..output.len()
            invariant
                (opt_view(content), calls@.map_values(|tc: ToolCall| call_view(tc)))
                    == scan_output(output@.take(i as int)),
                forall|k: int| 0 <= k < calls@.len() ==> (#[trigger] calls@[k]).tool_type@ == "function"@,
        {
            let item = &output[i];
            let ghost prev_calls = calls@;
            assert(output@.take(i + 1).drop_last() =~= output@.take(i as int));
            let ty = as_str(get(item, "type"));
            let is_message = match ty { Some(t) => str_eq(t, "message"), None => false };
            let is_call = match ty { Some(t) => str_eq(t, "function_call"), None => false };
            if is_message {
                let role = as_str(get(item, "role"));
                let is_assistant = match role { Some(r) => str_eq(r, "assistant"), None => false };
                if is_assistant {
                    if let Some(parts) = as_array(get(item, "content")) {
                        let ghost c0 = opt_view(content);
                        for j in 0..parts.len()
                            invariant
                                (opt_view(content)) == last_output_text(parts@.take(j as int), c0),
                        {
                            let part = &parts[j];
                            assert(parts@.take(j + 1).drop_last() =~= parts@.take(j as int));
                            let pty = as_str(get(part, "type"));
                            let is_text = match pty { Some(t) => str_eq(t, "output_text"), None => false };
                            if is_text {
                                if let Some(text) = as_str(get(part, "text")) {
                                    content = Some(to_owned_string(text));
                                }
                            }
                        }
                        assert(parts@.take(parts.len() as int) =~= parts@);
                    }
                }
            } else if is_call {
                let call_id = as_str(get(item, "call_id"));
                let name = as_str(get(item, "name"));
                let args = as_str(get(item, "arguments"));
                match (call_id, name, args) {
                    (Some(ci), Some(n), Some(a)) => {
                        calls.push(function_call(ci, n, a));
                        assert(calls@.map_values(|tc: ToolCall| call_view(tc))
                            =~= prev_calls.map_values(|tc: ToolCall| call_view(tc)).push((ci@, n@, a@)));
                    },
                    _ => {},
                }
            }
        }
        assert(output@.take(output.len() as int) =~= output@);
        let usage = read_usage(response, "input_tokens", "output_tokens");
        Ok(CompletionResponse { message: answer_message(content, calls), usage })
    }

    /// An empty stream state.
    pub fn stream_start() -> (res: OpenAIStreamState)
        ensures
            res.content@.len() == 0,
            res.tool_calls@.len() == 0,
    {
        OpenAIStreamState { content: String::new(), tool_calls: Vec::new() }
    }

    /// Takes in one event of a stream: the texts of assistant messages are
    /// appended, `function_call` items added; when the event says the answer
    /// is `completed`, the answer (with the event's token counts) is returned.
    pub fn stream_event(state: &mut OpenAIStreamState, chunk: &Json) -> (res: Option<CompletionResponse>)
        requires
            forall|k: int| 0 <= k < old(state).tool_calls@.len() ==> (#[trigger] old(state).tool_calls@[k]).tool_type@ == "function"@,
        ensures
            forall|k: int| 0 <= k < final(state).tool_calls@.len() ==> (#[trigger] final(state).tool_calls@[k]).tool_type@ == "function"@,
            ({
                let items = match array_of(field(*chunk, "output"@)) { Some(a) => a, None => Seq::<Json>::empty() };
                let (c, k) = stream_scan(items, old(state).content@, old(state).tool_calls@.map_values(|tc: ToolCall| call_view(tc)));
                &&& final(state).content@ == c
                &&& final(state).tool_calls@.map_values(|tc: ToolCall| call_view(tc)) == k
                &&& (str_of(field(*chunk, "status"@)) == Some("completed"@)) == (res is Some)
                &&& res matches Some(r) ==> answer_is(r.message, streamed_content(c), k)
                    && r.usage == usage_of(*chunk, "input_tokens"@, "output_tokens"@)
            }),
    {
        let ghost c0 = state.content@;
        let ghost k0 = state.tool_calls@.map_values(|tc: ToolCall| call_view(tc));
        let items: Vec<Json> = Vec::new();
        let output = match as_array(get(chunk, "output")) {
            Some(o) => o,
            None => &items,
        };
        for i in 0..output.len()
            invariant
                (state.content@, state.tool_calls@.map_values(|tc: ToolCall| call_view(tc)))
                    == stream_scan(output@.take(i as int), c0, k0),
                forall|k: int| 0 <= k < state.tool_calls@.len() ==> (#[trigger] state.tool_calls@[k]).tool_type@ == "function"@,
        {
            let item = &output[i];
            let ghost prev_calls = state.tool_calls@;
            assert(output@.take(i + 1).drop_last() =~= output@.take(i as int));
            let ty = as_str(get(item, "type"));
            let is_message = match ty { Some(t) => str_eq(t, "message"), None => false };
            let is_call = match ty { Some(t) => str_eq(t, "function_call"), None => false };
            if is_message {
                let role = as_str(get(item, "role"));
                let is_assistant = match role { Some(r) => str_eq(r, "assistant"), None => false };
                if is_assistant {
                    if let Some(parts) = as_array(get(item, "content")) {
                        let ghost before = state.content@;
                        for j in 0..parts.len()
                            invariant
                                state.content@ == before + output_texts(parts@.take(j as int)),
                                state.tool_calls@ == prev_calls,
                        {
                            let part = &parts[j];
                            assert(parts@.take(j + 1).drop_last() =~= parts@.take(j as int));
                            let pty = as_str(get(part, "type"));
                            let is_text = match pty { Some(t) => str_eq(t, "output_text"), None => false };
                            if is_text {
                                if let Some(text) = as_str(get(part, "text")) {
                                    push_str(&mut state.content, text);
                                }
                            }
                            assert(state.content@ =~= before + output_texts(parts@.take(j + 1)));
                        }
                        assert(parts@.take(parts.len() as int) =~= parts@);
                    }
                }
            } else if is_call {
                let call_id = as_str(get(item, "call_id"));
                let name = as_str(get(item, "name"));
                let args = as_str(get(item, "arguments"));
                match (call_id, name, args) {
                    (Some(ci), Some(n), Some(a)) => {
                        state.tool_calls.push(function_call(ci, n, a));
                        assert(state.tool_calls@.map_values(|tc: ToolCall| call_view(tc))
                            =~= prev_calls.map_values(|tc: ToolCall| call_view(tc)).push((ci@, n@, a@)));
                    },
                    _ => {},
                }
            }
        }
        assert(output@.take(output.len() as int) =~= output@);
        let status = as_str(get(chunk, "status"));
        let completed = match status { Some(s) => str_eq(s, "completed"), None => false };
        if completed {
            let usage = read_usage(chunk, "input_tokens", "output_tokens");
            Some(CompletionResponse { message: Self::stream_message(state), usage })
        } else {
            None
        }
    }

    /// The answer of a stream that ended (at `[DONE]` or at the end of the
    /// body) before any event said it was `completed`: what it gathered, with
    /// no token counts.
    pub fn stream_finish(state: OpenAIStreamState) -> (res: CompletionResponse)
        requires
            forall|k: int| 0 <= k < state.tool_calls@.len() ==> (#[trigger] state.tool_calls@[k]).tool_type@ == "function"@,
        ensures
            answer_is(res.message, streamed_content(state.content@), state.tool_calls@.map_values(|tc: ToolCall| call_view(tc))),
            res.usage == (Usage { prompt_tokens: 0, completion_tokens: 0, total_tokens: 0 }),
    {
        let message = Self::stream_message(&state);
        CompletionResponse { message, usage: Usage { prompt_tokens: 0, completion_tokens: 0, total_tokens: 0 } }
    }

    /// The answer a stream has delivered so far.
    pub fn stream_message(state: &OpenAIStreamState) -> (res: Message)
        requires
            forall|k: int| 0 <= k < state.tool_calls@.len() ==> (#[trigger] state.tool_calls@[k]).tool_type@ == "function"@,
        ensures
            answer_is(res, streamed_content(state.content@), state.tool_calls@.map_values(|tc: ToolCall| call_view(tc))),
    {
        let mut calls: Vec<ToolCall> = Vec::new();
        for i in 0..state.tool_calls.len()
            invariant
                calls@ == state.tool_calls@.take(i as int),
        {
            calls.push(state.tool_calls[i].clone());
            assert(state.tool_calls@.take(i + 1) =~= state.tool_calls@.take(i as int).push(state.tool_calls@[i as int]));
        }
        assert(state.tool_calls@.take(state.tool_calls.len() as int) =~= state.tool_calls@);
        if calls.len() > 0 {
            let content = if state.content.as_str().is_empty() { None } else { Some(state.content.clone()) };
            assert(opt_view(content) == streamed_content(state.content@));
            assert(calls@.map_values(|tc: ToolCall| call_view(tc)) == state.tool_calls@.map_values(|tc: ToolCall| call_view(tc)));
            answer_message(content, calls)
        } else {
            assert(state.tool_calls@.len() == 0);
            let m = Message::assistant(state.content.as_str());
            assert(state.tool_calls@.map_values(|tc: ToolCall| call_view(tc)).len() == 0);
            assert(state.content@.len() == 0 ==> state.content@ =~= Seq::<char>::empty());
            m
        }
    }
}

} // verus!
