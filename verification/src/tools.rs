//! The agent's tools: what each is called, what it takes, the request it
//! makes and the text it answers with. Sending the requests and touching the
//! memory store happen in the caller.
use vstd::prelude::*;

use crate::json::{elements_view, field, get, json_str, lemma_array_view, lemma_object_view, members_view, object2, put, Json, JsonV};
use crate::text::{push_str, to_owned_string};

pub mod introspection;
pub mod memory_tools;
pub mod registry;
pub mod schedule;
pub mod spawn;
pub mod web_search;

verus! {

/// What a tool gives back.
#[derive(Debug)]
pub struct ToolOutput {
    pub content: String,
    pub metadata: Option<Json>,
}

impl ToolOutput {
    /// An output with text and no metadata.
    pub fn new(content: &str) -> (res: Self)
        ensures
            res.content@ == content@,
            res.metadata is None,
    {
        ToolOutput { content: to_owned_string(content), metadata: None }
    }

    /// The same output with metadata.
    pub fn with_metadata(self, metadata: Json) -> (res: Self)
        ensures
            res.content == self.content,
            res.metadata == Some(metadata),
    {
        let mut o = self;
        o.metadata = Some(metadata);
        o
    }
}

/// Why a tool failed, and whether trying again may help.
#[derive(Debug)]
pub struct ToolError {
    pub message: String,
    pub is_retryable: bool,
}

impl ToolError {
    /// A failure not worth retrying.
    pub fn new(message: &str) -> (res: Self)
        ensures
            res.message@ == message@,
            !res.is_retryable,
    {
        ToolError { message: to_owned_string(message), is_retryable: false }
    }

    /// A failure worth retrying.
    pub fn retryable(message: &str) -> (res: Self)
        ensures
            res.message@ == message@,
            res.is_retryable,
    {
        ToolError { message: to_owned_string(message), is_retryable: true }
    }

    /// How the failure reads: its message.
    pub fn to_text(&self) -> (res: String)
        ensures
            res@ == self.message@,
    {
        self.message.clone()
    }
}

/// How an HTTP request a tool made went.
#[derive(Debug)]
pub enum HttpOutcome {
    /// The server accepted it.
    Accepted,
    /// The server could not be reached (the transport's error).
    Unreachable(String),
    /// The server answered with an error status (as text) and a body.
    Rejected { status: String, body: String },
}

/// A JSON string schema with a description.
pub open spec fn typed(ty: Seq<char>, description: Seq<char>) -> JsonV {
    JsonV::Object(seq![("type"@, JsonV::Str(ty)), ("description"@, JsonV::Str(description))])
}

/// `{"type": ty, "description": description}`.
pub fn typed_json(ty: &str, description: &str) -> (res: Json)
    ensures
        res.view_json() == typed(ty@, description@),
{
    object2("type", json_str(ty), "description", json_str(description))
}

/// A JSON array of strings.
pub open spec fn str_array(items: Seq<Seq<char>>) -> JsonV {
    JsonV::Array(items.map_values(|s: Seq<char>| JsonV::Str(s)))
}

/// `[a]`.
pub fn str_array1(a: &str) -> (res: Json)
    ensures
        res.view_json() == str_array(seq![a@]),
{
    let mut v: Vec<Json> = Vec::new();
    v.push(json_str(a));
    proof {
        lemma_array_view(v);
        assert(elements_view(v@) =~= seq![a@].map_values(|s: Seq<char>| JsonV::Str(s)));
    }
    Json::Array(v)
}

/// `[a, b]`.
pub fn str_array2(a: &str, b: &str) -> (res: Json)
    ensures
        res.view_json() == str_array(seq![a@, b@]),
{
    let mut v: Vec<Json> = Vec::new();
    v.push(json_str(a));
    v.push(json_str(b));
    proof {
        lemma_array_view(v);
        assert(elements_view(v@) =~= seq![a@, b@].map_values(|s: Seq<char>| JsonV::Str(s)));
    }
    Json::Array(v)
}

/// The schema object with these properties and, when given, required names.
pub fn object_schema_json(properties: Vec<(String, Json)>, required: Option<Json>) -> (res: Json)
    ensures
        res.view_json() == JsonV::Object(
            seq![("type"@, JsonV::Str("object"@)), ("properties"@, JsonV::Object(members_view(properties@)))]
                + match required {
                    Some(r) => seq![("required"@, r.view_json())],
                    None => Seq::empty(),
                }),
{
    let mut m: Vec<(String, Json)> = Vec::new();
    put(&mut m, "type", json_str("object"));
    proof {
        lemma_object_view(properties);
    }
    put(&mut m, "properties", Json::Object(properties));
    let ghost base = members_view(m@);
    match required {
        Some(r) => {
            put(&mut m, "required", r);
        },
        None => {},
    }
    proof {
        lemma_object_view(m);
    }
    let res = Json::Object(m);
    assert(res.view_json()->Object_0 =~= seq![("type"@, JsonV::Str("object"@)), ("properties"@, JsonV::Object(members_view(properties@)))]
        + match required {
            Some(r) => seq![("required"@, r.view_json())],
            None => Seq::empty(),
        });
    res
}

} // verus!
