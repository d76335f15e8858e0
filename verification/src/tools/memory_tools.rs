//! The memory tools: write, read, list, search and delete entries of the
//! memory store. The store itself is reached by the caller.
use vstd::prelude::*;

use super::{object_schema_json, str_array, str_array1, str_array2, typed, typed_json, ToolError, ToolOutput};
use crate::clock::{format_utc, utc_text};
use crate::json::{array_of, as_array, as_str, as_u64, field, get, json_str, lemma_object_view, members_view, object2, object3, put, str_of, u64_of, Json, JsonNumber, JsonV};
use crate::memory::{MemoryEntry, Metadata};
use crate::text::{clip_text, clippable_at, clipped_at, join, nat_decimal, push_str, seq_join, string_views, to_owned_string, u64_to_decimal};

verus! {

/// The texts among some JSON values, in order.
pub open spec fn texts_of(vs: Seq<Json>) -> Seq<Seq<char>>
    decreases vs.len(),
{
    if vs.len() == 0 {
        Seq::empty()
    } else {
        let prev = texts_of(vs.drop_last());
        match vs.last() {
            Json::Str(s) => prev.push(s@),
            _ => prev,
        }
    }
}

/// A required text argument.
fn required_text(args: &Json, key: &str, missing: &str) -> (res: Result<String, ToolError>)
    ensures
        match str_of(field(*args, key@)) {
            Some(s) => res matches Ok(t) && t@ == s,
            None => res matches Err(e) && e.message@ == missing@ && !e.is_retryable,
        },
{
    match as_str(get(args, key)) {
        Some(s) => Ok(to_owned_string(s)),
        None => Err(ToolError::new(missing)),
    }
}

/// `<prefix><text>` as a tool failure.
fn failure(prefix: &str, text: &str) -> (res: ToolError)
    ensures
        res.message@ == prefix@ + text@,
        !res.is_retryable,
{
    let mut t = to_owned_string(prefix);
    push_str(&mut t, text);
    ToolError::new(t.as_str())
}

/// `<prefix><text>` as a tool output.
fn reply(prefix: &str, text: &str) -> (res: ToolOutput)
    ensures
        res.content@ == prefix@ + text@,
        res.metadata is None,
{
    let mut t = to_owned_string(prefix);
    push_str(&mut t, text);
    ToolOutput::new(t.as_str())
}

/// A write the model asked for.
#[derive(Debug)]
pub struct WriteRequest {
    pub key: String,
    pub content: String,
    pub metadata: Option<Metadata>,
}

/// The `memory_write` tool.
#[derive(Debug)]
pub struct WriteMemoryTool;

impl WriteMemoryTool {
    /// The tool's name.
    pub fn name(&self) -> (res: &'static str)
        ensures
            res@ == "memory_write"@,
    {
        "memory_write"
    }

    /// What the tool does.
    pub fn description(&self) -> (res: &'static str)
        ensures
            res@ == "Write content to persistent memory storage. Use this to save notes, facts, or any information you want to remember across conversations."@,
    {
        "Write content to persistent memory storage. Use this to save notes, facts, or any information you want to remember across conversations."
    }

    /// The tool changes the store.
    pub fn is_read_only(&self) -> (res: bool)
        ensures
            !res,
    {
        false
    }

    /// The arguments: a `key` and `content` (both required) and optional `tags`.
    pub fn parameters_schema(&self) -> (res: Json)
        ensures
            res.view_json() == JsonV::Object(seq![
                ("type"@, JsonV::Str("object"@)),
                ("properties"@, JsonV::Object(seq![
                    ("key"@, typed("string"@, "Unique identifier for this memory entry (e.g., 'user_preferences', 'project_notes')"@)),
                    ("content"@, typed("string"@, "The content to store"@)),
                    ("tags"@, JsonV::Object(seq![
                        ("type"@, JsonV::Str("array"@)),
                        ("items"@, JsonV::Object(seq![("type"@, JsonV::Str("string"@))])),
                        ("description"@, JsonV::Str("Optional tags for categorization and search"@)),
                    ])),
                ])),
                ("required"@, str_array(seq!["key"@, "content"@])),
            ]),
    {
        let mut items: Vec<(String, Json)> = Vec::new();
        put(&mut items, "type", json_str("string"));
        proof {
            lemma_object_view(items);
        }
        let items_json = Json::Object(items);
        assert(items_json.view_json()->Object_0 =~= seq![("type"@, JsonV::Str("string"@))]);
        let mut props: Vec<(String, Json)> = Vec::new();
        put(&mut props, "key", typed_json("string", "Unique identifier for this memory entry (e.g., 'user_preferences', 'project_notes')"));
        put(&mut props, "content", typed_json("string", "The content to store"));
        put(&mut props, "tags", object3(
            "type", json_str("array"),
            "items", items_json,
            "description", json_str("Optional tags for categorization and search"),
        ));
        let ghost pv = members_view(props@);
        assert(pv =~= seq![
            ("key"@, typed("string"@, "Unique identifier for this memory entry (e.g., 'user_preferences', 'project_notes')"@)),
            ("content"@, typed("string"@, "The content to store"@)),
            ("tags"@, JsonV::Object(seq![
                ("type"@, JsonV::Str("array"@)),
                ("items"@, JsonV::Object(seq![("type"@, JsonV::Str("string"@))])),
                ("description"@, JsonV::Str("Optional tags for categorization and search"@)),
            ])),
        ]);
        let res = object_schema_json(props, Some(str_array2("key", "content")));
        assert(res.view_json()->Object_0 =~= seq![
            ("type"@, JsonV::Str("object"@)),
            ("properties"@, JsonV::Object(pv)),
            ("required"@, str_array(seq!["key"@, "content"@])),
        ]);
        res
    }

    /// The write `args` ask for: `key` and `content` are required; the text
    /// `tags` become its metadata when there are any.
    pub fn execute(&self, args: &Json) -> (res: Result<WriteRequest, ToolError>)
        ensures
            str_of(field(*args, "key"@)) is None ==> (res matches Err(e) && e.message@ == "Missing required parameter: key"@),
            str_of(field(*args, "key"@)) is Some && str_of(field(*args, "content"@)) is None
                ==> (res matches Err(e) && e.message@ == "Missing required parameter: content"@),
            (str_of(field(*args, "key"@)) matches Some(k) && str_of(field(*args, "content"@)) matches Some(c)) ==> ({
                let tags = match array_of(field(*args, "tags"@)) { Some(a) => texts_of(a), None => Seq::empty() };
                res matches Ok(w) && w.key@ == str_of(field(*args, "key"@))->0 && w.content@ == str_of(field(*args, "content"@))->0
                    && (tags.len() == 0 ==> w.metadata is None)
                    && (tags.len() > 0 ==> (w.metadata matches Some(m) && string_views(m.tags@) == tags && m.source is None))
            }),
    {
        let key = match required_text(args, "key", "Missing required parameter: key") {
            Ok(k) => k,
            Err(e) => { return Err(e); },
        };
        let content = match required_text(args, "content", "Missing required parameter: content") {
            Ok(c) => c,
            Err(e) => { return Err(e); },
        };
        let mut tags: Vec<String> = Vec::new();
        if let Some(arr) = as_array(get(args, "tags")) {
            for i in 0..arr.len()
                invariant
                    string_views(tags@) == texts_of(arr@.take(i as int)),
            {
                let ghost prev = tags@;
                assert(arr@.take(i + 1).drop_last() =~= arr@.take(i as int));
                match &arr[i] {
                    Json::Str(s) => {
                        tags.push(s.clone());
                        assert(string_views(tags@) =~= string_views(prev).push(s@));
                    },
                    _ => {},
                }
            }
            assert(arr@.take(arr.len() as int) =~= arr@);
        }
        let metadata = if tags.len() == 0 { None } else { Some(Metadata { tags, source: None }) };
        Ok(WriteRequest { key, content, metadata })
    }

    /// The answer once the write was attempted.
    pub fn finish(request: &WriteRequest, outcome: Result<(), String>) -> (res: Result<ToolOutput, ToolError>)
        ensures
            match outcome {
                Ok(_) => res matches Ok(o) && o.content@ == "Successfully saved memory entry: "@ + request.key@,
                Err(e) => res matches Err(err) && err.message@ == "Failed to write memory: "@ + e@,
            },
    {
        match outcome {
            Ok(_) => Ok(reply("Successfully saved memory entry: ", request.key.as_str())),
            Err(e) => Err(failure("Failed to write memory: ", e.as_str())),
        }
    }
}

/// The lines that show an entry read back.
pub open spec fn entry_lines(e: MemoryEntry) -> Seq<Seq<char>> {
    seq!["Key: "@ + e.key@]
        + (match e.metadata {
            Some(m) => if m.tags@.len() > 0 { seq!["Tags: "@ + seq_join(string_views(m.tags@), ", "@)] } else { Seq::empty() },
            None => Seq::empty(),
        })
        + seq![
            "Created: "@ + utc_text(e.created_at.secs, e.created_at.nanos),
            "Updated: "@ + utc_text(e.updated_at.secs, e.updated_at.nanos),
            Seq::empty(),
            e.content@,
        ]
}

/// The `memory_read` tool.
#[derive(Debug)]
pub struct ReadMemoryTool;

impl ReadMemoryTool {
    /// The tool's name.
    pub fn name(&self) -> (res: &'static str)
        ensures
            res@ == "memory_read"@,
    {
        "memory_read"
    }

    /// What the tool does.
    pub fn description(&self) -> (res: &'static str)
        ensures
            res@ == "Read content from persistent memory storage by key. Use this to retrieve previously saved information."@,
    {
        "Read content from persistent memory storage by key. Use this to retrieve previously saved information."
    }

    /// The tool only reads.
    pub fn is_read_only(&self) -> (res: bool)
        ensures
            res,
    {
        true
    }

    /// The arguments: the `key` to read (required).
    pub fn parameters_schema(&self) -> (res: Json)
        ensures
            res.view_json() == JsonV::Object(seq![
                ("type"@, JsonV::Str("object"@)),
                ("properties"@, JsonV::Object(seq![("key"@, typed("string"@, "The key of the memory entry to read"@))])),
                ("required"@, str_array(seq!["key"@])),
            ]),
    {
        let mut props: Vec<(String, Json)> = Vec::new();
        put(&mut props, "key", typed_json("string", "The key of the memory entry to read"));
        let ghost pv = members_view(props@);
        assert(pv =~= seq![("key"@, typed("string"@, "The key of the memory entry to read"@))]);
        let res = object_schema_json(props, Some(str_array1("key")));
        assert(res.view_json()->Object_0 =~= seq![
            ("type"@, JsonV::Str("object"@)),
            ("properties"@, JsonV::Object(pv)),
            ("required"@, str_array(seq!["key"@])),
        ]);
        res
    }

    /// The key `args` ask for.
    pub fn execute(&self, args: &Json) -> (res: Result<String, ToolError>)
        ensures
            match str_of(field(*args, "key"@)) {
                Some(k) => res matches Ok(t) && t@ == k,
                None => res matches Err(e) && e.message@ == "Missing required parameter: key"@,
            },
    {
        required_text(args, "key", "Missing required parameter: key")
    }

    /// The answer once the entry was looked up: the entry's key, tags, times
    /// and content; a note when there is none; or the failure.
    pub fn finish(key: &str, outcome: Result<Option<MemoryEntry>, String>) -> (res: Result<ToolOutput, ToolError>)
        ensures
            match outcome {
                Ok(Some(e)) => res matches Ok(o) && o.content@ == seq_join(entry_lines(e), "\n"@),
                Ok(None) => res matches Ok(o) && o.content@ == "No memory entry found for key: "@ + key@,
                Err(e) => res matches Err(err) && err.message@ == "Failed to read memory: "@ + e@,
            },
    {
        match outcome {
            Ok(Some(e)) => {
                let mut lines: Vec<String> = Vec::new();
                let mut l = to_owned_string("Key: ");
                push_str(&mut l, e.key.as_str());
                lines.push(l);
                if let Some(m) = &e.metadata {
                    if m.tags.len() > 0 {
                        let mut t = to_owned_string("Tags: ");
                        let joined = join(&m.tags, ", ");
                        push_str(&mut t, joined.as_str());
                        lines.push(t);
                    }
                }
                let mut c = to_owned_string("Created: ");
                let cs = format_utc(e.created_at);
                push_str(&mut c, cs.as_str());
                lines.push(c);
                let mut u = to_owned_string("Updated: ");
                let us = format_utc(e.updated_at);
                push_str(&mut u, us.as_str());
                lines.push(u);
                lines.push(String::new());
                lines.push(e.content);
                assert(string_views(lines@) =~= entry_lines(e));
                let text = join(&lines, "\n");
                Ok(ToolOutput::new(text.as_str()))
            },
            Ok(None) => Ok(reply("No memory entry found for key: ", key)),
            Err(e) => Err(failure("Failed to read memory: ", e.as_str())),
        }
    }
}

/// The `memory_list` tool.
#[derive(Debug)]
pub struct ListMemoryTool;

impl ListMemoryTool {
    /// The tool's name.
    pub fn name(&self) -> (res: &'static str)
        ensures
            res@ == "memory_list"@,
    {
        "memory_list"
    }

    /// What the tool does.
    pub fn description(&self) -> (res: &'static str)
        ensures
            res@ == "List all memory entries, optionally filtered by prefix. Use this to see what information is stored."@,
    {
        "List all memory entries, optionally filtered by prefix. Use this to see what information is stored."
    }

    /// The tool only reads.
    pub fn is_read_only(&self) -> (res: bool)
        ensures
            res,
    {
        true
    }

    /// The arguments: an optional `prefix`.
    pub fn parameters_schema(&self) -> (res: Json)
        ensures
            res.view_json() == JsonV::Object(seq![
                ("type"@, JsonV::Str("object"@)),
                ("properties"@, JsonV::Object(seq![("prefix"@, typed("string"@, "Optional prefix to filter memory keys"@))])),
            ]),
    {
        let mut props: Vec<(String, Json)> = Vec::new();
        put(&mut props, "prefix", typed_json("string", "Optional prefix to filter memory keys"));
        let ghost pv = members_view(props@);
        assert(pv =~= seq![("prefix"@, typed("string"@, "Optional prefix to filter memory keys"@))]);
        let res = object_schema_json(props, None);
        assert(res.view_json()->Object_0 =~= seq![
            ("type"@, JsonV::Str("object"@)),
            ("properties"@, JsonV::Object(pv)),
        ]);
        res
    }

    /// The prefix `args` give, if any.
    pub fn execute<'a>(&self, args: &'a Json) -> (res: Option<&'a str>)
        ensures
            match res {
                Some(p) => str_of(field(*args, "prefix"@)) == Some(p@),
                None => str_of(field(*args, "prefix"@)) is None,
            },
    {
        as_str(get(args, "prefix"))
    }

    /// The answer once the keys were listed.
    pub fn finish(outcome: Result<Vec<String>, String>) -> (res: Result<ToolOutput, ToolError>)
        ensures
            match outcome {
                Ok(keys) => res matches Ok(o) && o.content@ == if keys@.len() == 0 {
                    "No memory entries found."@
                } else {
                    "Memory entries ("@ + nat_decimal(keys@.len()) + " total):\n"@ + seq_join(string_views(keys@), "\n"@)
                },
                Err(e) => res matches Err(err) && err.message@ == "Failed to list memory: "@ + e@,
            },
    {
        match outcome {
            Ok(keys) => {
                if keys.len() == 0 {
                    Ok(ToolOutput::new("No memory entries found."))
                } else {
                    let mut t = to_owned_string("Memory entries (");
                    let n = u64_to_decimal(keys.len() as u64);
                    push_str(&mut t, n.as_str());
                    push_str(&mut t, " total):\n");
                    let joined = join(&keys, "\n");
                    push_str(&mut t, joined.as_str());
                    Ok(ToolOutput::new(t.as_str()))
                }
            },
            Err(e) => Err(failure("Failed to list memory: ", e.as_str())),
        }
    }
}

/// The lines that show search hit `i` (counted from 1).
pub open spec fn hit_lines(e: MemoryEntry, n: nat) -> Seq<Seq<char>> {
    seq!["\n["@ + nat_decimal(n) + "] Key: "@ + e.key@]
        + (match e.metadata {
            Some(m) => if m.tags@.len() > 0 { seq!["    Tags: "@ + seq_join(string_views(m.tags@), ", "@)] } else { Seq::empty() },
            None => Seq::empty(),
        })
        + seq!["    Preview: "@ + clipped_at(e.content@, 200)]
}

/// The lines of the hits, numbered from 1.
pub open spec fn hits_lines(es: Seq<MemoryEntry>) -> Seq<Seq<char>>
    decreases es.len(),
{
    if es.len() == 0 {
        Seq::empty()
    } else {
        hits_lines(es.drop_last()) + hit_lines(es.last(), es.len())
    }
}

/// The answer a search with hits `es` gives: a heading, then each hit.
pub open spec fn search_answer(query: Seq<char>, es: Seq<MemoryEntry>) -> Seq<char> {
    seq_join(seq!["Search results for '"@ + query + "':"@] + hits_lines(es), "\n"@)
}

/// The entry carries at least one tag.
pub open spec fn has_tags(e: MemoryEntry) -> bool {
    match e.metadata {
        Some(m) => m.tags@.len() > 0,
        None => false,
    }
}

/// How many lines a hit takes: its key line, a tags line when it has tags,
/// and its preview line.
pub open spec fn hit_size(e: MemoryEntry) -> int {
    if has_tags(e) { 3 } else { 2 }
}

/// From line `a` on, `lines` show hit number `n` (counted from 1) for entry
/// `e`: its key, then its tags when it has any, then the preview of its content.
pub open spec fn shows_hit(lines: Seq<Seq<char>>, a: int, e: MemoryEntry, n: nat) -> bool {
    &&& 0 <= a && a + hit_size(e) <= lines.len()
    &&& lines[a] == "\n["@ + nat_decimal(n) + "] Key: "@ + e.key@
    &&& match e.metadata {
        Some(m) => m.tags@.len() > 0 ==> lines[a + 1] == "    Tags: "@ + seq_join(string_views(m.tags@), ", "@),
        None => true,
    }
    &&& lines[a + hit_size(e) - 1] == "    Preview: "@ + clipped_at(e.content@, 200)
}

/// Line `at[k]` of `lines` starts hit `k` (numbered `k + 1`), one hit after
/// another.
pub open spec fn hit_blocks(lines: Seq<Seq<char>>, at: Seq<int>, es: Seq<MemoryEntry>) -> bool {
    &&& at.len() == es.len()
    &&& forall|k: int| 0 <= k < es.len() ==> shows_hit(lines, at[k], #[trigger] es[k], (k + 1) as nat)
    &&& forall|k1: int, k2: int| 0 <= k1 < k2 < es.len() ==> #[trigger] at[k1] + hit_size(es[k1]) <= #[trigger] at[k2]
}

proof fn lemma_hits_lines_block(es: Seq<MemoryEntry>, k: int)
    requires
        0 <= k < es.len(),
    ensures
        ({
            let o = hits_lines(es.take(k)).len() as int;
            &&& o + hit_size(es[k]) == hits_lines(es.take(k + 1)).len()
            &&& hits_lines(es.take(k + 1)).len() <= hits_lines(es).len()
            &&& shows_hit(hits_lines(es), o, es[k], (k + 1) as nat)
        }),
    decreases es.len(),
{
    let init = es.drop_last();
    let l0 = hits_lines(init);
    assert(hits_lines(es) == l0 + hit_lines(es.last(), es.len()));
    if k < init.len() {
        lemma_hits_lines_block(init, k);
        assert(es.take(k) =~= init.take(k));
        assert(es.take(k + 1) =~= init.take(k + 1));
        assert(init[k] == es[k]);
        let o = hits_lines(es.take(k)).len() as int;
        let e = es[k];
        assert(hits_lines(es)[o] == l0[o]);
        assert(hits_lines(es)[o + 1] == l0[o + 1]);
        assert(hits_lines(es)[o + hit_size(e) - 1] == l0[o + hit_size(e) - 1]);
    } else {
        assert(es.take(k) =~= init);
        assert(es.take(k + 1) =~= es);
        assert(init.take(k) =~= init);
        let e = es[k];
        assert(hits_lines(es.take(k + 1)) == l0 + hit_lines(e, es.len()));
    }
}

/// A search with hits shows every hit, in order: its answer is made of
/// lines in which hit `k` has its own block, numbered `k + 1`, with the hit's
/// key, its tags when it has any, and the preview of its content, one block
/// after another.
pub proof fn lemma_every_hit_shown(query: Seq<char>, es: Seq<MemoryEntry>)
    ensures
        exists|lines: Seq<Seq<char>>, at: Seq<int>|
            search_answer(query, es) == seq_join(lines, "\n"@) && #[trigger] hit_blocks(lines, at, es),
{
    let head = seq!["Search results for '"@ + query + "':"@];
    let lines = head + hits_lines(es);
    let at = Seq::new(es.len(), |k: int| (head.len() + hits_lines(es.take(k)).len()) as int);
    assert(hit_blocks(lines, at, es)) by {
        assert forall|k: int| 0 <= k < es.len() implies shows_hit(lines, at[k], #[trigger] es[k], (k + 1) as nat) by {
            lemma_hits_lines_block(es, k);
            let o = hits_lines(es.take(k)).len() as int;
            let e = es[k];
            assert(lines[1 + o] == hits_lines(es)[o]);
            assert(lines[1 + o + 1] == hits_lines(es)[o + 1]);
            assert(lines[1 + o + hit_size(e) - 1] == hits_lines(es)[o + hit_size(e) - 1]);
        }
        assert forall|k1: int, k2: int| 0 <= k1 < k2 < es.len() implies #[trigger] at[k1] + hit_size(es[k1]) <= #[trigger] at[k2] by {
            let s2 = es.take(k2);
            lemma_hits_lines_block(s2, k1);
            assert(s2.take(k1) =~= es.take(k1));
            assert(s2.take(k1 + 1) =~= es.take(k1 + 1));
            assert(s2[k1] == es[k1]);
        }
    }
    assert(search_answer(query, es) == seq_join(lines, "\n"@));
}

/// Every hit's content can be previewed.
pub open spec fn previewable(es: Seq<MemoryEntry>) -> bool {
    forall|i: int| 0 <= i < es.len() ==> clippable_at((#[trigger] es[i]).content@, 200)
}

/// A search the model asked for.
#[derive(Debug)]
pub struct SearchRequest {
    pub query: String,
    pub limit: usize,
}

/// The `memory_search` tool.
#[derive(Debug)]
pub struct SearchMemoryTool;

impl SearchMemoryTool {
    /// The tool's name.
    pub fn name(&self) -> (res: &'static str)
        ensures
            res@ == "memory_search"@,
    {
        "memory_search"
    }

    /// What the tool does.
    pub fn description(&self) -> (res: &'static str)
        ensures
            res@ == "Search memory entries using ripgrep. Supports both literal text and regex patterns. Use literal search for exact phrases like 'user authentication'. Use regex patterns like 'async\\s+fn\\s+\\w+' or 'error_\\d+' for flexible matching. Search is case-insensitive by default. The query is automatically interpreted as regex if valid, otherwise as literal text."@,
    {
        "Search memory entries using ripgrep. Supports both literal text and regex patterns. Use literal search for exact phrases like 'user authentication'. Use regex patterns like 'async\\s+fn\\s+\\w+' or 'error_\\d+' for flexible matching. Search is case-insensitive by default. The query is automatically interpreted as regex if valid, otherwise as literal text."
    }

    /// The tool only reads.
    pub fn is_read_only(&self) -> (res: bool)
        ensures
            res,
    {
        true
    }

    /// The arguments: the `query` (required) and a `limit`.
    pub fn parameters_schema(&self) -> (res: Json)
        ensures
            res.view_json() == JsonV::Object(seq![
                ("type"@, JsonV::Str("object"@)),
                ("properties"@, JsonV::Object(seq![
                    ("query"@, typed("string"@, "Search query to match against keys, tags, and content"@)),
                    ("limit"@, JsonV::Object(seq![
                        ("type"@, JsonV::Str("number"@)),
                        ("description"@, JsonV::Str("Maximum number of results to return"@)),
                        ("default"@, JsonV::Number(JsonNumber::PosInt(10))),
                    ])),
                ])),
                ("required"@, str_array(seq!["query"@])),
            ]),
    {
        let mut props: Vec<(String, Json)> = Vec::new();
        put(&mut props, "query", typed_json("string", "Search query to match against keys, tags, and content"));
        put(&mut props, "limit", object3(
            "type", json_str("number"),
            "description", json_str("Maximum number of results to return"),
            "default", Json::Number(JsonNumber::PosInt(10)),
        ));
        let ghost pv = members_view(props@);
        assert(pv =~= seq![
            ("query"@, typed("string"@, "Search query to match against keys, tags, and content"@)),
            ("limit"@, JsonV::Object(seq![
                ("type"@, JsonV::Str("number"@)),
                ("description"@, JsonV::Str("Maximum number of results to return"@)),
                ("default"@, JsonV::Number(JsonNumber::PosInt(10))),
            ])),
        ]);
        let res = object_schema_json(props, Some(str_array1("query")));
        assert(res.view_json()->Object_0 =~= seq![
            ("type"@, JsonV::Str("object"@)),
            ("properties"@, JsonV::Object(pv)),
            ("required"@, str_array(seq!["query"@])),
        ]);
        res
    }

    /// The search `args` ask for: the `query` is required; the `limit` is 10
    /// when missing.
    pub fn execute(&self, args: &Json) -> (res: Result<SearchRequest, ToolError>)
        ensures
            match str_of(field(*args, "query"@)) {
                Some(q) => res matches Ok(r) && r.query@ == q
                    && r.limit == (match u64_of(field(*args, "limit"@)) { Some(n) => n, None => 10 }) as usize,
                None => res matches Err(e) && e.message@ == "Missing required parameter: query"@,
            },
    {
        let query = match required_text(args, "query", "Missing required parameter: query") {
            Ok(q) => q,
            Err(e) => { return Err(e); },
        };
        let limit = match as_u64(get(args, "limit")) { Some(n) => n, None => 10 } as usize;
        Ok(SearchRequest { query, limit })
    }

    /// The answer once the search ran: each hit's key, tags and a preview of
    /// its content cut at 200 bytes; a note when nothing matched; or the failure.
    pub fn finish(query: &str, outcome: Result<Vec<MemoryEntry>, String>) -> (res: Result<ToolOutput, ToolError>)
        requires
            outcome matches Ok(es) ==> previewable(es@),
        ensures
            match outcome {
                Ok(es) => res matches Ok(o) && o.content@ == if es@.len() == 0 {
                    "No memory entries found matching query: "@ + query@
                } else {
                    search_answer(query@, es@)
                },
                Err(e) => res matches Err(err) && err.message@ == "Failed to search memory: "@ + e@,
            },
    {
        match outcome {
            Ok(es) => {
                if es.len() == 0 {
                    return Ok(reply("No memory entries found matching query: ", query));
                }
                let mut lines: Vec<String> = Vec::new();
                let mut h = to_owned_string("Search results for '");
                push_str(&mut h, query);
                push_str(&mut h, "':");
                lines.push(h);
                let ghost head = string_views(lines@);
                assert(head =~= seq!["Search results for '"@ + query@ + "':"@]);
                for i in 0..es.len()
                    invariant
                        previewable(es@),
                        string_views(lines@) == head + hits_lines(es@.take(i as int)),
                {
                    let e = &es[i];
                    let ghost before = string_views(lines@);
                    let n = u64_to_decimal((i + 1) as u64);
                    let mut l = to_owned_string("\n[");
                    push_str(&mut l, n.as_str());
                    push_str(&mut l, "] Key: ");
                    push_str(&mut l, e.key.as_str());
                    lines.push(l);
                    if let Some(m) = &e.metadata {
                        if m.tags.len() > 0 {
                            let mut t = to_owned_string("    Tags: ");
                            let joined = join(&m.tags, ", ");
                            push_str(&mut t, joined.as_str());
                            lines.push(t);
                        }
                    }
                    let preview = clip_text(e.content.as_str(), 200);
                    let mut p = to_owned_string("    Preview: ");
                    push_str(&mut p, preview.as_str());
                    lines.push(p);
                    assert(es@.take(i + 1).drop_last() =~= es@.take(i as int));
                    assert(es@.take(i + 1).len() == i + 1);
                    assert(string_views(lines@) =~= before + hit_lines(*e, (i + 1) as nat));
                }
                assert(es@.take(es.len() as int) =~= es@);
                let text = join(&lines, "\n");
                Ok(ToolOutput::new(text.as_str()))
            },
            Err(e) => Err(failure("Failed to search memory: ", e.as_str())),
        }
    }
}

/// The `memory_delete` tool.
#[derive(Debug)]
pub struct DeleteMemoryTool;

impl DeleteMemoryTool {
    /// The tool's name.
    pub fn name(&self) -> (res: &'static str)
        ensures
            res@ == "memory_delete"@,
    {
        "memory_delete"
    }

    /// What the tool does.
    pub fn description(&self) -> (res: &'static str)
        ensures
            res@ == "Delete a memory entry by key. Use this to remove outdated or incorrect information."@,
    {
        "Delete a memory entry by key. Use this to remove outdated or incorrect information."
    }

    /// The tool changes the store.
    pub fn is_read_only(&self) -> (res: bool)
        ensures
            !res,
    {
        false
    }

    /// The arguments: the `key` to delete (required).
    pub fn parameters_schema(&self) -> (res: Json)
        ensures
            res.view_json() == JsonV::Object(seq![
                ("type"@, JsonV::Str("object"@)),
                ("properties"@, JsonV::Object(seq![("key"@, typed("string"@, "The key of the memory entry to delete"@))])),
                ("required"@, str_array(seq!["key"@])),
            ]),
    {
        let mut props: Vec<(String, Json)> = Vec::new();
        put(&mut props, "key", typed_json("string", "The key of the memory entry to delete"));
        let ghost pv = members_view(props@);
        assert(pv =~= seq![("key"@, typed("string"@, "The key of the memory entry to delete"@))]);
        let res = object_schema_json(props, Some(str_array1("key")));
        assert(res.view_json()->Object_0 =~= seq![
            ("type"@, JsonV::Str("object"@)),
            ("properties"@, JsonV::Object(pv)),
            ("required"@, str_array(seq!["key"@])),
        ]);
        res
    }

    /// The key `args` ask to delete.
    pub fn execute(&self, args: &Json) -> (res: Result<String, ToolError>)
        ensures
            match str_of(field(*args, "key"@)) {
                Some(k) => res matches Ok(t) && t@ == k,
                None => res matches Err(e) && e.message@ == "Missing required parameter: key"@,
            },
    {
        required_text(args, "key", "Missing required parameter: key")
    }

    /// The answer once the delete was attempted.
    pub fn finish(key: &str, outcome: Result<(), String>) -> (res: Result<ToolOutput, ToolError>)
        ensures
            match outcome {
                Ok(_) => res matches Ok(o) && o.content@ == "Successfully deleted memory entry: "@ + key@,
                Err(e) => res matches Err(err) && err.message@ == "Failed to delete memory: "@ + e@,
            },
    {
        match outcome {
            Ok(_) => Ok(reply("Successfully deleted memory entry: ", key)),
            Err(e) => Err(failure("Failed to delete memory: ", e.as_str())),
        }
    }
}

} // verus!
