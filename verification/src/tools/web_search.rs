//! The `web_search` tool: a Tavily search and the text its results become.
use vstd::prelude::*;

use super::{object_schema_json, str_array, str_array1, typed, typed_json, ToolError, ToolOutput};
use crate::json::{as_str, as_u64, field, get, json_str, lemma_array_view, lemma_object_view, members_view, object3, put, str_of, u64_of, Json, JsonNumber, JsonV};
use crate::text::{join, nat_decimal, push_str, seq_join, string_views, to_owned_string, u64_to_decimal};

verus! {

/// The parameters of a search.
#[derive(Debug)]
pub struct WebSearchParams {
    pub query: String,
    pub search_depth: Option<String>,
    pub topic: Option<String>,
    pub days: Option<u32>,
    pub time_range: Option<String>,
    pub start_date: Option<String>,
    pub end_date: Option<String>,
    pub max_results: Option<u32>,
    pub include_images: Option<bool>,
    pub include_image_descriptions: Option<bool>,
    pub include_raw_content: Option<bool>,
    pub include_domains: Option<Vec<String>>,
    pub exclude_domains: Option<Vec<String>>,
    pub country: Option<String>,
    pub include_favicon: Option<bool>,
}

impl Default for WebSearchParams {
    fn default() -> (res: Self)
        ensures
            res.query@.len() == 0,
            res.search_depth matches Some(d) && d@ == "basic"@,
            res.topic matches Some(t) && t@ == "general"@,
            res.days == Some(3u32),
            res.time_range is None && res.start_date is None && res.end_date is None,
            res.max_results == Some(10u32),
            res.include_images == Some(false),
            res.include_image_descriptions == Some(false),
            res.include_raw_content == Some(false),
            res.include_domains is None && res.exclude_domains is None && res.country is None,
            res.include_favicon == Some(false),
    {
        WebSearchParams {
            query: String::new(),
            search_depth: Some(to_owned_string("basic")),
            topic: Some(to_owned_string("general")),
            days: Some(3),
            time_range: None,
            start_date: None,
            end_date: None,
            max_results: Some(10),
            include_images: Some(false),
            include_image_descriptions: Some(false),
            include_raw_content: Some(false),
            include_domains: None,
            exclude_domains: None,
            country: None,
            include_favicon: Some(false),
        }
    }
}

/// One search hit. `score_bits` holds the bits of the relevance score.
#[derive(Debug)]
pub struct WebSearchResult {
    pub title: String,
    pub url: String,
    pub content: String,
    pub score_bits: u64,
    pub published_date: Option<String>,
    pub raw_content: Option<String>,
    pub favicon: Option<String>,
}

/// An image found by a search.
#[derive(Debug)]
pub enum ImageResult {
    Simple(String),
    Detailed { url: String, description: Option<String> },
}

/// What a search found.
#[derive(Debug)]
pub struct WebSearchResponse {
    pub query: String,
    pub follow_up_questions: Option<Vec<String>>,
    pub answer: Option<String>,
    pub images: Option<Vec<ImageResult>>,
    pub results: Vec<WebSearchResult>,
}

/// The lines of one hit.
pub open spec fn result_lines(r: WebSearchResult) -> Seq<Seq<char>> {
    seq!["\nTitle: "@ + r.title@, "URL: "@ + r.url@, "Content: "@ + r.content@]
        + (match r.raw_content { Some(c) => seq!["Raw Content: "@ + c@], None => Seq::empty() })
        + (match r.favicon { Some(f) => seq!["Favicon: "@ + f@], None => Seq::empty() })
}

/// The lines of the hits, in order.
pub open spec fn results_lines(rs: Seq<WebSearchResult>) -> Seq<Seq<char>>
    decreases rs.len(),
{
    if rs.len() == 0 {
        Seq::empty()
    } else {
        results_lines(rs.drop_last()) + result_lines(rs.last())
    }
}

/// The lines of image `i` (counted from 1).
pub open spec fn image_lines(img: ImageResult, n: nat) -> Seq<Seq<char>> {
    match img {
        ImageResult::Simple(url) => seq!["\n["@ + nat_decimal(n) + "] URL: "@ + url@],
        ImageResult::Detailed { url, description } => seq!["\n["@ + nat_decimal(n) + "] URL: "@ + url@]
            + match description {
                Some(d) => seq!["   Description: "@ + d@],
                None => Seq::empty(),
            },
    }
}

/// The lines of the images, numbered from 1.
pub open spec fn images_lines(imgs: Seq<ImageResult>) -> Seq<Seq<char>>
    decreases imgs.len(),
{
    if imgs.len() == 0 {
        Seq::empty()
    } else {
        images_lines(imgs.drop_last()) + image_lines(imgs.last(), imgs.len())
    }
}

/// The text a search's results become.
pub open spec fn formatted_results(r: WebSearchResponse) -> Seq<char> {
    seq_join(
        (match r.answer { Some(a) => seq!["Answer: "@ + a@], None => Seq::empty() })
            + seq!["Detailed Results:"@]
            + results_lines(r.results@)
            + match r.images {
                Some(imgs) => if imgs@.len() > 0 { seq!["\nImages:"@] + images_lines(imgs@) } else { Seq::empty() },
                None => Seq::empty(),
            },
        "\n"@,
    )
}

fn push_line(lines: &mut Vec<String>, a: &str, b: &str)
    ensures
        string_views(final(lines)@) == string_views(old(lines)@).push(a@ + b@),
{
    let mut l = to_owned_string(a);
    push_str(&mut l, b);
    lines.push(l);
    assert(string_views(lines@) =~= string_views(old(lines)@).push(a@ + b@));
}

/// Searches the web through Tavily.
/// The members of the search tool's argument schema: an object with the
/// `query` (required) and how many results to return.
pub open spec fn search_schema() -> Seq<(Seq<char>, JsonV)> {
    seq![
        ("type"@, JsonV::Str("object"@)),
        ("properties"@, JsonV::Object(seq![
            ("query"@, typed("string"@, "The search query"@)),
            ("max_results"@, JsonV::Object(seq![
                ("type"@, JsonV::Str("number"@)),
                ("description"@, JsonV::Str("Maximum number of results to return (5-20)"@)),
                ("default"@, JsonV::Number(JsonNumber::PosInt(10))),
            ])),
        ])),
        ("required"@, str_array(seq!["query"@])),
    ]
}

#[derive(Debug)]
pub struct WebSearchTool {
    pub api_key: String,
    pub base_url: String,
}

impl WebSearchTool {
    /// A tool using `api_key` against the Tavily search endpoint.
    pub fn new(api_key: String) -> (res: Self)
        ensures
            res.api_key == api_key,
            res.base_url@ == "https://api.tavily.com/search"@,
    {
        WebSearchTool { api_key, base_url: to_owned_string("https://api.tavily.com/search") }
    }

    /// The tool's name.
    pub fn name(&self) -> (res: &'static str)
        ensures
            res@ == "web_search"@,
    {
        "web_search"
    }

    /// What the tool does.
    pub fn description(&self) -> (res: &'static str)
        ensures
            res@ == "Search the web for real-time information"@,
    {
        "Search the web for real-time information"
    }

    /// The tool only reads.
    pub fn is_read_only(&self) -> (res: bool)
        ensures
            res,
    {
        true
    }

    /// The arguments the tool takes: the `query` (required) and how many
    /// results to return.
    pub fn parameters_schema(&self) -> (res: Json)
        ensures
            res.view_json() == JsonV::Object(search_schema()),
    {
        let mut props: Vec<(String, Json)> = Vec::new();
        put(&mut props, "query", typed_json("string", "The search query"));
        put(&mut props, "max_results", object3(
            "type", json_str("number"),
            "description", json_str("Maximum number of results to return (5-20)"),
            "default", Json::Number(JsonNumber::PosInt(10)),
        ));
        let ghost pv = members_view(props@);
        assert(pv =~= seq![
            ("query"@, typed("string"@, "The search query"@)),
            ("max_results"@, JsonV::Object(seq![
                ("type"@, JsonV::Str("number"@)),
                ("description"@, JsonV::Str("Maximum number of results to return (5-20)"@)),
                ("default"@, JsonV::Number(JsonNumber::PosInt(10))),
            ])),
        ]);
        let res = object_schema_json(props, Some(str_array1("query")));
        assert(res.view_json()->Object_0 =~= seq![
            ("type"@, JsonV::Str("object"@)),
            ("properties"@, JsonV::Object(pv)),
            ("required"@, str_array(seq!["query"@])),
        ]);
        res
    }

    /// The search parameters for the tool's arguments: the `query` (empty when
    /// missing) and `max_results` (10 when missing, cut to 32 bits), the rest
    /// as by default.
    pub fn execute(&self, args: &Json) -> (res: WebSearchParams)
        ensures
            res.query@ == match str_of(field(*args, "query"@)) { Some(q) => q, None => Seq::empty() },
            res.max_results == Some((match u64_of(field(*args, "max_results"@)) { Some(n) => n, None => 10 }) as u32),
            res.search_depth matches Some(d) && d@ == "basic"@,
            res.topic matches Some(t) && t@ == "general"@,
            res.days == Some(3u32),
            res.country is None,
            res.time_range is None && res.start_date is None && res.end_date is None,
            res.include_images == Some(false),
            res.include_image_descriptions == Some(false),
            res.include_raw_content == Some(false),
            res.include_domains is None && res.exclude_domains is None,
            res.include_favicon == Some(false),
    {
        let query = match as_str(get(args, "query")) {
            Some(q) => to_owned_string(q),
            None => String::new(),
        };
        let max = match as_u64(get(args, "max_results")) {
            Some(n) => n,
            None => 10,
        };
        let mut p = WebSearchParams::default();
        p.query = query;
        p.max_results = Some(max as u32);
        p
    }

    /// The parameters as sent: with a country the topic becomes `general`.
    pub fn search(&self, params: WebSearchParams) -> (res: WebSearchParams)
        ensures
            params.country is Some ==> (res.topic matches Some(t) && t@ == "general"@),
            params.country is None ==> res.topic == params.topic,
            res.query == params.query && res.country == params.country && res.max_results == params.max_results,
    {
        let mut p = params;
        if p.country.is_some() {
            p.topic = Some(to_owned_string("general"));
        }
        p
    }

    /// The failure a reply's status means before its body is read: 401 is
    /// an invalid key and 429 an exhausted quota; any other status goes on
    /// to the body.
    pub fn check_status(status: u16) -> (res: Option<String>)
        ensures
            status == 401 ==> (res matches Some(e) && e@ == "Invalid API key"@),
            status == 429 ==> (res matches Some(e) && e@ == "Usage limit exceeded"@),
            status != 401 && status != 429 ==> res is None,
    {
        if status == 401 {
            Some(to_owned_string("Invalid API key"))
        } else if status == 429 {
            Some(to_owned_string("Usage limit exceeded"))
        } else {
            None
        }
    }

    /// The tool's answer: the formatted results, or the search's failure.
    pub fn respond(&self, outcome: Result<WebSearchResponse, String>) -> (res: Result<ToolOutput, ToolError>)
        ensures
            match outcome {
                Ok(r) => res matches Ok(o) && o.content@ == formatted_results(r),
                Err(e) => res matches Err(err) && !err.is_retryable && err.message@ == "Search failed: "@ + e@,
            },
    {
        match outcome {
            Ok(r) => {
                let text = self.format_results(&r);
                Ok(ToolOutput::new(text.as_str()))
            },
            Err(e) => {
                let mut t = to_owned_string("Search failed: ");
                push_str(&mut t, e.as_str());
                Err(ToolError::new(t.as_str()))
            },
        }
    }

    /// The text a search's results become: the direct answer if any, each
    /// hit's title, URL, content and optional raw content and favicon, and
    /// the images numbered from 1, one item per line.
    pub fn format_results(&self, response: &WebSearchResponse) -> (res: String)
        ensures
            res@ == formatted_results(*response),
    {
        let mut lines: Vec<String> = Vec::new();
        if let Some(a) = &response.answer {
            push_line(&mut lines, "Answer: ", a.as_str());
        }
        let ghost before_head = string_views(lines@);
        lines.push(to_owned_string("Detailed Results:"));
        assert(string_views(lines@) =~= before_head.push("Detailed Results:"@));
        let ghost head = string_views(lines@);
        assert(head =~= (match response.answer { Some(a) => seq!["Answer: "@ + a@], None => Seq::empty() }) + seq!["Detailed Results:"@]);
        for i in 0..response.results.len()
            invariant
                string_views(lines@) == head + results_lines(response.results@.take(i as int)),
        {
            let r = &response.results[i];
            let ghost before = string_views(lines@);
            push_line(&mut lines, "\nTitle: ", r.title.as_str());
            push_line(&mut lines, "URL: ", r.url.as_str());
            push_line(&mut lines, "Content: ", r.content.as_str());
            if let Some(c) = &r.raw_content {
                push_line(&mut lines, "Raw Content: ", c.as_str());
            }
            if let Some(f) = &r.favicon {
                push_line(&mut lines, "Favicon: ", f.as_str());
            }
            assert(response.results@.take(i + 1).drop_last() =~= response.results@.take(i as int));
            assert(string_views(lines@) =~= before + result_lines(*r));
        }
        assert(response.results@.take(response.results.len() as int) =~= response.results@);
        let ghost mid = string_views(lines@);
        if let Some(imgs) = &response.images {
            if imgs.len() > 0 {
                lines.push(to_owned_string("\nImages:"));
                assert(string_views(lines@) =~= mid.push("\nImages:"@));
                let ghost mid2 = string_views(lines@);
                assert(mid2 =~= mid.push("\nImages:"@));
                for i in 0..imgs.len()
                    invariant
                        string_views(lines@) == mid2 + images_lines(imgs@.take(i as int)),
                {
                    let ghost before = string_views(lines@);
                    let n = u64_to_decimal((i + 1) as u64);
                    let mut first = to_owned_string("\n[");
                    push_str(&mut first, n.as_str());
                    push_str(&mut first, "] URL: ");
                    match &imgs[i] {
                        ImageResult::Simple(url) => {
                            push_line(&mut lines, first.as_str(), url.as_str());
                        },
                        ImageResult::Detailed { url, description } => {
                            push_line(&mut lines, first.as_str(), url.as_str());
                            if let Some(d) = description {
                                push_line(&mut lines, "   Description: ", d.as_str());
                            }
                        },
                    }
                    assert(imgs@.take(i + 1).drop_last() =~= imgs@.take(i as int));
                    assert(imgs@.take(i + 1).len() == i + 1);
                    assert(string_views(lines@) =~= before + image_lines(imgs@[i as int], (i + 1) as nat));
                }
                assert(imgs@.take(imgs.len() as int) =~= imgs@);
            }
        }
        assert(string_views(lines@) =~= (match response.answer { Some(a) => seq!["Answer: "@ + a@], None => Seq::empty() })
            + seq!["Detailed Results:"@]
            + results_lines(response.results@)
            + match response.images {
                Some(imgs) => if imgs@.len() > 0 { seq!["\nImages:"@] + images_lines(imgs@) } else { Seq::empty() },
                None => Seq::empty(),
            });
        join(&lines, "\n")
    }
}

/// Line `at[k]` of `lines` opens result `k`'s block: its title, then its URL
/// and content on the next two lines; each block starts after the one before
/// ends.
pub open spec fn result_blocks(lines: Seq<Seq<char>>, at: Seq<int>, rs: Seq<WebSearchResult>) -> bool {
    &&& at.len() == rs.len()
    &&& forall|k: int| 0 <= k < rs.len() ==> {
        &&& 0 <= at[k] && at[k] + 2 < lines.len()
        &&& lines[at[k]] == "\nTitle: "@ + (#[trigger] rs[k]).title@
        &&& lines[at[k] + 1] == "URL: "@ + rs[k].url@
        &&& lines[at[k] + 2] == "Content: "@ + rs[k].content@
    }
    &&& forall|k1: int, k2: int| 0 <= k1 < k2 < rs.len() ==> #[trigger] at[k1] + 3 <= #[trigger] at[k2]
}

proof fn lemma_results_lines_block(rs: Seq<WebSearchResult>, k: int)
    requires
        0 <= k < rs.len(),
    ensures
        ({
            let o = results_lines(rs.take(k)).len() as int;
            &&& o + 3 <= results_lines(rs.take(k + 1)).len()
            &&& results_lines(rs.take(k + 1)).len() <= results_lines(rs).len()
            &&& results_lines(rs)[o] == "\nTitle: "@ + rs[k].title@
            &&& results_lines(rs)[o + 1] == "URL: "@ + rs[k].url@
            &&& results_lines(rs)[o + 2] == "Content: "@ + rs[k].content@
        }),
    decreases rs.len(),
{
    let init = rs.drop_last();
    let l0 = results_lines(init);
    assert(results_lines(rs) == l0 + result_lines(rs.last()));
    if k < init.len() {
        lemma_results_lines_block(init, k);
        assert(rs.take(k) =~= init.take(k));
        assert(rs.take(k + 1) =~= init.take(k + 1));
        assert(init[k] == rs[k]);
        let o = results_lines(rs.take(k)).len() as int;
        assert(results_lines(rs)[o] == l0[o]);
        assert(results_lines(rs)[o + 1] == l0[o + 1]);
        assert(results_lines(rs)[o + 2] == l0[o + 2]);
    } else {
        assert(rs.take(k) =~= init);
        assert(rs.take(k + 1) =~= rs);
    }
}

/// Every result of a search is shown, in order: the text is made of lines
/// in which each result has its own block (a `Title:` line with its title,
/// then its `URL:` and `Content:` lines), one block after another, so the
/// text holds as many result blocks as the response has results.
pub proof fn lemma_every_result_shown(r: WebSearchResponse)
    ensures
        exists|lines: Seq<Seq<char>>, at: Seq<int>|
            formatted_results(r) == seq_join(lines, "\n"@) && #[trigger] result_blocks(lines, at, r.results@),
{
    let rs = r.results@;
    let head = (match r.answer { Some(a) => seq!["Answer: "@ + a@], None => Seq::empty() }) + seq!["Detailed Results:"@];
    let tail = match r.images {
        Some(imgs) => if imgs@.len() > 0 { seq!["\nImages:"@] + images_lines(imgs@) } else { Seq::empty() },
        None => Seq::empty(),
    };
    let lines = head + results_lines(rs) + tail;
    let at = Seq::new(rs.len(), |k: int| (head.len() + results_lines(rs.take(k)).len()) as int);
    assert(result_blocks(lines, at, rs)) by {
        lemma_blocks_placed(head, rs, tail);
    }
    assert(formatted_results(r) == seq_join(lines, "\n"@));
}

proof fn lemma_blocks_placed(head: Seq<Seq<char>>, rs: Seq<WebSearchResult>, tail: Seq<Seq<char>>)
    ensures
        result_blocks(head + results_lines(rs) + tail,
            Seq::new(rs.len(), |k: int| (head.len() + results_lines(rs.take(k)).len()) as int), rs),
{
    let lines = head + results_lines(rs) + tail;
    let at = Seq::new(rs.len(), |k: int| (head.len() + results_lines(rs.take(k)).len()) as int);
    assert forall|k: int| 0 <= k < rs.len() implies {
        &&& 0 <= at[k] && at[k] + 2 < lines.len()
        &&& lines[at[k]] == "\nTitle: "@ + (#[trigger] rs[k]).title@
        &&& lines[at[k] + 1] == "URL: "@ + rs[k].url@
        &&& lines[at[k] + 2] == "Content: "@ + rs[k].content@
    } by {
        lemma_results_lines_block(rs, k);
        let o = results_lines(rs.take(k)).len() as int;
        assert(rs[k] == rs[k]);
        assert(lines[head.len() + o] == results_lines(rs)[o]);
        assert(lines[head.len() + o + 1] == results_lines(rs)[o + 1]);
        assert(lines[head.len() + o + 2] == results_lines(rs)[o + 2]);
    }
    assert forall|k1: int, k2: int| 0 <= k1 < k2 < rs.len() implies #[trigger] at[k1] + 3 <= #[trigger] at[k2] by {
        let s2 = rs.take(k2);
        lemma_results_lines_block(s2, k1);
        assert(s2.take(k1) =~= rs.take(k1));
        assert(s2.take(k1 + 1) =~= rs.take(k1 + 1));
        assert(s2[k1] == rs[k1]);
        assert(rs[k2] == rs[k2]);
    }
}

} // verus!
