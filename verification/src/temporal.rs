//! Scheduled agent sessions: how a schedule is described, the handle a
//! request to schedule is answered with, the book of cron jobs that can still
//! be cancelled, and the conversation a session starts with.
use vstd::prelude::*;

use crate::ai::session::Session;
use crate::ai::Tool;
use crate::message::Message;
use crate::clock::{is_uuid_v4_text, new_uuid_v4};
use crate::json::{lemma_object_view, members_view, Json, JsonV};
use crate::text::{push_str, str_eq, string_views, to_owned_string};
use crate::tools::web_search::{search_schema, WebSearchTool};

verus! {

/// What a scheduled session does: its name, the user message it sends, the
/// system prompt it runs under (a default when absent), and whether it may
/// search the web (with a Tavily key).
#[derive(Debug, Clone)]
pub struct ScheduleConfig {
    pub name: String,
    pub user_message: String,
    pub system_prompt: Option<String>,
    pub tools_enabled: bool,
    pub tavily_api_key: Option<String>,
}

/// A schedule by cron expression.
#[derive(Debug, Clone)]
pub struct CronSchedule {
    pub cron_expression: String,
}

/// A schedule after a delay, as whole seconds and the nanoseconds beyond them.
#[derive(Debug, Clone)]
pub struct DelayedSchedule {
    pub secs: u64,
    pub nanos: u32,
}

impl DelayedSchedule {
    /// The nanoseconds stay below one second, as in a `Duration`.
    pub open spec fn wf(self) -> bool {
        self.nanos < 1_000_000_000
    }
}

/// When a session runs.
#[derive(Debug, Clone)]
pub enum ScheduleType {
    Cron(CronSchedule),
    Delayed(DelayedSchedule),
    Immediate,
}

/// The answer to a request to schedule: the schedule's identifier, the
/// session's name and a description of when it runs.
#[derive(Debug, Clone)]
pub struct ScheduleHandle {
    pub id: String,
    pub name: String,
    pub schedule_type: String,
}

/// The identifier of a schedule made with the random identifier `uuid`.
pub open spec fn schedule_id_text(uuid: Seq<char>) -> Seq<char> {
    "agent-session-"@ + uuid
}

/// The identifier of a schedule made with the random identifier `uuid`.
pub fn schedule_id_for(uuid: &str) -> (res: String)
    ensures
        res@ == schedule_id_text(uuid@),
{
    let mut s = to_owned_string("agent-session-");
    push_str(&mut s, uuid);
    s
}

/// A fresh schedule identifier: the prefix and a random version-4 UUID.
pub fn new_schedule_id() -> (res: String)
    ensures
        exists|u: Seq<char>| is_uuid_v4_text(u) && res@ == schedule_id_text(u),
{
    let u = new_uuid_v4();
    schedule_id_for(u.as_str())
}

/// What `format!("{:?}", Duration::new(secs, nanos))` writes.
pub uninterp spec fn duration_debug_text(secs: u64, nanos: u32) -> Seq<char>;

/// The debug text of a duration: `format!("{:?}", Duration::new(secs, nanos))`.
///
/// Trusted: `Duration`'s `Debug` writes the same text for the same duration;
/// which unit and digits it picks is left to the name. With `nanos` below one
/// second `Duration::new` does not carry into the seconds, so it cannot panic.
#[verifier::external_body]
fn duration_debug(secs: u64, nanos: u32) -> (res: String)
    requires
        nanos < 1_000_000_000,
    ensures
        res@ == duration_debug_text(secs, nanos),
{
    format!("{:?}", std::time::Duration::new(secs, nanos))
}

/// How a delayed schedule is described, given the debug text of its delay.
pub fn delayed_label(delay_text: &str) -> (res: String)
    ensures
        res@ == "delayed ("@ + delay_text@ + ")"@,
{
    let mut s = to_owned_string("delayed (");
    push_str(&mut s, delay_text);
    push_str(&mut s, ")");
    s
}

/// How a cron schedule is described.
pub fn cron_label(expression: &str) -> (res: String)
    ensures
        res@ == "cron ("@ + expression@ + ")"@,
{
    let mut s = to_owned_string("cron (");
    push_str(&mut s, expression);
    push_str(&mut s, ")");
    s
}

/// How a schedule is described in its handle.
pub open spec fn kind_text(t: ScheduleType) -> Seq<char> {
    match t {
        ScheduleType::Immediate => "immediate"@,
        ScheduleType::Delayed(d) => "delayed ("@ + duration_debug_text(d.secs, d.nanos) + ")"@,
        ScheduleType::Cron(c) => "cron ("@ + c.cron_expression@ + ")"@,
    }
}

/// Whether a schedule is well formed (a delay keeps its nanoseconds below a
/// second).
pub open spec fn schedule_wf(t: ScheduleType) -> bool {
    match t {
        ScheduleType::Delayed(d) => d.wf(),
        _ => true,
    }
}

/// How a schedule is described in its handle.
pub fn schedule_kind_text(t: &ScheduleType) -> (res: String)
    requires
        schedule_wf(*t),
    ensures
        res@ == kind_text(*t),
{
    match t {
        ScheduleType::Immediate => to_owned_string("immediate"),
        ScheduleType::Delayed(d) => {
            let text = duration_debug(d.secs, d.nanos);
            delayed_label(text.as_str())
        },
        ScheduleType::Cron(c) => cron_label(c.cron_expression.as_str()),
    }
}

/// The handle for scheduling `config` as `t` under the identifier `id`.
pub fn schedule_handle(id: String, config: &ScheduleConfig, t: &ScheduleType) -> (res: ScheduleHandle)
    requires
        schedule_wf(*t),
    ensures
        res.id == id,
        res.name@ == config.name@,
        res.schedule_type@ == kind_text(*t),
{
    ScheduleHandle { id, name: config.name.clone(), schedule_type: schedule_kind_text(t) }
}

/// The system prompt a scheduled session runs under.
pub open spec fn session_prompt(config: ScheduleConfig) -> Seq<char> {
    match config.system_prompt {
        Some(p) => p@,
        None => "You are a helpful assistant with access to web search."@,
    }
}

/// A scheduled session may search the web: tools are on and a key is given.
pub open spec fn searches(config: ScheduleConfig) -> bool {
    config.tools_enabled && config.tavily_api_key is Some
}

/// The web search tool as offered to a model.
pub fn search_tool_spec(tool: &WebSearchTool) -> (res: Tool)
    ensures
        res.name@ == "web_search"@,
        res.description matches Some(d) && d@ == "Search the web for real-time information"@,
        members_view(res.input_schema@) == search_schema(),
{
    let schema = tool.parameters_schema();
    let members = match schema {
        Json::Object(m) => {
            proof {
                lemma_object_view(m);
            }
            m
        },
        _ => {
            assert(false);
            Vec::new()
        },
    };
    Tool {
        name: to_owned_string(tool.name()),
        description: Some(to_owned_string(tool.description())),
        input_schema: members,
    }
}

/// The conversation a scheduled session starts with: its system prompt, the
/// web search tool when it may search, and its user message.
pub fn agent_session(config: &ScheduleConfig) -> (res: Session)
    ensures
        res.system_prompt@ == session_prompt(*config),
        searches(*config) ==> res.tools@.len() == 1 && res.tools@[0].name@ == "web_search"@
            && members_view(res.tools@[0].input_schema@) == search_schema(),
        !searches(*config) ==> res.tools@.len() == 0,
        res.messages@.len() == 1,
        res.messages@[0].role == crate::message::MessageRole::User,
        res.messages@[0].content matches Some(c) && c@ == config.user_message@,
{
    let prompt = match &config.system_prompt {
        Some(p) => p.clone(),
        None => to_owned_string("You are a helpful assistant with access to web search."),
    };
    let mut session = Session::new().with_system_prompt(prompt.as_str());
    if config.tools_enabled {
        match &config.tavily_api_key {
            Some(key) => {
                let tool = WebSearchTool::new(key.clone());
                let mut tools: Vec<Tool> = Vec::new();
                tools.push(search_tool_spec(&tool));
                session = session.with_tools(tools);
            },
            None => {},
        }
    }
    session.add_user_message(config.user_message.as_str());
    session
}

/// The system prompt of a scheduled query.
pub open spec fn query_prompt() -> Seq<char> {
    "You are a helpful assistant with access to web search. Provide concise, relevant information for scheduled queries."@
}

/// The conversation a scheduled query runs: the query prompt, the web search
/// tool with `tavily_api_key`, and the query as the user's message.
pub fn query_session(query: &str, tavily_api_key: String) -> (res: Session)
    ensures
        res.system_prompt@ == query_prompt(),
        res.tools@.len() == 1 && res.tools@[0].name@ == "web_search"@
            && members_view(res.tools@[0].input_schema@) == search_schema(),
        res.messages@.len() == 1,
        res.messages@[0].role == crate::message::MessageRole::User,
        res.messages@[0].content matches Some(c) && c@ == query@,
{
    let tool = WebSearchTool::new(tavily_api_key);
    let mut tools: Vec<Tool> = Vec::new();
    tools.push(search_tool_spec(&tool));
    let mut session = Session::new()
        .with_system_prompt("You are a helpful assistant with access to web search. Provide concise, relevant information for scheduled queries.")
        .with_tools(tools);
    session.add_user_message(query);
    session
}

/// What a scheduled query reports: the answer's text, or a note that it had none.
pub fn query_result(answer: &Message) -> (res: String)
    ensures
        res@ == match answer.content {
            Some(c) => c@,
            None => "No response content"@,
        },
{
    match &answer.content {
        Some(c) => c.clone(),
        None => to_owned_string("No response content"),
    }
}

/// The cron jobs that can still be cancelled, each under its schedule
/// identifier, with no identifier twice.
#[derive(Debug)]
pub struct ActiveSchedules {
    pub entries: Vec<(String, u128)>,
}

/// The schedule identifiers of some entries.
pub open spec fn entry_ids(s: Seq<(String, u128)>) -> Seq<Seq<char>> {
    s.map_values(|e: (String, u128)| e.0@)
}

/// No identifier occurs twice.
pub open spec fn ids_unique(s: Seq<(String, u128)>) -> bool {
    forall|i: int, j: int| 0 <= i < j < s.len() ==> (#[trigger] s[i]).0@ != (#[trigger] s[j]).0@
}

/// The entries as a map from schedule identifier to job identifier.
pub open spec fn book(s: Seq<(String, u128)>) -> Map<Seq<char>, u128>
    decreases s.len(),
{
    if s.len() == 0 {
        Map::empty()
    } else {
        book(s.drop_last()).insert(s.last().0@, s.last().1)
    }
}

proof fn lemma_book_has(s: Seq<(String, u128)>)
    requires
        ids_unique(s),
    ensures
        forall|k: Seq<char>| #[trigger] book(s).dom().contains(k) <==> entry_ids(s).contains(k),
        forall|j: int| 0 <= j < s.len() ==> book(s)[(#[trigger] s[j]).0@] == s[j].1,
    decreases s.len(),
{
    if s.len() > 0 {
        let init = s.drop_last();
        assert forall|i: int, j: int| 0 <= i < j < init.len() implies (#[trigger] init[i]).0@ != (#[trigger] init[j]).0@ by {
            assert(init[i] == s[i] && init[j] == s[j]);
        }
        lemma_book_has(init);
        assert(entry_ids(s) =~= entry_ids(init).push(s.last().0@));
        assert(book(s) == book(init).insert(s.last().0@, s.last().1));
        assert forall|k: Seq<char>| #[trigger] book(s).dom().contains(k) <==> entry_ids(s).contains(k) by {
            if book(init).dom().contains(k) {
                assert(entry_ids(init).contains(k));
            }
            if entry_ids(s).contains(k) && k != s.last().0@ {
                let j = choose|j: int| 0 <= j < entry_ids(s).len() && entry_ids(s)[j] == k;
                assert(entry_ids(init)[j] == k);
            }
            if entry_ids(init).contains(k) {
                let j = choose|j: int| 0 <= j < entry_ids(init).len() && entry_ids(init)[j] == k;
                assert(entry_ids(s)[j] == k);
            }
            if k == s.last().0@ {
                assert(entry_ids(s)[s.len() - 1] == k);
            }
        }
        assert forall|j: int| 0 <= j < s.len() implies book(s)[(#[trigger] s[j]).0@] == s[j].1 by {
            if j < s.len() - 1 {
                assert(init[j] == s[j]);
                assert(s[j].0@ != s.last().0@);
            }
        }
    }
}

proof fn lemma_book_remove(s: Seq<(String, u128)>, i: int)
    requires
        ids_unique(s),
        0 <= i < s.len(),
    ensures
        book(s.remove(i)) == book(s).remove(s[i].0@),
        ids_unique(s.remove(i)),
    decreases s.len(),
{
    let r = s.remove(i);
    assert forall|a: int, b: int| 0 <= a < b < r.len() implies (#[trigger] r[a]).0@ != (#[trigger] r[b]).0@ by {
        let a2 = if a < i { a } else { a + 1 };
        let b2 = if b < i { b } else { b + 1 };
        assert(r[a] == s[a2] && r[b] == s[b2]);
    }
    let init = s.drop_last();
    assert forall|a: int, b: int| 0 <= a < b < init.len() implies (#[trigger] init[a]).0@ != (#[trigger] init[b]).0@ by {
        assert(init[a] == s[a] && init[b] == s[b]);
    }
    if i == s.len() - 1 {
        assert(r =~= init);
        lemma_book_has(init);
        assert(!entry_ids(init).contains(s.last().0@)) by {
            if entry_ids(init).contains(s.last().0@) {
                let j = choose|j: int| 0 <= j < entry_ids(init).len() && entry_ids(init)[j] == s.last().0@;
                assert(init[j] == s[j]);
            }
        }
        assert(book(s).remove(s[i].0@) =~= book(init));
    } else {
        lemma_book_remove(init, i);
        assert(r.drop_last() =~= init.remove(i));
        assert(r.last() == s.last());
        assert(s[i].0@ != s.last().0@);
        assert(init[i] == s[i]);
        assert(book(s).remove(s[i].0@) =~= book(init).remove(s[i].0@).insert(s.last().0@, s.last().1));
    }
}

/// The position of the entry for `id`, if any.
pub open spec fn entry_pos(s: Seq<(String, u128)>, id: Seq<char>) -> Option<int> {
    if exists|j: int| 0 <= j < s.len() && (#[trigger] s[j]).0@ == id {
        Some(choose|j: int| 0 <= j < s.len() && (#[trigger] s[j]).0@ == id)
    } else {
        None
    }
}

impl ActiveSchedules {
    /// The book as a map from schedule identifier to job identifier.
    pub open spec fn view(&self) -> Map<Seq<char>, u128> {
        book(self.entries@)
    }

    /// No identifier occurs twice.
    pub open spec fn wf(&self) -> bool {
        ids_unique(self.entries@)
    }

    /// An empty book.
    pub fn new() -> (res: Self)
        ensures
            res.wf(),
            res@ == Map::<Seq<char>, u128>::empty(),
    {
        ActiveSchedules { entries: Vec::new() }
    }

    fn find(&self, id: &str) -> (res: Option<usize>)
        ensures
            match res {
                Some(j) => j < self.entries@.len() && self.entries@[j as int].0@ == id@,
                None => forall|j: int| 0 <= j < self.entries@.len() ==> (#[trigger] self.entries@[j]).0@ != id@,
            },
    {
        for j in 0..self.entries.len()
            invariant
                forall|q: int| 0 <= q < j ==> (#[trigger] self.entries@[q]).0@ != id@,
        {
            if str_eq(self.entries[j].0.as_str(), id) {
                return Some(j);
            }
        }
        None
    }

    /// Takes the job of schedule `id` out of the book, if it is there.
    pub fn take(&mut self, id: &str) -> (res: Option<u128>)
        requires
            old(self).wf(),
        ensures
            final(self).wf(),
            final(self)@ == old(self)@.remove(id@),
            res == (if old(self)@.dom().contains(id@) { Some(old(self)@[id@]) } else { None }),
    {
        proof {
            lemma_book_has(self.entries@);
        }
        match self.find(id) {
            Some(j) => {
                let ghost before = self.entries@;
                let (_, job) = self.entries.remove(j);
                proof {
                    lemma_book_remove(before, j as int);
                    assert(entry_ids(before)[j as int] == id@);
                }
                Some(job)
            },
            None => {
                proof {
                    assert(!entry_ids(self.entries@).contains(id@)) by {
                        if entry_ids(self.entries@).contains(id@) {
                            let q = choose|q: int| 0 <= q < entry_ids(self.entries@).len() && entry_ids(self.entries@)[q] == id@;
                            assert(self.entries@[q].0@ == id@);
                        }
                    }
                    assert(self@.remove(id@) =~= self@);
                }
                None
            },
        }
    }

    /// Records the job of schedule `id`, in place of any job it had.
    pub fn record(&mut self, id: String, job: u128)
        requires
            old(self).wf(),
        ensures
            final(self).wf(),
            final(self)@ == old(self)@.insert(id@, job),
    {
        let ghost m0 = self@;
        let _ = self.take(id.as_str());
        proof {
            lemma_book_has(self.entries@);
        }
        let ghost before = self.entries@;
        assert(!self@.dom().contains(id@));
        assert(!entry_ids(before).contains(id@));
        self.entries.push((id, job));
        proof {
            assert(self.entries@.drop_last() =~= before);
            assert forall|a: int, b: int| 0 <= a < b < self.entries@.len() implies
                (#[trigger] self.entries@[a]).0@ != (#[trigger] self.entries@[b]).0@ by {
                assert(self.entries@[a] == before[a]);
                if b < before.len() {
                    assert(self.entries@[b] == before[b]);
                } else {
                    assert(entry_ids(before)[a] == before[a].0@);
                }
            }
            assert(self@ =~= m0.remove(id@).insert(id@, job));
            assert(m0.remove(id@).insert(id@, job) =~= m0.insert(id@, job));
        }
    }

    /// Completes scheduling `config` as `t` under the identifier `id` and
    /// gives its handle. Only a cron schedule, once the scheduler gave it the
    /// job `job`, goes into the book (so only cron schedules are listed and can
    /// be cancelled); an immediate or delayed session leaves the book as it was.
    pub fn book_schedule(&mut self, id: String, config: &ScheduleConfig, t: &ScheduleType, job: Option<u128>) -> (res: ScheduleHandle)
        requires
            old(self).wf(),
            schedule_wf(*t),
        ensures
            final(self).wf(),
            res.id@ == id@,
            res.name@ == config.name@,
            res.schedule_type@ == kind_text(*t),
            (t is Cron && job is Some) ==> final(self)@ == old(self)@.insert(id@, job->0),
            !(t is Cron && job is Some) ==> final(self)@ == old(self)@,
    {
        match (t, job) {
            (ScheduleType::Cron(_), Some(j)) => self.record(id.clone(), j),
            _ => {},
        }
        schedule_handle(id, config, t)
    }

    /// The identifiers of the schedules in the book, each once.
    pub fn ids(&self) -> (res: Vec<String>)
        requires
            self.wf(),
        ensures
            res@.len() == self@.dom().len(),
            forall|k: Seq<char>| #[trigger] string_views(res@).contains(k) <==> self@.dom().contains(k),
    {
        proof {
            lemma_book_has(self.entries@);
        }
        let mut out: Vec<String> = Vec::new();
        for j in 0..self.entries.len()
            invariant
                string_views(out@) == entry_ids(self.entries@).take(j as int),
        {
            let ghost prev = out@;
            out.push(self.entries[j].0.clone());
            assert(string_views(out@) =~= string_views(prev).push(self.entries@[j as int].0@));
            assert(entry_ids(self.entries@).take(j + 1) =~= entry_ids(self.entries@).take(j as int).push(self.entries@[j as int].0@));
        }
        assert(entry_ids(self.entries@).take(self.entries.len() as int) =~= entry_ids(self.entries@));
        proof {
            lemma_book_len(self.entries@);
        }
        out
    }
}

proof fn lemma_book_len(s: Seq<(String, u128)>)
    requires
        ids_unique(s),
    ensures
        book(s).dom().len() == s.len(),
        book(s).dom().finite(),
    decreases s.len(),
{
    if s.len() > 0 {
        let init = s.drop_last();
        assert forall|a: int, b: int| 0 <= a < b < init.len() implies (#[trigger] init[a]).0@ != (#[trigger] init[b]).0@ by {
            assert(init[a] == s[a] && init[b] == s[b]);
        }
        lemma_book_len(init);
        lemma_book_has(init);
        assert(!book(init).dom().contains(s.last().0@)) by {
            if entry_ids(init).contains(s.last().0@) {
                let j = choose|j: int| 0 <= j < entry_ids(init).len() && entry_ids(init)[j] == s.last().0@;
                assert(init[j] == s[j]);
            }
        }
    }
}

/// Recording a job and then cancelling its schedule gives the job back and
/// leaves the book as it would be without the schedule.
pub proof fn lemma_record_then_take(book_before: Map<Seq<char>, u128>, id: Seq<char>, job: u128)
    ensures
        book_before.insert(id, job).dom().contains(id),
        book_before.insert(id, job)[id] == job,
        book_before.insert(id, job).remove(id) == book_before.remove(id),
{
    assert(book_before.insert(id, job).remove(id) =~= book_before.remove(id));
}

/// Booking a schedule changes the listed identifiers by at most the new one:
/// a booked cron schedule adds exactly its identifier, anything else adds none.
pub proof fn lemma_booking_lists(before: Map<Seq<char>, u128>, id: Seq<char>, job: u128)
    ensures
        before.insert(id, job).dom() == before.dom().insert(id),
{
    assert(before.insert(id, job).dom() =~= before.dom().insert(id));
}

} // verus!
