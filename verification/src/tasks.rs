//! Tasks, their outputs, and the context a task runs in.
use vstd::prelude::*;

use crate::clock::Timestamp;
use crate::json::{Json, JsonV};
use crate::text::to_owned_string;
use crate::turn::clone_opt_string;

pub mod orchestrator;
pub mod worker;

verus! {

/// A unit of work for an agent.
#[derive(Debug)]
pub struct Task {
    pub id: String,
    pub description: String,
    pub parent_task_id: Option<String>,
    pub constraints: Option<TaskConstraints>,
}

/// Limits on how a task may be carried out.
#[derive(Debug)]
pub struct TaskConstraints {
    pub max_tokens: Option<usize>,
    pub allowed_tools: Option<Vec<String>>,
    pub timeout_seconds: Option<u64>,
}

/// The same constraints.
pub open spec fn same_constraints(a: TaskConstraints, b: TaskConstraints) -> bool {
    &&& a.max_tokens == b.max_tokens
    &&& a.timeout_seconds == b.timeout_seconds
    &&& match (a.allowed_tools, b.allowed_tools) {
        (Some(x), Some(y)) => x@ == y@,
        (None, None) => true,
        _ => false,
    }
}

/// The same optional constraints.
pub open spec fn same_opt_constraints(a: Option<TaskConstraints>, b: Option<TaskConstraints>) -> bool {
    match (a, b) {
        (Some(x), Some(y)) => same_constraints(x, y),
        (None, None) => true,
        _ => false,
    }
}

fn clone_strings(v: &Vec<String>) -> (res: Vec<String>)
    ensures
        res@ == v@,
{
    let mut out: Vec<String> = Vec::new();
    for i in 0..v.len()
        invariant
            out@ == v@.take(i as int),
    {
        out.push(v[i].clone());
        assert(v@.take(i + 1) == v@.take(i as int).push(v@[i as int]));
    }
    assert(v@.take(v.len() as int) == v@);
    out
}

impl TaskConstraints {
    /// A copy of the constraints.
    pub fn duplicate(&self) -> (res: Self)
        ensures
            same_constraints(res, *self),
    {
        TaskConstraints {
            max_tokens: self.max_tokens,
            allowed_tools: match &self.allowed_tools {
                Some(t) => Some(clone_strings(t)),
                None => None,
            },
            timeout_seconds: self.timeout_seconds,
        }
    }
}

/// A copy of optional constraints.
pub fn clone_opt_constraints(c: &Option<TaskConstraints>) -> (res: Option<TaskConstraints>)
    ensures
        same_opt_constraints(res, *c),
{
    match c {
        Some(x) => Some(x.duplicate()),
        None => None,
    }
}

impl Default for TaskConstraints {
    fn default() -> (res: Self)
        ensures
            res.max_tokens is None,
            res.allowed_tools is None,
            res.timeout_seconds is None,
    {
        TaskConstraints { max_tokens: None, allowed_tools: None, timeout_seconds: None }
    }
}

impl Task {
    /// A task with no parent and no constraints.
    pub fn new(id: &str, description: &str) -> (res: Self)
        ensures
            res.id@ == id@,
            res.description@ == description@,
            res.parent_task_id is None,
            res.constraints is None,
    {
        Task { id: to_owned_string(id), description: to_owned_string(description), parent_task_id: None, constraints: None }
    }

    /// The same task as a subtask of `parent_id`.
    pub fn with_parent(self, parent_id: &str) -> (res: Self)
        ensures
            res.id == self.id,
            res.description == self.description,
            res.parent_task_id matches Some(p) && p@ == parent_id@,
            res.constraints == self.constraints,
    {
        let mut t = self;
        t.parent_task_id = Some(to_owned_string(parent_id));
        t
    }

    /// The same task under `constraints`.
    pub fn with_constraints(self, constraints: TaskConstraints) -> (res: Self)
        ensures
            res.id == self.id,
            res.description == self.description,
            res.parent_task_id == self.parent_task_id,
            res.constraints == Some(constraints),
    {
        let mut t = self;
        t.constraints = Some(constraints);
        t
    }
}

/// A named piece of output.
#[derive(Debug)]
pub struct Artifact {
    pub name: String,
    pub content_type: String,
    pub data: String,
}

impl Artifact {
    /// A plain-text artifact.
    pub fn text(name: &str, data: &str) -> (res: Self)
        ensures
            res.name@ == name@,
            res.content_type@ == "text/plain"@,
            res.data@ == data@,
    {
        Artifact { name: to_owned_string(name), content_type: to_owned_string("text/plain"), data: to_owned_string(data) }
    }

    /// A JSON artifact holding the serialised value `data`.
    pub fn json(name: &str, data: &str) -> (res: Self)
        ensures
            res.name@ == name@,
            res.content_type@ == "application/json"@,
            res.data@ == data@,
    {
        Artifact {
            name: to_owned_string(name),
            content_type: to_owned_string("application/json"),
            data: to_owned_string(data),
        }
    }
}

/// What an agent produced.
#[derive(Debug)]
pub struct AgentOutput {
    pub result: String,
    pub artifacts: Vec<Artifact>,
    pub subtasks_spawned: Vec<String>,
}

impl Default for AgentOutput {
    fn default() -> (res: Self)
        ensures
            res.result@.len() == 0,
            res.artifacts@.len() == 0,
            res.subtasks_spawned@.len() == 0,
    {
        AgentOutput { result: String::new(), artifacts: Vec::new(), subtasks_spawned: Vec::new() }
    }
}

impl AgentOutput {
    /// An output with a result and nothing else.
    pub fn new(result: &str) -> (res: Self)
        ensures
            res.result@ == result@,
            res.artifacts@.len() == 0,
            res.subtasks_spawned@.len() == 0,
    {
        AgentOutput { result: to_owned_string(result), artifacts: Vec::new(), subtasks_spawned: Vec::new() }
    }

    /// The same output with `artifacts`.
    pub fn with_artifacts(self, artifacts: Vec<Artifact>) -> (res: Self)
        ensures
            res.result == self.result,
            res.artifacts == artifacts,
            res.subtasks_spawned == self.subtasks_spawned,
    {
        let mut o = self;
        o.artifacts = artifacts;
        o
    }

    /// The same output naming the subtasks it spawned.
    pub fn with_subtasks(self, subtasks: Vec<String>) -> (res: Self)
        ensures
            res.result == self.result,
            res.artifacts == self.artifacts,
            res.subtasks_spawned == subtasks,
    {
        let mut o = self;
        o.subtasks_spawned = subtasks;
        o
    }
}

/// The metadata of a context as a map: a later entry for a key overrides
/// an earlier one.
pub open spec fn meta_map(v: Seq<(String, Json)>) -> Map<Seq<char>, JsonV>
    decreases v.len(),
{
    if v.len() == 0 {
        Map::empty()
    } else {
        meta_map(v.drop_last()).insert(v.last().0@, v.last().1.view_json())
    }
}

/// Where in a tree of tasks a task runs.
#[derive(Debug)]
pub struct Context {
    pub parent_task_id: Option<String>,
    pub depth: usize,
    pub metadata: Vec<(String, Json)>,
}

impl Context {
    /// The context of a top-level task.
    pub fn new() -> (res: Self)
        ensures
            res.parent_task_id is None,
            res.depth == 0,
            meta_map(res.metadata@) == Map::<Seq<char>, JsonV>::empty(),
    {
        Context { parent_task_id: None, depth: 0, metadata: Vec::new() }
    }

    /// The context of a subtask of `parent_task_id`: one level deeper, with
    /// the same metadata.
    pub fn child(&self, parent_task_id: &str) -> (res: Self)
        requires
            self.depth < usize::MAX,
        ensures
            res.parent_task_id matches Some(p) && p@ == parent_task_id@,
            res.depth == self.depth + 1,
            meta_map(res.metadata@) == meta_map(self.metadata@),
    {
        let mut md: Vec<(String, Json)> = Vec::new();
        for i in 0..self.metadata.len()
            invariant
                md@.len() == i,
                forall|k: int| 0 <= k < i ==> (#[trigger] md@[k]).0@ == self.metadata@[k].0@
                    && md@[k].1.view_json() == self.metadata@[k].1.view_json(),
        {
            let (key, value) = &self.metadata[i];
            md.push((key.clone(), value.deep_clone()));
        }
        proof {
            lemma_meta_map_same(md@, self.metadata@);
        }
        Context { parent_task_id: Some(to_owned_string(parent_task_id)), depth: self.depth + 1, metadata: md }
    }

    /// The same context with `key` set to `value`.
    pub fn with_metadata(self, key: &str, value: Json) -> (res: Self)
        ensures
            res.parent_task_id == self.parent_task_id,
            res.depth == self.depth,
            meta_map(res.metadata@) == meta_map(self.metadata@).insert(key@, value.view_json()),
    {
        let mut c = self;
        let ghost before = c.metadata@;
        c.metadata.push((to_owned_string(key), value));
        assert(c.metadata@.drop_last() =~= before);
        c
    }
}

proof fn lemma_meta_map_same(a: Seq<(String, Json)>, b: Seq<(String, Json)>)
    requires
        a.len() == b.len(),
        forall|k: int| 0 <= k < a.len() ==> (#[trigger] a[k]).0@ == b[k].0@ && a[k].1.view_json() == b[k].1.view_json(),
    ensures
        meta_map(a) == meta_map(b),
    decreases a.len(),
{
    if a.len() > 0 {
        assert forall|k: int| 0 <= k < a.len() - 1 implies (#[trigger] a.drop_last()[k]).0@ == b.drop_last()[k].0@
            && a.drop_last()[k].1.view_json() == b.drop_last()[k].1.view_json() by {
            assert(a.drop_last()[k] == a[k] && b.drop_last()[k] == b[k]);
        }
        lemma_meta_map_same(a.drop_last(), b.drop_last());
        assert(a.last() == a[a.len() - 1] && b.last() == b[b.len() - 1]);
    }
}

/// Where a task stands.
#[derive(Debug, Clone, Copy, PartialEq, Eq, Structural)]
pub enum TaskStatus {
    Pending,
    Running,
    Completed,
    Failed,
    Cancelled,
}

/// A task and what has become of it.
#[derive(Debug)]
pub struct TaskState {
    pub task: Task,
    pub status: TaskStatus,
    pub output: Option<AgentOutput>,
    pub error: Option<String>,
    pub started_at: Option<Timestamp>,
    pub completed_at: Option<Timestamp>,
}

impl TaskState {
    /// A task that has not started.
    pub fn new(task: Task) -> (res: Self)
        ensures
            res.task == task,
            res.status == TaskStatus::Pending,
            res.output is None,
            res.error is None,
            res.started_at is None,
            res.completed_at is None,
    {
        TaskState { task, status: TaskStatus::Pending, output: None, error: None, started_at: None, completed_at: None }
    }
}

/// A copy of a task.
pub fn clone_task(t: &Task) -> (res: Task)
    ensures
        res.id@ == t.id@,
        res.description@ == t.description@,
        res.parent_task_id == t.parent_task_id,
        same_opt_constraints(res.constraints, t.constraints),
{
    Task {
        id: t.id.clone(),
        description: t.description.clone(),
        parent_task_id: clone_opt_string(&t.parent_task_id),
        constraints: clone_opt_constraints(&t.constraints),
    }
}

} // verus!
