//! The orchestrator: plans a task, hands the parts to workers and puts their
//! results together. The model calls and the workers' runs are made by the
//! caller between these steps.
use vstd::prelude::*;

use super::{clone_opt_constraints, same_opt_constraints, AgentOutput, Artifact, Context, Task};
use crate::text::{delimited, join, push_str, seq_join, span_end, span_start, string_views, to_owned_string};

verus! {

/// How deep subtasks may nest before a task is run directly.
pub const MAX_SUBTASK_DEPTH: usize = 3;

/// A planned subtask, as the planner wrote it.
#[derive(Debug)]
pub struct SubtaskSpec {
    pub id: String,
    pub description: String,
    pub dependencies: Vec<String>,
}

/// The planner's answer.
#[derive(Debug)]
pub struct TaskPlan {
    pub should_decompose: bool,
    pub reasoning: String,
    pub subtasks: Vec<SubtaskSpec>,
}

/// How a subtask went.
#[derive(Debug)]
pub struct SubtaskResult {
    pub id: String,
    pub success: bool,
    pub output: Option<AgentOutput>,
    pub error: Option<String>,
}

/// The first step of an orchestrated run.
#[derive(Debug, Clone, Copy, PartialEq, Eq, Structural)]
pub enum OrchestratorStep {
    /// Too deep to split further: the first worker runs the task as it is.
    Direct,
    /// Ask the planner whether and how to split the task.
    Plan,
}

/// The prompt that asks the planner to split a task.
pub open spec fn planning_prompt_text(description: Seq<char>) -> Seq<char> {
    "You are a task planning agent. Analyze the following task and break it down into subtasks if needed.\n\nTask: "@
        + description
        + "\n\nRespond with a JSON object in this exact format:\n{\n    \"should_decompose\": true/false,\n    \"reasoning\": \"why you chose to decompose or not\",\n    \"subtasks\": [\n        {\n            \"id\": \"subtask-1\",\n            \"description\": \"what this subtask should accomplish\",\n            \"dependencies\": []\n        }\n    ]\n}\n\nGuidelines:\n- Only decompose if the task genuinely requires multiple distinct steps\n- Each subtask should be independently executable\n- Keep subtask count minimal (prefer 2-4 subtasks)\n- If the task is simple enough for a single agent, set should_decompose to false"@
}

/// The line that reports a subtask's outcome.
pub open spec fn result_line(r: SubtaskResult) -> Seq<char> {
    if r.success {
        "Subtask '"@ + r.id@ + "': SUCCESS\nResult: "@ + match r.output {
            Some(o) => o.result@,
            None => "No output"@,
        }
    } else {
        "Subtask '"@ + r.id@ + "': FAILED\nError: "@ + match r.error {
            Some(e) => e@,
            None => "Unknown error"@,
        }
    }
}

/// The prompt that asks for the subtasks' results to be put together.
pub open spec fn aggregation_prompt_text(description: Seq<char>, results: Seq<SubtaskResult>) -> Seq<char> {
    "You are aggregating results from multiple subtasks to answer the original task.\n\nOriginal Task: "@
        + description + "\n\nSubtask Results:\n"@
        + seq_join(results.map_values(|r: SubtaskResult| result_line(r)), "\n\n"@)
        + "\n\nProvide a concise, coherent response that addresses the original task by synthesizing the subtask results."@
}

/// The artifacts of the subtasks that produced output, in order.
pub open spec fn subtask_artifacts(results: Seq<SubtaskResult>) -> Seq<(Seq<char>, Seq<char>)>
    decreases results.len(),
{
    if results.len() == 0 {
        Seq::empty()
    } else {
        let prev = subtask_artifacts(results.drop_last());
        match results.last().output {
            Some(o) => prev.push(("subtask-"@ + results.last().id@, o.result@)),
            None => prev,
        }
    }
}

/// The artifacts of an orchestrated run are exactly the outputs of the
/// subtasks that produced one, each under `subtask-<id>`, in the order of the
/// results: the subtasks without output are left out and nothing else is added.
pub proof fn lemma_artifacts_are_outputs(results: Seq<SubtaskResult>)
    ensures
        subtask_artifacts(results) == results.filter(|r: SubtaskResult| r.output is Some).map_values(
            |r: SubtaskResult| ("subtask-"@ + r.id@, r.output->0.result@),
        ),
        subtask_artifacts(results).len() == results.filter(|r: SubtaskResult| r.output is Some).len(),
    decreases results.len(),
{
    let pred = |r: SubtaskResult| r.output is Some;
    let f = |r: SubtaskResult| ("subtask-"@ + r.id@, r.output->0.result@);
    if results.len() == 0 {
        reveal(Seq::filter);
        assert(results.filter(pred) =~= Seq::<SubtaskResult>::empty());
        assert(subtask_artifacts(results) =~= results.filter(pred).map_values(f));
    } else {
        let init = results.drop_last();
        lemma_artifacts_are_outputs(init);
        reveal(Seq::filter);
        assert(results.filter(pred) == (if pred(results.last()) { init.filter(pred).push(results.last()) } else { init.filter(pred) }));
        if pred(results.last()) {
            assert(init.filter(pred).push(results.last()).map_values(f) =~= init.filter(pred).map_values(f).push(f(results.last())));
        }
        assert(subtask_artifacts(results) =~= results.filter(pred).map_values(f));
    }
}

/// Plans tasks and delegates their parts to workers.
#[derive(Debug)]
pub struct OrchestratorAgent {
    pub id: String,
    pub capabilities: Vec<String>,
    /// The identifiers of the workers, in the order they were added.
    pub workers: Vec<String>,
}

impl OrchestratorAgent {
    /// An orchestrator that plans and delegates, with no workers yet.
    pub fn new(id: &str) -> (res: Self)
        ensures
            res.id@ == id@,
            string_views(res.capabilities@) == seq!["planning"@, "delegation"@],
            res.workers@.len() == 0,
    {
        let mut capabilities: Vec<String> = Vec::new();
        capabilities.push(to_owned_string("planning"));
        capabilities.push(to_owned_string("delegation"));
        assert(string_views(capabilities@) =~= seq!["planning"@, "delegation"@]);
        OrchestratorAgent { id: to_owned_string(id), capabilities, workers: Vec::new() }
    }

    /// The same orchestrator with these workers.
    pub fn with_workers(self, workers: Vec<String>) -> (res: Self)
        ensures
            res.id == self.id,
            res.capabilities == self.capabilities,
            res.workers == workers,
    {
        let mut o = self;
        o.workers = workers;
        o
    }

    /// Adds a worker.
    pub fn add_worker(&mut self, worker: String)
        ensures
            final(self).workers@ == old(self).workers@.push(worker),
            final(self).id == old(self).id,
            final(self).capabilities == old(self).capabilities,
    {
        self.workers.push(worker);
    }

    /// The orchestrator's identifier.
    pub fn id(&self) -> (res: &str)
        ensures
            res@ == self.id@,
    {
        self.id.as_str()
    }

    /// What the orchestrator can do.
    pub fn capabilities(&self) -> (res: &Vec<String>)
        ensures
            *res == self.capabilities,
    {
        &self.capabilities
    }

    /// The worker that runs a task: the first one.
    pub fn select_worker(&self, task: &Task) -> (res: usize)
        requires
            self.workers.len() > 0,
        ensures
            res == 0,
    {
        0
    }

    /// How a run starts in `context`: without workers it fails; at the depth
    /// limit the task runs directly; otherwise it is planned.
    pub fn start(&self, context: &Context) -> (res: Result<OrchestratorStep, String>)
        ensures
            self.workers.len() == 0 ==> (res matches Err(e) && e@ == "Orchestrator has no workers configured"@),
            self.workers.len() > 0 && context.depth >= MAX_SUBTASK_DEPTH ==> res == Ok::<OrchestratorStep, String>(OrchestratorStep::Direct),
            self.workers.len() > 0 && context.depth < MAX_SUBTASK_DEPTH ==> res == Ok::<OrchestratorStep, String>(OrchestratorStep::Plan),
    {
        if self.workers.len() == 0 {
            return Err(to_owned_string("Orchestrator has no workers configured"));
        }
        if context.depth >= MAX_SUBTASK_DEPTH {
            Ok(OrchestratorStep::Direct)
        } else {
            Ok(OrchestratorStep::Plan)
        }
    }

    /// The system prompt of the planner.
    pub fn planner_system_prompt() -> (res: String)
        ensures
            res@ == "You are a task planning assistant. Always respond with valid JSON."@,
    {
        to_owned_string("You are a task planning assistant. Always respond with valid JSON.")
    }

    /// The prompt that asks the planner to split `task`.
    pub fn plan(task: &Task) -> (res: String)
        ensures
            res@ == planning_prompt_text(task.description@),
    {
        let mut p = to_owned_string("You are a task planning agent. Analyze the following task and break it down into subtasks if needed.\n\nTask: ");
        push_str(&mut p, task.description.as_str());
        push_str(&mut p, "\n\nRespond with a JSON object in this exact format:\n{\n    \"should_decompose\": true/false,\n    \"reasoning\": \"why you chose to decompose or not\",\n    \"subtasks\": [\n        {\n            \"id\": \"subtask-1\",\n            \"description\": \"what this subtask should accomplish\",\n            \"dependencies\": []\n        }\n    ]\n}\n\nGuidelines:\n- Only decompose if the task genuinely requires multiple distinct steps\n- Each subtask should be independently executable\n- Keep subtask count minimal (prefer 2-4 subtasks)\n- If the task is simple enough for a single agent, set should_decompose to false");
        p
    }

    /// The part of the planner's answer that holds the JSON object: from its
    /// first `{` (or the start) to its last `}` (or the end); none when the
    /// last `}` comes before the first `{`.
    pub fn plan_text(content: &str) -> (res: Option<String>)
        ensures
            span_start(content@, '{') <= span_end(content@, '}') ==> (res matches Some(t)
                && t@ == content@.subrange(span_start(content@, '{'), span_end(content@, '}'))),
            span_start(content@, '{') > span_end(content@, '}') ==> res is None,
    {
        delimited(content, '{', '}')
    }

    /// The plan taken when the planner's answer does not parse: run the task
    /// as it is.
    pub fn fallback_plan() -> (res: TaskPlan)
        ensures
            !res.should_decompose,
            res.reasoning@ == "Failed to parse planning response"@,
            res.subtasks@.len() == 0,
    {
        TaskPlan { should_decompose: false, reasoning: to_owned_string("Failed to parse planning response"), subtasks: Vec::new() }
    }

    /// The plan splits the task: it says so and names at least one subtask.
    pub fn decomposes(plan: &TaskPlan) -> (res: bool)
        ensures
            res == (plan.should_decompose && plan.subtasks@.len() > 0),
    {
        plan.should_decompose && plan.subtasks.len() > 0
    }

    /// The task for a planned subtask of `parent`: its identifier is
    /// `<parent>:<subtask>`, it names its parent and keeps its constraints.
    pub fn subtask(parent: &Task, spec: &SubtaskSpec) -> (res: Task)
        ensures
            res.id@ == parent.id@ + ":"@ + spec.id@,
            res.description@ == spec.description@,
            res.parent_task_id matches Some(p) && p@ == parent.id@,
            same_opt_constraints(res.constraints, parent.constraints),
    {
        let mut id = to_owned_string(parent.id.as_str());
        push_str(&mut id, ":");
        push_str(&mut id, spec.id.as_str());
        Task {
            id,
            description: spec.description.clone(),
            parent_task_id: Some(parent.id.clone()),
            constraints: clone_opt_constraints(&parent.constraints),
        }
    }

    /// How a subtask went, from its worker's outcome.
    pub fn subtask_result(id: String, outcome: Result<AgentOutput, String>) -> (res: SubtaskResult)
        ensures
            res.id == id,
            outcome matches Ok(o) ==> res.success && res.output == Some(o) && res.error is None,
            outcome matches Err(e) ==> !res.success && res.output is None && res.error == Some(e),
    {
        match outcome {
            Ok(o) => SubtaskResult { id, success: true, output: Some(o), error: None },
            Err(e) => SubtaskResult { id, success: false, output: None, error: Some(e) },
        }
    }

    /// The system prompt of the aggregation.
    pub fn aggregator_system_prompt() -> (res: String)
        ensures
            res@ == "You are an aggregation assistant. Synthesize results concisely."@,
    {
        to_owned_string("You are an aggregation assistant. Synthesize results concisely.")
    }

    /// The prompt that asks for the results of `task`'s subtasks to be put together.
    pub fn aggregate(task: &Task, results: &Vec<SubtaskResult>) -> (res: String)
        ensures
            res@ == aggregation_prompt_text(task.description@, results@),
    {
        let mut lines: Vec<String> = Vec::new();
        for i in 0..results.len()
            invariant
                string_views(lines@) == results@.take(i as int).map_values(|r: SubtaskResult| result_line(r)),
        {
            let r = &results[i];
            let mut line = to_owned_string("Subtask '");
            push_str(&mut line, r.id.as_str());
            if r.success {
                push_str(&mut line, "': SUCCESS\nResult: ");
                match &r.output {
                    Some(o) => push_str(&mut line, o.result.as_str()),
                    None => push_str(&mut line, "No output"),
                }
            } else {
                push_str(&mut line, "': FAILED\nError: ");
                match &r.error {
                    Some(e) => push_str(&mut line, e.as_str()),
                    None => push_str(&mut line, "Unknown error"),
                }
            }
            let ghost prev = lines@;
            lines.push(line);
            assert(string_views(lines@) =~= string_views(prev).push(result_line(results@[i as int])));
            assert(results@.take(i + 1).map_values(|r: SubtaskResult| result_line(r))
                =~= results@.take(i as int).map_values(|r: SubtaskResult| result_line(r)).push(result_line(results@[i as int])));
        }
        assert(results@.take(results.len() as int) =~= results@);
        let body = join(&lines, "\n\n");
        let mut p = to_owned_string("You are aggregating results from multiple subtasks to answer the original task.\n\nOriginal Task: ");
        push_str(&mut p, task.description.as_str());
        push_str(&mut p, "\n\nSubtask Results:\n");
        push_str(&mut p, body.as_str());
        push_str(&mut p, "\n\nProvide a concise, coherent response that addresses the original task by synthesizing the subtask results.");
        p
    }

    /// The orchestrated output: the aggregated answer, an artifact
    /// `subtask-<id>` for each subtask that produced output, and the
    /// subtasks' identifiers.
    pub fn aggregate_output(answer: &str, results: Vec<SubtaskResult>) -> (res: AgentOutput)
        ensures
            res.result@ == answer@,
            string_views(res.subtasks_spawned@) == results@.map_values(|r: SubtaskResult| r.id@),
            res.artifacts@.map_values(|a: Artifact| (a.name@, a.data@)) == subtask_artifacts(results@),
            forall|i: int| 0 <= i < res.artifacts@.len() ==> (#[trigger] res.artifacts@[i]).content_type@ == "text/plain"@,
    {
        let mut ids: Vec<String> = Vec::new();
        let mut artifacts: Vec<Artifact> = Vec::new();
        for i in 0..results.len()
            invariant
                string_views(ids@) == results@.take(i as int).map_values(|r: SubtaskResult| r.id@),
                artifacts@.map_values(|a: Artifact| (a.name@, a.data@)) == subtask_artifacts(results@.take(i as int)),
                forall|k: int| 0 <= k < artifacts@.len() ==> (#[trigger] artifacts@[k]).content_type@ == "text/plain"@,
        {
            let r = &results[i];
            let ghost pi = ids@;
            let ghost pa = artifacts@;
            ids.push(r.id.clone());
            assert(string_views(ids@) =~= string_views(pi).push(r.id@));
            assert(results@.take(i + 1).map_values(|r: SubtaskResult| r.id@)
                =~= results@.take(i as int).map_values(|r: SubtaskResult| r.id@).push(r.id@));
            assert(results@.take(i + 1).drop_last() =~= results@.take(i as int));
            match &r.output {
                Some(o) => {
                    let mut name = to_owned_string("subtask-");
                    push_str(&mut name, r.id.as_str());
                    let a = Artifact::text(name.as_str(), o.result.as_str());
                    artifacts.push(a);
                    assert(artifacts@.map_values(|a: Artifact| (a.name@, a.data@))
                        =~= pa.map_values(|a: Artifact| (a.name@, a.data@)).push(("subtask-"@ + r.id@, o.result@)));
                },
                None => {},
            }
        }
        assert(results@.take(results.len() as int) =~= results@);
        AgentOutput::new(answer).with_artifacts(artifacts).with_subtasks(ids)
    }
}

} // verus!
