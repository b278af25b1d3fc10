//! The values the Python binding exchanges with Python, and the callbacks a
//! Python program implements to provide tools, a model or a custom loop.
use crate::agent::types::{AgentRunResult, ExecutionStep};
use crate::bindings::js::ends_in_failure;
use crate::text::{cat3, concat, opt_string, has_prefix, is_blank, str_eq, trim, trim_seq, trim_start_seq};
use vstd::prelude::*;

verus! {

/// A tool offered by Python: its name, description and JSON parameter schema.
pub struct EnkiTool {
    pub name: String,
    pub description: String,
    pub parameters_json: String,
}

pub struct EnkiExecutionStep {
    pub index: u64,
    pub phase: String,
    pub kind: String,
    pub detail: String,
}

pub struct EnkiAgentRunResult {
    pub output: String,
    pub steps: Vec<EnkiExecutionStep>,
}

pub enum EnkiMemoryKind {
    RecentMessage,
    Summary,
    Entity,
    Preference,
}

pub struct EnkiMemoryModule {
    pub name: String,
}

/// Runs the tools Python registered.
pub trait EnkiToolHandler {
    fn execute(
        &self,
        tool_name: String,
        args_json: String,
        agent_dir: String,
        workspace_dir: String,
        sessions_dir: String,
    ) -> String;
}

/// Completes a conversation with a model chosen by Python.
pub trait EnkiLlmHandler {
    fn complete(&self, model: String, messages_json: String, tools_json: String) -> String;
}

/// Hears each step of a run as it happens.
pub trait EnkiStepHandler {
    fn on_step(&self, step: EnkiExecutionStep);
}

/// Runs a whole agent loop in Python.
pub trait EnkiAgentLoopHandler {
    fn run(&self, request_json: String) -> String;
}

impl EnkiExecutionStep {
    /// A trace entry as Python sees it.
    pub fn from_step(value: ExecutionStep) -> (res: EnkiExecutionStep)
        ensures
            res.index == value.index,
            res.phase == value.phase,
            res.kind == value.kind,
            res.detail == value.detail,
    {
        EnkiExecutionStep { index: value.index as u64, phase: value.phase, kind: value.kind, detail: value.detail }
    }
}

impl EnkiAgentRunResult {
    pub fn from_result(value: AgentRunResult) -> (res: EnkiAgentRunResult)
        ensures
            res.output == value.content,
            res.steps@.len() == value.steps@.len(),
            forall|k: int|
                0 <= k < res.steps@.len() ==> {
                    let s = value.steps@[k];
                    let j = #[trigger] res.steps@[k];
                    &&& j.index == s.index
                    &&& j.phase@ == s.phase@ && j.kind@ == s.kind@ && j.detail@ == s.detail@
                },
    {
        let mut out: Vec<EnkiExecutionStep> = Vec::new();
        let mut k: usize = 0;
        while k < value.steps.len()
            invariant
                k <= value.steps@.len(),
                out@.len() == k,
                forall|i: int|
                    0 <= i < k ==> {
                        let s = value.steps@[i];
                        let j = #[trigger] out@[i];
                        &&& j.index == s.index
                        &&& j.phase@ == s.phase@ && j.kind@ == s.kind@ && j.detail@ == s.detail@
                    },
            decreases value.steps@.len() - k,
        {
            let s = &value.steps[k];
            out.push(EnkiExecutionStep {
                index: s.index as u64,
                phase: s.phase.clone(),
                kind: s.kind.clone(),
                detail: s.detail.clone(),
            });
            k = k + 1;
        }
        EnkiAgentRunResult { output: value.content, steps: out }
    }
}

/// A run that failed before answering: its content is the message.
pub fn error_run_result(message: String) -> (res: AgentRunResult)
    ensures
        res.content == message,
        res.steps@.len() == 0,
{
    AgentRunResult { content: message, steps: Vec::new() }
}

/// What every request to an agent whose setup failed is answered with.
pub fn initialization_error(error: &str) -> (res: String)
    ensures
        res@ == "Initialization error: "@ + error@,
{
    concat("Initialization error: ", error)
}

/// When a workflow task's run failed, the error to report: the run's content,
/// trimmed. A run failed when its trace ends in a failure or its content
/// starts with `LLM error:` or `Initialization error:`.
pub open spec fn task_failure_spec(content: Seq<char>, steps: Seq<ExecutionStep>) -> Option<Seq<char>> {
    if ends_in_failure(steps) || has_prefix(trim_start_seq(content), "LLM error:"@) || has_prefix(
        trim_start_seq(content),
        "Initialization error:"@,
    ) {
        Some(trim_seq(content))
    } else {
        None
    }
}

pub fn workflow_task_failure_message(result: &AgentRunResult) -> (res: Option<String>)
    ensures
        opt_string(res) == task_failure_spec(result.content@, result.steps@),
{
    let n = result.steps.len();
    if n > 0 {
        let kind = result.steps[n - 1].kind.as_str();
        if crate::text::str_eq(kind, "failed") || crate::text::str_eq(kind, "error") {
            return Some(trim(result.content.as_str()));
        }
    }
    let start = crate::text::trim_start_chars(&crate::text::chars_of(result.content.as_str()));
    if crate::text::starts_with(&start, &crate::text::chars_of("LLM error:"))
        || crate::text::starts_with(&start, &crate::text::chars_of("Initialization error:")) {
        return Some(trim(result.content.as_str()));
    }
    None
}


/// Why the agents of a workflow runtime cannot be registered, if they
/// cannot: checking in order from `k`, a blank id, or an id seen before.
pub open spec fn first_agent_id_error(ids: Seq<Seq<char>>, k: int) -> Option<Seq<char>>
    decreases ids.len() - k,
{
    if k < 0 || k >= ids.len() {
        None
    } else if trim_seq(ids[k]).len() == 0 {
        Some("Initialization error: workflow agent_id cannot be empty."@)
    } else if exists|j: int| 0 <= j < k && ids[j] == ids[k] {
        Some("Initialization error: duplicate workflow agent_id '"@ + ids[k] + "'."@)
    } else {
        first_agent_id_error(ids, k + 1)
    }
}

/// The agent ids a workflow runtime registers must be non-blank and distinct.
pub fn check_workflow_agent_ids(ids: &[String]) -> (res: Result<(), String>)
    ensures
        match res {
            Ok(()) => first_agent_id_error(crate::text::string_views(ids@), 0) is None,
            Err(e) => first_agent_id_error(crate::text::string_views(ids@), 0) == Some(e@),
        },
{
    let ghost v = crate::text::string_views(ids@);
    let mut k: usize = 0;
    while k < ids.len()
        invariant
            k <= ids@.len(),
            v == crate::text::string_views(ids@),
            first_agent_id_error(v, 0) == first_agent_id_error(v, k as int),
        decreases ids@.len() - k,
    {
        if is_blank(ids[k].as_str()) {
            return Err("Initialization error: workflow agent_id cannot be empty.".to_owned());
        }
        let mut j: usize = 0;
        while j < k
            invariant
                j <= k < ids@.len(),
                v == crate::text::string_views(ids@),
                first_agent_id_error(v, 0) == first_agent_id_error(v, k as int),
                trim_seq(v[k as int]).len() > 0,
                forall|m: int| 0 <= m < j ==> v[m] != v[k as int],
            decreases k - j,
        {
            if str_eq(ids[j].as_str(), ids[k].as_str()) {
                proof {
                    assert(v[j as int] == v[k as int]);
                }
                return Err(cat3("Initialization error: duplicate workflow agent_id '", ids[k].as_str(), "'."));
            }
            j = j + 1;
        }
        k = k + 1;
    }
    Ok(())
}

} // verus!
