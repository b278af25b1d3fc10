//! What an agent is configured with and what one run of it reports.
use vstd::prelude::*;

verus! {

/// Who an agent is: its name, the preamble of its system prompt, its model,
/// and how many loop iterations one run may take.
pub struct AgentDefinition {
    pub name: String,
    pub system_prompt_preamble: String,
    pub model: String,
    pub max_iterations: usize,
}

/// The iteration budget of an agent whose definition sets none.
pub fn default_max_iterations() -> (res: usize)
    ensures
        res == 20,
{
    20
}

impl Default for AgentDefinition {
    fn default() -> (d: Self)
        ensures
            d.name@ == "Personal Assistant"@,
            d.system_prompt_preamble@ == "You are a helpful Personal Assistant agent."@,
            d.model@ == Seq::<char>::empty(),
            d.max_iterations == 20,
    {
        AgentDefinition {
            name: "Personal Assistant".to_owned(),
            system_prompt_preamble: "You are a helpful Personal Assistant agent.".to_owned(),
            model: String::new(),
            max_iterations: default_max_iterations(),
        }
    }
}

/// Where an agent works during a run: its task workspace, if any.
pub struct AgentExecutionContext {
    pub workspace_dir: Option<String>,
}

/// One entry of a run's trace: its position (from 1), the loop phase it
/// happened in, what kind of event it records, and a human-readable detail.
pub struct ExecutionStep {
    pub index: usize,
    pub phase: String,
    pub kind: String,
    pub detail: String,
}

/// What a run returns: the final reply and the trace of the run.
pub struct AgentRunResult {
    pub content: String,
    pub steps: Vec<ExecutionStep>,
}

/// One tool call the agent made during a step: the tool, the JSON text of its
/// arguments, the id the model gave the call, and what the tool returned.
pub struct ToolCallTrace {
    pub name: String,
    pub args: String,
    pub call_id: Option<String>,
    pub result: String,
}

/// What one model turn produced: tool calls to continue with, or a final reply.
pub enum StepOutcome {
    Continue { tool_names: Vec<String>, tool_traces: Vec<ToolCallTrace> },
    Final(String),
}

} // verus!
