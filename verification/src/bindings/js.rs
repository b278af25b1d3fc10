//! The values the Node.js binding exchanges with JavaScript, and how it turns
//! its options into agent definitions.
use crate::agent::types::{AgentDefinition, AgentRunResult, ExecutionStep};
use crate::registry::{AgentCard, AgentStatus};
use crate::text::{cat3, cat5, concat, has_prefix, opt_string, join, join_strings, string_views, trim, trim_seq, trim_start_seq};
use vstd::prelude::*;

verus! {

pub enum JsMemoryKind {
    RecentMessage,
    Summary,
    Entity,
    Preference,
}

#[derive(PartialEq, Eq, Structural, Clone, Copy, Debug)]
pub enum JsAgentStatus {
    Online,
    Busy,
    Offline,
}

/// One agent of a multi-agent runtime, as JavaScript describes it.
pub struct JsMultiAgentMember {
    pub agent_id: String,
    pub name: String,
    pub system_prompt_preamble: Option<String>,
    pub model: Option<String>,
    pub max_iterations: Option<u32>,
    pub capabilities: Vec<String>,
}

pub struct JsAgentCard {
    pub agent_id: String,
    pub name: String,
    pub description: String,
    pub capabilities: Vec<String>,
    pub status: JsAgentStatus,
}

pub struct JsMemoryModule {
    pub name: String,
}

pub struct JsExecutionStep {
    pub index: u32,
    pub phase: String,
    pub kind: String,
    pub detail: String,
}

pub struct JsAgentRunResult {
    pub output: String,
    pub steps: Vec<JsExecutionStep>,
}

pub open spec fn status_to_core(s: JsAgentStatus) -> AgentStatus {
    match s {
        JsAgentStatus::Online => AgentStatus::Online,
        JsAgentStatus::Busy => AgentStatus::Busy,
        JsAgentStatus::Offline => AgentStatus::Offline,
    }
}

pub open spec fn status_from_core(s: AgentStatus) -> JsAgentStatus {
    match s {
        AgentStatus::Online => JsAgentStatus::Online,
        AgentStatus::Busy => JsAgentStatus::Busy,
        AgentStatus::Offline => JsAgentStatus::Offline,
    }
}

impl From<JsAgentStatus> for AgentStatus {
    fn from(value: JsAgentStatus) -> (res: AgentStatus) {
        match value {
            JsAgentStatus::Online => AgentStatus::Online,
            JsAgentStatus::Busy => AgentStatus::Busy,
            JsAgentStatus::Offline => AgentStatus::Offline,
        }
    }
}

impl vstd::std_specs::convert::FromSpecImpl<JsAgentStatus> for AgentStatus {
    open spec fn obeys_from_spec() -> bool {
        true
    }

    open spec fn from_spec(value: JsAgentStatus) -> AgentStatus {
        status_to_core(value)
    }
}

impl From<AgentStatus> for JsAgentStatus {
    fn from(value: AgentStatus) -> (res: JsAgentStatus) {
        match value {
            AgentStatus::Online => JsAgentStatus::Online,
            AgentStatus::Busy => JsAgentStatus::Busy,
            AgentStatus::Offline => JsAgentStatus::Offline,
        }
    }
}

impl vstd::std_specs::convert::FromSpecImpl<AgentStatus> for JsAgentStatus {
    open spec fn obeys_from_spec() -> bool {
        true
    }

    open spec fn from_spec(value: AgentStatus) -> JsAgentStatus {
        status_from_core(value)
    }
}

impl JsAgentCard {
    /// The card as JavaScript sees it.
    pub fn from_card(value: AgentCard) -> (res: JsAgentCard)
        ensures
            res.agent_id == value.agent_id,
            res.name == value.name,
            res.description == value.description,
            res.capabilities == value.capabilities,
            res.status == status_from_core(value.status),
    {
        let status = JsAgentStatus::from(value.status);
        JsAgentCard {
            agent_id: value.agent_id,
            name: value.name,
            description: value.description,
            capabilities: value.capabilities,
            status,
        }
    }
}

impl JsExecutionStep {
    /// A trace entry as JavaScript sees it; an index beyond `u32::MAX` is
    /// capped there.
    pub fn from_step(value: ExecutionStep) -> (res: JsExecutionStep)
        ensures
            res.index == (if value.index > u32::MAX { u32::MAX as usize } else { value.index }),
            res.phase == value.phase,
            res.kind == value.kind,
            res.detail == value.detail,
    {
        let index: u32 = if value.index > 4294967295usize {
            4294967295u32
        } else {
            value.index as u32
        };
        JsExecutionStep { index, phase: value.phase, kind: value.kind, detail: value.detail }
    }
}

impl JsAgentRunResult {
    pub fn from_result(value: AgentRunResult) -> (res: JsAgentRunResult)
        ensures
            res.output == value.content,
            res.steps@.len() == value.steps@.len(),
            forall|k: int|
                0 <= k < res.steps@.len() ==> {
                    let s = value.steps@[k];
                    let j = #[trigger] res.steps@[k];
                    &&& j.index == (if s.index > u32::MAX { u32::MAX as usize } else { s.index })
                    &&& j.phase@ == s.phase@ && j.kind@ == s.kind@ && j.detail@ == s.detail@
                },
    {
        let mut out: Vec<JsExecutionStep> = Vec::new();
        let mut k: usize = 0;
        while k < value.steps.len()
            invariant
                k <= value.steps@.len(),
                out@.len() == k,
                forall|i: int|
                    0 <= i < k ==> {
                        let s = value.steps@[i];
                        let j = #[trigger] out@[i];
                        &&& j.index == (if s.index > u32::MAX { u32::MAX as usize } else { s.index })
                        &&& j.phase@ == s.phase@ && j.kind@ == s.kind@ && j.detail@ == s.detail@
                    },
            decreases value.steps@.len() - k,
        {
            let s = &value.steps[k];
            let copy = ExecutionStep {
                index: s.index,
                phase: s.phase.clone(),
                kind: s.kind.clone(),
                detail: s.detail.clone(),
            };
            out.push(JsExecutionStep::from_step(copy));
            k = k + 1;
        }
        JsAgentRunResult { output: value.content, steps: out }
    }
}

pub open spec fn default_name() -> Seq<char> {
    "Personal Assistant"@
}

pub open spec fn default_system_prompt() -> Seq<char> {
    "You are a helpful Personal Assistant agent."@
}

/// The system prompt preamble with a custom agentic loop appended between
/// `<enki:agentic-loop>` markers, when one is given and is not blank.
pub open spec fn preamble_spec(preamble: Seq<char>, agentic_loop: Option<Seq<char>>) -> Seq<char> {
    match agentic_loop {
        Some(l) => if trim_seq(l).len() == 0 {
            preamble
        } else {
            preamble + "\n"@ + "<enki:agentic-loop>"@ + "\n"@ + trim_seq(l) + "\n"@ + "</enki:agentic-loop>"@
        },
        None => preamble,
    }
}

pub fn compose_system_prompt_preamble(system_prompt_preamble: String, agentic_loop: Option<String>) -> (res: String)
    ensures
        res@ == preamble_spec(
            system_prompt_preamble@,
            match agentic_loop {
                Some(l) => Some(l@),
                None => None,
            },
        ),
{
    let l = match agentic_loop {
        None => {
            return system_prompt_preamble;
        },
        Some(l) => trim(l.as_str()),
    };
    if l.as_str().unicode_len() == 0 {
        return system_prompt_preamble;
    }
    let head = cat5(system_prompt_preamble.as_str(), "\n", "<enki:agentic-loop>", "\n", l.as_str());
    let tail = concat("\n", "</enki:agentic-loop>");
    proof {
        assert(head@ + tail@ =~= system_prompt_preamble@ + "\n"@ + "<enki:agentic-loop>"@ + "\n"@ + l@ + "\n"@
            + "</enki:agentic-loop>"@);
    }
    concat(head.as_str(), tail.as_str())
}


/// The definition of an agent from the binding's options: defaults for a
/// missing name, preamble and model; at least one iteration (20 by default).
pub fn build_definition(
    name: Option<String>,
    system_prompt_preamble: Option<String>,
    agentic_loop: Option<String>,
    model: Option<String>,
    max_iterations: Option<u32>,
) -> (res: AgentDefinition)
    ensures
        res.name@ == (match opt_string(name) {
            Some(n) => n,
            None => default_name(),
        }),
        res.system_prompt_preamble@ == preamble_spec(
            match opt_string(system_prompt_preamble) {
                Some(p) => p,
                None => default_system_prompt(),
            },
            opt_string(agentic_loop),
        ),
        res.model@ == (match opt_string(model) {
            Some(m) => m,
            None => Seq::<char>::empty(),
        }),
        res.max_iterations == (match max_iterations {
            Some(m) => if m == 0 { 1 } else { m },
            None => 20,
        }),
{
    let name = match name {
        Some(n) => n,
        None => "Personal Assistant".to_owned(),
    };
    let preamble = match system_prompt_preamble {
        Some(p) => p,
        None => "You are a helpful Personal Assistant agent.".to_owned(),
    };
    let model = match model {
        Some(m) => m,
        None => String::new(),
    };
    let iterations: u32 = match max_iterations {
        Some(m) => m,
        None => 20,
    };
    let iterations: u32 = if iterations < 1 {
        1
    } else {
        iterations
    };
    AgentDefinition {
        name,
        system_prompt_preamble: compose_system_prompt_preamble(preamble, agentic_loop),
        model,
        max_iterations: iterations as usize,
    }
}

/// A member's id, definition and capabilities.
pub fn build_multi_agent_definition(member: JsMultiAgentMember) -> (res: (String, AgentDefinition, Vec<String>))
    ensures
        res.0 == member.agent_id,
        res.2 == member.capabilities,
        res.1.name@ == member.name@,
        res.1.system_prompt_preamble@ == (match opt_string(member.system_prompt_preamble) {
            Some(p) => p,
            None => default_system_prompt(),
        }),
        res.1.model@ == (match opt_string(member.model) {
            Some(m) => m,
            None => Seq::<char>::empty(),
        }),
        res.1.max_iterations == (match member.max_iterations {
            Some(m) => if m == 0 { 1 } else { m },
            None => 20,
        }),
{
    let JsMultiAgentMember { agent_id, name, system_prompt_preamble, model, max_iterations, capabilities } = member;
    let definition = build_definition(Some(name), system_prompt_preamble, None, model, max_iterations);
    (agent_id, definition, capabilities)
}

/// A run that failed before answering: its content is the message.
pub fn error_run_result(message: String) -> (res: AgentRunResult)
    ensures
        res.content == message,
        res.steps@.len() == 0,
{
    AgentRunResult { content: message, steps: Vec::new() }
}

/// The run failed when its trace ends in a `failed` or `error` step.
pub open spec fn ends_in_failure(steps: Seq<ExecutionStep>) -> bool {
    steps.len() > 0 && (steps.last().kind@ == "failed"@ || steps.last().kind@ == "error"@)
}

/// When a workflow task's run failed, the error to report: the run's content,
/// trimmed. A run failed when its trace ends in a failure or its content
/// starts with `LLM error:`.
pub open spec fn task_failure_spec(content: Seq<char>, steps: Seq<ExecutionStep>) -> Option<Seq<char>> {
    if ends_in_failure(steps) || has_prefix(trim_start_seq(content), "LLM error:"@) {
        Some(trim_seq(content))
    } else {
        None
    }
}

pub fn workflow_task_failure_message(result: &AgentRunResult) -> (res: Option<String>)
    ensures
        opt_string(res) == task_failure_spec(result.content@, result.steps@),
{
    let n = result.steps.len();
    if n > 0 {
        let kind = result.steps[n - 1].kind.as_str();
        if crate::text::str_eq(kind, "failed") || crate::text::str_eq(kind, "error") {
            return Some(trim(result.content.as_str()));
        }
    }
    let start = crate::text::trim_start_chars(&crate::text::chars_of(result.content.as_str()));
    let prefix = crate::text::chars_of("LLM error:");
    if crate::text::starts_with(&start, &prefix) {
        return Some(trim(result.content.as_str()));
    }
    None
}


/// The first of the named properties a JavaScript tool object has
/// (`present[i]` says whether it has `names[i]`), or the error naming them all.
pub fn first_present_property(names: &[String], present: &[bool]) -> (res: Result<usize, String>)
    requires
        names@.len() == present@.len(),
    ensures
        match res {
            Ok(i) => i < names@.len() && present@[i as int] && forall|k: int| 0 <= k < i ==> !present@[k],
            Err(e) => (forall|k: int| 0 <= k < present@.len() ==> !present@[k]) && e@ == "Missing tool property '"@
                + join(string_views(names@), "' or '"@) + "'"@,
        },
{
    let mut i: usize = 0;
    while i < present.len()
        invariant
            i <= present@.len(),
            names@.len() == present@.len(),
            forall|k: int| 0 <= k < i ==> !present@[k],
        decreases present@.len() - i,
    {
        if present[i] {
            return Ok(i);
        }
        i = i + 1;
    }
    let joined = join_strings(names, "' or '");
    proof {
        assert(names@.map_values(|p: String| p@) =~= string_views(names@));
    }
    Err(cat3("Missing tool property '", joined.as_str(), "'"))
}

/// Where a JavaScript tool's input schema comes from, in the order they are
/// looked for: JSON text first, then an object to stringify.
#[derive(PartialEq, Eq, Structural, Clone, Copy, Debug)]
pub enum SchemaSource {
    InputSchemaJson,
    ParametersJson,
    InputSchema,
    Parameters,
}

pub fn schema_source(
    has_input_schema_json: bool,
    has_parameters_json: bool,
    has_input_schema: bool,
    has_parameters: bool,
) -> (res: Result<SchemaSource, String>)
    ensures
        res == (if has_input_schema_json {
            Ok::<SchemaSource, String>(SchemaSource::InputSchemaJson)
        } else if has_parameters_json {
            Ok(SchemaSource::ParametersJson)
        } else if has_input_schema {
            Ok(SchemaSource::InputSchema)
        } else if has_parameters {
            Ok(SchemaSource::Parameters)
        } else {
            res
        }),
        res is Err ==> !has_input_schema_json && !has_parameters_json && !has_input_schema && !has_parameters && (
        res matches Err(e) && e@
            == "Missing tool property 'inputSchema', 'inputSchemaJson', 'parameters', or 'parametersJson'"@),
{
    if has_input_schema_json {
        Ok(SchemaSource::InputSchemaJson)
    } else if has_parameters_json {
        Ok(SchemaSource::ParametersJson)
    } else if has_input_schema {
        Ok(SchemaSource::InputSchema)
    } else if has_parameters {
        Ok(SchemaSource::Parameters)
    } else {
        Err("Missing tool property 'inputSchema', 'inputSchemaJson', 'parameters', or 'parametersJson'".to_owned())
    }
}

/// Which function runs a JavaScript tool: its own `execute`, else the shared
/// tool handler.
#[derive(PartialEq, Eq, Structural, Clone, Copy, Debug)]
pub enum HandlerChoice {
    PerTool,
    Shared,
}

pub fn tool_handler_choice(tool_name: &str, has_execute: bool, has_shared: bool) -> (res: Result<HandlerChoice, String>)
    ensures
        match res {
            Ok(c) => if has_execute {
                c == HandlerChoice::PerTool
            } else {
                has_shared && c == HandlerChoice::Shared
            },
            Err(e) => !has_execute && !has_shared && e@ == "Tool '"@ + tool_name@
                + "' must define an execute function or use a shared toolHandler"@,
        },
{
    if has_execute {
        Ok(HandlerChoice::PerTool)
    } else if has_shared {
        Ok(HandlerChoice::Shared)
    } else {
        Err(cat3("Tool '", tool_name, "' must define an execute function or use a shared toolHandler"))
    }
}

/// The error for a tool whose input schema is not valid JSON.
pub fn invalid_schema_message(tool_name: &str, error: &str) -> (res: String)
    ensures
        res@ == "Invalid input schema JSON for tool '"@ + tool_name@ + "': "@ + error@,
{
    let head = cat3("Invalid input schema JSON for tool '", tool_name, "': ");
    concat(head.as_str(), error)
}

} // verus!
