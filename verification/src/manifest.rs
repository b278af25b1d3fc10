//! The `enki.toml` project manifest: its sections, the checks made after it is
//! read, and its conversion into workflow definitions.
use crate::text::{
    cat3, cat5, cat7, clone_opt, clone_pairs, clone_strings, eq_ignore_ascii_case, is_blank, lower_seq,
    str_eq, trim_seq,
};
use crate::workflow::types::{
    RetryPolicy, TaskDefinition, TaskTarget, WorkflowDefinition, WorkflowEdgeDefinition,
    WorkflowEdgeTransition, WorkflowFailurePolicy, WorkflowNodeDefinition, WorkflowNodeKind,
};
use crate::workflow::validate::contains_string;
use crate::text::{opt_string, string_views};
use vstd::prelude::*;

verus! {

pub struct ProjectConfig {
    pub name: String,
    pub version: String,
    pub workflow_files: Vec<String>,
}

pub struct WorkspaceConfig {
    pub home: String,
}

/// The version a project gets when the manifest names none.
pub fn default_version() -> (res: String)
    ensures
        res@ == "0.1.0"@,
{
    "0.1.0".to_owned()
}

/// The workspace home a project gets when the manifest names none.
pub fn default_home() -> (res: String)
    ensures
        res@ == "./.enki"@,
{
    "./.enki".to_owned()
}

impl WorkspaceConfig {
    pub fn default_config() -> (res: Self)
        ensures
            res.home@ == "./.enki"@,
    {
        WorkspaceConfig { home: default_home() }
    }
}

pub struct ToolConfig {
    pub id: String,
    pub kind: String,
    pub path: String,
    pub symbol: String,
}

impl Clone for ToolConfig {
    fn clone(&self) -> (res: Self)
        ensures
            res == *self,
    {
        ToolConfig {
            id: self.id.clone(),
            kind: self.kind.clone(),
            path: self.path.clone(),
            symbol: self.symbol.clone(),
        }
    }
}

impl ToolConfig {
    pub open spec fn python(&self) -> bool {
        lower_seq(self.kind@) == lower_seq("python"@)
    }

    /// The tool is a Python tool (kind `python`, any ASCII case).
    pub fn is_python(&self) -> (res: bool)
        ensures
            res == self.python(),
    {
        eq_ignore_ascii_case(self.kind.as_str(), "python")
    }
}

pub struct TransformConfig {
    pub id: String,
    pub kind: String,
    pub path: Option<String>,
    pub symbol: Option<String>,
}

/// The kind a transform gets when the manifest names none.
pub fn default_builtin_kind() -> (res: String)
    ensures
        res@ == "builtin"@,
{
    "builtin".to_owned()
}

pub struct TaskConfig {
    pub id: String,
    pub agent: Option<String>,
    pub capabilities: Vec<String>,
    pub prompt: String,
    pub input_bindings: Vec<(String, String)>,
    pub input_transform: Option<String>,
    pub output_transform: Option<String>,
    pub output_key: Option<String>,
    pub max_attempts: Option<usize>,
    pub failure_policy: Option<String>,
}

pub struct WorkflowConfig {
    pub id: String,
    pub name: Option<String>,
    pub max_attempts: Option<usize>,
    pub failure_policy: Option<String>,
    pub nodes: Vec<WorkflowNodeConfig>,
    pub edges: Vec<WorkflowEdgeConfig>,
}

pub struct WorkflowNodeConfig {
    pub id: String,
    pub kind: String,
    pub task: Option<String>,
    pub agent: Option<String>,
    pub capabilities: Vec<String>,
    pub prompt: Option<String>,
    pub condition: Option<String>,
    pub transform: Option<String>,
    pub input_key: Option<String>,
    pub output_key: Option<String>,
    pub max_attempts: Option<usize>,
    pub failure_policy: Option<String>,
}

pub struct WorkflowEdgeConfig {
    pub from: String,
    pub to: String,
    pub on: Option<String>,
    pub condition: Option<String>,
}

pub struct AgentConfig {
    pub id: String,
    pub name: String,
    pub model: String,
    pub system_prompt: String,
    pub max_iterations: usize,
    pub capabilities: Vec<String>,
    pub tools: Vec<String>,
    pub script: Option<String>,
}

/// The iteration budget an agent gets when the manifest names none.
pub fn default_max_iterations() -> (res: usize)
    ensures
        res == 20,
{
    20
}

pub struct Manifest {
    pub project: ProjectConfig,
    pub workspace: WorkspaceConfig,
    pub workflow_files: Vec<String>,
    pub tools: Vec<ToolConfig>,
    pub transforms: Vec<TransformConfig>,
    pub tasks: Vec<TaskConfig>,
    pub workflows: Vec<WorkflowConfig>,
    pub agents: Vec<AgentConfig>,
}

/// The transforms every workflow runtime provides.
pub open spec fn builtin_transform(id: Seq<char>) -> bool {
    id == "identity"@ || id == "extract_content"@
}

pub fn is_builtin_transform(transform_id: &str) -> (res: bool)
    ensures
        res == builtin_transform(transform_id@),
{
    str_eq(transform_id, "identity") || str_eq(transform_id, "extract_content")
}

/// An agent id wins when it is not blank; otherwise a non-empty capability list.
pub fn target_from_parts(agent: Option<&str>, capabilities: &[String]) -> (res: Result<TaskTarget, String>)
    ensures
        match res {
            Ok(TaskTarget::AgentId(id)) => agent matches Some(a) && trim_seq(a@).len() > 0 && id@ == a@,
            Ok(TaskTarget::Capabilities(caps)) => !(agent matches Some(a) && trim_seq(a@).len() > 0)
                && capabilities@.len() > 0 && caps@ == capabilities@,
            Err(e) => !(agent matches Some(a) && trim_seq(a@).len() > 0) && capabilities@.len() == 0
                && e@ == "Task target must define either `agent` or `capabilities`."@,
        },
{
    if let Some(agent_id) = agent {
        if !is_blank(agent_id) {
            return Ok(TaskTarget::AgentId(agent_id.to_owned()));
        }
    }
    if capabilities.len() > 0 {
        return Ok(TaskTarget::Capabilities(clone_strings(capabilities)));
    }
    Err("Task target must define either `agent` or `capabilities`.".to_owned())
}

/// The failure policy named by a manifest value.
pub open spec fn failure_policy_named(raw: Seq<char>) -> Option<WorkflowFailurePolicy> {
    if raw == "continue_best_effort"@ {
        Some(WorkflowFailurePolicy::ContinueBestEffort)
    } else if raw == "fail"@ || raw == "fail_workflow"@ {
        Some(WorkflowFailurePolicy::FailWorkflow)
    } else if raw == "pause"@ || raw == "pause_for_intervention"@ {
        Some(WorkflowFailurePolicy::PauseForIntervention)
    } else {
        None
    }
}

/// The names a manifest may give a failure policy, and no others:
/// `continue_best_effort`; `fail` or `fail_workflow`; `pause` or
/// `pause_for_intervention`.
pub proof fn law_failure_policy_names(raw: Seq<char>)
    ensures
        failure_policy_named(raw) == Some(WorkflowFailurePolicy::ContinueBestEffort) <==> raw
            == seq!['c', 'o', 'n', 't', 'i', 'n', 'u', 'e', '_', 'b', 'e', 's', 't', '_', 'e', 'f', 'f', 'o', 'r', 't'],
        failure_policy_named(raw) == Some(WorkflowFailurePolicy::FailWorkflow) <==> (raw == seq!['f', 'a', 'i', 'l']
            || raw == seq!['f', 'a', 'i', 'l', '_', 'w', 'o', 'r', 'k', 'f', 'l', 'o', 'w']),
        failure_policy_named(raw) == Some(WorkflowFailurePolicy::PauseForIntervention) <==> (raw == seq![
            'p',
            'a',
            'u',
            's',
            'e',
        ] || raw == seq![
            'p', 'a', 'u', 's', 'e', '_', 'f', 'o', 'r', '_', 'i', 'n', 't', 'e', 'r', 'v', 'e', 'n', 't', 'i', 'o', 'n',
        ]),
{
    reveal_strlit("continue_best_effort");
    reveal_strlit("fail");
    reveal_strlit("fail_workflow");
    reveal_strlit("pause");
    reveal_strlit("pause_for_intervention");
    assert("continue_best_effort"@ =~= seq![
        'c', 'o', 'n', 't', 'i', 'n', 'u', 'e', '_', 'b', 'e', 's', 't', '_', 'e', 'f', 'f', 'o', 'r', 't',
    ]);
    assert("fail"@ =~= seq!['f', 'a', 'i', 'l']);
    assert("fail_workflow"@ =~= seq!['f', 'a', 'i', 'l', '_', 'w', 'o', 'r', 'k', 'f', 'l', 'o', 'w']);
    assert("pause"@ =~= seq!['p', 'a', 'u', 's', 'e']);
    assert("pause_for_intervention"@ =~= seq![
        'p', 'a', 'u', 's', 'e', '_', 'f', 'o', 'r', '_', 'i', 'n', 't', 'e', 'r', 'v', 'e', 'n', 't', 'i', 'o', 'n',
    ]);
}

pub fn parse_failure_policy(raw: Option<&str>) -> (res: Result<Option<WorkflowFailurePolicy>, String>)
    ensures
        match raw {
            None => res == Ok::<Option<WorkflowFailurePolicy>, String>(None),
            Some(v) => match failure_policy_named(v@) {
                Some(p) => res == Ok::<Option<WorkflowFailurePolicy>, String>(Some(p)),
                None => res matches Err(e) && e@ == "Unknown workflow failure policy '"@ + v@ + "'."@,
            },
        },
{
    match raw {
        None => Ok(None),
        Some(v) => {
            if str_eq(v, "continue_best_effort") {
                Ok(Some(WorkflowFailurePolicy::ContinueBestEffort))
            } else if str_eq(v, "fail") || str_eq(v, "fail_workflow") {
                Ok(Some(WorkflowFailurePolicy::FailWorkflow))
            } else if str_eq(v, "pause") || str_eq(v, "pause_for_intervention") {
                Ok(Some(WorkflowFailurePolicy::PauseForIntervention))
            } else {
                Err(cat3("Unknown workflow failure policy '", v, "'."))
            }
        },
    }
}

fn opt_str(v: &Option<String>) -> (res: Option<&str>)
    ensures
        match v {
            Some(s) => res matches Some(r) && r@ == s@,
            None => res is None,
        },
{
    match v {
        Some(s) => Some(s.as_str()),
        None => None,
    }
}

pub open spec fn retry_from(max_attempts: Option<usize>) -> Option<RetryPolicy> {
    match max_attempts {
        Some(n) => Some(RetryPolicy { max_attempts: n }),
        None => None,
    }
}

fn retry_policy_from(max_attempts: Option<usize>) -> (res: Option<RetryPolicy>)
    ensures
        res == retry_from(max_attempts),
{
    match max_attempts {
        Some(n) => Some(RetryPolicy { max_attempts: n }),
        None => None,
    }
}


/// The task definition `t` is what task entry `c` describes.
pub open spec fn task_core_of(c: TaskConfig, t: TaskDefinition) -> bool {
    &&& t.id == c.id
    &&& t.prompt == c.prompt
    &&& t.input_bindings@ == c.input_bindings@
    &&& t.input_transform == c.input_transform
    &&& t.output_transform == c.output_transform
    &&& t.output_key == c.output_key
    &&& t.retry_policy == retry_from(c.max_attempts)
    &&& opt_string(c.failure_policy) matches Some(v) ==> t.failure_policy == failure_policy_named(v)
    &&& c.failure_policy is None ==> t.failure_policy is None
    &&& match t.target {
        TaskTarget::AgentId(a) => c.agent matches Some(x) && trim_seq(x@).len() > 0 && a@ == x@,
        TaskTarget::Capabilities(caps) => !(c.agent matches Some(x) && trim_seq(x@).len() > 0)
            && caps@ == c.capabilities@,
    }
}

/// Why a task entry cannot become a task definition, if it cannot: it has
/// neither a (non-blank) agent nor capabilities, or it names an unknown
/// failure policy; the target is checked first.
pub open spec fn task_config_error(c: TaskConfig) -> Option<Seq<char>> {
    if !(c.agent matches Some(x) && trim_seq(x@).len() > 0) && c.capabilities@.len() == 0 {
        Some("Task target must define either `agent` or `capabilities`."@)
    } else {
        match opt_string(c.failure_policy) {
            Some(v) => if failure_policy_named(v) is None {
                Some("Unknown workflow failure policy '"@ + v + "'."@)
            } else {
                None
            },
            None => None,
        }
    }
}

/// The first task entry, from index `k` on, that cannot become a task definition.
pub open spec fn first_bad_task(tasks: Seq<TaskConfig>, k: int) -> Option<int>
    decreases tasks.len() - k,
{
    if k < 0 || k >= tasks.len() {
        None
    } else if task_config_error(tasks[k]) is Some {
        Some(k)
    } else {
        first_bad_task(tasks, k + 1)
    }
}

impl TaskConfig {
    /// The task definition this entry describes. The target is checked
    /// before the failure policy.
    pub fn to_core(&self) -> (res: Result<TaskDefinition, String>)
        ensures
            match task_config_error(*self) {
                Some(m) => res matches Err(e) && e@ == m,
                None => res matches Ok(t) && task_core_of(*self, t),
            },
    {
        let target = target_from_parts(opt_str(&self.agent), &self.capabilities)?;
        let failure_policy = parse_failure_policy(opt_str(&self.failure_policy))?;
        Ok(TaskDefinition {
            id: self.id.clone(),
            target,
            prompt: self.prompt.clone(),
            input_bindings: clone_pairs(&self.input_bindings),
            input_transform: clone_opt(&self.input_transform),
            output_transform: clone_opt(&self.output_transform),
            output_key: clone_opt(&self.output_key),
            retry_policy: retry_policy_from(self.max_attempts),
            failure_policy,
        })
    }
}

impl WorkflowEdgeConfig {
    pub fn to_core(&self) -> (res: Result<WorkflowEdgeDefinition, String>)
        ensures
            match res {
                Ok(e) => {
                    &&& e.from == self.from
                    &&& e.to == self.to
                    &&& match (self.on, self.condition) {
                        (_, Some(c)) => e.transition matches WorkflowEdgeTransition::Condition(x) && x@ == c@,
                        (None, None) => e.transition is OnSuccess,
                        (Some(on), None) => if on@ == "always"@ {
                            e.transition is Always
                        } else if on@ == "success"@ {
                            e.transition is OnSuccess
                        } else if on@ == "failure"@ {
                            e.transition is OnFailure
                        } else {
                            &&& on@.len() >= 10 && on@.take(10) == "condition:"@
                            &&& e.transition matches WorkflowEdgeTransition::Condition(x)
                                && x@ == trim_seq(strip_all_prefix(on@, "condition:"@))
                        },
                    }
                },
                Err(msg) => self.condition is None && (self.on matches Some(on) && on@ != "always"@
                    && on@ != "success"@ && on@ != "failure"@ && !(on@.len() >= 10 && on@.take(10)
                    == "condition:"@) && msg@ == "Unknown workflow edge transition '"@ + on@ + "'."@),
            },
    {
        let transition = match (&self.condition, &self.on) {
            (Some(c), _) => WorkflowEdgeTransition::Condition(c.clone()),
            (None, None) => WorkflowEdgeTransition::OnSuccess,
            (None, Some(on)) => {
                if str_eq(on.as_str(), "always") {
                    WorkflowEdgeTransition::Always
                } else if str_eq(on.as_str(), "success") {
                    WorkflowEdgeTransition::OnSuccess
                } else if str_eq(on.as_str(), "failure") {
                    WorkflowEdgeTransition::OnFailure
                } else if has_condition_prefix(on.as_str()) {
                    WorkflowEdgeTransition::Condition(condition_body(on.as_str()))
                } else {
                    return Err(cat3("Unknown workflow edge transition '", on.as_str(), "'."));
                }
            },
        };
        Ok(WorkflowEdgeDefinition { from: self.from.clone(), to: self.to.clone(), transition })
    }
}

/// Why a manifest node cannot be converted, if it cannot: the kind is
/// unknown, a field its kind needs is missing, an inline task has no target,
/// or a failure policy is unknown.
pub open spec fn node_config_ok(n: WorkflowNodeConfig) -> bool {
    let k = n.kind@;
    let policy_ok = (opt_string(n.failure_policy) matches Some(v) ==> failure_policy_named(v) is Some);
    &&& (k == "task"@ || k == "decision"@ || k == "human_gate"@ || k == "transform"@ || k == "join"@)
    &&& (k == "task"@ && n.task is None ==> {
        &&& ((n.agent matches Some(x) && trim_seq(x@).len() > 0) || n.capabilities@.len() > 0)
        &&& n.prompt is Some
    })
    &&& (k == "decision"@ ==> n.condition is Some)
    &&& (k == "human_gate"@ ==> n.prompt is Some)
    &&& (k == "transform"@ ==> n.transform is Some)
    &&& policy_ok
}

/// The node kind a manifest node converts to, given that it converts.
pub open spec fn node_kind_matches(n: WorkflowNodeConfig, workflow_id: Seq<char>, kind: WorkflowNodeKind) -> bool {
    let k = n.kind@;
    if k == "task"@ {
        match kind {
            WorkflowNodeKind::Task { task_id, task } => {
                &&& task_id == n.task
                &&& (n.task is Some ==> task is None)
                &&& (n.task is None ==> (task matches Some(t) && t.id@ == workflow_id + "."@ + n.id@
                    && t.prompt == n.prompt->0 && t.input_bindings@.len() == 0 && t.input_transform is None
                    && t.output_transform is None && t.output_key == n.output_key && t.retry_policy
                    == retry_from(n.max_attempts) && match t.target {
                    TaskTarget::AgentId(a) => n.agent matches Some(x) && a@ == x@,
                    TaskTarget::Capabilities(c) => c@ == n.capabilities@,
                }))
            },
            _ => false,
        }
    } else if k == "decision"@ {
        kind matches WorkflowNodeKind::Decision { condition } && Some(condition) == n.condition
    } else if k == "human_gate"@ {
        kind matches WorkflowNodeKind::HumanGate { prompt } && Some(prompt) == n.prompt
    } else if k == "transform"@ {
        kind matches WorkflowNodeKind::Transform { transform_id, input_key } && Some(transform_id)
            == n.transform && input_key == n.input_key
    } else {
        kind is Join
    }
}

fn require_field(v: &Option<String>, msg_start: &str, node_id: &str, msg_end: &str) -> (res: Result<String, String>)
    ensures
        match v {
            Some(s) => res == Ok::<String, String>(*s),
            None => res matches Err(e) && e@ == msg_start@ + node_id@ + msg_end@,
        },
{
    match v {
        Some(s) => Ok(s.clone()),
        None => Err(cat3(msg_start, node_id, msg_end)),
    }
}

impl WorkflowNodeConfig {
    /// The workflow node this entry describes; an inline task gets the id
    /// `<workflow_id>.<node_id>`.
    pub fn to_core(&self, workflow_id: &str) -> (res: Result<WorkflowNodeDefinition, String>)
        ensures
            res is Ok <==> node_config_ok(*self),
            res matches Ok(n) ==> {
                &&& n.id == self.id
                &&& n.output_key == self.output_key
                &&& n.retry_policy == retry_from(self.max_attempts)
                &&& (opt_string(self.failure_policy) matches Some(v) ==> n.failure_policy
                    == failure_policy_named(v))
                &&& (self.failure_policy is None ==> n.failure_policy is None)
                &&& node_kind_matches(*self, workflow_id@, n.kind)
            },
            res matches Err(e) ==> !(self.kind@ == "task"@ || self.kind@ == "decision"@ || self.kind@
                == "human_gate"@ || self.kind@ == "transform"@ || self.kind@ == "join"@) ==> e@
                == "Unknown workflow node kind '"@ + self.kind@ + "'."@,
    {
        let k = self.kind.as_str();
        proof {
            reveal_strlit("task");
            reveal_strlit("decision");
            reveal_strlit("human_gate");
            reveal_strlit("transform");
            reveal_strlit("join");
            assert("task"@.len() == 4 && "join"@.len() == 4);
            assert("task"@ != "join"@) by {
                assert("task"@[0] != "join"@[0]);
            }
            assert("decision"@.len() == 8 && "human_gate"@.len() == 10 && "transform"@.len() == 9);
        }
        let kind = if str_eq(k, "task") {
            let task = if self.task.is_some() {
                None
            } else {
                let target = target_from_parts(opt_str(&self.agent), &self.capabilities)?;
                let prompt = require_field(
                    &self.prompt,
                    "Workflow node '",
                    self.id.as_str(),
                    "' must define prompt for inline task.",
                )?;
                let failure_policy = parse_failure_policy(opt_str(&self.failure_policy))?;
                Some(
                    TaskDefinition {
                        id: cat3(workflow_id, ".", self.id.as_str()),
                        target,
                        prompt,
                        input_bindings: Vec::new(),
                        input_transform: None,
                        output_transform: None,
                        output_key: clone_opt(&self.output_key),
                        retry_policy: retry_policy_from(self.max_attempts),
                        failure_policy,
                    },
                )
            };
            WorkflowNodeKind::Task { task_id: clone_opt(&self.task), task }
        } else if str_eq(k, "decision") {
            let condition = require_field(
                &self.condition,
                "Workflow decision node '",
                self.id.as_str(),
                "' must define condition.",
            )?;
            WorkflowNodeKind::Decision { condition }
        } else if str_eq(k, "human_gate") {
            let prompt = require_field(
                &self.prompt,
                "Workflow human_gate node '",
                self.id.as_str(),
                "' must define prompt.",
            )?;
            WorkflowNodeKind::HumanGate { prompt }
        } else if str_eq(k, "transform") {
            let transform_id = require_field(
                &self.transform,
                "Workflow transform node '",
                self.id.as_str(),
                "' must define transform.",
            )?;
            WorkflowNodeKind::Transform { transform_id, input_key: clone_opt(&self.input_key) }
        } else if str_eq(k, "join") {
            WorkflowNodeKind::Join
        } else {
            return Err(cat3("Unknown workflow node kind '", k, "'."));
        };
        let failure_policy = parse_failure_policy(opt_str(&self.failure_policy))?;
        Ok(
            WorkflowNodeDefinition {
                id: self.id.clone(),
                kind,
                output_key: clone_opt(&self.output_key),
                retry_policy: retry_policy_from(self.max_attempts),
                failure_policy,
            },
        )
    }
}

pub open spec fn edge_config_ok(e: WorkflowEdgeConfig) -> bool {
    e.condition is Some || match e.on {
        None => true,
        Some(on) => on@ == "always"@ || on@ == "success"@ || on@ == "failure"@ || (on@.len() >= 10
            && on@.take(10) == "condition:"@),
    }
}

pub open spec fn workflow_config_ok(w: WorkflowConfig) -> bool {
    &&& forall|i: int| 0 <= i < w.nodes@.len() ==> node_config_ok(#[trigger] w.nodes@[i])
    &&& forall|i: int| 0 <= i < w.edges@.len() ==> edge_config_ok(#[trigger] w.edges@[i])
    &&& (opt_string(w.failure_policy) matches Some(v) ==> failure_policy_named(v) is Some)
}

impl WorkflowConfig {
    /// The workflow definition this entry describes; the name defaults to the id.
    pub fn to_core(&self) -> (res: Result<WorkflowDefinition, String>)
        ensures
            res is Ok <==> workflow_config_ok(*self),
            res matches Ok(w) ==> {
                &&& w.id == self.id
                &&& (self.name matches Some(n) ==> w.name == n)
                &&& (self.name is None ==> w.name == self.id)
                &&& w.nodes@.len() == self.nodes@.len()
                &&& forall|i: int|
                    0 <= i < w.nodes@.len() ==> #[trigger] w.nodes@[i].id == self.nodes@[i].id
                        && node_kind_matches(self.nodes@[i], self.id@, w.nodes@[i].kind)
                        && w.nodes@[i].output_key == self.nodes@[i].output_key
                        && w.nodes@[i].retry_policy == retry_from(self.nodes@[i].max_attempts)
                &&& w.edges@.len() == self.edges@.len()
                &&& forall|i: int|
                    0 <= i < w.edges@.len() ==> #[trigger] w.edges@[i].from == self.edges@[i].from
                        && w.edges@[i].to == self.edges@[i].to
                &&& w.retry_policy == retry_from(self.max_attempts)
                &&& (opt_string(self.failure_policy) matches Some(v) ==> w.failure_policy
                    == failure_policy_named(v))
                &&& (self.failure_policy is None ==> w.failure_policy is None)
            },
    {
        let mut nodes: Vec<WorkflowNodeDefinition> = Vec::new();
        let mut i: usize = 0;
        while i < self.nodes.len()
            invariant
                i <= self.nodes@.len(),
                nodes@.len() == i,
                forall|j: int| 0 <= j < i ==> node_config_ok(#[trigger] self.nodes@[j]),
                forall|j: int|
                    0 <= j < i ==> #[trigger] nodes@[j].id == self.nodes@[j].id && node_kind_matches(
                        self.nodes@[j],
                        self.id@,
                        nodes@[j].kind,
                    ) && nodes@[j].output_key == self.nodes@[j].output_key && nodes@[j].retry_policy
                        == retry_from(self.nodes@[j].max_attempts),
            decreases self.nodes@.len() - i,
        {
            let n = self.nodes[i].to_core(self.id.as_str());
            let ghost prev = nodes@;
            match n {
                Ok(n) => {
                    nodes.push(n);
                    assert forall|j: int| 0 <= j < i + 1 implies #[trigger] nodes@[j].id
                        == self.nodes@[j].id && node_kind_matches(
                        self.nodes@[j],
                        self.id@,
                        nodes@[j].kind,
                    ) && nodes@[j].output_key == self.nodes@[j].output_key && nodes@[j].retry_policy
                        == retry_from(self.nodes@[j].max_attempts) by {
                        if j < i {
                            assert(nodes@[j] == prev[j]);
                        }
                    }
                },
                Err(e) => {
                    assert(!node_config_ok(self.nodes@[i as int]));
                    return Err(e);
                },
            }
            i = i + 1;
        }
        let mut edges: Vec<WorkflowEdgeDefinition> = Vec::new();
        let mut j: usize = 0;
        while j < self.edges.len()
            invariant
                j <= self.edges@.len(),
                edges@.len() == j,
                forall|k: int| 0 <= k < self.nodes@.len() ==> node_config_ok(#[trigger] self.nodes@[k]),
                forall|k: int| 0 <= k < j ==> edge_config_ok(#[trigger] self.edges@[k]),
                forall|k: int|
                    0 <= k < j ==> #[trigger] edges@[k].from == self.edges@[k].from && edges@[k].to
                        == self.edges@[k].to,
            decreases self.edges@.len() - j,
        {
            let e = self.edges[j].to_core();
            let ghost prev = edges@;
            match e {
                Ok(e) => {
                    edges.push(e);
                    assert forall|k: int| 0 <= k < j + 1 implies #[trigger] edges@[k].from
                        == self.edges@[k].from && edges@[k].to == self.edges@[k].to by {
                        if k < j {
                            assert(edges@[k] == prev[k]);
                        }
                    }
                },
                Err(msg) => {
                    assert(!edge_config_ok(self.edges@[j as int]));
                    return Err(msg);
                },
            }
            j = j + 1;
        }
        let failure_policy = parse_failure_policy(opt_str(&self.failure_policy))?;
        let name = match &self.name {
            Some(n) => n.clone(),
            None => self.id.clone(),
        };
        Ok(
            WorkflowDefinition {
                id: self.id.clone(),
                name,
                nodes,
                edges,
                retry_policy: retry_policy_from(self.max_attempts),
                failure_policy,
            },
        )
    }
}

/// `s` with every leading copy of `p` removed (as `str::trim_start_matches`).
pub open spec fn strip_all_prefix(s: Seq<char>, p: Seq<char>) -> Seq<char>
    decreases s.len(),
{
    if p.len() > 0 && s.len() >= p.len() && s.take(p.len() as int) == p {
        strip_all_prefix(s.skip(p.len() as int), p)
    } else {
        s
    }
}

fn has_condition_prefix(on: &str) -> (res: bool)
    ensures
        res == (on@.len() >= 10 && on@.take(10) == "condition:"@),
{
    let s = crate::text::chars_of(on);
    let p = crate::text::chars_of("condition:");
    proof {
        reveal_strlit("condition:");
    }
    let r = crate::text::starts_with(&s, &p);
    proof {
        assert(on@.take(10) =~= on@.subrange(0, 10));
    }
    r
}

/// The expression after the leading `condition:` markers, trimmed.
fn condition_body(on: &str) -> (res: String)
    ensures
        res@ == trim_seq(strip_all_prefix(on@, "condition:"@)),
{
    let p = crate::text::chars_of("condition:");
    proof {
        reveal_strlit("condition:");
    }
    let s = crate::text::chars_of(on);
    let mut i: usize = 0;
    proof {
        assert(s@.skip(0) =~= s@);
    }
    while s.len() - i >= 10 && crate::text::matches_at(&s, &p, i)
        invariant
            p@ == "condition:"@,
            p@.len() == 10,
            i <= s@.len(),
            strip_all_prefix(on@, p@) == strip_all_prefix(s@.skip(i as int), p@),
            s@ == on@,
        decreases s@.len() - i,
    {
        proof {
            let t = s@.skip(i as int);
            assert(t.take(10) =~= s@.subrange(i as int, i + 10));
            assert(t.skip(10) =~= s@.skip(i + 10));
        }
        i = i + 10;
    }
    proof {
        let t = s@.skip(i as int);
        if t.len() >= 10 && t.take(10) == p@ {
            assert(t.take(10) =~= s@.subrange(i as int, i + 10));
        }
    }
    let rest = crate::text::slice_to_vec(&s, i, s.len());
    assert(rest@ =~= s@.skip(i as int));
    let t = crate::text::trim_chars(&rest);
    crate::text::string_from(&t)
}

} // verus!

verus! {

/// The first tool with id `id`.
pub open spec fn find_tool(tools: Seq<ToolConfig>, id: Seq<char>) -> Option<ToolConfig>
    decreases tools.len(),
{
    if tools.len() == 0 {
        None
    } else if tools[0].id@ == id {
        Some(tools[0])
    } else {
        find_tool(tools.drop_first(), id)
    }
}

/// For each id in order, the first tool with that id; ids without a tool are dropped.
pub open spec fn resolve_tools_spec(tools: Seq<ToolConfig>, ids: Seq<String>) -> Seq<ToolConfig>
    decreases ids.len(),
{
    if ids.len() == 0 {
        Seq::empty()
    } else {
        let rest = resolve_tools_spec(tools, ids.drop_last());
        match find_tool(tools, ids.last()@) {
            Some(t) => rest.push(t),
            None => rest,
        }
    }
}

pub open spec fn has_id_tool(tools: Seq<ToolConfig>, id: Seq<char>) -> bool {
    exists|i: int| 0 <= i < tools.len() && #[trigger] tools[i].id@ == id
}

proof fn lemma_find_tool(tools: Seq<ToolConfig>, id: Seq<char>)
    ensures
        find_tool(tools, id) is Some <==> has_id_tool(tools, id),
    decreases tools.len(),
{
    if tools.len() > 0 {
        lemma_find_tool(tools.drop_first(), id);
        if has_id_tool(tools.drop_first(), id) {
            let i = choose|i: int| 0 <= i < tools.drop_first().len() && #[trigger] tools.drop_first()[i].id@ == id;
            assert(tools[i + 1].id@ == id);
        }
        if has_id_tool(tools, id) && tools[0].id@ != id {
            let i = choose|i: int| 0 <= i < tools.len() && #[trigger] tools[i].id@ == id;
            assert(tools.drop_first()[i - 1].id@ == id);
        }
    }
}

/// The first tool with id `id`, searching from index `from`.
fn find_tool_from(tools: &Vec<ToolConfig>, id: &String) -> (res: Option<usize>)
    ensures
        match res {
            Some(i) => i < tools@.len() && find_tool(tools@, id@) == Some(tools@[i as int]),
            None => find_tool(tools@, id@) is None,
        },
{
    let mut i: usize = 0;
    assert(tools@.skip(0) =~= tools@);
    while i < tools.len()
        invariant
            i <= tools@.len(),
            find_tool(tools@, id@) == find_tool(tools@.skip(i as int), id@),
        decreases tools@.len() - i,
    {
        assert(tools@.skip(i as int).drop_first() =~= tools@.skip(i + 1));
        if tools[i].id == *id {
            return Some(i);
        }
        i = i + 1;
    }
    None
}

/// The first index whose id repeats an earlier one.
pub open spec fn has_duplicate(ids: Seq<Seq<char>>) -> bool {
    exists|i: int, j: int| 0 <= i < j < ids.len() && ids[i] == ids[j]
}

/// The first index, from `j` on, whose id repeats an earlier one.
pub open spec fn first_repeat_from(ids: Seq<Seq<char>>, j: int) -> Option<int>
    decreases ids.len() - j,
{
    if j < 0 || j >= ids.len() {
        None
    } else if ids.take(j).contains(ids[j]) {
        Some(j)
    } else {
        first_repeat_from(ids, j + 1)
    }
}

/// Reports the first id that repeats an earlier one.
fn first_duplicate(ids: &Vec<String>) -> (res: Option<usize>)
    ensures
        res is None <==> !has_duplicate(string_views(ids@)),
        res matches Some(j) ==> j < ids@.len(),
        match res {
            Some(j) => first_repeat_from(string_views(ids@), 0) == Some(j as int),
            None => first_repeat_from(string_views(ids@), 0) is None,
        },
{
    let ghost sv = string_views(ids@);
    let mut j: usize = 0;
    while j < ids.len()
        invariant
            j <= ids@.len(),
            sv == string_views(ids@),
            forall|a: int, b: int| 0 <= a < b < j ==> ids@[a]@ != ids@[b]@,
            first_repeat_from(sv, 0) == first_repeat_from(sv, j as int),
        decreases ids@.len() - j,
    {
        let mut i: usize = 0;
        while i < j
            invariant
                i <= j < ids@.len(),
                sv == string_views(ids@),
                first_repeat_from(sv, 0) == first_repeat_from(sv, j as int),
                forall|a: int| 0 <= a < i ==> ids@[a]@ != ids@[j as int]@,
            decreases j - i,
        {
            if ids[i] == ids[j] {
                assert(string_views(ids@)[i as int] == string_views(ids@)[j as int]);
                assert(sv.take(j as int)[i as int] == sv[j as int]);
                assert(sv.take(j as int).contains(sv[j as int]));
                assert(first_repeat_from(sv, j as int) == Some(j as int));
                return Some(j);
            }
            i = i + 1;
        }
        proof {
            assert forall|a: int| 0 <= a < j implies sv.take(j as int)[a] != sv[j as int] by {
                assert(sv.take(j as int)[a] == ids@[a]@);
            }
            assert(!sv.take(j as int).contains(sv[j as int]));
        }
        j = j + 1;
    }
    proof {
        if has_duplicate(string_views(ids@)) {
            let (a, b) = choose|a: int, b: int| 0 <= a < b < string_views(ids@).len() && string_views(ids@)[a] == string_views(ids@)[b];
            assert(ids@[a]@ == ids@[b]@);
        }
        assert(first_repeat_from(sv, sv.len() as int) is None);
    }
    None
}

pub open spec fn transform_known(m: Manifest, id: Seq<char>) -> bool {
    builtin_transform(id) || exists|i: int| 0 <= i < m.transforms@.len() && #[trigger] m.transforms@[i].id@ == id
}

pub open spec fn task_known(m: Manifest, id: Seq<char>) -> bool {
    exists|i: int| 0 <= i < m.tasks@.len() && #[trigger] m.tasks@[i].id@ == id
}

pub open spec fn transform_ids(m: Manifest) -> Seq<Seq<char>> {
    m.transforms@.map_values(|t: TransformConfig| t.id@)
}

pub open spec fn task_ids(m: Manifest) -> Seq<Seq<char>> {
    m.tasks@.map_values(|t: TaskConfig| t.id@)
}

pub open spec fn workflow_ids(m: Manifest) -> Seq<Seq<char>> {
    m.workflows@.map_values(|w: WorkflowConfig| w.id@)
}

/// Everything a loaded manifest must satisfy: unique transform, task and
/// workflow ids; at least one agent; agents' tools, workflow nodes' tasks and
/// transforms, and tasks' transforms all resolve.
pub open spec fn manifest_valid(m: Manifest) -> bool {
    &&& !has_duplicate(transform_ids(m))
    &&& !has_duplicate(task_ids(m))
    &&& !has_duplicate(workflow_ids(m))
    &&& m.agents@.len() > 0
    &&& forall|a: int, t: int|
        0 <= a < m.agents@.len() && 0 <= t < m.agents@[a].tools@.len() ==> has_id_tool(
            m.tools@,
            #[trigger] m.agents@[a].tools@[t]@,
        )
    &&& forall|w: int, n: int|
        0 <= w < m.workflows@.len() && 0 <= n < m.workflows@[w].nodes@.len() ==> {
            &&& (#[trigger] m.workflows@[w].nodes@[n].task matches Some(t) ==> task_known(m, t@))
            &&& (m.workflows@[w].nodes@[n].transform matches Some(t) ==> transform_known(m, t@))
        }
    &&& forall|t: int|
        0 <= t < m.tasks@.len() ==> {
            &&& (#[trigger] m.tasks@[t].input_transform matches Some(x) ==> transform_known(m, x@))
            &&& (m.tasks@[t].output_transform matches Some(x) ==> transform_known(m, x@))
        }
}

/// The first tool id of `tools`, from index `t` on, that no tool declares.
pub open spec fn first_unknown_tool_at(m: Manifest, tools: Seq<String>, t: int) -> Option<int>
    decreases tools.len() - t,
{
    if t < 0 || t >= tools.len() {
        None
    } else if !has_id_tool(m.tools@, tools[t]@) {
        Some(t)
    } else {
        first_unknown_tool_at(m, tools, t + 1)
    }
}

/// The first agent, from index `a` on, that lists a tool no tool declares.
pub open spec fn first_agent_unknown_tool(m: Manifest, a: int) -> Option<int>
    decreases m.agents@.len() - a,
{
    if a < 0 || a >= m.agents@.len() {
        None
    } else if first_unknown_tool_at(m, m.agents@[a].tools@, 0) is Some {
        Some(a)
    } else {
        first_agent_unknown_tool(m, a + 1)
    }
}

/// What is wrong with a workflow node: an unknown task, else an unknown transform.
pub open spec fn node_error(m: Manifest, w: WorkflowConfig, n: WorkflowNodeConfig) -> Option<Seq<char>> {
    if n.task is Some && !task_known(m, n.task->0@) {
        Some("Workflow '"@ + w.id@ + "' node '"@ + n.id@ + "' references unknown task '"@ + n.task->0@ + "'."@)
    } else if n.transform is Some && !transform_known(m, n.transform->0@) {
        Some(
            "Workflow '"@ + w.id@ + "' node '"@ + n.id@ + "' references unknown transform '"@ + n.transform->0@
                + "'."@,
        )
    } else {
        None
    }
}

/// The first node of `w`, from index `k` on, with something wrong.
pub open spec fn first_bad_node(m: Manifest, w: WorkflowConfig, k: int) -> Option<int>
    decreases w.nodes@.len() - k,
{
    if k < 0 || k >= w.nodes@.len() {
        None
    } else if node_error(m, w, w.nodes@[k]) is Some {
        Some(k)
    } else {
        first_bad_node(m, w, k + 1)
    }
}

/// The first workflow, from index `x` on, with a node with something wrong.
pub open spec fn first_bad_workflow(m: Manifest, x: int) -> Option<int>
    decreases m.workflows@.len() - x,
{
    if x < 0 || x >= m.workflows@.len() {
        None
    } else if first_bad_node(m, m.workflows@[x], 0) is Some {
        Some(x)
    } else {
        first_bad_workflow(m, x + 1)
    }
}

/// What is wrong with a task's transforms: an unknown input transform, else
/// an unknown output transform.
pub open spec fn task_transform_error(m: Manifest, t: TaskConfig) -> Option<Seq<char>> {
    if t.input_transform is Some && !transform_known(m, t.input_transform->0@) {
        Some("Unknown workflow transform '"@ + t.input_transform->0@ + "'."@)
    } else if t.output_transform is Some && !transform_known(m, t.output_transform->0@) {
        Some("Unknown workflow transform '"@ + t.output_transform->0@ + "'."@)
    } else {
        None
    }
}

/// The first task, from index `k` on, naming an unknown transform.
pub open spec fn first_bad_task_transform(m: Manifest, k: int) -> Option<int>
    decreases m.tasks@.len() - k,
{
    if k < 0 || k >= m.tasks@.len() {
        None
    } else if task_transform_error(m, m.tasks@[k]) is Some {
        Some(k)
    } else {
        first_bad_task_transform(m, k + 1)
    }
}

/// The message the manifest check reports, if any, for a manifest read from
/// `path`: repeated ids first, then a missing agent, then the first agent's
/// first unknown tool, then the first bad workflow node, then the first task
/// with an unknown transform.
pub open spec fn validation_error(m: Manifest, path: Seq<char>) -> Option<Seq<char>> {
    if unique_items_error(m) is Some {
        unique_items_error(m)
    } else if m.agents@.len() == 0 {
        Some("No [[agent]] entries found in "@ + path + ". Define at least one agent."@)
    } else if first_agent_unknown_tool(m, 0) is Some {
        let ag = m.agents@[first_agent_unknown_tool(m, 0)->0];
        let t = first_unknown_tool_at(m, ag.tools@, 0)->0;
        Some("Agent '"@ + ag.id@ + "' references unknown tool '"@ + ag.tools@[t]@ + "'."@)
    } else if first_bad_workflow(m, 0) is Some {
        let w = m.workflows@[first_bad_workflow(m, 0)->0];
        node_error(m, w, w.nodes@[first_bad_node(m, w, 0)->0])
    } else if first_bad_task_transform(m, 0) is Some {
        task_transform_error(m, m.tasks@[first_bad_task_transform(m, 0)->0])
    } else {
        None
    }
}

/// The first repeated id among transforms, then tasks, then workflows, as
/// the check reports it.
pub open spec fn unique_items_error(m: Manifest) -> Option<Seq<char>> {
    match first_repeat_from(transform_ids(m), 0) {
        Some(j) => Some("Duplicate workflow transform id '"@ + transform_ids(m)[j] + "'."@),
        None => match first_repeat_from(task_ids(m), 0) {
            Some(j) => Some("Duplicate workflow task id '"@ + task_ids(m)[j] + "'."@),
            None => match first_repeat_from(workflow_ids(m), 0) {
                Some(j) => Some("Duplicate workflow id '"@ + workflow_ids(m)[j] + "'."@),
                None => None,
            },
        },
    }
}

impl Manifest {
    /// The tools an agent lists, in the agent's order; unknown ids are dropped.
    pub fn resolve_tools(&self, agent: &AgentConfig) -> (res: Vec<ToolConfig>)
        ensures
            res@ == resolve_tools_spec(self.tools@, agent.tools@),
    {
        let mut out: Vec<ToolConfig> = Vec::new();
        let mut i: usize = 0;
        while i < agent.tools.len()
            invariant
                i <= agent.tools@.len(),
                out@ == resolve_tools_spec(self.tools@, agent.tools@.take(i as int)),
            decreases agent.tools@.len() - i,
        {
            proof {
                assert(agent.tools@.take(i + 1).drop_last() =~= agent.tools@.take(i as int));
            }
            match find_tool_from(&self.tools, &agent.tools[i]) {
                Some(k) => {
                    out.push(self.tools[k].clone());
                },
                None => {},
            }
            i = i + 1;
        }
        assert(agent.tools@.take(agent.tools@.len() as int) =~= agent.tools@);
        out
    }

    /// Whether a transform id names a built-in or a declared transform.
    pub fn validate_transform_reference(&self, transform_id: &str) -> (res: Result<(), String>)
        ensures
            res is Ok <==> transform_known(*self, transform_id@),
            res matches Err(e) ==> e@ == "Unknown workflow transform '"@ + transform_id@ + "'."@,
    {
        if is_builtin_transform(transform_id) {
            return Ok(());
        }
        let id = transform_id.to_owned();
        let mut i: usize = 0;
        while i < self.transforms.len()
            invariant
                i <= self.transforms@.len(),
                id@ == transform_id@,
                forall|j: int| 0 <= j < i ==> self.transforms@[j].id@ != transform_id@,
            decreases self.transforms@.len() - i,
        {
            if self.transforms[i].id == id {
                return Ok(());
            }
            i = i + 1;
        }
        Err(cat3("Unknown workflow transform '", transform_id, "'."))
    }

    /// Transform, task and workflow ids are each unique; the first repeat is reported.
    pub fn validate_unique_workflow_items(&self) -> (res: Result<(), String>)
        ensures
            res is Ok <==> (!has_duplicate(transform_ids(*self)) && !has_duplicate(task_ids(*self))
                && !has_duplicate(workflow_ids(*self))),
            match unique_items_error(*self) {
                Some(m) => res matches Err(e) && e@ == m,
                None => res is Ok,
            },
    {
        let mut ids: Vec<String> = Vec::new();
        let mut i: usize = 0;
        while i < self.transforms.len()
            invariant
                i <= self.transforms@.len(),
                ids@.len() == i,
                forall|k: int| 0 <= k < i ==> #[trigger] ids@[k]@ == self.transforms@[k].id@,
            decreases self.transforms@.len() - i,
        {
            ids.push(self.transforms[i].id.clone());
            i = i + 1;
        }
        assert(string_views(ids@) =~= transform_ids(*self));
        if let Some(j) = first_duplicate(&ids) {
            return Err(cat3("Duplicate workflow transform id '", ids[j].as_str(), "'."));
        }
        let mut ids: Vec<String> = Vec::new();
        let mut i: usize = 0;
        while i < self.tasks.len()
            invariant
                i <= self.tasks@.len(),
                ids@.len() == i,
                forall|k: int| 0 <= k < i ==> #[trigger] ids@[k]@ == self.tasks@[k].id@,
            decreases self.tasks@.len() - i,
        {
            ids.push(self.tasks[i].id.clone());
            i = i + 1;
        }
        assert(string_views(ids@) =~= task_ids(*self));
        if let Some(j) = first_duplicate(&ids) {
            return Err(cat3("Duplicate workflow task id '", ids[j].as_str(), "'."));
        }
        let mut ids: Vec<String> = Vec::new();
        let mut i: usize = 0;
        while i < self.workflows.len()
            invariant
                i <= self.workflows@.len(),
                ids@.len() == i,
                forall|k: int| 0 <= k < i ==> #[trigger] ids@[k]@ == self.workflows@[k].id@,
            decreases self.workflows@.len() - i,
        {
            ids.push(self.workflows[i].id.clone());
            i = i + 1;
        }
        assert(string_views(ids@) =~= workflow_ids(*self));
        if let Some(j) = first_duplicate(&ids) {
            return Err(cat3("Duplicate workflow id '", ids[j].as_str(), "'."));
        }
        Ok(())
    }

    fn task_declared(&self, task_id: &String) -> (res: bool)
        ensures
            res == task_known(*self, task_id@),
    {
        let mut i: usize = 0;
        while i < self.tasks.len()
            invariant
                i <= self.tasks@.len(),
                forall|j: int| 0 <= j < i ==> self.tasks@[j].id@ != task_id@,
            decreases self.tasks@.len() - i,
        {
            if self.tasks[i].id == *task_id {
                return true;
            }
            i = i + 1;
        }
        false
    }

    /// The checks a manifest passes once it and its workflow includes are read.
    /// `path` is the manifest's path as shown in messages.
    pub fn validate(&self, path: &str) -> (res: Result<(), String>)
        ensures
            res is Ok <==> manifest_valid(*self),
            match validation_error(*self, path@) {
                Some(m) => res matches Err(e) && e@ == m,
                None => res is Ok,
            },
    {
        match self.validate_unique_workflow_items() {
            Err(e) => {
                return Err(e);
            },
            Ok(()) => {},
        }
        if self.agents.len() == 0 {
            return Err(cat3("No [[agent]] entries found in ", path, ". Define at least one agent."));
        }
        let mut a: usize = 0;
        while a < self.agents.len()
            invariant
                a <= self.agents@.len(),
                self.agents@.len() > 0,
                unique_items_error(*self) is None,
                first_agent_unknown_tool(*self, 0) == first_agent_unknown_tool(*self, a as int),
                forall|x: int, t: int|
                    0 <= x < a && 0 <= t < self.agents@[x].tools@.len() ==> has_id_tool(
                        self.tools@,
                        #[trigger] self.agents@[x].tools@[t]@,
                    ),
            decreases self.agents@.len() - a,
        {
            let agent = &self.agents[a];
            let mut t: usize = 0;
            while t < agent.tools.len()
                invariant
                    a < self.agents@.len(),
                    self.agents@.len() > 0,
                    *agent == self.agents@[a as int],
                    t <= agent.tools@.len(),
                    unique_items_error(*self) is None,
                    first_agent_unknown_tool(*self, 0) == first_agent_unknown_tool(*self, a as int),
                    first_unknown_tool_at(*self, agent.tools@, 0) == first_unknown_tool_at(*self, agent.tools@, t as int),
                    forall|y: int| 0 <= y < t ==> has_id_tool(self.tools@, #[trigger] agent.tools@[y]@),
                decreases agent.tools@.len() - t,
            {
                let found = find_tool_from(&self.tools, &agent.tools[t]);
                proof {
                    lemma_find_tool(self.tools@, agent.tools@[t as int]@);
                }
                if found.is_none() {
                    proof {
                        assert(first_unknown_tool_at(*self, agent.tools@, t as int) == Some(t as int));
                        assert(first_agent_unknown_tool(*self, a as int) == Some(a as int));
                    }
                    return Err(cat5("Agent '", agent.id.as_str(), "' references unknown tool '", agent.tools[t].as_str(), "'."));
                }
                t = t + 1;
            }
            proof {
                assert(first_unknown_tool_at(*self, agent.tools@, t as int) is None);
            }
            a = a + 1;
        }
        let mut w: usize = 0;
        while w < self.workflows.len()
            invariant
                w <= self.workflows@.len(),
                self.agents@.len() > 0,
                unique_items_error(*self) is None,
                first_agent_unknown_tool(*self, 0) is None,
                first_bad_workflow(*self, 0) == first_bad_workflow(*self, w as int),
                forall|x: int, n: int|
                    0 <= x < w && 0 <= n < self.workflows@[x].nodes@.len() ==> {
                        &&& (#[trigger] self.workflows@[x].nodes@[n].task matches Some(t) ==> task_known(*self, t@))
                        &&& (self.workflows@[x].nodes@[n].transform matches Some(t) ==> transform_known(*self, t@))
                    },
            decreases self.workflows@.len() - w,
        {
            let workflow = &self.workflows[w];
            let mut n: usize = 0;
            while n < workflow.nodes.len()
                invariant
                    w < self.workflows@.len(),
                    self.agents@.len() > 0,
                    *workflow == self.workflows@[w as int],
                    n <= workflow.nodes@.len(),
                    unique_items_error(*self) is None,
                    first_agent_unknown_tool(*self, 0) is None,
                    first_bad_workflow(*self, 0) == first_bad_workflow(*self, w as int),
                    first_bad_node(*self, *workflow, 0) == first_bad_node(*self, *workflow, n as int),
                    forall|y: int|
                        0 <= y < n ==> {
                            &&& (#[trigger] workflow.nodes@[y].task matches Some(t) ==> task_known(*self, t@))
                            &&& (workflow.nodes@[y].transform matches Some(t) ==> transform_known(*self, t@))
                        },
                decreases workflow.nodes@.len() - n,
            {
                let node = &workflow.nodes[n];
                if let Some(task_id) = &node.task {
                    if !self.task_declared(task_id) {
                        proof {
                            assert(first_bad_node(*self, *workflow, n as int) == Some(n as int));
                            assert(first_bad_workflow(*self, w as int) == Some(w as int));
                        }
                        return Err(cat7("Workflow '", workflow.id.as_str(), "' node '", node.id.as_str(), "' references unknown task '", task_id.as_str(), "'."));
                    }
                }
                if let Some(transform_id) = &node.transform {
                    if self.validate_transform_reference(transform_id.as_str()).is_err() {
                        proof {
                            assert(first_bad_node(*self, *workflow, n as int) == Some(n as int));
                            assert(first_bad_workflow(*self, w as int) == Some(w as int));
                        }
                        return Err(cat7("Workflow '", workflow.id.as_str(), "' node '", node.id.as_str(), "' references unknown transform '", transform_id.as_str(), "'."));
                    }
                }
                n = n + 1;
            }
            proof {
                assert(first_bad_node(*self, *workflow, n as int) is None);
            }
            w = w + 1;
        }
        let mut t: usize = 0;
        while t < self.tasks.len()
            invariant
                t <= self.tasks@.len(),
                self.agents@.len() > 0,
                unique_items_error(*self) is None,
                first_agent_unknown_tool(*self, 0) is None,
                first_bad_workflow(*self, 0) is None,
                first_bad_task_transform(*self, 0) == first_bad_task_transform(*self, t as int),
                !has_duplicate(transform_ids(*self)) && !has_duplicate(task_ids(*self)) && !has_duplicate(workflow_ids(*self)),
                forall|x: int, y: int|
                    0 <= x < self.agents@.len() && 0 <= y < self.agents@[x].tools@.len() ==> has_id_tool(
                        self.tools@,
                        #[trigger] self.agents@[x].tools@[y]@,
                    ),
                forall|x: int, n: int|
                    0 <= x < self.workflows@.len() && 0 <= n < self.workflows@[x].nodes@.len() ==> {
                        &&& (#[trigger] self.workflows@[x].nodes@[n].task matches Some(q) ==> task_known(*self, q@))
                        &&& (self.workflows@[x].nodes@[n].transform matches Some(q) ==> transform_known(*self, q@))
                    },
                forall|x: int|
                    0 <= x < t ==> {
                        &&& (#[trigger] self.tasks@[x].input_transform matches Some(q) ==> transform_known(*self, q@))
                        &&& (self.tasks@[x].output_transform matches Some(q) ==> transform_known(*self, q@))
                    },
            decreases self.tasks@.len() - t,
        {
            if let Some(x) = &self.tasks[t].input_transform {
                match self.validate_transform_reference(x.as_str()) {
                    Err(e) => {
                        proof {
                            assert(first_bad_task_transform(*self, t as int) == Some(t as int));
                        }
                        return Err(e);
                    },
                    Ok(()) => {},
                }
            }
            if let Some(x) = &self.tasks[t].output_transform {
                match self.validate_transform_reference(x.as_str()) {
                    Err(e) => {
                        proof {
                            assert(first_bad_task_transform(*self, t as int) == Some(t as int));
                        }
                        return Err(e);
                    },
                    Ok(()) => {},
                }
            }
            t = t + 1;
        }
        Ok(())
    }

    /// The workflow files to read: the top-level list, then the project's list.
    pub fn include_files(&self) -> (res: Vec<String>)
        ensures
            res@ == self.workflow_files@ + self.project.workflow_files@,
    {
        let mut out = clone_strings(&self.workflow_files);
        let more = clone_strings(&self.project.workflow_files);
        let mut i: usize = 0;
        let ghost start = out@;
        while i < more.len()
            invariant
                i <= more@.len(),
                out@ == start + more@.take(i as int),
            decreases more@.len() - i,
        {
            out.push(more[i].clone());
            i = i + 1;
            assert(out@ =~= start + more@.take(i as int));
        }
        assert(more@.take(more@.len() as int) =~= more@);
        out
    }

    /// Appends the entries of one workflow include file.
    pub fn merge_include(
        &mut self,
        transforms: Vec<TransformConfig>,
        tasks: Vec<TaskConfig>,
        workflows: Vec<WorkflowConfig>,
    )
        ensures
            final(self).transforms@ == old(self).transforms@ + transforms@,
            final(self).tasks@ == old(self).tasks@ + tasks@,
            final(self).workflows@ == old(self).workflows@ + workflows@,
            final(self).agents == old(self).agents,
            final(self).tools == old(self).tools,
    {
        let mut transforms = transforms;
        let mut tasks = tasks;
        let mut workflows = workflows;
        self.transforms.append(&mut transforms);
        self.tasks.append(&mut tasks);
        self.workflows.append(&mut workflows);
    }

    /// The task definitions of every manifest task, in order; the first entry
    /// that cannot become one fails them all.
    pub fn workflow_tasks(&self) -> (res: Result<Vec<TaskDefinition>, String>)
        ensures
            match first_bad_task(self.tasks@, 0) {
                Some(k) => res matches Err(e) && Some(e@) == task_config_error(self.tasks@[k]),
                None => res matches Ok(v) && v@.len() == self.tasks@.len() && forall|i: int|
                    0 <= i < v@.len() ==> task_core_of(self.tasks@[i], #[trigger] v@[i]),
            },
    {
        let mut out: Vec<TaskDefinition> = Vec::new();
        let mut i: usize = 0;
        while i < self.tasks.len()
            invariant
                i <= self.tasks@.len(),
                out@.len() == i,
                first_bad_task(self.tasks@, 0) == first_bad_task(self.tasks@, i as int),
                forall|j: int| 0 <= j < i ==> task_core_of(self.tasks@[j], #[trigger] out@[j]),
            decreases self.tasks@.len() - i,
        {
            match self.tasks[i].to_core() {
                Ok(t) => {
                    let ghost prev = out@;
                    out.push(t);
                    proof {
                        assert forall|j: int| 0 <= j < i + 1 implies task_core_of(self.tasks@[j], #[trigger] out@[j]) by {
                            if j < i {
                                assert(out@[j] == prev[j]);
                            }
                        }
                    }
                },
                Err(e) => {
                    return Err(e);
                },
            }
            i = i + 1;
        }
        Ok(out)
    }

    /// The workflow definitions of every manifest workflow, in order.
    pub fn workflow_definitions(&self) -> (res: Result<Vec<WorkflowDefinition>, String>)
        ensures
            res is Ok <==> forall|i: int| 0 <= i < self.workflows@.len() ==> workflow_config_ok(#[trigger] self.workflows@[i]),
            res matches Ok(v) ==> v@.len() == self.workflows@.len() && forall|i: int|
                0 <= i < v@.len() ==> #[trigger] v@[i].id == self.workflows@[i].id,
    {
        let mut out: Vec<WorkflowDefinition> = Vec::new();
        let mut i: usize = 0;
        while i < self.workflows.len()
            invariant
                i <= self.workflows@.len(),
                out@.len() == i,
                forall|j: int| 0 <= j < i ==> workflow_config_ok(#[trigger] self.workflows@[j]),
                forall|j: int| 0 <= j < i ==> #[trigger] out@[j].id == self.workflows@[j].id,
            decreases self.workflows@.len() - i,
        {
            let w = self.workflows[i].to_core();
            match w {
                Ok(w) => {
                    let ghost prev = out@;
                    out.push(w);
                    proof {
                        assert forall|j: int| 0 <= j < i + 1 implies #[trigger] out@[j].id == self.workflows@[j].id by {
                            if j < i {
                                assert(out@[j] == prev[j]);
                            }
                        }
                    }
                },
                Err(e) => {
                    return Err(e);
                },
            }
            i = i + 1;
        }
        Ok(out)
    }
}


/// A workflow include must name a file.
pub fn check_include_path(path: &str) -> (res: Result<(), String>)
    ensures
        match res {
            Ok(()) => trim_seq(path@).len() > 0,
            Err(e) => trim_seq(path@).len() == 0 && e@ == "Workflow include path cannot be empty."@,
        },
{
    if is_blank(path) {
        Err("Workflow include path cannot be empty.".to_owned())
    } else {
        Ok(())
    }
}

} // verus!
