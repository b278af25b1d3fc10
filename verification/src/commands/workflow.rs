//! `enki workflow`: the starter workflow file of `workflow new`, what the
//! workflow CLI can run, and how it prints a run's events.
use crate::commands::tool::{agent_ids, has_agent, kebab};
use crate::text::{opt_str, opt_string};
use crate::json::{bool_text, bool_to_string, field, get_field, get_str_field, str_field, summarize_value, summary, JsonValue};
use crate::manifest::{AgentConfig, Manifest, TaskConfig, TransformConfig, WorkflowConfig};
use crate::project_runtime::{agents_with_tools, agents_with_tools_ids};
use crate::text::{
    trim,
    cat3, cat4, cat5, clone_strings, concat, eq_ignore_ascii_case, is_blank, join, join_strings,
    lower_seq, normalize_name, posix_seq, str_eq, string_views, summarize_spec, summarize_text,
    to_kebab_case, to_posix_path, trim_seq, decimal, usize_to_string,
};
use crate::workflow::types::{WorkflowEvent, WorkflowStatus};
use crate::workflow::validate::contains_string;
use vstd::prelude::*;

verus! {

/// Who runs the task of a starter workflow.
pub enum TaskTargetSpec {
    Agent(String),
    Capabilities(Vec<String>),
}

pub enum TaskTargetView {
    Agent(Seq<char>),
    Capabilities(Seq<Seq<char>>),
}

impl View for TaskTargetSpec {
    type V = TaskTargetView;

    open spec fn view(&self) -> TaskTargetView {
        match self {
            TaskTargetSpec::Agent(a) => TaskTargetView::Agent(a@),
            TaskTargetSpec::Capabilities(c) => TaskTargetView::Capabilities(string_views(c@)),
        }
    }
}

/// The starter target: the agent asked for, which must exist; else the
/// capabilities asked for; else the only agent of the manifest.
pub open spec fn task_target_spec(m: Manifest, agent: Option<Seq<char>>, capabilities: Seq<Seq<char>>) -> Result<
    TaskTargetView,
    Seq<char>,
> {
    match agent {
        Some(id) => if agent_ids(m).contains(id) {
            Ok(TaskTargetView::Agent(id))
        } else {
            Err("Agent '"@ + id + "' was not found in enki.toml."@)
        },
        None => if capabilities.len() > 0 {
            Ok(TaskTargetView::Capabilities(capabilities))
        } else if m.agents@.len() == 1 {
            Ok(TaskTargetView::Agent(m.agents@[0].id@))
        } else {
            Err("Choose a starter workflow target with --agent <id> or --capability <name>."@)
        },
    }
}

pub open spec fn target_result_view(r: Result<TaskTargetSpec, String>) -> Result<TaskTargetView, Seq<char>> {
    match r {
        Ok(t) => Ok(t@),
        Err(e) => Err(e@),
    }
}

pub fn resolve_task_target(
    m: &Manifest,
    requested_agent: Option<&str>,
    requested_capabilities: &[String],
) -> (res: Result<TaskTargetSpec, String>)
    ensures
        target_result_view(res) == task_target_spec(
            *m,
            opt_str(requested_agent),
            string_views(requested_capabilities@),
        ),
{
    if let Some(agent_id) = requested_agent {
        if has_agent(m, agent_id) {
            return Ok(TaskTargetSpec::Agent(agent_id.to_owned()));
        }
        return Err(cat3("Agent '", agent_id, "' was not found in enki.toml."));
    }
    if requested_capabilities.len() > 0 {
        return Ok(TaskTargetSpec::Capabilities(clone_strings(requested_capabilities)));
    }
    if m.agents.len() == 1 {
        return Ok(TaskTargetSpec::Agent(m.agents[0].id.clone()));
    }
    Err("Choose a starter workflow target with --agent <id> or --capability <name>.".to_owned())
}

pub open spec fn quoted(s: Seq<char>) -> Seq<char> {
    "\""@ + s + "\""@
}

/// The line that names the target in a task entry.
pub open spec fn target_line_spec(t: TaskTargetView) -> Seq<char> {
    match t {
        TaskTargetView::Agent(a) => "agent = "@ + quoted(a),
        TaskTargetView::Capabilities(c) => "capabilities = ["@ + join(c.map_values(|x: Seq<char>| quoted(x)), ", "@)
            + "]"@,
    }
}

fn target_line(t: &TaskTargetSpec) -> (res: String)
    ensures
        res@ == target_line_spec(t@),
{
    match t {
        TaskTargetSpec::Agent(a) => cat4("agent = ", "\"", a.as_str(), "\""),
        TaskTargetSpec::Capabilities(caps) => {
            let mut quoted_caps: Vec<String> = Vec::new();
            let mut i: usize = 0;
            while i < caps.len()
                invariant
                    i <= caps@.len(),
                    quoted_caps@.len() == i,
                    forall|k: int| 0 <= k < i ==> (#[trigger] quoted_caps@[k])@ == quoted(caps@[k]@),
                decreases caps@.len() - i,
            {
                quoted_caps.push(cat3("\"", caps[i].as_str(), "\""));
                i = i + 1;
            }
            proof {
                assert(string_views(quoted_caps@) =~= string_views(caps@).map_values(|x: Seq<char>| quoted(x)));
            }
            let joined = join_strings(&quoted_caps, ", ");
            cat3("capabilities = [", joined.as_str(), "]")
        },
    }
}

pub open spec fn workflow_file_spec(
    workflow_name: Seq<char>,
    workflow_id: Seq<char>,
    task_id: Seq<char>,
    target: TaskTargetView,
) -> Seq<char> {
    "[[task]]\nid = \""@ + task_id + "\"\n"@ + target_line_spec(target)
        + "\nprompt = \"Complete the workflow task for {{input.message}}.\"\noutput_key = \"result\"\n\n[[workflow]]\nid = \""@
        + workflow_id + "\"\nname = \""@ + workflow_name
        + "\"\nfailure_policy = \"continue_best_effort\"\n\n[[workflow.node]]\nid = \"run\"\nkind = \"task\"\ntask = \""@
        + task_id + "\"\n"@
}

/// The TOML of a starter workflow: one task for the target, and a workflow
/// with a single node that runs it.
pub fn render_workflow_file(
    workflow_name: &str,
    workflow_id: &str,
    task_id: &str,
    task_target: &TaskTargetSpec,
) -> (res: String)
    ensures
        res@ == workflow_file_spec(workflow_name@, workflow_id@, task_id@, task_target@),
{
    let line = target_line(task_target);
    let head = cat5("[[task]]\nid = \"", task_id, "\"\n", line.as_str(),
        "\nprompt = \"Complete the workflow task for {{input.message}}.\"\noutput_key = \"result\"\n\n[[workflow]]\nid = \"");
    let mid = cat5(head.as_str(), workflow_id, "\"\nname = \"", workflow_name,
        "\"\nfailure_policy = \"continue_best_effort\"\n\n[[workflow.node]]\nid = \"run\"\nkind = \"task\"\ntask = \"");
    cat3(mid.as_str(), task_id, "\"\n")
}

/// An agent that runs a Python script: its `script` is set and not blank.
pub open spec fn is_scripted(a: AgentConfig) -> bool {
    a.script matches Some(s) && trim_seq(s@).len() > 0
}

pub open spec fn scripted_agents(m: Manifest) -> Seq<Seq<char>> {
    m.agents@.filter(|a: AgentConfig| is_scripted(a)).map_values(|a: AgentConfig| a.id@)
}

pub open spec fn compatibility_spec(m: Manifest) -> Result<(), Seq<char>> {
    if scripted_agents(m).len() > 0 {
        Err("Workflow CLI v1 does not execute Python-scripted agents yet. Remove `script` from agent(s): "@
            + join(scripted_agents(m), ", "@))
    } else if agents_with_tools(m).len() > 0 {
        Err("Workflow CLI v1 does not execute Python tool-backed agents yet. Remove `tools` from agent(s): "@
            + join(agents_with_tools(m), ", "@))
    } else {
        Ok(())
    }
}

pub open spec fn unit_result_view(r: Result<(), String>) -> Result<(), Seq<char>> {
    match r {
        Ok(()) => Ok(()),
        Err(e) => Err(e@),
    }
}

fn scripted_agent_ids(m: &Manifest) -> (res: Vec<String>)
    ensures
        string_views(res@) == scripted_agents(*m),
{
    let ghost pred = |a: AgentConfig| is_scripted(a);
    let mut out: Vec<String> = Vec::new();
    let mut i: usize = 0;
    while i < m.agents.len()
        invariant
            i <= m.agents@.len(),
            pred == (|a: AgentConfig| is_scripted(a)),
            string_views(out@) == m.agents@.take(i as int).filter(pred).map_values(|a: AgentConfig| a.id@),
        decreases m.agents@.len() - i,
    {
        let a = &m.agents[i];
        let scripted = match &a.script {
            Some(s) => !is_blank(s.as_str()),
            None => false,
        };
        let ghost prev = out@;
        if scripted {
            out.push(a.id.clone());
        }
        proof {
            let t = m.agents@.take(i + 1);
            assert(t.drop_last() =~= m.agents@.take(i as int));
            assert(t.last() == m.agents@[i as int]);
            reveal(Seq::filter);
            if scripted {
                assert(string_views(out@) =~= string_views(prev).push(a.id@));
            } else {
                assert(out@ == prev);
            }
        }
        i = i + 1;
    }
    proof {
        assert(m.agents@.take(m.agents@.len() as int) =~= m.agents@);
    }
    out
}

/// The workflow CLI runs agents in-process: it refuses manifests whose agents
/// run Python scripts or Python tools.
pub fn validate_workflow_runtime_compatibility(m: &Manifest) -> (res: Result<(), String>)
    ensures
        unit_result_view(res) == compatibility_spec(*m),
{
    let scripted = scripted_agent_ids(m);
    if scripted.len() > 0 {
        let names = join_strings(&scripted, ", ");
        return Err(concat(
            "Workflow CLI v1 does not execute Python-scripted agents yet. Remove `script` from agent(s): ",
            names.as_str(),
        ));
    }
    let tool_agents = agents_with_tools_ids(m);
    if tool_agents.len() > 0 {
        let names = join_strings(&tool_agents, ", ");
        return Err(concat(
            "Workflow CLI v1 does not execute Python tool-backed agents yet. Remove `tools` from agent(s): ",
            names.as_str(),
        ));
    }
    Ok(())
}

/// The message for a transform the workflow CLI cannot run, if any.
pub open spec fn transform_error(t: TransformConfig) -> Option<Seq<char>> {
    if lower_seq(t.kind@) != "builtin"@ {
        Some("Workflow transform '"@ + t.id@ + "' uses kind '"@ + t.kind@
            + "'. CLI v1 supports built-in transforms only; register custom transforms through the Rust runtime API."@)
    } else if t.id@ != "identity"@ && t.id@ != "extract_content"@ {
        Some("Workflow transform '"@ + t.id@
            + "' is not a built-in transform. Available built-ins: identity, extract_content."@)
    } else {
        None
    }
}

pub open spec fn first_transform_error(ts: Seq<TransformConfig>, k: int) -> Option<Seq<char>>
    decreases ts.len() - k,
{
    if k < 0 || k >= ts.len() {
        None
    } else {
        match transform_error(ts[k]) {
            Some(e) => Some(e),
            None => first_transform_error(ts, k + 1),
        }
    }
}

/// The workflow CLI runs only the built-in transforms `identity` and
/// `extract_content`; the first other transform is reported.
pub fn check_cli_transforms(m: &Manifest) -> (res: Result<(), String>)
    ensures
        match res {
            Ok(()) => first_transform_error(m.transforms@, 0) is None,
            Err(e) => first_transform_error(m.transforms@, 0) == Some(e@),
        },
{
    let mut i: usize = 0;
    while i < m.transforms.len()
        invariant
            i <= m.transforms@.len(),
            first_transform_error(m.transforms@, 0) == first_transform_error(m.transforms@, i as int),
        decreases m.transforms@.len() - i,
    {
        let t = &m.transforms[i];
        proof {
            reveal_strlit("builtin");
        }
        if !eq_ignore_ascii_case(t.kind.as_str(), "builtin") {
            proof {
                assert(lower_seq("builtin"@) =~= "builtin"@);
            }
            return Err(cat5(
                "Workflow transform '",
                t.id.as_str(),
                "' uses kind '",
                t.kind.as_str(),
                "'. CLI v1 supports built-in transforms only; register custom transforms through the Rust runtime API.",
            ));
        }
        proof {
            assert(lower_seq("builtin"@) =~= "builtin"@);
        }
        if !str_eq(t.id.as_str(), "identity") && !str_eq(t.id.as_str(), "extract_content") {
            return Err(cat3(
                "Workflow transform '",
                t.id.as_str(),
                "' is not a built-in transform. Available built-ins: identity, extract_content.",
            ));
        }
        i = i + 1;
    }
    Ok(())
}

/// How a status is printed (its variant name).
pub open spec fn status_name(s: WorkflowStatus) -> Seq<char> {
    match s {
        WorkflowStatus::Pending => "Pending"@,
        WorkflowStatus::Running => "Running"@,
        WorkflowStatus::Paused => "Paused"@,
        WorkflowStatus::Failed => "Failed"@,
        WorkflowStatus::Completed => "Completed"@,
        WorkflowStatus::CompletedWithFailures => "CompletedWithFailures"@,
    }
}

pub fn status_str(s: &WorkflowStatus) -> (res: &'static str)
    ensures
        res@ == status_name(*s),
{
    match s {
        WorkflowStatus::Pending => "Pending",
        WorkflowStatus::Running => "Running",
        WorkflowStatus::Paused => "Paused",
        WorkflowStatus::Failed => "Failed",
        WorkflowStatus::Completed => "Completed",
        WorkflowStatus::CompletedWithFailures => "CompletedWithFailures",
    }
}

/// One line of a run's execution log; errors and reasons are compacted to
/// 120 characters.
pub open spec fn event_line_spec(e: WorkflowEvent) -> Seq<char> {
    match e {
        WorkflowEvent::WorkflowStarted { workflow_id, .. } => "Workflow '"@ + workflow_id@ + "' started"@,
        WorkflowEvent::NodeReady { node_id } => "Node '"@ + node_id@ + "' became ready"@,
        WorkflowEvent::NodeStarted { node_id, attempt } => "Node '"@ + node_id@ + "' started (attempt "@
            + decimal(attempt as nat) + ")"@,
        WorkflowEvent::NodeCompleted { node_id, output_key } => "Node '"@ + node_id@
            + "' completed and wrote '"@ + output_key@ + "'."@,
        WorkflowEvent::NodeFailed { node_id, error } => "Node '"@ + node_id@ + "' failed: "@
            + summarize_spec(error@, 120),
        WorkflowEvent::NodeRetryScheduled { node_id, attempt, error } => "Node '"@ + node_id@
            + "' scheduled retry after attempt "@ + decimal(attempt as nat) + ": "@ + summarize_spec(error@, 120),
        WorkflowEvent::NodeSkipped { node_id } => "Node '"@ + node_id@ + "' was skipped"@,
        WorkflowEvent::InterventionRequested { intervention_id, node_id, reason } => "Intervention '"@
            + intervention_id@ + "' requested for node '"@ + node_id@ + "': "@ + summarize_spec(reason@, 120),
        WorkflowEvent::InterventionResolved { intervention_id, node_id } => "Intervention '"@
            + intervention_id@ + "' resolved for node '"@ + node_id@ + "'"@,
        WorkflowEvent::WorkflowPaused { reason, .. } => "Workflow paused: "@ + summarize_spec(reason@, 120),
        WorkflowEvent::WorkflowCompleted { status, .. } => "Workflow finished with status "@ + status_name(status),
    }
}

pub fn render_event_line(event: &WorkflowEvent) -> (res: String)
    ensures
        res@ == event_line_spec(*event),
{
    match event {
        WorkflowEvent::WorkflowStarted { workflow_id, .. } => cat3("Workflow '", workflow_id.as_str(), "' started"),
        WorkflowEvent::NodeReady { node_id } => cat3("Node '", node_id.as_str(), "' became ready"),
        WorkflowEvent::NodeStarted { node_id, attempt } => {
            let n = usize_to_string(*attempt);
            let head = cat4("Node '", node_id.as_str(), "' started (attempt ", n.as_str());
            concat(head.as_str(), ")")
        },
        WorkflowEvent::NodeCompleted { node_id, output_key } => cat5(
            "Node '",
            node_id.as_str(),
            "' completed and wrote '",
            output_key.as_str(),
            "'.",
        ),
        WorkflowEvent::NodeFailed { node_id, error } => {
            let s = summarize_text(error.as_str(), 120);
            cat4("Node '", node_id.as_str(), "' failed: ", s.as_str())
        },
        WorkflowEvent::NodeRetryScheduled { node_id, attempt, error } => {
            let n = usize_to_string(*attempt);
            let s = summarize_text(error.as_str(), 120);
            let head = cat4("Node '", node_id.as_str(), "' scheduled retry after attempt ", n.as_str());
            cat3(head.as_str(), ": ", s.as_str())
        },
        WorkflowEvent::NodeSkipped { node_id } => cat3("Node '", node_id.as_str(), "' was skipped"),
        WorkflowEvent::InterventionRequested { intervention_id, node_id, reason } => {
            let s = summarize_text(reason.as_str(), 120);
            let head = cat4("Intervention '", intervention_id.as_str(), "' requested for node '", node_id.as_str());
            cat3(head.as_str(), "': ", s.as_str())
        },
        WorkflowEvent::InterventionResolved { intervention_id, node_id } => {
            let head = cat4("Intervention '", intervention_id.as_str(), "' resolved for node '", node_id.as_str());
            concat(head.as_str(), "'")
        },
        WorkflowEvent::WorkflowPaused { reason, .. } => {
            let s = summarize_text(reason.as_str(), 120);
            concat("Workflow paused: ", s.as_str())
        },
        WorkflowEvent::WorkflowCompleted { status, .. } => concat("Workflow finished with status ", status_str(status)),
    }
}

/// The first part of `workflow new`: the workflow's name, id and file.
pub struct WorkflowFilePlan {
    pub workflow_name: String,
    pub workflow_id: String,
    /// The file as given, or `workflows/<id>.toml`, relative to the manifest.
    pub workflow_file: String,
    /// The file as the manifest lists it (`/`-separated).
    pub workflow_file_key: String,
}

pub open spec fn workflow_ids(m: Manifest) -> Seq<Seq<char>> {
    m.workflows@.map_values(|w: WorkflowConfig| w.id@)
}

pub open spec fn task_ids(m: Manifest) -> Seq<Seq<char>> {
    m.tasks@.map_values(|t: TaskConfig| t.id@)
}

/// Plans the workflow file of `workflow new`: the trimmed name must not be
/// empty, nor the id (by default the kebab-case name); the id must be new,
/// and the file (by default `workflows/<id>.toml`) must not be registered yet.
pub fn plan_workflow_file(
    m: &Manifest,
    manifest_path: &str,
    name: &str,
    id: Option<&str>,
    file: Option<&str>,
) -> (res: Result<WorkflowFilePlan, String>)
    ensures
        ({
            let workflow_name = trim_seq(name@);
            let workflow_id = match opt_str(id) {
                Some(i) => i,
                None => kebab(workflow_name),
            };
            let workflow_file = match opt_str(file) {
                Some(f) => f,
                None => "workflows/"@ + workflow_id + ".toml"@,
            };
            let key = posix_seq(workflow_file);
            let registered = string_views(m.workflow_files@).contains(key) || string_views(
                m.project.workflow_files@,
            ).contains(key);
            match res {
                Err(e) => {
                    ||| workflow_name.len() == 0 && e@ == "Workflow name must contain letters or numbers."@
                    ||| workflow_name.len() > 0 && workflow_id.len() == 0 && e@
                        == "Workflow id must contain letters or numbers."@
                    ||| workflow_name.len() > 0 && workflow_id.len() > 0 && workflow_ids(*m).contains(
                        workflow_id,
                    ) && e@ == "Workflow id '"@ + workflow_id
                        + "' already exists in the configured manifest set."@
                    ||| workflow_name.len() > 0 && workflow_id.len() > 0 && !workflow_ids(*m).contains(
                        workflow_id,
                    ) && registered && e@ == "Workflow file '"@ + key + "' is already registered in "@
                        + manifest_path@ + "."@
                },
                Ok(p) => {
                    &&& workflow_name.len() > 0 && workflow_id.len() > 0
                    &&& !workflow_ids(*m).contains(workflow_id) && !registered
                    &&& p.workflow_name@ == workflow_name
                    &&& p.workflow_id@ == workflow_id
                    &&& p.workflow_file@ == workflow_file
                    &&& p.workflow_file_key@ == key
                },
            }
        }),
{
    let workflow_name = normalize_name(name);
    if workflow_name.as_str().unicode_len() == 0 {
        return Err("Workflow name must contain letters or numbers.".to_owned());
    }
    let workflow_id = match id {
        Some(i) => i.to_owned(),
        None => to_kebab_case(workflow_name.as_str()),
    };
    if workflow_id.as_str().unicode_len() == 0 {
        return Err("Workflow id must contain letters or numbers.".to_owned());
    }
    if has_workflow(m, workflow_id.as_str()) {
        return Err(cat3(
            "Workflow id '",
            workflow_id.as_str(),
            "' already exists in the configured manifest set.",
        ));
    }
    let workflow_file = match file {
        Some(f) => f.to_owned(),
        None => cat3("workflows/", workflow_id.as_str(), ".toml"),
    };
    let key = to_posix_path(workflow_file.as_str());
    if contains_string(&m.workflow_files, &key) || contains_string(&m.project.workflow_files, &key) {
        return Err(cat5("Workflow file '", key.as_str(), "' is already registered in ", manifest_path, "."));
    }
    Ok(WorkflowFilePlan { workflow_name, workflow_id, workflow_file, workflow_file_key: key })
}

fn has_workflow(m: &Manifest, workflow_id: &str) -> (res: bool)
    ensures
        res == workflow_ids(*m).contains(workflow_id@),
{
    let mut i: usize = 0;
    while i < m.workflows.len()
        invariant
            i <= m.workflows@.len(),
            forall|k: int| 0 <= k < i ==> m.workflows@[k].id@ != workflow_id@,
        decreases m.workflows@.len() - i,
    {
        if str_eq(m.workflows[i].id.as_str(), workflow_id) {
            proof {
                assert(workflow_ids(*m)[i as int] == workflow_id@);
            }
            return true;
        }
        i = i + 1;
    }
    proof {
        if workflow_ids(*m).contains(workflow_id@) {
            let k = choose|k: int| 0 <= k < workflow_ids(*m).len() && workflow_ids(*m)[k] == workflow_id@;
            assert(m.workflows@[k].id@ == workflow_id@);
        }
    }
    false
}

fn has_task(m: &Manifest, task_id: &str) -> (res: bool)
    ensures
        res == task_ids(*m).contains(task_id@),
{
    let mut i: usize = 0;
    while i < m.tasks.len()
        invariant
            i <= m.tasks@.len(),
            forall|k: int| 0 <= k < i ==> m.tasks@[k].id@ != task_id@,
        decreases m.tasks@.len() - i,
    {
        if str_eq(m.tasks[i].id.as_str(), task_id) {
            proof {
                assert(task_ids(*m)[i as int] == task_id@);
            }
            return true;
        }
        i = i + 1;
    }
    proof {
        if task_ids(*m).contains(task_id@) {
            let k = choose|k: int| 0 <= k < task_ids(*m).len() && task_ids(*m)[k] == task_id@;
            assert(m.tasks@[k].id@ == task_id@);
        }
    }
    false
}

/// The second part of `workflow new`: the starter task's target (see
/// `task_target_spec`) and its id `<workflow-id>-task`, which must be new.
pub fn plan_workflow_task(
    m: &Manifest,
    workflow_id: &str,
    requested_agent: Option<&str>,
    requested_capabilities: &[String],
) -> (res: Result<(TaskTargetSpec, String), String>)
    ensures
        ({
            let target = task_target_spec(*m, opt_str(requested_agent), string_views(requested_capabilities@));
            let task_id = workflow_id@ + "-task"@;
            match res {
                Err(e) => {
                    ||| target == Err::<TaskTargetView, Seq<char>>(e@)
                    ||| target is Ok && task_ids(*m).contains(task_id) && e@ == "Generated task id '"@
                        + task_id
                        + "' already exists in the configured manifest set. Use --id to choose a different workflow id."@
                },
                Ok(p) => target == Ok::<TaskTargetView, Seq<char>>(p.0@) && !task_ids(*m).contains(task_id)
                    && p.1@ == task_id,
            }
        }),
{
    let target = match resolve_task_target(m, requested_agent, requested_capabilities) {
        Ok(t) => t,
        Err(e) => {
            return Err(e);
        },
    };
    let task_id = concat(workflow_id, "-task");
    if has_task(m, task_id.as_str()) {
        return Err(cat3(
            "Generated task id '",
            task_id.as_str(),
            "' already exists in the configured manifest set. Use --id to choose a different workflow id.",
        ));
    }
    Ok((target, task_id))
}


/// What the detailed output of a value shows: its text, or `None` when the
/// value is shown as pretty-printed JSON (arrays, and objects without a
/// non-blank `content` or `response` text).
pub open spec fn detail_spec(v: JsonValue) -> Option<Seq<char>> {
    match v {
        JsonValue::Null => Some("null"@),
        JsonValue::Bool(b) => Some(bool_text(b)),
        JsonValue::Number(n) => Some(n@),
        JsonValue::String(t) => if trim_seq(t@).len() == 0 {
            Some("<empty>"@)
        } else {
            Some(trim_seq(t@))
        },
        JsonValue::Array(_) => None,
        JsonValue::Object(es) => if str_field(es@, "content"@) matches Some(c) && trim_seq(c).len() > 0 {
            Some(trim_seq(str_field(es@, "content"@)->0))
        } else if str_field(es@, "response"@) matches Some(r) && trim_seq(r).len() > 0 {
            Some(trim_seq(str_field(es@, "response"@)->0))
        } else {
            None
        },
    }
}

pub fn detailed_text(v: &JsonValue) -> (res: Option<String>)
    ensures
        opt_string(res) == detail_spec(*v),
{
    match v {
        JsonValue::Null => Some("null".to_owned()),
        JsonValue::Bool(b) => Some(bool_to_string(*b)),
        JsonValue::Number(n) => Some(n.clone()),
        JsonValue::String(t) => {
            let trimmed = trim(t.as_str());
            if trimmed.as_str().unicode_len() == 0 {
                Some("<empty>".to_owned())
            } else {
                Some(trimmed)
            }
        },
        JsonValue::Array(_) => None,
        JsonValue::Object(es) => {
            if let Some(c) = get_str_field(es, "content") {
                let trimmed = trim(c);
                if trimmed.as_str().unicode_len() > 0 {
                    return Some(trimmed);
                }
            }
            if let Some(r) = get_str_field(es, "response") {
                let trimmed = trim(r);
                if trimmed.as_str().unicode_len() > 0 {
                    return Some(trimmed);
                }
            }
            None
        },
    }
}

/// An entry that a node wrote (every key but `input`).
pub open spec fn is_output(e: (String, JsonValue)) -> bool {
    e.0@ != "input"@
}

pub open spec fn output_line(e: (String, JsonValue)) -> Seq<char> {
    "- "@ + e.0@ + ": "@ + summary(e.1)
}

/// The "summary of work" of a run: the input, then one line per output, or
/// a single line for a context that is not an object.
pub open spec fn work_summary_spec(context: JsonValue) -> Seq<Seq<char>> {
    match context {
        JsonValue::Object(es) => {
            let input_line = match field(es@, "input"@) {
                Some(i) => seq!["Input: "@ + summary(i)],
                None => seq![],
            };
            let outputs = es@.filter(|e: (String, JsonValue)| is_output(e));
            if outputs.len() == 0 {
                input_line.push("No node outputs yet."@)
            } else {
                input_line.push("Outputs:"@) + outputs.map_values(|e: (String, JsonValue)| output_line(e))
            }
        },
        _ => seq!["Context: "@ + summary(context)],
    }
}

pub fn render_work_summary(context: &JsonValue) -> (res: Vec<String>)
    ensures
        string_views(res@) == work_summary_spec(*context),
{
    let es = match context {
        JsonValue::Object(es) => es,
        _ => {
            let line = concat("Context: ", summarize_value(context).as_str());
            let mut v: Vec<String> = Vec::new();
            v.push(line);
            proof {
                assert(string_views(v@) =~= work_summary_spec(*context));
            }
            return v;
        },
    };
    let mut lines: Vec<String> = Vec::new();
    if let Some(input) = get_field(es, "input") {
        lines.push(concat("Input: ", summarize_value(input).as_str()));
    }
    let ghost head = string_views(lines@);
    let ghost pred = |e: (String, JsonValue)| is_output(e);
    let mut outputs: Vec<String> = Vec::new();
    let mut i: usize = 0;
    while i < es.len()
        invariant
            i <= es@.len(),
            pred == (|e: (String, JsonValue)| is_output(e)),
            string_views(outputs@) == es@.take(i as int).filter(pred).map_values(
                |e: (String, JsonValue)| output_line(e),
            ),
        decreases es@.len() - i,
    {
        let keep = !str_eq(es[i].0.as_str(), "input");
        let ghost prev = outputs@;
        if keep {
            let value = summarize_value(&es[i].1);
            let line = cat4("- ", es[i].0.as_str(), ": ", value.as_str());
            outputs.push(line);
        }
        proof {
            let t = es@.take(i + 1);
            assert(t.drop_last() =~= es@.take(i as int));
            assert(t.last() == es@[i as int]);
            reveal(Seq::filter);
            if keep {
                assert(string_views(outputs@) =~= string_views(prev).push(output_line(es@[i as int])));
            } else {
                assert(outputs@ == prev);
            }
        }
        i = i + 1;
    }
    proof {
        assert(es@.take(es@.len() as int) =~= es@);
    }
    if outputs.len() == 0 {
        lines.push("No node outputs yet.".to_owned());
        proof {
            assert(string_views(lines@) =~= head.push("No node outputs yet."@));
        }
    } else {
        lines.push("Outputs:".to_owned());
        let ghost with_title = lines@;
        let ghost outs = outputs@;
        lines.append(&mut outputs);
        proof {
            assert(string_views(lines@) =~= string_views(with_title) + string_views(outs));
            assert(string_views(with_title) =~= head.push("Outputs:"@));
        }
    }
    lines
}

/// The "detailed outputs" of a run: each output's key and detail (see
/// `detail_spec`); nothing for a context that is not an object.
pub open spec fn detailed_outputs_spec(context: JsonValue) -> Seq<(Seq<char>, Option<Seq<char>>)> {
    match context {
        JsonValue::Object(es) => es@.filter(|e: (String, JsonValue)| is_output(e)).map_values(
            |e: (String, JsonValue)| (e.0@, detail_spec(e.1)),
        ),
        _ => seq![],
    }
}

pub open spec fn details_view(v: Seq<(String, Option<String>)>) -> Seq<(Seq<char>, Option<Seq<char>>)> {
    v.map_values(|d: (String, Option<String>)| (d.0@, opt_string(d.1)))
}

pub fn render_detailed_outputs(context: &JsonValue) -> (res: Vec<(String, Option<String>)>)
    ensures
        details_view(res@) == detailed_outputs_spec(*context),
{
    let mut out: Vec<(String, Option<String>)> = Vec::new();
    let es = match context {
        JsonValue::Object(es) => es,
        _ => {
            proof {
                assert(details_view(out@) =~= detailed_outputs_spec(*context));
            }
            return out;
        },
    };
    let ghost pred = |e: (String, JsonValue)| is_output(e);
    let mut i: usize = 0;
    while i < es.len()
        invariant
            i <= es@.len(),
            pred == (|e: (String, JsonValue)| is_output(e)),
            details_view(out@) == es@.take(i as int).filter(pred).map_values(
                |e: (String, JsonValue)| (e.0@, detail_spec(e.1)),
            ),
        decreases es@.len() - i,
    {
        let keep = !str_eq(es[i].0.as_str(), "input");
        let ghost prev = out@;
        if keep {
            let detail = detailed_text(&es[i].1);
            out.push((es[i].0.clone(), detail));
        }
        proof {
            let t = es@.take(i + 1);
            assert(t.drop_last() =~= es@.take(i as int));
            assert(t.last() == es@[i as int]);
            reveal(Seq::filter);
            if keep {
                assert(details_view(out@) =~= details_view(prev).push((es@[i as int].0@, detail_spec(es@[i as int].1))));
            } else {
                assert(out@ == prev);
            }
        }
        i = i + 1;
    }
    proof {
        assert(es@.take(es@.len() as int) =~= es@);
    }
    out
}

} // verus!
