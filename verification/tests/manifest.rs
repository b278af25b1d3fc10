use enki::manifest::{
    AgentConfig, Manifest, ProjectConfig, TaskConfig, ToolConfig, WorkflowConfig, WorkflowEdgeConfig,
    WorkflowNodeConfig, WorkspaceConfig,
};
use enki::project_runtime::{python_candidates, python_runner_args, validate_python_tools};

fn agent(id: &str, capabilities: Vec<String>, tools: Vec<String>) -> AgentConfig {
    AgentConfig {
        id: id.to_string(),
        name: id.to_string(),
        model: "ollama::qwen3.5".to_string(),
        system_prompt: String::new(),
        max_iterations: 20,
        capabilities,
        tools,
        script: None,
    }
}

fn manifest(name: &str, agents: Vec<AgentConfig>) -> Manifest {
    Manifest {
        project: ProjectConfig { name: name.to_string(), version: "0.1.0".to_string(), workflow_files: Vec::new() },
        workspace: WorkspaceConfig { home: "./.enki".to_string() },
        workflow_files: Vec::new(),
        tools: Vec::new(),
        transforms: Vec::new(),
        tasks: Vec::new(),
        workflows: Vec::new(),
        agents,
    }
}

fn node(id: &str, kind: &str) -> WorkflowNodeConfig {
    WorkflowNodeConfig {
        id: id.to_string(),
        kind: kind.to_string(),
        task: None,
        agent: None,
        capabilities: Vec::new(),
        prompt: None,
        condition: None,
        transform: None,
        input_key: None,
        output_key: None,
        max_attempts: None,
        failure_policy: None,
    }
}

fn assistant_tool() -> ToolConfig {
    ToolConfig {
        id: "assistant-tools".to_string(),
        kind: "python".to_string(),
        path: "src/tools/assistant.py".to_string(),
        symbol: "project_runtime_info".to_string(),
    }
}

#[test]
fn parse_workflow_manifest() {
    let mut m = manifest("workflow-project", vec![agent("researcher", vec!["research".to_string()], Vec::new())]);
    m.tasks.push(TaskConfig {
        id: "research-topic".to_string(),
        agent: None,
        capabilities: vec!["research".to_string()],
        prompt: "Research {{input.topic}}".to_string(),
        input_bindings: Vec::new(),
        input_transform: None,
        output_transform: None,
        output_key: Some("research".to_string()),
        max_attempts: None,
        failure_policy: Some("continue_best_effort".to_string()),
    });
    let mut research = node("research", "task");
    research.task = Some("research-topic".to_string());
    let mut approval = node("approval", "human_gate");
    approval.prompt = Some("Approve research output?".to_string());
    m.workflows.push(WorkflowConfig {
        id: "research-flow".to_string(),
        name: Some("Research Flow".to_string()),
        max_attempts: Some(2),
        failure_policy: Some("pause_for_intervention".to_string()),
        nodes: vec![research, approval],
        edges: vec![WorkflowEdgeConfig {
            from: "research".to_string(),
            to: "approval".to_string(),
            on: Some("success".to_string()),
            condition: None,
        }],
    });
    let tasks = m.workflow_tasks().unwrap();
    let workflows = m.workflow_definitions().unwrap();
    assert_eq!(tasks.len(), 1);
    assert_eq!(workflows.len(), 1);
    assert_eq!(workflows[0].nodes.len(), 2);
    assert_eq!(workflows[0].edges.len(), 1);
}

#[test]
fn reject_unknown_tool_reference() {
    let m = manifest("bad-tool", vec![agent("assistant", Vec::new(), vec!["missing".to_string()])]);
    let result = m.validate("enki-test-missing-tool.toml");
    assert!(result.is_err());
    assert!(result.unwrap_err().contains("unknown tool"));
}

#[test]
fn reject_empty_agents() {
    let m = manifest("empty", Vec::new());
    let result = m.validate("enki-test-empty.toml");
    assert!(result.is_err());
    assert!(result.unwrap_err().contains("No [[agent]]"));
}

#[test]
fn validate_python_tools_requires_python_project() {
    let mut m = manifest("demo", vec![agent("assistant", Vec::new(), vec!["assistant-tools".to_string()])]);
    m.tools.push(assistant_tool());
    let result = validate_python_tools(&m, "/tmp/enki-non-python-project-runtime-test", false, &[false]);
    assert!(result.is_err());
    assert!(result.unwrap_err().contains("`tools` is only supported for Python projects right now"));
}

#[test]
fn python_runner_args_include_tools() {
    let mut m = manifest("demo", vec![agent("assistant", Vec::new(), vec!["assistant-tools".to_string()])]);
    m.tools.push(assistant_tool());
    let args = python_runner_args(&m, "demo", ".\\.enki", "assistant", "session-1", "hello");
    assert_eq!(args[2], "demo");
    assert_eq!(args[args.len() - 2], "python\u{1e}src/tools/assistant.py\u{1e}project_runtime_info");
}

#[test]
fn python_projects_accept_existing_tool_modules() {
    let mut m = manifest("demo", vec![agent("assistant", Vec::new(), vec!["assistant-tools".to_string()])]);
    m.tools.push(assistant_tool());
    assert!(validate_python_tools(&m, "demo", true, &[true]).is_ok());
    assert!(validate_python_tools(&m, "demo", true, &[false]).is_err());
}

#[test]
fn resolved_tools_follow_the_agent_list() {
    let mut m = manifest("demo", vec![agent("assistant", Vec::new(), vec!["b".to_string(), "ghost".to_string(), "a".to_string()])]);
    let mut a = assistant_tool();
    a.id = "a".to_string();
    let mut b = assistant_tool();
    b.id = "b".to_string();
    m.tools.push(a);
    m.tools.push(b);
    let tools = m.resolve_tools(&m.agents[0]);
    let ids: Vec<String> = tools.iter().map(|t| t.id.clone()).collect();
    assert_eq!(ids, vec!["b".to_string(), "a".to_string()]);
    assert!(m.tools[0].is_python());
}

#[test]
fn python_is_looked_for_in_environments_first() {
    let found = vec![
        "/p/.venv/bin/python".to_string(),
        "/env/bin/python".to_string(),
        "/.venv/bin/python".to_string(),
        "/p/.venv/bin/python".to_string(),
    ];
    let cands = python_candidates(Some("/env/bin/python".to_string()), &found);
    let programs: Vec<&str> = cands.iter().map(|c| c.program.as_str()).collect();
    assert_eq!(programs, vec!["/env/bin/python", "/p/.venv/bin/python", "/.venv/bin/python", "python", "py"]);
    assert_eq!(cands[4].prefix_args, vec!["-3".to_string()]);
    assert!(cands[3].prefix_args.is_empty());
    let plain = python_candidates(None, &[]);
    assert_eq!(plain.len(), 2);
    assert_eq!(plain[0].program, "python");
}

fn task_entry(id: &str, agent: Option<&str>, caps: Vec<String>, policy: Option<&str>) -> TaskConfig {
    TaskConfig {
        id: id.to_string(),
        agent: agent.map(|a| a.to_string()),
        capabilities: caps,
        prompt: "p".to_string(),
        input_bindings: Vec::new(),
        input_transform: None,
        output_transform: None,
        output_key: None,
        max_attempts: None,
        failure_policy: policy.map(|p| p.to_string()),
    }
}

#[test]
fn first_bad_task_entry_fails_workflow_tasks() {
    let mut m = manifest("p", vec![agent("a", Vec::new(), Vec::new())]);
    m.tasks.push(task_entry("ok", Some("a"), Vec::new(), None));
    m.tasks.push(task_entry("bad-policy", Some("a"), Vec::new(), Some("sometimes")));
    m.tasks.push(task_entry("no-target", Some("  "), Vec::new(), None));
    assert_eq!(m.workflow_tasks().err().unwrap(), "Unknown workflow failure policy 'sometimes'.");
    m.tasks.remove(1);
    assert_eq!(
        m.workflow_tasks().err().unwrap(),
        "Task target must define either `agent` or `capabilities`."
    );
    m.tasks.remove(1);
    let tasks = m.workflow_tasks().ok().unwrap();
    assert_eq!(tasks.len(), 1);
    assert_eq!(tasks[0].id, "ok");
}

#[test]
fn validation_reports_each_problem_exactly() {
    let m = manifest("bad-tool", vec![agent("assistant", Vec::new(), vec!["missing".to_string()])]);
    assert_eq!(m.validate("enki.toml").err().unwrap(), "Agent 'assistant' references unknown tool 'missing'.");

    let mut m = manifest("p", vec![agent("a", Vec::new(), Vec::new())]);
    m.tasks.push(task_entry("t", Some("a"), Vec::new(), None));
    m.tasks.push(task_entry("t", Some("a"), Vec::new(), None));
    assert_eq!(m.validate("enki.toml").err().unwrap(), "Duplicate workflow task id 't'.");
    m.tasks.pop();
    let mut n = node("n", "task");
    n.task = Some("nope".to_string());
    let mut w = node("x", "transform");
    w.transform = Some("shout".to_string());
    m.workflows.push(WorkflowConfig {
        id: "w".to_string(),
        name: None,
        max_attempts: None,
        failure_policy: None,
        nodes: vec![w, n],
        edges: Vec::new(),
    });
    assert_eq!(
        m.validate("enki.toml").err().unwrap(),
        "Workflow 'w' node 'x' references unknown transform 'shout'."
    );
    m.workflows[0].nodes.remove(0);
    assert_eq!(m.validate("enki.toml").err().unwrap(), "Workflow 'w' node 'n' references unknown task 'nope'.");
    m.workflows.clear();
    m.tasks[0].output_transform = Some("identity".to_string());
    m.tasks[0].input_transform = Some("upper".to_string());
    assert_eq!(m.validate("enki.toml").err().unwrap(), "Unknown workflow transform 'upper'.");
    m.tasks[0].input_transform = None;
    assert!(m.validate("enki.toml").is_ok());
}
