use enki::cli::Template;
use enki::commands::agent::{agent_script_path, render_agent_entry, render_agent_script, to_pascal_case};
use enki::commands::init::{check_init_options, render_py_enki_toml, render_readme, scaffold_files};
use enki::commands::run::{join_target, run_target};
use enki::commands::tool::{plan_new_tool, render_python_tool, resolve_agent_target};
use enki::commands::workflow::{
    check_cli_transforms, plan_workflow_file, plan_workflow_task, render_event_line, render_workflow_file,
    resolve_task_target, validate_workflow_runtime_compatibility, TaskTargetSpec,
};
use enki::manifest_doc::{add_tool_entry, add_workflow_file, TomlValue};
use enki::manifest::{AgentConfig, Manifest, ProjectConfig, ToolConfig, TransformConfig, WorkspaceConfig};
use enki::text::{to_kebab_case, to_snake_case};
use enki::workflow::types::{WorkflowEvent, WorkflowStatus};

fn to_doc(v: toml::Value) -> TomlValue {
    match v {
        toml::Value::String(s) => TomlValue::String(s),
        toml::Value::Integer(i) => TomlValue::Integer(i),
        toml::Value::Float(f) => TomlValue::Float(f.to_string()),
        toml::Value::Boolean(b) => TomlValue::Boolean(b),
        toml::Value::Datetime(d) => TomlValue::Datetime(d.to_string()),
        toml::Value::Array(items) => TomlValue::Array(items.into_iter().map(to_doc).collect()),
        toml::Value::Table(t) => TomlValue::Table(t.into_iter().map(|(k, v)| (k, to_doc(v))).collect()),
    }
}

fn from_doc(v: TomlValue) -> toml::Value {
    match v {
        TomlValue::String(s) => toml::Value::String(s),
        TomlValue::Integer(i) => toml::Value::Integer(i),
        TomlValue::Float(f) => toml::Value::Float(f.parse().unwrap()),
        TomlValue::Boolean(b) => toml::Value::Boolean(b),
        TomlValue::Datetime(d) => toml::Value::Datetime(d.parse().unwrap()),
        TomlValue::Array(items) => toml::Value::Array(items.into_iter().map(from_doc).collect()),
        TomlValue::Table(t) => toml::Value::Table(t.into_iter().map(|(k, v)| (k, from_doc(v))).collect()),
    }
}

const DEMO_MANIFEST: &str = r#"[project]
name = "demo"

[[agent]]
id = "assistant"
name = "Assistant"
model = "ollama::qwen3.5"
"#;

fn demo_doc() -> TomlValue {
    to_doc(toml::from_str::<toml::Value>(DEMO_MANIFEST).unwrap())
}

fn render_doc(d: TomlValue) -> String {
    toml::to_string_pretty(&from_doc(d)).unwrap()
}

fn agent(id: &str) -> AgentConfig {
    AgentConfig {
        id: id.to_string(),
        name: id.to_uppercase(),
        model: "ollama::qwen3.5".to_string(),
        system_prompt: String::new(),
        max_iterations: 20,
        capabilities: Vec::new(),
        tools: Vec::new(),
        script: None,
    }
}

fn manifest(agents: Vec<AgentConfig>) -> Manifest {
    Manifest {
        project: ProjectConfig {
            name: "demo".to_string(),
            version: "0.1.0".to_string(),
            workflow_files: Vec::new(),
        },
        workspace: WorkspaceConfig { home: "./.enki".to_string() },
        workflow_files: Vec::new(),
        tools: Vec::new(),
        transforms: Vec::new(),
        tasks: Vec::new(),
        workflows: Vec::new(),
        agents,
    }
}

#[test]
fn render_py_enki_toml_omits_tool_block_by_default() {
    let rendered = render_py_enki_toml(false);
    assert!(!rendered.contains("[[tool]]"));
    assert!(!rendered.contains("tools = [\"assistant-tools\"]"));
}

#[test]
fn render_py_enki_toml_adds_tool_block_when_requested() {
    let rendered = render_py_enki_toml(true);
    assert!(rendered.contains("[[tool]]"));
    assert!(rendered.contains("path = \"src/tools/assistant.py\""));
    assert!(rendered.contains("tools = [\"assistant-tools\"]"));
}

#[test]
fn derives_python_defaults_from_name() {
    assert_eq!(to_snake_case("Weather Search"), "weather_search");
    assert_eq!(to_kebab_case("Weather Search"), "weather-search");
}

#[test]
fn allows_python_project_layout_when_agents_are_rust_managed() {
    let m = manifest(vec![agent("assistant")]);
    validate_workflow_runtime_compatibility(&m).unwrap();
}

#[test]
fn rejects_python_scripted_agents_for_workflow_cli() {
    let mut a = agent("assistant");
    a.script = Some("src/agents/assistant.py".to_string());
    let m = manifest(vec![a]);
    let error = validate_workflow_runtime_compatibility(&m).unwrap_err();
    assert!(error.contains("Python-scripted agents"));
}

#[test]
fn renders_event_lines() {
    let line = render_event_line(&WorkflowEvent::NodeCompleted {
        node_id: "audit".to_string(),
        output_key: "summary".to_string(),
    });
    assert!(line.contains("audit"));
    assert!(line.contains("summary"));
}

#[test]
fn requires_target_when_manifest_has_multiple_agents() {
    let m = manifest(vec![agent("assistant"), agent("critic")]);
    let plan = plan_workflow_file(&m, "enki.toml", "Release Audit", None, None).unwrap();
    let error = plan_workflow_task(&m, &plan.workflow_id, None, &[]).err().unwrap();
    assert!(error.contains("--agent <id> or --capability <name>"));
}

#[test]
fn creates_workflow_file_and_updates_manifest() {
    let m = manifest(vec![agent("assistant")]);
    let plan = plan_workflow_file(&m, "enki.toml", "Release Audit", None, None).unwrap();
    assert_eq!(plan.workflow_file_key, "workflows/release-audit.toml");
    let (target, task_id) = plan_workflow_task(&m, &plan.workflow_id, None, &[]).unwrap();
    let workflow_content = render_workflow_file(&plan.workflow_name, &plan.workflow_id, &task_id, &target);
    assert!(workflow_content.contains("id = \"release-audit\""));
    assert!(workflow_content.contains("agent = \"assistant\""));
    assert!(workflow_content.contains("task = \"release-audit-task\""));
    let updated = add_workflow_file(demo_doc(), "enki.toml", &plan.workflow_file_key).ok().unwrap();
    let updated_manifest = render_doc(updated);
    assert!(updated_manifest.contains("workflow_files = [\"workflows/release-audit.toml\"]"));
}

#[test]
fn workflow_file_text_is_exact() {
    let target = TaskTargetSpec::Capabilities(vec!["research".to_string(), "writing".to_string()]);
    let text = render_workflow_file("Release", "release", "release-task", &target);
    assert_eq!(
        text,
        "[[task]]\nid = \"release-task\"\ncapabilities = [\"research\", \"writing\"]\nprompt = \"Complete the workflow task for {{input.message}}.\"\noutput_key = \"result\"\n\n[[workflow]]\nid = \"release\"\nname = \"Release\"\nfailure_policy = \"continue_best_effort\"\n\n[[workflow.node]]\nid = \"run\"\nkind = \"task\"\ntask = \"release-task\"\n"
    );
}

#[test]
fn workflow_plan_rejects_bad_names_and_duplicates() {
    let mut m = manifest(vec![agent("assistant")]);
    assert_eq!(
        plan_workflow_file(&m, "enki.toml", "   ", None, None).err().unwrap(),
        "Workflow name must contain letters or numbers."
    );
    assert_eq!(
        plan_workflow_file(&m, "enki.toml", "!!!", None, None).err().unwrap(),
        "Workflow id must contain letters or numbers."
    );
    m.project.workflow_files.push("workflows/release.toml".to_string());
    assert_eq!(
        plan_workflow_file(&m, "enki.toml", "Release", None, None).err().unwrap(),
        "Workflow file 'workflows/release.toml' is already registered in enki.toml."
    );
    let custom = plan_workflow_file(&m, "enki.toml", "Release", Some("rel"), Some("flows\\rel.toml")).unwrap();
    assert_eq!(custom.workflow_id, "rel");
    assert_eq!(custom.workflow_file_key, "flows/rel.toml");
}

#[test]
fn task_target_prefers_agent_then_capabilities() {
    let m = manifest(vec![agent("assistant"), agent("critic")]);
    match resolve_task_target(&m, Some("critic"), &[]) {
        Ok(TaskTargetSpec::Agent(id)) => assert_eq!(id, "critic"),
        _ => panic!("expected the agent"),
    }
    match resolve_task_target(&m, None, &["research".to_string()]) {
        Ok(TaskTargetSpec::Capabilities(caps)) => assert_eq!(caps, vec!["research".to_string()]),
        _ => panic!("expected capabilities"),
    }
    assert_eq!(
        resolve_task_target(&m, Some("ghost"), &[]).err().unwrap(),
        "Agent 'ghost' was not found in enki.toml."
    );
}

#[test]
fn tool_backed_agents_are_rejected_by_the_workflow_cli() {
    let mut m = manifest(vec![agent("assistant")]);
    m.tools.push(ToolConfig {
        id: "helpers".to_string(),
        kind: "python".to_string(),
        path: "src/tools/helpers.py".to_string(),
        symbol: "register".to_string(),
    });
    m.agents[0].tools.push("helpers".to_string());
    assert_eq!(
        validate_workflow_runtime_compatibility(&m).unwrap_err(),
        "Workflow CLI v1 does not execute Python tool-backed agents yet. Remove `tools` from agent(s): assistant"
    );
}

#[test]
fn only_builtin_transforms_run_in_the_cli() {
    let mut m = manifest(vec![agent("assistant")]);
    m.transforms.push(TransformConfig {
        id: "identity".to_string(),
        kind: "BuiltIn".to_string(),
        path: None,
        symbol: None,
    });
    assert!(check_cli_transforms(&m).is_ok());
    m.transforms.push(TransformConfig {
        id: "custom".to_string(),
        kind: "python".to_string(),
        path: None,
        symbol: None,
    });
    assert_eq!(
        check_cli_transforms(&m).unwrap_err(),
        "Workflow transform 'custom' uses kind 'python'. CLI v1 supports built-in transforms only; register custom transforms through the Rust runtime API."
    );
}

#[test]
fn event_lines_are_exact() {
    assert_eq!(
        render_event_line(&WorkflowEvent::NodeStarted { node_id: "a".to_string(), attempt: 2 }),
        "Node 'a' started (attempt 2)"
    );
    assert_eq!(
        render_event_line(&WorkflowEvent::WorkflowCompleted {
            run_id: "r".to_string(),
            status: WorkflowStatus::CompletedWithFailures
        }),
        "Workflow finished with status CompletedWithFailures"
    );
    assert_eq!(
        render_event_line(&WorkflowEvent::NodeFailed { node_id: "a".to_string(), error: "  bad\n\n thing ".to_string() }),
        "Node 'a' failed: bad thing"
    );
}

#[test]
fn new_tool_plan_derives_names() {
    let m = manifest(vec![agent("assistant")]);
    let plan = plan_new_tool(&m, "enki.toml", "  Weather Search ", None, None).ok().unwrap();
    assert_eq!(plan.tool_name, "Weather Search");
    assert_eq!(plan.module_name, "weather_search");
    assert_eq!(plan.tool_id, "weather-search-tools");
    assert_eq!(plan.tool_path, "src/tools/weather_search.py");
    assert_eq!(plan.symbol, "register_weather_search_tools");
    assert_eq!(plan.attach_agent.as_deref(), Some("assistant"));
    assert_eq!(
        plan_new_tool(&m, "enki.toml", "   ", None, None).err().unwrap(),
        "Tool name must contain letters or numbers."
    );
}

#[test]
fn appends_tool_and_attaches_agent() {
    let mut m = manifest(vec![agent("assistant")]);
    let plan = plan_new_tool(&m, "enki.toml", "Weather", Some("weather-tools"), Some("assistant")).ok().unwrap();
    assert_eq!(plan.attach_agent.as_deref(), Some("assistant"));
    let updated = add_tool_entry(
        demo_doc(),
        "enki.toml",
        &plan.tool_id,
        &plan.tool_path,
        &plan.symbol,
        plan.attach_agent.as_deref(),
    )
    .ok()
    .unwrap();
    let updated = render_doc(updated);
    assert!(updated.contains("[[tool]]"));
    assert!(updated.contains("id = \"weather-tools\""));
    assert!(updated.contains("path = \"src/tools/weather.py\""));
    assert!(updated.contains("tools = [\"weather-tools\"]"));
    m.tools.push(ToolConfig {
        id: "weather-tools".to_string(),
        kind: "python".to_string(),
        path: plan.tool_path.clone(),
        symbol: plan.symbol.clone(),
    });
    assert_eq!(
        plan_new_tool(&m, "enki.toml", "Weather", Some("weather-tools"), None).err().unwrap(),
        "Tool id 'weather-tools' already exists in enki.toml."
    );
}

#[test]
fn agent_target_of_a_tool() {
    let one = manifest(vec![agent("assistant")]);
    assert_eq!(resolve_agent_target(&one, None).unwrap().as_deref(), Some("assistant"));
    let two = manifest(vec![agent("assistant"), agent("critic")]);
    assert_eq!(resolve_agent_target(&two, None).unwrap(), None);
    assert_eq!(
        resolve_agent_target(&two, Some("ghost")).unwrap_err(),
        "Agent 'ghost' was not found in enki.toml."
    );
}

#[test]
fn python_tool_module_names_its_function() {
    let body = render_python_tool("Weather Search", "register_weather_search_tools");
    assert!(body.starts_with("import json\nfrom typing import Any\n"));
    assert!(body.contains("def register_weather_search_tools(agent: Agent, config: dict[str, Any] | None = None) -> None:"));
    assert!(body.contains("\"\"\"Register tools for Weather Search.\"\"\""));
    assert!(body.contains("    def weather_search_info() -> str:"));
    assert!(body.contains("\"tool\": \"Weather Search\","));
    assert!(body.contains("tool_config = config or {}"));
}

#[test]
fn init_options_and_templates() {
    assert!(check_init_options(Template::Py, true).is_ok());
    assert_eq!(
        check_init_options(Template::Ts, true).unwrap_err(),
        "--with-tool is currently supported only with --template py."
    );
    assert!(check_init_options(Template::Rs, false).is_ok());
    let readme = render_readme("demo");
    assert!(readme.starts_with("# demo\n"));
    assert!(!readme.contains("{{PROJECT_NAME}}"));
    assert_eq!(scaffold_files(Template::Py, true).len(), 5);
    assert_eq!(scaffold_files(Template::Rs, false), vec!["Cargo.toml".to_string(), "src/main.rs".to_string()]);
    assert_eq!(Template::Ts.as_str(), "ts");
}

#[test]
fn new_agent_entry_and_script() {
    assert_eq!(to_pascal_case("data-cruncher_v2 bot"), "DataCruncherV2Bot");
    assert_eq!(agent_script_path("helper"), "src/agents/helper.py");
    let entry = render_agent_entry("helper", "helper", true);
    assert_eq!(
        entry,
        "\n[[agent]]\nid = \"helper\"\nname = \"helper\"\nmodel = \"ollama::qwen3.5\"\nsystem_prompt = \"You are a helpful assistant.\"\nscript = \"src/agents/helper.py\"\n"
    );
    assert!(!render_agent_entry("helper", "helper", false).contains("script"));
    let script = render_agent_script("research bot");
    assert!(script.contains("class ResearchBotAgent(Agent[AgentDeps]):"));
    assert!(script.contains("agent = ResearchBotAgent(\"ollama::qwen3.5\", name=\"research bot\")"));
    assert!(!script.contains("{AGENT_NAME}"));
}

#[test]
fn run_and_join_pick_their_agent() {
    let m = manifest(vec![agent("assistant"), agent("critic")]);
    assert_eq!(run_target(&m, None).unwrap(), 0);
    assert_eq!(run_target(&m, Some("critic")).unwrap(), 1);
    assert_eq!(
        run_target(&m, Some("ghost")).unwrap_err(),
        "Agent 'ghost' not found in manifest. Available: assistant, critic"
    );
    assert_eq!(join_target(&m, None).unwrap(), "assistant");
    assert_eq!(
        join_target(&m, Some("ghost")).unwrap_err(),
        "Agent 'ghost' not found. Available: assistant, critic"
    );
}

#[test]
fn tool_entries_are_checked_before_anything_changes() {
    let err = add_tool_entry(TomlValue::Integer(1), "enki.toml", "t", "p.py", "s", None).err().unwrap();
    assert_eq!(err, "enki.toml must contain a TOML table at the root.");
    let bad_tools = to_doc(toml::from_str::<toml::Value>("tool = 3\n").unwrap());
    let err = add_tool_entry(bad_tools, "enki.toml", "t", "p.py", "s", None).err().unwrap();
    assert_eq!(err, "Expected [[tool]] entries to be an array.");
    let err = add_tool_entry(demo_doc(), "enki.toml", "t", "p.py", "s", Some("ghost")).err().unwrap();
    assert_eq!(err, "Agent 'ghost' was not found in enki.toml.");
    let no_agents = to_doc(toml::from_str::<toml::Value>("[project]\nname = \"x\"\n").unwrap());
    let err = add_tool_entry(no_agents, "enki.toml", "t", "p.py", "s", Some("a")).err().unwrap();
    assert_eq!(err, "Expected [[agent]] entries to be an array.");
    let bad_list = to_doc(toml::from_str::<toml::Value>("[[agent]]\nid = \"a\"\ntools = \"x\"\n").unwrap());
    let err = add_tool_entry(bad_list, "enki.toml", "t", "p.py", "s", Some("a")).err().unwrap();
    assert_eq!(err, "Agent 'a' has an invalid tools entry.");
}

#[test]
fn attaching_twice_lists_the_tool_once() {
    let doc = add_tool_entry(demo_doc(), "enki.toml", "t", "src\\tools\\t.py", "s", Some("assistant")).ok().unwrap();
    let doc = add_tool_entry(doc, "enki.toml", "t", "src/tools/t.py", "s", Some("assistant")).ok().unwrap();
    let text = render_doc(doc);
    assert!(text.contains("tools = [\"t\"]"));
    assert_eq!(text.matches("[[tool]]").count(), 2);
    assert!(text.contains("path = \"src/tools/t.py\""));
}

#[test]
fn workflow_files_are_registered_once() {
    let doc = add_workflow_file(demo_doc(), "enki.toml", "workflows/a.toml").ok().unwrap();
    let doc = add_workflow_file(doc, "enki.toml", "workflows/a.toml").ok().unwrap();
    let doc = add_workflow_file(doc, "enki.toml", "workflows/b.toml").ok().unwrap();
    let text = render_doc(doc);
    assert_eq!(text.matches("workflows/a.toml").count(), 1);
    assert_eq!(text.matches("workflows/b.toml").count(), 1);
    assert!(text.find("workflows/a.toml").unwrap() < text.find("workflows/b.toml").unwrap());
    let empty = to_doc(toml::from_str::<toml::Value>("").unwrap());
    let text = render_doc(add_workflow_file(empty, "enki.toml", "w.toml").ok().unwrap());
    assert!(text.contains("[project]"));
    assert!(text.contains("workflow_files = [\"w.toml\"]"));
    let bad = to_doc(toml::from_str::<toml::Value>("project = 1\n").unwrap());
    assert_eq!(
        add_workflow_file(bad, "enki.toml", "w.toml").err().unwrap(),
        "Expected [project] to be a TOML table."
    );
    let bad = to_doc(toml::from_str::<toml::Value>("[project]\nworkflow_files = \"x\"\n").unwrap());
    assert_eq!(
        add_workflow_file(bad, "enki.toml", "w.toml").err().unwrap(),
        "Expected [project].workflow_files to be an array."
    );
}
