use enki::agent::types::AgentDefinition;
use enki::registry::{AgentStatus, FirstMatchSelector};
use enki::runtime::multi_agent::{delegation_session_id_at, next_delegation_session_id, MultiAgentRuntimeBuilder};

fn definition(name: &str, model: &str) -> AgentDefinition {
    AgentDefinition {
        name: name.to_string(),
        system_prompt_preamble: format!("You are {name}."),
        model: model.to_string(),
        max_iterations: 20,
    }
}

#[test]
fn registry_holds_a_card_per_added_agent() {
    let builder = MultiAgentRuntimeBuilder::<(), FirstMatchSelector>::new()
        .with_workspace_home("/tmp/home")
        .add_agent("planner", definition("Planner", "ollama::qwen3.5"), vec!["plan".to_string()])
        .add_agent("coder", definition("Coder", "ollama::qwen3.5"), vec!["code".to_string(), "rust".to_string()]);
    let registry = builder.card_registry();
    let planner = registry.get("planner").unwrap();
    assert_eq!(planner.name, "Planner");
    assert_eq!(planner.description, "You are Planner.");
    assert_eq!(planner.capabilities, vec!["plan".to_string()]);
    assert_eq!(planner.status, AgentStatus::Online);
    let coder = registry.get("coder").unwrap();
    assert_eq!(coder.capabilities, vec!["code".to_string(), "rust".to_string()]);
    assert_eq!(registry.list_all().len(), 2);
}

#[test]
fn later_agent_with_same_id_replaces_card() {
    let builder = MultiAgentRuntimeBuilder::<(), FirstMatchSelector>::new()
        .add_agent("a", definition("First", "m"), Vec::new())
        .add_agent("a", definition("Second", "m"), Vec::new());
    let registry = builder.card_registry();
    assert_eq!(registry.list_all().len(), 1);
    assert_eq!(registry.get("a").unwrap().name, "Second");
}

#[test]
fn build_fails_at_first_agent_without_provider() {
    let builder = MultiAgentRuntimeBuilder::<u8, FirstMatchSelector>::new()
        .add_agent_with_llm("with-llm", definition("A", ""), Vec::new(), 7)
        .add_agent("plain", definition("B", "openai::gpt-4o"), Vec::new())
        .add_agent("other", definition("C", "anthropic::x"), Vec::new());
    assert_eq!(
        builder.build_error(None).unwrap(),
        "No built-in LLM provider is available for model `openai::gpt-4o`. Supply a custom LlmProvider or enable the `universal-llm-provider` feature."
    );
    let missing = MultiAgentRuntimeBuilder::<u8, FirstMatchSelector>::new().add_agent("m", definition("M", " "), Vec::new());
    assert_eq!(missing.build_error(None).unwrap(), "Missing model. Set AgentDefinition.model or ENKI_MODEL.");
    let provided = MultiAgentRuntimeBuilder::<u8, FirstMatchSelector>::new()
        .with_selector(FirstMatchSelector)
        .add_agent_with_llm("x", definition("X", ""), Vec::new(), 1);
    assert!(provided.build_error(None).is_none());
}

#[test]
fn single_agent_builder_defaults_and_executor() {
    let builder = enki::runtime::builder::RuntimeBuilder::<u8>::for_default_agent();
    assert_eq!(builder.definition.name, "Personal Assistant");
    assert_eq!(builder.definition.model, "");
    assert!(builder.tool_executor.is_none());
    let with_exec = builder.with_tool_executor(3);
    assert_eq!(with_exec.tool_executor, Some(3));
    assert_eq!(with_exec.definition.max_iterations, 20);
}

#[test]
fn delegated_tasks_run_in_hex_stamped_sessions() {
    assert_eq!(delegation_session_id_at("coder", 255), "delegation-coder-ff");
    assert_eq!(delegation_session_id_at("r", 0x1a2b), "delegation-r-1a2b");
    assert_eq!(delegation_session_id_at("x", 0), "delegation-x-0");
    let fresh = next_delegation_session_id("peer");
    assert!(fresh.starts_with("delegation-peer-"));
    assert!(fresh["delegation-peer-".len()..].chars().all(|c| c.is_ascii_hexdigit()));
}

struct RecordingLlm {
    responses: Vec<String>,
}

fn recording(content: &str) -> RecordingLlm {
    RecordingLlm { responses: vec![content.to_string()] }
}

fn recorded_definition(name: &str, preamble: &str) -> AgentDefinition {
    AgentDefinition {
        name: name.into(),
        system_prompt_preamble: preamble.into(),
        model: "recording".into(),
        max_iterations: 2,
    }
}

#[test]
fn multi_agent_runtime_registers_agents() {
    let runtime = MultiAgentRuntimeBuilder::<RecordingLlm, FirstMatchSelector>::new()
        .add_agent_with_llm("coder", recorded_definition("Coder", "You write code."), vec!["code-gen".into()], recording("ok"))
        .add_agent_with_llm(
            "researcher",
            recorded_definition("Researcher", "You do research."),
            vec!["research".into()],
            recording("ok"),
        )
        .with_workspace_home("/tmp/enki-register")
        .build(None)
        .ok()
        .unwrap();

    let all = runtime.registry().list_all();
    assert_eq!(all.len(), 2);

    let coder = runtime.registry().get("coder").unwrap();
    assert_eq!(coder.capabilities, vec!["code-gen"]);
    assert_eq!(coder.status, AgentStatus::Online);
}

#[test]
fn multi_agent_runtime_unknown_agent_returns_error() {
    let runtime = MultiAgentRuntimeBuilder::<RecordingLlm, FirstMatchSelector>::new()
        .add_agent_with_llm("only-agent", recorded_definition("Only", "..."), vec![], recording("ok"))
        .with_workspace_home("/tmp/enki-unknown")
        .build(None)
        .ok()
        .unwrap();

    let result = runtime.agent("ghost");
    assert!(result.is_err());
    assert!(result.err().unwrap().contains("not found"));
    let found = runtime.agent("only-agent").ok().unwrap();
    assert_eq!(found.definition.name, "Only");
    assert_eq!(found.llm.as_ref().unwrap().responses, vec!["ok".to_string()]);
}

#[test]
fn runtime_keeps_last_agent_added_under_an_id() {
    let runtime = MultiAgentRuntimeBuilder::<RecordingLlm, FirstMatchSelector>::new()
        .add_agent_with_llm("dup", recorded_definition("First", "a"), vec![], recording("1"))
        .add_agent_with_llm("dup", recorded_definition("Second", "b"), vec![], recording("2"))
        .build(None)
        .ok()
        .unwrap();
    assert_eq!(runtime.agent("dup").ok().unwrap().definition.name, "Second");
    assert_eq!(runtime.registry().get("dup").unwrap().name, "Second");
}
