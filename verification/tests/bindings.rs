use enki::agent::types::{AgentRunResult, ExecutionStep};
use enki::bindings::js::{
    build_definition, build_multi_agent_definition, compose_system_prompt_preamble,
    error_run_result, workflow_task_failure_message, JsAgentCard, JsAgentRunResult, JsAgentStatus,
    JsMultiAgentMember,
};
use enki::bindings::js::{
    first_present_property, invalid_schema_message, schema_source, tool_handler_choice, HandlerChoice, SchemaSource,
};
use enki::bindings::py::{
    check_workflow_agent_ids, initialization_error, workflow_task_failure_message as py_task_failure, EnkiAgentRunResult,
};
use enki::registry::{AgentCard, AgentStatus};

fn step(index: usize, kind: &str) -> ExecutionStep {
    ExecutionStep { index, phase: "Act".to_string(), kind: kind.to_string(), detail: "d".to_string() }
}

#[test]
fn custom_loop_is_appended_between_markers() {
    let out = compose_system_prompt_preamble("Base".to_string(), Some("  plan then act \n".to_string()));
    assert_eq!(out, "Base\n<enki:agentic-loop>\nplan then act\n</enki:agentic-loop>");
    assert_eq!(compose_system_prompt_preamble("Base".to_string(), Some("   ".to_string())), "Base");
    assert_eq!(compose_system_prompt_preamble("Base".to_string(), None), "Base");
}

#[test]
fn definitions_fill_in_defaults() {
    let d = build_definition(None, None, None, None, None);
    assert_eq!(d.name, "Personal Assistant");
    assert_eq!(d.system_prompt_preamble, "You are a helpful Personal Assistant agent.");
    assert_eq!(d.model, "");
    assert_eq!(d.max_iterations, 20);
    let d = build_definition(Some("Bot".into()), Some("P".into()), Some("L".into()), Some("openai::gpt-4o".into()), Some(0));
    assert_eq!(d.name, "Bot");
    assert_eq!(d.system_prompt_preamble, "P\n<enki:agentic-loop>\nL\n</enki:agentic-loop>");
    assert_eq!(d.model, "openai::gpt-4o");
    assert_eq!(d.max_iterations, 1);
}

#[test]
fn members_keep_id_and_capabilities() {
    let member = JsMultiAgentMember {
        agent_id: "coder".into(),
        name: "Coder".into(),
        system_prompt_preamble: Some("You write code.".into()),
        model: None,
        max_iterations: Some(7),
        capabilities: vec!["code-gen".into()],
    };
    let (id, def, caps) = build_multi_agent_definition(member);
    assert_eq!(id, "coder");
    assert_eq!(caps, vec!["code-gen"]);
    assert_eq!(def.name, "Coder");
    assert_eq!(def.system_prompt_preamble, "You write code.");
    assert_eq!(def.max_iterations, 7);
}

#[test]
fn cards_and_results_convert_field_by_field() {
    let card = AgentCard::new("a", "A", "desc", vec!["x".into()]).with_status(AgentStatus::Busy);
    let js = JsAgentCard::from_card(card);
    assert_eq!(js.agent_id, "a");
    assert_eq!(js.status, JsAgentStatus::Busy);
    assert_eq!(AgentStatus::from(JsAgentStatus::Offline), AgentStatus::Offline);
    let result = AgentRunResult { content: "ok".into(), steps: vec![step(1, "llm_call"), step(2, "final")] };
    let js = JsAgentRunResult::from_result(result);
    assert_eq!(js.output, "ok");
    assert_eq!(js.steps.len(), 2);
    assert_eq!(js.steps[1].index, 2);
    assert_eq!(js.steps[1].kind, "final");
    let result = AgentRunResult { content: "ok".into(), steps: vec![step(5, "final")] };
    let py = EnkiAgentRunResult::from_result(result);
    assert_eq!(py.steps[0].index, 5);
}

#[test]
fn failed_task_runs_are_recognised() {
    let failed = AgentRunResult { content: "  broke  ".into(), steps: vec![step(1, "failed")] };
    assert_eq!(workflow_task_failure_message(&failed), Some("broke".to_string()));
    let llm = error_run_result("LLM error: Provider error: missing response".into());
    assert_eq!(
        workflow_task_failure_message(&llm),
        Some("LLM error: Provider error: missing response".to_string())
    );
    let fine = AgentRunResult { content: "done".into(), steps: vec![step(1, "final")] };
    assert_eq!(workflow_task_failure_message(&fine), None);
    let init = error_run_result(initialization_error("no model"));
    assert_eq!(init.content, "Initialization error: no model");
    assert_eq!(workflow_task_failure_message(&init), None);
    assert_eq!(py_task_failure(&init), Some("Initialization error: no model".to_string()));
}

#[test]
fn tool_objects_are_read_by_their_first_property() {
    let names = vec!["id".to_string(), "name".to_string()];
    assert_eq!(first_present_property(&names, &[false, true]).ok().unwrap(), 1);
    assert_eq!(first_present_property(&names, &[true, true]).ok().unwrap(), 0);
    assert_eq!(first_present_property(&names, &[false, false]).err().unwrap(), "Missing tool property 'id' or 'name'");
    assert_eq!(schema_source(false, true, true, true).ok().unwrap(), SchemaSource::ParametersJson);
    assert_eq!(schema_source(false, false, false, true).ok().unwrap(), SchemaSource::Parameters);
    assert_eq!(
        schema_source(false, false, false, false).err().unwrap(),
        "Missing tool property 'inputSchema', 'inputSchemaJson', 'parameters', or 'parametersJson'"
    );
    assert_eq!(tool_handler_choice("t", true, true).ok().unwrap(), HandlerChoice::PerTool);
    assert_eq!(tool_handler_choice("t", false, true).ok().unwrap(), HandlerChoice::Shared);
    assert_eq!(
        tool_handler_choice("t", false, false).err().unwrap(),
        "Tool 't' must define an execute function or use a shared toolHandler"
    );
    assert_eq!(invalid_schema_message("t", "EOF"), "Invalid input schema JSON for tool 't': EOF");
}

#[test]
fn workflow_agents_need_distinct_ids() {
    let ids = |v: &[&str]| v.iter().map(|s| s.to_string()).collect::<Vec<_>>();
    assert!(check_workflow_agent_ids(&ids(&["a", "b"])).is_ok());
    assert_eq!(
        check_workflow_agent_ids(&ids(&["a", " "])).err().unwrap(),
        "Initialization error: workflow agent_id cannot be empty."
    );
    assert_eq!(
        check_workflow_agent_ids(&ids(&["a", "b", "a", ""])).err().unwrap(),
        "Initialization error: duplicate workflow agent_id 'a'."
    );
}
