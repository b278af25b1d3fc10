use enki::registry::{AgentCard, AgentRegistry, AgentStatus};
use enki::tooling::{
    bad_arguments_message, i32_to_string, not_in_runtime_message, AskHumanTool, DelegateTaskTool,
    DiscoverAgentsTool, ExecTool, ReadFileTool, WriteFileTool,
};
use enki::json::JsonValue;

fn populated_registry() -> AgentRegistry {
    let mut registry = AgentRegistry::new();
    registry.register(AgentCard::new("self-agent", "Self", "Me", vec!["code-gen".into()]));
    registry.register(AgentCard::new("peer-a", "Peer A", "Research agent", vec!["research".into()]));
    registry.register(
        AgentCard::new("peer-b", "Peer B", "Offline", vec!["code-gen".into()])
            .with_status(AgentStatus::Offline),
    );
    registry
}

fn ids(cards: &[AgentCard]) -> Vec<String> {
    cards.iter().map(|c| c.agent_id.clone()).collect()
}

#[test]
fn discover_without_delegation_returns_error() {
    let result = not_in_runtime_message();
    assert!(result.contains("not part of a multi-agent runtime"));
}

#[test]
fn discover_returns_peers_excluding_self() {
    let registry = populated_registry();
    let found = DiscoverAgentsTool.discover(&registry, "self-agent", None, None).ok().unwrap();
    let result = ids(&found);
    assert!(result.contains(&"peer-a".to_string()));
    assert!(result.contains(&"peer-b".to_string()));
    assert!(!result.contains(&"self-agent".to_string()));
}

#[test]
fn discover_filters_by_capability() {
    let registry = populated_registry();
    let found = DiscoverAgentsTool
        .discover(&registry, "self-agent", Some("research"), None)
        .ok()
        .unwrap();
    let result = ids(&found);
    assert!(result.contains(&"peer-a".to_string()));
    assert!(!result.contains(&"peer-b".to_string()));
}

#[test]
fn discover_filters_by_status() {
    let registry = populated_registry();
    let found = DiscoverAgentsTool
        .discover(&registry, "self-agent", None, Some("offline"))
        .ok()
        .unwrap();
    let result = ids(&found);
    assert!(result.contains(&"peer-b".to_string()));
    assert!(!result.contains(&"peer-a".to_string()));
}

#[test]
fn discover_rejects_an_unknown_status() {
    let registry = populated_registry();
    let err = DiscoverAgentsTool
        .discover(&registry, "self-agent", None, Some("asleep"))
        .err()
        .unwrap();
    assert_eq!(err, "Error: unknown status 'asleep'. Use 'online', 'busy', or 'offline'.");
}

#[test]
fn delegate_without_delegation_returns_error() {
    let result = not_in_runtime_message();
    assert!(result.contains("not part of a multi-agent runtime"));
}

#[test]
fn delegate_to_self_returns_error() {
    let registry = populated_registry();
    let result = DelegateTaskTool.check_target(&registry, "self-agent", "self-agent").err().unwrap();
    assert!(result.contains("cannot delegate a task to yourself"));
}

#[test]
fn delegate_to_unknown_agent_returns_error() {
    let registry = populated_registry();
    let result = DelegateTaskTool.check_target(&registry, "self-agent", "ghost").err().unwrap();
    assert!(result.contains("not found in registry"));
}

#[test]
fn delegate_invokes_delegate_fn_and_returns_result() {
    let registry = populated_registry();
    assert!(DelegateTaskTool.check_target(&registry, "self-agent", "peer-a").is_ok());
    let reply = format!("delegated:{}:{}", "peer-a", "summarize docs");
    let result = DelegateTaskTool.reply(Ok(reply));
    assert_eq!(result, "delegated:peer-a:summarize docs");
}

#[test]
fn failed_delegation_is_reported() {
    let result = DelegateTaskTool.reply(Err("timeout".to_string()));
    assert_eq!(result, "Error: delegation failed: timeout");
}

#[test]
fn ask_human_without_context_returns_error() {
    let result = AskHumanTool.unavailable();
    assert!(result.contains("not available"));
}

#[test]
fn ask_human_returns_reply() {
    let result = AskHumanTool.reply(Ok("yes, go ahead".to_string()));
    assert_eq!(result, "yes, go ahead");
}

#[test]
fn ask_human_returns_error_on_failure() {
    let result = AskHumanTool.reply(Err("channel closed".to_string()));
    assert!(result.contains("channel closed"));
    assert_eq!(result, "Error: failed to get human response: channel closed");
}

#[test]
fn ask_human_missing_query_returns_error() {
    let result = bad_arguments_message("missing field `query`");
    assert!(result.starts_with("Error: failed to parse arguments:"));
}

#[test]
fn exec_report_has_output_errors_and_code() {
    assert_eq!(ExecTool.report("hi\n", "", 0), "stdout: hi\n\nstderr: \nrc: 0");
    assert_eq!(ExecTool.report("", "boom", -1), "stdout: \nstderr: boom\nrc: -1");
    assert_eq!(i32_to_string(-2147483648), "-2147483648");
    assert_eq!(i32_to_string(42), "42");
}

#[test]
fn write_reply_names_the_outcome() {
    assert_eq!(WriteFileTool.reply(Ok(())), "File written.");
    assert_eq!(WriteFileTool.reply(Err("denied".to_string())), "Error: denied");
}

fn compact(v: &JsonValue) -> String {
    match v {
        JsonValue::Null => "null".to_string(),
        JsonValue::Bool(b) => b.to_string(),
        JsonValue::Number(n) => n.clone(),
        JsonValue::String(s) => format!("{:?}", s),
        JsonValue::Array(items) => format!("[{}]", items.iter().map(compact).collect::<Vec<_>>().join(",")),
        JsonValue::Object(es) => format!(
            "{{{}}}",
            es.iter().map(|(k, v)| format!("{:?}:{}", k, compact(v))).collect::<Vec<_>>().join(",")
        ),
    }
}

#[test]
fn tool_parameter_schemas() {
    assert_eq!(
        compact(&ReadFileTool.parameters()),
        r#"{"properties":{"path":{"type":"string"}},"required":["path"],"type":"object"}"#
    );
    assert_eq!(
        compact(&WriteFileTool.parameters()),
        r#"{"properties":{"content":{"type":"string"},"path":{"type":"string"}},"required":["path","content"],"type":"object"}"#
    );
    assert_eq!(
        compact(&ExecTool.parameters()),
        r#"{"properties":{"cmd":{"type":"string"}},"required":["cmd"],"type":"object"}"#
    );
    assert_eq!(
        compact(&DiscoverAgentsTool.parameters()),
        r#"{"properties":{"capability":{"description":"Optional capability to filter by, e.g. 'code-gen' or 'research'.","type":"string"},"status":{"description":"Optional status filter: 'online', 'busy', or 'offline'.","type":"string"}},"type":"object"}"#
    );
    assert_eq!(
        compact(&DelegateTaskTool.parameters()),
        r#"{"properties":{"agent_id":{"description":"ID of the target agent to delegate the task to.","type":"string"},"task":{"description":"The task description / prompt to send to the peer agent.","type":"string"}},"required":["agent_id","task"],"type":"object"}"#
    );
    assert_eq!(
        compact(&AskHumanTool.parameters()),
        r#"{"properties":{"query":{"description":"The question or prompt to present to the human user.","type":"string"}},"required":["query"],"type":"object"}"#
    );
}

#[test]
fn runtime_tools_describe_themselves() {
    assert_eq!(DiscoverAgentsTool.name(), "discover_agents");
    assert!(DiscoverAgentsTool.description().starts_with("Discover peer agents registered in the runtime. Returns"));
    assert_eq!(DelegateTaskTool.name(), "delegate_task");
    assert_eq!(
        DelegateTaskTool.description(),
        "Delegate a task to another agent by its agent_id. Returns the peer agent's response."
    );
    assert_eq!(AskHumanTool.name(), "ask_human");
    assert!(AskHumanTool.description().contains("pause until the human responds. Use this"));
}
