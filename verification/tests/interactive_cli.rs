use enki::interactive_cli::{ClientEvent, InteractiveCliClient};
use enki::manifest::AgentConfig;

fn agents() -> Vec<AgentConfig> {
    vec![
        AgentConfig {
            id: "assistant".into(),
            name: "Assistant".into(),
            model: "ollama::qwen3.5".into(),
            system_prompt: String::new(),
            max_iterations: 20,
            capabilities: vec!["chat".into()],
            tools: Vec::new(),
            script: None,
        },
        AgentConfig {
            id: "critic".into(),
            name: "Critic".into(),
            model: "ollama::qwen3.5".into(),
            system_prompt: String::new(),
            max_iterations: 20,
            capabilities: vec!["audit".into()],
            tools: Vec::new(),
            script: None,
        },
    ]
}

#[test]
fn parses_direct_message_for_default_agent() {
    let client = InteractiveCliClient::new("assistant", &agents());
    let event = client.parse_message_target("hello").unwrap();
    assert_eq!(event.0, "assistant");
    assert_eq!(event.1, "hello");
}

#[test]
fn parses_explicit_agent_message() {
    let client = InteractiveCliClient::new("assistant", &agents());
    let event = client.parse_message_target("@critic critique this").unwrap();
    assert_eq!(event.0, "critic");
    assert_eq!(event.1, "critique this");
}

#[test]
fn rejects_unknown_agent() {
    let client = InteractiveCliClient::new("assistant", &agents());
    let error = client.parse_message_target("@missing hi").unwrap_err();
    assert!(error.contains("unknown agent"));
}

#[test]
fn increments_session_ids() {
    let mut client = InteractiveCliClient::new("assistant", &agents());
    assert_eq!(client.next_session_id("assistant"), "join-assistant-1");
    assert_eq!(client.next_session_id("assistant"), "join-assistant-2");
}

#[test]
fn unknown_agent_message_names_the_agent() {
    let client = InteractiveCliClient::new("assistant", &agents());
    let error = client.parse_message_target("@missing hi").unwrap_err();
    assert_eq!(error, "unknown agent 'missing'. Type /agents to see available agents.");
}

#[test]
fn mention_without_message_is_rejected() {
    let client = InteractiveCliClient::new("assistant", &agents());
    assert_eq!(client.parse_message_target("@critic").unwrap_err(), "usage: @agent-id <message>");
    assert_eq!(client.parse_message_target("@critic    ").unwrap_err(), "message cannot be empty");
}

#[test]
fn lines_map_to_events() {
    let mut client = InteractiveCliClient::new("assistant", &agents());
    assert!(matches!(client.event_for_line("   "), Ok(ClientEvent::ShowHelp)));
    assert!(matches!(client.event_for_line(" QUIT "), Ok(ClientEvent::Quit)));
    assert!(matches!(client.event_for_line("exit"), Ok(ClientEvent::Quit)));
    assert!(matches!(client.event_for_line("q"), Ok(ClientEvent::Quit)));
    assert!(matches!(client.event_for_line("/agents"), Ok(ClientEvent::ShowAgents)));
    assert!(matches!(client.event_for_line("/help"), Ok(ClientEvent::ShowHelp)));
    match client.event_for_line("  hello there \n") {
        Ok(ClientEvent::SendMessage { agent_id, message }) => {
            assert_eq!(agent_id, "assistant");
            assert_eq!(message, "hello there");
        }
        _ => panic!("expected a message"),
    }
}

#[test]
fn use_command_switches_the_default_agent() {
    let mut client = InteractiveCliClient::new("assistant", &agents());
    assert!(matches!(client.event_for_line("/use critic"), Ok(ClientEvent::ShowAgents)));
    assert_eq!(client.default_agent_id(), "critic");
    match client.event_for_line("check this") {
        Ok(ClientEvent::SendMessage { agent_id, .. }) => assert_eq!(agent_id, "critic"),
        _ => panic!("expected a message"),
    }
    let error = client.event_for_line("/use nobody").err().unwrap();
    assert!(error.contains("unknown agent 'nobody'"));
    assert_eq!(client.default_agent_id(), "critic");
}

#[test]
fn session_ids_are_per_client_counters() {
    let mut client = InteractiveCliClient::new("assistant", &agents());
    assert_eq!(client.next_session_id("critic"), "join-critic-1");
    assert_eq!(client.next_session_id("assistant"), "join-assistant-2");
}
