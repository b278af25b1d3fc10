use enki::agent::turn::{
    begin_turn, default_provider_error, extract_tool_invocations, push_assistant_reply, resolve_model, system_prompt,
    to_llm_messages, tool_definitions, ChatRole,
};
use enki::json::JsonValue;
use enki::message::{from_record, push_out_message, tool_calls_from_messages, Message};

fn to_json(v: serde_json::Value) -> JsonValue {
    match v {
        serde_json::Value::Null => JsonValue::Null,
        serde_json::Value::Bool(b) => JsonValue::Bool(b),
        serde_json::Value::Number(n) => JsonValue::Number(n.to_string()),
        serde_json::Value::String(s) => JsonValue::String(s),
        serde_json::Value::Array(items) => JsonValue::Array(items.into_iter().map(to_json).collect()),
        serde_json::Value::Object(map) => {
            JsonValue::Object(map.into_iter().map(|(k, v)| (k, to_json(v))).collect())
        }
    }
}

fn json(text: &str) -> JsonValue {
    to_json(serde_json::from_str(text).unwrap())
}

fn text_field(v: &JsonValue, key: &str) -> Option<String> {
    match v {
        JsonValue::Object(es) => es.iter().find(|(k, _)| k == key).and_then(|(_, v)| match v {
            JsonValue::String(s) => Some(s.clone()),
            _ => None,
        }),
        _ => None,
    }
}

#[test]
fn messages_carry_sender_and_parent() {
    let system = Message::system("You are helpful.".to_string());
    assert!(system.message_id.starts_with("msg-"));
    assert_eq!(system.sender, "system");
    assert_eq!(text_field(&system.payload, "role").as_deref(), Some("system"));
    let user = Message::user("hi".into(), "req-1".into(), Some(system.message_id.clone()), Some("ada".into()));
    assert_eq!(user.sender, "ada");
    assert_eq!(user.prev_message_id, Some(system.message_id.clone()));
    assert_eq!(text_field(&user.payload, "request_id").as_deref(), Some("req-1"));
    let tool = Message::out(json(r#"{"role": "tool", "content": "ok"}"#), None);
    assert_eq!(tool.sender, "tool");
    let bare = Message::out(json(r#"{"content": "ok"}"#), None);
    assert_eq!(bare.sender, "assistant");
}

#[test]
fn records_round_trip() {
    let m = Message::out(json(r#"{"role": "assistant", "content": "done"}"#), Some("msg-1".into()));
    let id = m.message_id.clone();
    let record = m.to_record();
    let back = from_record(0, record).unwrap();
    assert_eq!(back.message_id, id);
    assert_eq!(back.prev_message_id.as_deref(), Some("msg-1"));
    assert_eq!(back.sender, "assistant");
    assert_eq!(text_field(&back.payload, "content").as_deref(), Some("done"));
}

#[test]
fn legacy_records_get_numbered_ids() {
    let m = from_record(3, json(r#"{"role": "user", "content": "old"}"#)).unwrap();
    assert_eq!(m.message_id, "legacy-msg-3");
    assert_eq!(m.sender, "user");
    assert_eq!(m.prev_message_id, None);
    let m = from_record(7, json(r#"{"payload": {"role": "tool"}}"#)).unwrap();
    assert_eq!(m.message_id, "legacy-msg-7");
    assert_eq!(m.sender, "tool");
    assert!(from_record(1, json(r#"{"content": "no role"}"#)).is_none());
    assert!(from_record(1, json("[]")).is_none());
}

#[test]
fn turns_open_with_the_system_prompt_once() {
    let mut messages: Vec<Message> = Vec::new();
    begin_turn(&mut messages, "SYS".to_string(), "hello");
    assert_eq!(messages.len(), 2);
    assert_eq!(messages[0].sender, "system");
    assert_eq!(messages[1].sender, "user");
    assert_eq!(messages[1].prev_message_id, Some(messages[0].message_id.clone()));
    assert!(text_field(&messages[1].payload, "request_id").unwrap().starts_with("req-"));
    begin_turn(&mut messages, "IGNORED".to_string(), "again");
    assert_eq!(messages.len(), 3);
    assert_eq!(text_field(&messages[2].payload, "content").as_deref(), Some("again"));
    push_assistant_reply(&mut messages, "LLM error: boom".to_string());
    assert_eq!(messages.len(), 4);
    assert_eq!(messages[3].sender, "assistant");
    assert_eq!(messages[3].prev_message_id, Some(messages[2].message_id.clone()));
}

#[test]
fn chat_messages_keep_known_roles() {
    let mut messages = vec![
        Message::system("S".into()),
        Message::out(json(r#"{"role": "tool", "content": "r", "tool_call_id": "c1"}"#), None),
        Message::out(json(r#"{"role": "narrator", "content": "x"}"#), None),
        Message::out(json(r#"{"role": "assistant"}"#), None),
    ];
    push_out_message(&mut messages, json(r#"{"role": "assistant", "tool_calls": [{}, {}]}"#));
    let chat = to_llm_messages(&messages);
    assert_eq!(chat.len(), 4);
    assert_eq!(chat[0].role, ChatRole::System);
    assert_eq!(chat[1].role, ChatRole::Tool);
    assert_eq!(chat[1].tool_call_id.as_deref(), Some("c1"));
    assert_eq!(chat[2].content, "");
    assert_eq!(tool_calls_from_messages(&messages), 2);
}

#[test]
fn tool_catalog_lists_names_and_descriptions() {
    let defs = tool_definitions(&json(r#"{"exec": {"description": "Run"}, "read_file": {"parameters": {}}}"#));
    assert_eq!(defs.len(), 2);
    assert_eq!(defs[0].name, "exec");
    assert_eq!(defs[0].description.as_deref(), Some("Run"));
    assert_eq!(defs[1].name, "read_file");
    assert_eq!(defs[1].description, None);
    assert!(tool_definitions(&json("[]")).is_empty());
}

#[test]
fn native_tool_calls_come_first() {
    let msg = json(
        r#"{"role": "assistant", "content": "{\"tool\": \"x\", \"args\": {}}",
            "tool_calls": [{"id": "call-1", "function": {"name": "echo", "arguments": "{\"value\":\"hello\"}"}},
                           {"function": {"name": "exec", "arguments": {"cmd": "pwd"}}}]}"#,
    );
    let calls = extract_tool_invocations(msg);
    assert_eq!(calls.len(), 2);
    assert_eq!(calls[0].name, "echo");
    assert_eq!(calls[0].call_id.as_deref(), Some("call-1"));
    assert_eq!(calls[0].args, json(r#"{"value": "hello"}"#));
    assert_eq!(calls[1].name, "exec");
    assert_eq!(calls[1].args, json(r#"{"cmd": "pwd"}"#));
    assert_eq!(calls[1].call_id, None);
}

#[test]
fn embedded_tool_call_is_the_fallback() {
    let msg = json(r#"{"role": "assistant", "content": "Sure. {\"tool\": \"exec\", \"args\": {\"cmd\": \"ls\"}}"}"#);
    let calls = extract_tool_invocations(msg);
    assert_eq!(calls.len(), 1);
    assert_eq!(calls[0].name, "exec");
    assert_eq!(calls[0].args, json(r#"{"cmd": "ls"}"#));
    assert!(extract_tool_invocations(json(r#"{"role": "assistant", "content": "plain"}"#)).is_empty());
}

#[test]
fn prompt_and_model_are_exact() {
    let prompt = system_prompt("Bot", "Be brief.", "{}", "/a", "/w", "  ");
    assert!(prompt.starts_with("You are Bot.\nBe brief. Use tools via JSON calls when needed.\n"));
    assert!(prompt.contains("respond with ONLY {\"tool\": \"tool_name\", \"args\": {...}}."));
    assert!(prompt.contains("Available tools: {}\nAgent workspace: /a\nCurrent task workspace: /w\n"));
    assert!(prompt.ends_with("Do NOT construct full workspace paths manually."));
    let with_memory = system_prompt("Bot", "P", "{}", "/a", "/w", "remember this");
    assert!(with_memory.ends_with("manually.\n\nremember this"));
    assert_eq!(resolve_model("openai::gpt-4o", None).ok().unwrap(), "openai::gpt-4o");
    assert_eq!(resolve_model(" ", Some("ollama::x".into())).ok().unwrap(), "ollama::x");
    assert_eq!(
        resolve_model("", None).err().unwrap(),
        "Missing model. Set AgentDefinition.model or ENKI_MODEL."
    );
}

#[test]
fn agent_without_provider_reports_resolved_model() {
    assert_eq!(
        default_provider_error("ollama::qwen3.5", Some("openai::gpt-4o".into())),
        "No built-in LLM provider is available for model `ollama::qwen3.5`. Supply a custom LlmProvider or enable the `universal-llm-provider` feature."
    );
    assert_eq!(
        default_provider_error("  ", Some("openai::gpt-4o".into())),
        "No built-in LLM provider is available for model `openai::gpt-4o`. Supply a custom LlmProvider or enable the `universal-llm-provider` feature."
    );
    assert_eq!(
        default_provider_error("", None),
        "Missing model. Set AgentDefinition.model or ENKI_MODEL."
    );
}

#[test]
fn native_text_arguments_that_are_not_json_stay_text() {
    let msg = json(r#"{"tool_calls": [{"function": {"name": "say", "arguments": "hello there"}}]}"#);
    let calls = extract_tool_invocations(msg);
    assert_eq!(calls.len(), 1);
    assert_eq!(calls[0].args, JsonValue::String("hello there".to_string()));
    let missing = extract_tool_invocations(json(r#"{"tool_calls": [{"id": "c", "function": {"name": "x"}}]}"#));
    assert_eq!(missing[0].args, JsonValue::Null);
}
