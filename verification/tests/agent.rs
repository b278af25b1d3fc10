use enki::agent::agent_loop::{push_step, DefaultAgentLoop, ExecutionState, LoopAction, LoopDirective, LoopPhase};
use enki::agent::tool_call::{
    extract_embedded_tool_call, extract_fenced_code_blocks, json_object_candidates, parse_tool_call_value,
    tool_call_candidates, try_parse_tool_call,
};
use enki::agent::types::{AgentDefinition, ExecutionStep, StepOutcome, ToolCallTrace};
use enki::json::JsonValue;
use serde_json::Value;

fn json(text: &str) -> Value {
    serde_json::from_str(text).unwrap()
}

fn to_serde(v: &JsonValue) -> Value {
    match v {
        JsonValue::Null => Value::Null,
        JsonValue::Bool(b) => Value::Bool(*b),
        JsonValue::Number(n) => serde_json::from_str(n).unwrap(),
        JsonValue::String(s) => Value::String(s.clone()),
        JsonValue::Array(items) => Value::Array(items.iter().map(to_serde).collect()),
        JsonValue::Object(es) => Value::Object(es.iter().map(|(k, v)| (k.clone(), to_serde(v))).collect()),
    }
}

fn assert_call(call: Option<(String, JsonValue)>, name: &str, args: &str) {
    let (n, a) = call.expect("a tool call");
    assert_eq!(n, name);
    assert_eq!(to_serde(&a), json(args));
}

#[test]
fn extracts_tool_call_from_mixed_content() {
    let content = "I'll save the note for you.\n\n{\"tool\":\"write_file\",\"args\":{\"path\":\"note.md\",\"content\":\"hello\"}}\n\nDone.";
    let tool_call = extract_embedded_tool_call(content);
    assert_call(tool_call, "write_file", r#"{"path": "note.md", "content": "hello"}"#);
}

#[test]
fn ignores_non_tool_json_objects() {
    let content = "Summary: {\"ok\":true}\n{\"tool\":\"exec\",\"args\":{\"cmd\":\"pwd\"}}";
    let tool_call = extract_embedded_tool_call(content);
    assert_call(tool_call, "exec", r#"{"cmd": "pwd"}"#);
}

#[test]
fn repairs_tool_call_with_missing_closing_brace() {
    let content = r##"I'll write the note.

{"tool": "write_file", "args": {"path": "note.md", "content": "# Hello World"}"##;
    let tool_call = extract_embedded_tool_call(content);
    assert_call(tool_call, "write_file", r##"{"path": "note.md", "content": "# Hello World"}"##);
}

#[test]
fn extracts_tool_call_from_code_fence() {
    let content = "Here is the tool call:\n\n```json\n{\"tool\": \"write_file\", \"args\": {\"path\": \"note.md\", \"content\": \"hello\"}}\n```\n\nDone.";
    let tool_call = extract_embedded_tool_call(content);
    assert_call(tool_call, "write_file", r#"{"path": "note.md", "content": "hello"}"#);
}

#[test]
fn plain_text_has_no_tool_call() {
    assert_eq!(extract_embedded_tool_call("Just an answer."), None);
    assert_eq!(extract_embedded_tool_call("{\"ok\": true}"), None);
}

#[test]
fn candidates_skip_braces_inside_strings() {
    let text = "a {\"x\": \"}{\"} b {\"y\": {\"z\": 1}} c {unclosed";
    assert_eq!(
        json_object_candidates(text),
        vec!["{\"x\": \"}{\"}", "{\"y\": {\"z\": 1}}", "{unclosed"]
    );
    assert_eq!(json_object_candidates("} {\"a\\\"}\": 1}"), vec!["{\"a\\\"}\": 1}"]);
}

#[test]
fn fenced_blocks_are_trimmed_and_nonempty() {
    let text = "```rust\n  fn main() {}  \n```\ntext\n```\n\n```\n```\nunclosed";
    assert_eq!(extract_fenced_code_blocks(text), vec!["fn main() {}"]);
    assert_eq!(extract_fenced_code_blocks("```{\"a\": 1}```"), vec!["{\"a\": 1}"]);
}

#[test]
fn candidate_order() {
    let text = "x ```\n{\"a\":1}\n``` {\"b\":2}";
    assert_eq!(
        tool_call_candidates(text),
        vec![text, "{\"a\":1}", "{\"a\":1}", "{\"a\":1}", "{\"b\":2}"]
    );
}

#[test]
fn parsing_names_the_tool_and_its_arguments() {
    assert_call(try_parse_tool_call("{\"tool\": \"exec\"}"), "exec", "null");
    assert_eq!(try_parse_tool_call("{\"tool\": 3}"), None);
    assert_eq!(try_parse_tool_call("not json"), None);
    assert_call(parse_tool_call_value("{\"tool\": \"a\", \"args\": {\"b\": {\"c\": 1"), "a", "{\"b\": {\"c\": 1}}");
    assert_eq!(parse_tool_call_value("{\"tool\": \"a\", \"args\": {\"b\": {\"c\": {\"d\": 1"), None);
}

fn trace(name: &str, args: &str, result: &str) -> ToolCallTrace {
    ToolCallTrace { name: name.to_string(), args: args.to_string(), call_id: None, result: result.to_string() }
}

fn kinds(steps: &[ExecutionStep]) -> Vec<String> {
    steps.iter().map(|s| s.kind.clone()).collect()
}

#[test]
fn loop_records_a_successful_run() {
    let lp = DefaultAgentLoop;
    let mut steps = Vec::new();
    let mut state = lp.start_run("session-a", &mut steps);
    assert_eq!(steps[0].detail, "Starting run for session `session-a`");
    assert_eq!(lp.begin_iteration(5, &mut state, &mut steps), None);
    assert_eq!(steps[1].detail, "Iteration 1 entered Understand");
    let directive = lp.directive_after_step(
        Ok(StepOutcome::Continue {
            tool_names: vec!["exec".to_string()],
            tool_traces: vec![trace("exec", "{\"cmd\":\"pwd\"}", "stdout: /tmp")],
        }),
        0,
        1,
    );
    assert!(matches!(lp.apply_directive(&mut state, &mut steps, directive), LoopAction::Continue));
    assert_eq!(state.phase, LoopPhase::Observe);
    assert_eq!(state.budget.tool_calls, 1);
    assert_eq!(steps[2].detail, "Calling tool `exec` with args {\"cmd\":\"pwd\"}");
    assert_eq!(steps[3].detail, "Tool `exec` returned stdout: /tmp");
    assert_eq!(steps[4].detail, "Executed tool(s): exec. Advancing to Observe");
    assert_eq!(lp.begin_iteration(5, &mut state, &mut steps), None);
    let directive = lp.directive_after_step(Ok(StepOutcome::Final("done".to_string())), 1, 1);
    match lp.apply_directive(&mut state, &mut steps, directive) {
        LoopAction::Succeed { content } => assert_eq!(content, "done"),
        _ => panic!("expected success"),
    }
    assert_eq!(state.phase, LoopPhase::Finalize);
    assert_eq!(
        kinds(&steps),
        vec!["start", "iteration", "tool_call", "tool_result", "continue", "iteration", "final"]
    );
    for (i, step) in steps.iter().enumerate() {
        assert_eq!(step.index, i + 1);
    }
    assert_eq!(steps[6].phase, "Finalize");
    assert_eq!(steps[5].detail, "Iteration 2 entered Observe");
}

#[test]
fn loop_gives_up_after_three_failed_turns() {
    let lp = DefaultAgentLoop;
    let mut steps = Vec::new();
    let mut state = lp.start_run("s", &mut steps);
    for attempt in 1..=3 {
        assert_eq!(lp.begin_iteration(10, &mut state, &mut steps), None);
        let directive = lp.directive_after_step(Err("Provider error: missing response".to_string()), 0, 0);
        let action = lp.apply_directive(&mut state, &mut steps, directive);
        if attempt < 3 {
            match action {
                LoopAction::Recover { message } => {
                    assert_eq!(message, "Recovering from error: Provider error: missing response")
                }
                _ => panic!("expected recovery"),
            }
        } else {
            match action {
                LoopAction::Fail { content } => {
                    assert_eq!(content, "LLM error: Provider error: missing response")
                }
                _ => panic!("expected failure"),
            }
        }
    }
    assert_eq!(state.budget.retries, 3);
    assert_eq!(state.last_error.as_deref(), Some("Provider error: missing response"));
    assert_eq!(steps.last().unwrap().kind, "failed");
    assert_eq!(steps.last().unwrap().phase, "Recover");
}

#[test]
fn loop_stops_when_the_budget_is_spent() {
    let lp = DefaultAgentLoop;
    let mut steps = Vec::new();
    let mut state = lp.start_run("s", &mut steps);
    assert_eq!(lp.begin_iteration(1, &mut state, &mut steps), None);
    assert_eq!(lp.begin_iteration(1, &mut state, &mut steps), Some("Max iterations reached.".to_string()));
    assert_eq!(state.budget.iterations, 1);
    assert_eq!(steps.last().unwrap().kind, "stop");
    let mut fresh = ExecutionState::default();
    fresh.budget.llm_calls = 4;
    assert_eq!(lp.should_stop(4, &fresh), Some("LLM call budget exhausted.".to_string()));
    assert_eq!(lp.max_retries(), 2);
}

#[test]
fn finalize_phase_ends_without_a_turn() {
    let lp = DefaultAgentLoop;
    match lp.directive_without_step(LoopPhase::Finalize) {
        Some(LoopDirective::Final(c)) => assert_eq!(c, "Done."),
        _ => panic!("expected a final directive"),
    }
    assert!(lp.directive_without_step(LoopPhase::Act).is_none());
    let result = lp.init_failure("disk full".to_string());
    assert_eq!(result.content, "disk full");
    assert_eq!(result.steps[0].detail, "Failed to initialize session: disk full");
    assert_eq!(result.steps[0].kind, "error");
}

#[test]
fn steps_are_numbered_in_order() {
    let mut steps = Vec::new();
    push_step(&mut steps, LoopPhase::Plan, "a", "x".to_string());
    push_step(&mut steps, LoopPhase::Act, "b", "y".to_string());
    assert_eq!(steps[1].index, 2);
    assert_eq!(steps[1].phase, "Act");
}

#[test]
fn default_definition() {
    let d = AgentDefinition::default();
    assert_eq!(d.name, "Personal Assistant");
    assert_eq!(d.system_prompt_preamble, "You are a helpful Personal Assistant agent.");
    assert_eq!(d.model, "");
    assert_eq!(d.max_iterations, 20);
}

#[test]
fn candidates_end_at_their_balancing_brace() {
    assert_eq!(json_object_candidates("a {\"x\":\"}\"} b {c"), vec!["{\"x\":\"}\"}", "{c"]);
    assert_eq!(json_object_candidates("{{a}{b}} {\"{\"}"), vec!["{{a}{b}}", "{\"{\"}"]);
}

#[test]
fn a_run_whose_turns_all_go_on_makes_exactly_max_calls() {
    let lp = DefaultAgentLoop;
    for max in 0..4usize {
        let mut steps = Vec::new();
        let mut state = lp.start_run("s", &mut steps);
        let mut calls = 0usize;
        loop {
            match lp.begin_iteration(max, &mut state, &mut steps) {
                Some(reason) => {
                    assert_eq!(reason, "Max iterations reached.");
                    break;
                }
                None => {
                    calls += 1;
                    let directive = LoopDirective::Continue {
                        next_phase: LoopPhase::Act,
                        tool_calls_made: 1,
                        tool_names: vec!["echo".to_string()],
                        tool_traces: vec![],
                    };
                    assert!(matches!(lp.apply_directive(&mut state, &mut steps, directive), LoopAction::Continue));
                }
            }
        }
        assert_eq!(calls, max);
        assert_eq!(state.budget.llm_calls, max);
        assert_eq!(steps.last().unwrap().kind, "stop");
    }
}
