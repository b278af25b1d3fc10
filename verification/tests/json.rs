use enki::commands::workflow::{detailed_text, render_detailed_outputs, render_work_summary};
use enki::json::{summarize_value, JsonValue};
use enki::workflow::context::{
    appends_input, is_truthy, lookup_path, lookup_value, template_source, value_text, with_input_block,
};

fn to_json(v: serde_json::Value) -> JsonValue {
    match v {
        serde_json::Value::Null => JsonValue::Null,
        serde_json::Value::Bool(b) => JsonValue::Bool(b),
        serde_json::Value::Number(n) => JsonValue::Number(n.to_string()),
        serde_json::Value::String(s) => JsonValue::String(s),
        serde_json::Value::Array(items) => JsonValue::Array(items.into_iter().map(to_json).collect()),
        serde_json::Value::Object(map) => {
            JsonValue::Object(map.into_iter().map(|(k, v)| (k, to_json(v))).collect())
        }
    }
}

fn json(text: &str) -> JsonValue {
    to_json(serde_json::from_str(text).unwrap())
}

fn entries(v: JsonValue) -> Vec<(String, JsonValue)> {
    match v {
        JsonValue::Object(es) => es,
        _ => panic!("not an object"),
    }
}

#[test]
fn renders_work_summary_from_context() {
    let summary = render_work_summary(&json(
        r#"{
            "input": { "topic": "demo" },
            "result": { "content": "Completed the requested workflow task successfully." },
            "decision": { "matched": true }
        }"#,
    ));

    assert!(summary.iter().any(|line| line.contains("Input:")));
    assert!(summary.iter().any(|line| line.contains("Outputs:")));
    assert!(summary
        .iter()
        .any(|line| { line.contains("result: Completed the requested workflow task successfully.") }));
    assert!(summary.iter().any(|line| line.contains("decision: matched=true")));
}

#[test]
fn renders_detailed_outputs_without_truncating_content() {
    let detailed = render_detailed_outputs(&json(
        r#"{
            "input": { "topic": "demo" },
            "result": {
                "content": "Line one of the workflow output.\nLine two keeps going with more detail that should remain visible in full."
            }
        }"#,
    ));

    assert_eq!(detailed.len(), 1);
    assert_eq!(detailed[0].0, "result");
    let text = detailed[0].1.clone().unwrap();
    assert!(text.contains("Line one of the workflow output."));
    assert!(text.contains("Line two keeps going with more detail"));
}

#[test]
fn work_summary_lines_are_exact() {
    let lines = render_work_summary(&json(r#"{"input": {"topic": "demo"}, "b": [1, 2, 3, 4, 5], "a": "x"}"#));
    assert_eq!(
        lines,
        vec!["Input: object {topic}", "Outputs:", "- a: x", "- b: [1, 2, 3, 4, ...]"]
    );
    assert_eq!(render_work_summary(&json(r#"{"input": 1}"#)), vec!["Input: 1", "No node outputs yet."]);
    assert_eq!(render_work_summary(&json("[true, null]")), vec!["Context: [true, null]"]);
}

#[test]
fn values_summarize_on_one_line() {
    assert_eq!(summarize_value(&json("2.5")), "2.5");
    assert_eq!(summarize_value(&json(r#""  many   words  ""#)), "many words");
    assert_eq!(summarize_value(&json(r#"{"joined": [1, 2]}"#)), "joined [1, 2]");
    assert_eq!(summarize_value(&json(r#"{"response": "ok", "joined": 1}"#)), "ok");
    assert_eq!(summarize_value(&json(r#"{"a":1,"b":2,"c":3,"d":4,"e":5}"#)), "object {a, b, c, d, ...}");
    assert_eq!(summarize_value(&json("{}")), "object {}");
    let long = "y".repeat(200);
    let summary = summarize_value(&JsonValue::String(long));
    assert_eq!(summary.chars().count(), 160);
    assert!(summary.ends_with("..."));
}

#[test]
fn details_show_text_or_ask_for_json() {
    assert_eq!(detailed_text(&json(r#""  ""#)), Some("<empty>".to_string()));
    assert_eq!(detailed_text(&json(r#"{"content": "  ", "response": " r "}"#)), Some("r".to_string()));
    assert_eq!(detailed_text(&json(r#"{"other": 1}"#)), None);
    assert_eq!(detailed_text(&json("[1]")), None);
    assert_eq!(detailed_text(&json("false")), Some("false".to_string()));
}

#[test]
fn context_paths_walk_through_objects() {
    let ctx = entries(json(r#"{"approval": {"approved": true, "note": {"text": "fine"}}, "n": 0}"#));
    assert!(matches!(lookup_path(&ctx, "approval.approved"), Some(JsonValue::Bool(true))));
    assert!(matches!(lookup_path(&ctx, "approval.note.text"), Some(JsonValue::String(s)) if s == "fine"));
    assert!(lookup_path(&ctx, "approval.missing").is_none());
    assert!(lookup_path(&ctx, "n.x").is_none());
    assert!(lookup_path(&ctx, "").is_none());
    let input = json(r#"{"topic": {"name": "rust"}}"#);
    assert!(matches!(lookup_value(&input, "topic.name"), Some(JsonValue::String(s)) if s == "rust"));
    assert!(lookup_value(&input, "").is_none());
}

#[test]
fn truthiness_follows_json_kinds() {
    assert!(!is_truthy(&json("null")));
    assert!(!is_truthy(&json("0")));
    assert!(!is_truthy(&json("0.0")));
    assert!(!is_truthy(&json("-0.0")));
    assert!(is_truthy(&json("0.5")));
    assert!(is_truthy(&json("-3")));
    assert!(!is_truthy(&json(r#"" No ""#)));
    assert!(is_truthy(&json(r#""yes""#)));
    assert!(!is_truthy(&json("[]")));
    assert!(is_truthy(&json("{\"a\": 1}")));
}

#[test]
fn placeholders_prefer_the_input_then_the_context() {
    let input = json(r#"{"topic": "rust", "n": 3}"#);
    let ctx = entries(json(r#"{"input": {"topic": "ctx"}, "result": {"content": "done"}, "x": null}"#));
    let v = template_source("input.topic", &input, &ctx).unwrap();
    assert_eq!(value_text(v), Some("rust".to_string()));
    let v = template_source("context.result.content", &input, &ctx).unwrap();
    assert_eq!(value_text(v), Some("done".to_string()));
    let v = template_source("input.missing", &input, &ctx);
    assert!(v.is_none());
    assert_eq!(value_text(template_source("x", &input, &ctx).unwrap()), Some(String::new()));
    assert_eq!(value_text(template_source("input.n", &input, &ctx).unwrap()), Some("3".to_string()));
    assert_eq!(value_text(template_source("result", &input, &ctx).unwrap()), None);
}

#[test]
fn input_is_appended_only_without_placeholders() {
    assert!(appends_input("Summarize.", &json(r#"{"a": 1}"#)));
    assert!(!appends_input("About {{ topic }}", &json(r#"{"a": 1}"#)));
    assert!(!appends_input("Summarize.", &json("{}")));
    assert!(!appends_input("Summarize.", &json("null")));
    assert_eq!(with_input_block("Do it", "{}"), "Do it\n\nWorkflow input:\n{}");
    assert_eq!(with_input_block("  ", "1"), "  Workflow input:\n1");
}
