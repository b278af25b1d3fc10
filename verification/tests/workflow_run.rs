use enki::json::JsonValue;
use enki::workflow::run::{
    apply_resolved_interventions, begin_run, collect_ready_nodes, complete_node, decision_output, drive_round,
    DriveStep,
    extract_content, finalize_if_quiescent, gate_output, handle_node_failure, has_pending_intervention,
    human_gate, join_output, list_pending_interventions, new_run_state, paused_failure_events,
    reconcile_skipped_nodes, resolve_task, start_node, submit_intervention, task_fallback_output,
    task_input, transform_input, validate_task,
};
use enki::workflow::schedule::index_edges;
use enki::workflow::types::{
    NodeStatus, RetryPolicy, TaskDefinition, TaskTarget, WorkflowDefinition, WorkflowEdgeDefinition,
    WorkflowEdgeTransition, WorkflowEvent, WorkflowFailurePolicy, WorkflowNodeDefinition, WorkflowNodeKind,
    WorkflowStatus,
};

fn task(id: &str) -> TaskDefinition {
    TaskDefinition {
        id: id.to_string(),
        target: TaskTarget::AgentId("researcher".to_string()),
        prompt: "Research {{input.topic}}".to_string(),
        input_bindings: vec![],
        input_transform: None,
        output_transform: None,
        output_key: Some(format!("{id}_output")),
        retry_policy: None,
        failure_policy: None,
    }
}

fn node(id: &str, kind: WorkflowNodeKind) -> WorkflowNodeDefinition {
    WorkflowNodeDefinition { id: id.to_string(), kind, output_key: None, retry_policy: None, failure_policy: None }
}

fn task_node(id: &str, task_id: &str) -> WorkflowNodeDefinition {
    node(id, WorkflowNodeKind::Task { task_id: Some(task_id.to_string()), task: None })
}

fn edge(from: &str, to: &str, t: WorkflowEdgeTransition) -> WorkflowEdgeDefinition {
    WorkflowEdgeDefinition { from: from.to_string(), to: to.to_string(), transition: t }
}

fn flow(nodes: Vec<WorkflowNodeDefinition>, edges: Vec<WorkflowEdgeDefinition>) -> WorkflowDefinition {
    WorkflowDefinition { id: "flow".into(), name: "Flow".into(), nodes, edges, retry_policy: None, failure_policy: None }
}

fn topic_input() -> JsonValue {
    JsonValue::Object(vec![("topic".to_string(), JsonValue::String("runtime".to_string()))])
}

fn text_at<'a>(v: &'a JsonValue, key: &str) -> Option<&'a JsonValue> {
    match v {
        JsonValue::Object(es) => es.iter().find(|(k, _)| k == key).map(|(_, v)| v),
        _ => None,
    }
}

#[test]
fn linear_run_completes_and_keeps_outputs() {
    let wf = flow(vec![task_node("research", "research")], vec![]);
    let tasks = vec![task("research")];
    let mut st = new_run_state(&wf, &tasks, "wf-1".into(), topic_input(), 10).ok().unwrap();
    assert_eq!(st.status, WorkflowStatus::Pending);
    assert_eq!(st.node_states[0].output_key, "research_output");
    assert!(matches!(begin_run(&mut st, "flow"), Some(WorkflowEvent::WorkflowStarted { .. })));
    assert!(begin_run(&mut st, "flow").is_none());
    let ix = index_edges(&wf).unwrap();
    assert_eq!(collect_ready_nodes(&wf, &ix, &st, &[]), vec![0]);
    let (attempt, ev) = start_node(&wf, &ix, &tasks, &mut st, 0, &[], 11).ok().unwrap();
    assert_eq!(attempt, 1);
    assert!(matches!(ev, WorkflowEvent::NodeStarted { attempt: 1, .. }));
    assert_eq!(st.node_states[0].session_id.as_deref(), Some("wf-wf-1-research-attempt-1"));
    let input = task_input(&tasks[0], &st);
    assert!(matches!(text_at(&input, "topic"), Some(JsonValue::String(s)) if s == "runtime"));
    let output = task_fallback_output("Handle runtime".into(), "researcher".into(), "s".into(), 1);
    let ev = complete_node(&wf, &mut st, 0, output, 12);
    assert!(matches!(ev, WorkflowEvent::NodeCompleted { ref output_key, .. } if output_key == "research_output"));
    assert_eq!(st.node_states[0].status, NodeStatus::Completed);
    assert_eq!(st.context.len(), 2);
    assert!(matches!(text_at(&st.context[1].1, "content"), Some(JsonValue::String(s)) if s == "Handle runtime"));
    assert!(collect_ready_nodes(&wf, &ix, &st, &[]).is_empty());
    let ev = finalize_if_quiescent(&mut st);
    assert!(matches!(ev, WorkflowEvent::WorkflowCompleted { status: WorkflowStatus::Completed, .. }));
    assert_eq!(st.status, WorkflowStatus::Completed);
}

#[test]
fn unknown_tasks_and_bad_targets_are_errors() {
    let wf = flow(vec![task_node("a", "missing")], vec![]);
    assert_eq!(new_run_state(&wf, &[], "r".into(), JsonValue::Null, 0).err().unwrap(), "Unknown task 'missing'.");
    let tasks = vec![task("t")];
    assert!(resolve_task(&wf.nodes[0], &tasks).is_err());
    let gate = node("g", WorkflowNodeKind::HumanGate { prompt: "ok?".into() });
    assert!(resolve_task(&gate, &tasks).ok().unwrap().is_none());
    let mut t = task("t");
    t.target = TaskTarget::AgentId("  ".into());
    assert_eq!(validate_task(&t).err().unwrap(), "Task target agent_id cannot be empty.");
    t.target = TaskTarget::Capabilities(vec![]);
    assert_eq!(validate_task(&t).err().unwrap(), "Task target capabilities cannot be empty.");
    t.target = TaskTarget::Capabilities(vec!["x".into()]);
    assert!(validate_task(&t).is_ok());
}

#[test]
fn failures_retry_then_pause_for_help() {
    let mut n = task_node("a", "t");
    n.retry_policy = Some(RetryPolicy { max_attempts: 2 });
    n.failure_policy = Some(WorkflowFailurePolicy::PauseForIntervention);
    let wf = flow(vec![n], vec![]);
    let tasks = vec![task("t")];
    let ix = index_edges(&wf).unwrap();
    let mut st = new_run_state(&wf, &tasks, "r".into(), JsonValue::Null, 0).ok().unwrap();
    begin_run(&mut st, "flow");
    let (attempt, _) = start_node(&wf, &ix, &tasks, &mut st, 0, &[], 1).ok().unwrap();
    let evs = handle_node_failure(&wf, &tasks, &mut st, 0, attempt, "boom".into(), 2).ok().unwrap();
    assert!(matches!(evs[0], WorkflowEvent::NodeRetryScheduled { attempt: 1, .. }));
    assert_eq!(st.node_states[0].status, NodeStatus::Pending);
    assert_eq!(st.node_states[0].last_error.as_deref(), Some("boom"));
    let (attempt, _) = start_node(&wf, &ix, &tasks, &mut st, 0, &[], 3).ok().unwrap();
    assert_eq!(attempt, 2);
    let evs = handle_node_failure(&wf, &tasks, &mut st, 0, attempt, "boom again".into(), 1234).ok().unwrap();
    assert_eq!(st.status, WorkflowStatus::Paused);
    assert_eq!(st.node_states[0].status, NodeStatus::Paused);
    let req = &st.pending_interventions[0];
    assert_eq!(req.id, "int-1234");
    assert_eq!(req.reason, "step_failure:boom again");
    assert_eq!(req.prompt, "Node 'a' failed after 2 attempt(s). Reply with retry, skip, continue, or fail.");
    assert!(matches!(&evs[0], WorkflowEvent::InterventionRequested { intervention_id, .. } if intervention_id == "int-1234"));
    assert!(has_pending_intervention(&st));
    assert_eq!(list_pending_interventions(&st).len(), 1);
    let paused = paused_failure_events(&st, 0, "boom again".into());
    assert_eq!(paused.len(), 2);
    assert_eq!(
        submit_intervention(&mut st, "int-9", Some("skip".into()), 5).err().unwrap(),
        "Intervention 'int-9' not found for run 'r'."
    );
    submit_intervention(&mut st, "int-1234", Some(" Skip ".into()), 6).ok().unwrap();
    assert!(!has_pending_intervention(&st));
    let evs = apply_resolved_interventions(&wf, &mut st, 7).ok().unwrap();
    assert_eq!(evs.len(), 2);
    assert!(matches!(evs[1], WorkflowEvent::NodeSkipped { .. }));
    assert_eq!(st.node_states[0].status, NodeStatus::Skipped);
    assert_eq!(st.status, WorkflowStatus::Running);
    assert!(st.pending_interventions.is_empty());
}

#[test]
fn fail_policy_ends_the_run() {
    let mut n = task_node("a", "t");
    n.failure_policy = Some(WorkflowFailurePolicy::FailWorkflow);
    let wf = flow(vec![n], vec![]);
    let tasks = vec![task("t")];
    let mut st = new_run_state(&wf, &tasks, "r".into(), JsonValue::Null, 0).ok().unwrap();
    let evs = handle_node_failure(&wf, &tasks, &mut st, 0, 1, "x".into(), 1).ok().unwrap();
    assert_eq!(evs.len(), 2);
    assert_eq!(st.status, WorkflowStatus::Failed);
    assert_eq!(st.failed_nodes, vec!["a".to_string()]);
    let evs = handle_node_failure(&wf, &tasks, &mut st, 0, 1, "x".into(), 1).ok().unwrap();
    assert_eq!(evs.len(), 2);
    assert_eq!(st.failed_nodes, vec!["a".to_string()]);
}

#[test]
fn human_gate_pauses_and_resumes() {
    let wf = flow(vec![node("approval", WorkflowNodeKind::HumanGate { prompt: "Approve?".into() })], vec![]);
    let ix = index_edges(&wf).unwrap();
    let mut st = new_run_state(&wf, &[], "r".into(), JsonValue::Null, 0).ok().unwrap();
    begin_run(&mut st, "flow");
    start_node(&wf, &ix, &[], &mut st, 0, &[], 1).ok().unwrap();
    let err = human_gate(&wf, &mut st, 0, "Approve?", 42).err().unwrap();
    assert_eq!(err, "Human intervention required");
    assert_eq!(st.status, WorkflowStatus::Paused);
    assert_eq!(st.pending_interventions[0].id, "int-42");
    assert_eq!(st.pending_interventions[0].reason, "human_gate");
    let ev = finalize_if_quiescent(&mut st);
    assert!(matches!(ev, WorkflowEvent::WorkflowPaused { ref reason, .. } if reason == "Waiting for intervention"));
    submit_intervention(&mut st, "int-42", Some("yes".into()), 50).ok().unwrap();
    let evs = apply_resolved_interventions(&wf, &mut st, 51).ok().unwrap();
    assert!(matches!(evs[1], WorkflowEvent::NodeCompleted { ref output_key, .. } if output_key == "approval"));
    assert_eq!(st.node_states[0].status, NodeStatus::Completed);
    let out = &st.context.iter().find(|(k, _)| k == "approval").unwrap().1;
    assert!(matches!(text_at(out, "approved"), Some(JsonValue::Bool(true))));
    assert!(matches!(text_at(out, "response"), Some(JsonValue::String(s)) if s == "yes"));
}

#[test]
fn skipped_branches_and_joins() {
    let wf = flow(
        vec![
            task_node("a", "t"),
            task_node("b", "t"),
            task_node("c", "t"),
            node("j", WorkflowNodeKind::Join),
        ],
        vec![
            edge("a", "b", WorkflowEdgeTransition::OnSuccess),
            edge("a", "c", WorkflowEdgeTransition::OnFailure),
            edge("b", "j", WorkflowEdgeTransition::Always),
            edge("c", "j", WorkflowEdgeTransition::Always),
        ],
    );
    let tasks = vec![task("t")];
    let ix = index_edges(&wf).unwrap();
    let conds = vec![false; 4];
    let mut st = new_run_state(&wf, &tasks, "r".into(), JsonValue::Null, 0).ok().unwrap();
    start_node(&wf, &ix, &tasks, &mut st, 0, &conds, 1).ok().unwrap();
    complete_node(&wf, &mut st, 0, decision_output(true), 2);
    let evs = reconcile_skipped_nodes(&wf, &ix, &mut st, &conds, 3);
    assert_eq!(evs.len(), 1);
    assert!(matches!(&evs[0], WorkflowEvent::NodeSkipped { node_id } if node_id == "c"));
    assert_eq!(st.node_states[2].completed_at, Some(3));
    assert_eq!(collect_ready_nodes(&wf, &ix, &st, &conds), vec![1]);
    start_node(&wf, &ix, &tasks, &mut st, 1, &conds, 4).ok().unwrap();
    complete_node(&wf, &mut st, 1, JsonValue::Null, 5);
    assert_eq!(collect_ready_nodes(&wf, &ix, &st, &conds), vec![3]);
    start_node(&wf, &ix, &tasks, &mut st, 3, &conds, 6).ok().unwrap();
    assert_eq!(st.node_states[3].activated_incoming, vec!["b".to_string(), "c".to_string()]);
    let joined = join_output(&st, 3);
    match text_at(&joined, "joined") {
        Some(JsonValue::Array(items)) => assert_eq!(items.len(), 2),
        _ => panic!("expected the joined list"),
    }
}

#[test]
fn inputs_and_transforms_read_the_context() {
    let mut t = task("t");
    t.input_bindings = vec![("summary".into(), "t_output.content".into()), ("x".into(), "nothing".into())];
    let wf = flow(vec![task_node("a", "t")], vec![]);
    let tasks = vec![t.clone()];
    let mut st = new_run_state(&wf, &tasks, "r".into(), topic_input(), 0).ok().unwrap();
    complete_node(&wf, &mut st, 0, task_fallback_output("sum".into(), "ag".into(), "s".into(), 1), 1);
    let input = task_input(&t, &st);
    assert!(matches!(text_at(&input, "summary"), Some(JsonValue::String(s)) if s == "sum"));
    assert!(matches!(text_at(&input, "x"), Some(JsonValue::Null)));
    assert!(matches!(transform_input(&st, Some("input.topic")), JsonValue::String(s) if s == "runtime"));
    assert!(matches!(transform_input(&st, None), JsonValue::Object(es) if es.len() == 2));
    let extracted = extract_content(task_fallback_output("body".into(), "ag".into(), "s".into(), 3));
    assert!(matches!(extracted, JsonValue::String(s) if s == "body"));
    assert!(matches!(extract_content(JsonValue::Bool(true)), JsonValue::Bool(true)));
    assert!(matches!(text_at(&gate_output("no".into()), "approved"), Some(JsonValue::Bool(false))));
}

#[test]
fn driving_a_run_to_completion() {
    let wf = flow(
        vec![
            task_node("a", "t"),
            task_node("b", "t"),
            task_node("c", "t"),
            node("j", WorkflowNodeKind::Join),
        ],
        vec![
            edge("a", "b", WorkflowEdgeTransition::OnSuccess),
            edge("a", "c", WorkflowEdgeTransition::OnFailure),
            edge("b", "j", WorkflowEdgeTransition::Always),
            edge("c", "j", WorkflowEdgeTransition::Always),
        ],
    );
    let tasks = vec![task("t")];
    let ix = index_edges(&wf).unwrap();
    let conds = vec![false; 4];
    let mut st = new_run_state(&wf, &tasks, "r".into(), JsonValue::Null, 0).ok().unwrap();
    begin_run(&mut st, "flow");

    let (step, events) = drive_round(&wf, &ix, &mut st, &conds, 1);
    assert!(matches!(step, DriveStep::Run(ref v) if v == &vec![0]));
    assert!(events.is_empty());
    start_node(&wf, &ix, &tasks, &mut st, 0, &conds, 2).ok().unwrap();
    complete_node(&wf, &mut st, 0, decision_output(true), 3);

    let (step, events) = drive_round(&wf, &ix, &mut st, &conds, 4);
    assert!(matches!(step, DriveStep::Run(ref v) if v == &vec![1]));
    assert_eq!(events.len(), 1);
    assert!(matches!(&events[0], WorkflowEvent::NodeSkipped { node_id } if node_id == "c"));
    start_node(&wf, &ix, &tasks, &mut st, 1, &conds, 5).ok().unwrap();
    complete_node(&wf, &mut st, 1, JsonValue::Null, 6);

    let (step, _) = drive_round(&wf, &ix, &mut st, &conds, 7);
    assert!(matches!(step, DriveStep::Run(ref v) if v == &vec![3]));
    start_node(&wf, &ix, &tasks, &mut st, 3, &conds, 8).ok().unwrap();
    complete_node(&wf, &mut st, 3, JsonValue::Null, 9);

    let (step, events) = drive_round(&wf, &ix, &mut st, &conds, 10);
    assert!(matches!(step, DriveStep::Stop));
    assert_eq!(events.len(), 1);
    assert!(matches!(&events[0], WorkflowEvent::WorkflowCompleted { status: WorkflowStatus::Completed, .. }));
    assert_eq!(st.status, WorkflowStatus::Completed);

    let (step, events) = drive_round(&wf, &ix, &mut st, &conds, 11);
    assert!(matches!(step, DriveStep::Stop));
    assert!(events.is_empty());
    assert_eq!(st.status, WorkflowStatus::Completed);
}

#[test]
fn answer_for_unknown_node_is_an_error() {
    let wf = flow(vec![node("approval", WorkflowNodeKind::HumanGate { prompt: "Approve?".into() })], vec![]);
    let ix = index_edges(&wf).unwrap();
    let mut st = new_run_state(&wf, &[], "r".into(), JsonValue::Null, 0).ok().unwrap();
    begin_run(&mut st, "flow");
    start_node(&wf, &ix, &[], &mut st, 0, &[], 1).ok().unwrap();
    human_gate(&wf, &mut st, 0, "Approve?", 42).err().unwrap();
    st.pending_interventions[0].node_id = "ghost".to_string();
    submit_intervention(&mut st, "int-42", Some("yes".into()), 50).ok().unwrap();
    let (events, message) = apply_resolved_interventions(&wf, &mut st, 51).err().unwrap();
    assert_eq!(message, "Workflow node 'ghost' not found.");
    assert_eq!(events.len(), 1);
    assert!(matches!(&events[0], WorkflowEvent::InterventionResolved { intervention_id, node_id }
        if intervention_id == "int-42" && node_id == "ghost"));
}

#[test]
fn skip_events_follow_node_order() {
    let wf = flow(
        vec![task_node("a", "t"), task_node("b", "t"), task_node("c", "t")],
        vec![
            edge("a", "b", WorkflowEdgeTransition::OnFailure),
            edge("a", "c", WorkflowEdgeTransition::OnFailure),
        ],
    );
    let tasks = vec![task("t")];
    let ix = index_edges(&wf).unwrap();
    let conds = vec![false; 2];
    let mut st = new_run_state(&wf, &tasks, "r".into(), JsonValue::Null, 0).ok().unwrap();
    start_node(&wf, &ix, &tasks, &mut st, 0, &conds, 1).ok().unwrap();
    complete_node(&wf, &mut st, 0, JsonValue::Null, 2);
    let evs = reconcile_skipped_nodes(&wf, &ix, &mut st, &conds, 3);
    assert_eq!(evs.len(), 2);
    assert!(matches!(&evs[0], WorkflowEvent::NodeSkipped { node_id } if node_id == "b"));
    assert!(matches!(&evs[1], WorkflowEvent::NodeSkipped { node_id } if node_id == "c"));
    assert!(reconcile_skipped_nodes(&wf, &ix, &mut st, &conds, 4).is_empty());
}
