use enki::workflow::graph::find_cycle;
use enki::workflow::persistence::WorkflowWorkspace;
use enki::workflow::rules::{
    action_effect, attempt_session_id, failure_prompt, failure_reason, intervention_action,
    intervention_id, key_sources, normalize_path, parse_condition, parse_literal, path_segments,
    string_truthy, template_pieces, Condition, InterventionAction, Literal, TemplatePiece,
};
use enki::workflow::schedule::{
    edge_is_active, effective_failure_policy, effective_retry_policy, failure_decision,
    finalize_status, index_edges, node_status_after_failure, output_key_for, ready_nodes,
    skip_unreachable, FailureDecision,
};
use enki::workflow::types::{
    NodeStatus, RetryPolicy, TaskDefinition, TaskTarget, WorkflowDefinition,
    WorkflowEdgeDefinition, WorkflowEdgeTransition, WorkflowFailurePolicy, WorkflowNodeDefinition,
    WorkflowNodeKind, WorkflowStatus,
};
use enki::workflow::validate::{validate_workflow, validation_message, WorkflowValidationError};

fn task_node(id: &str, task_id: &str) -> WorkflowNodeDefinition {
    WorkflowNodeDefinition {
        id: id.to_string(),
        kind: WorkflowNodeKind::Task { task_id: Some(task_id.to_string()), task: None },
        output_key: None,
        retry_policy: None,
        failure_policy: None,
    }
}

fn node(id: &str, kind: WorkflowNodeKind) -> WorkflowNodeDefinition {
    WorkflowNodeDefinition { id: id.to_string(), kind, output_key: None, retry_policy: None, failure_policy: None }
}

fn edge(from: &str, to: &str, transition: WorkflowEdgeTransition) -> WorkflowEdgeDefinition {
    WorkflowEdgeDefinition { from: from.to_string(), to: to.to_string(), transition }
}

fn workflow(nodes: Vec<WorkflowNodeDefinition>, edges: Vec<WorkflowEdgeDefinition>) -> WorkflowDefinition {
    WorkflowDefinition {
        id: "flow".to_string(),
        name: "Flow".to_string(),
        nodes,
        edges,
        retry_policy: None,
        failure_policy: None,
    }
}

fn inline_task(target: TaskTarget) -> TaskDefinition {
    TaskDefinition {
        id: "inline".to_string(),
        target,
        prompt: "Do it".to_string(),
        input_bindings: vec![],
        input_transform: None,
        output_transform: None,
        output_key: None,
        retry_policy: None,
        failure_policy: None,
    }
}

fn tasks() -> Vec<String> {
    vec!["research".to_string(), "write".to_string()]
}

#[test]
fn linear_workflow_validates() {
    let wf = workflow(
        vec![task_node("a", "research"), task_node("b", "write")],
        vec![edge("a", "b", WorkflowEdgeTransition::OnSuccess)],
    );
    assert_eq!(validate_workflow(&wf, &tasks(), &[]), Ok(()));
}

#[test]
fn cycles_are_rejected_at_a_node_on_the_cycle() {
    let wf = workflow(
        vec![task_node("a", "research"), task_node("b", "write"), task_node("c", "write")],
        vec![
            edge("a", "b", WorkflowEdgeTransition::Always),
            edge("b", "c", WorkflowEdgeTransition::Always),
            edge("c", "b", WorkflowEdgeTransition::Always),
        ],
    );
    match validate_workflow(&wf, &tasks(), &[]) {
        Err(WorkflowValidationError::Cycle { node }) => assert_eq!(node, 1),
        other => panic!("unexpected {:?}", other),
    }
    assert_eq!(find_cycle(&vec![vec![1], vec![0]]), Err(0));
    assert_eq!(find_cycle(&vec![vec![], vec![2], vec![1]]), Err(1));
    assert_eq!(find_cycle(&vec![vec![1], vec![]]), Ok(()));
}

#[test]
fn structural_errors_come_in_checking_order() {
    let dup = workflow(vec![task_node("a", "research"), task_node("a", "write")], vec![]);
    assert_eq!(validate_workflow(&dup, &tasks(), &[]), Err(WorkflowValidationError::DuplicateNode { node: 1 }));
    let unknown = workflow(vec![task_node("a", "deploy")], vec![]);
    assert_eq!(validate_workflow(&unknown, &tasks(), &[]), Err(WorkflowValidationError::UnknownTask { node: 0 }));
    let missing = workflow(vec![node("a", WorkflowNodeKind::Task { task_id: None, task: None })], vec![]);
    assert_eq!(validate_workflow(&missing, &tasks(), &[]), Err(WorkflowValidationError::MissingTask { node: 0 }));
    let empty_agent = workflow(
        vec![node("a", WorkflowNodeKind::Task { task_id: None, task: Some(inline_task(TaskTarget::AgentId("  ".into()))) })],
        vec![],
    );
    assert_eq!(
        validate_workflow(&empty_agent, &tasks(), &[]),
        Err(WorkflowValidationError::EmptyTaskAgent { node: 0 })
    );
    let empty_caps = workflow(
        vec![node("a", WorkflowNodeKind::Task { task_id: None, task: Some(inline_task(TaskTarget::Capabilities(vec![]))) })],
        vec![],
    );
    assert_eq!(
        validate_workflow(&empty_caps, &tasks(), &[]),
        Err(WorkflowValidationError::EmptyTaskCapabilities { node: 0 })
    );
    let both = workflow(
        vec![node(
            "a",
            WorkflowNodeKind::Task {
                task_id: Some("research".into()),
                task: Some(inline_task(TaskTarget::AgentId("x".into()))),
            },
        )],
        vec![],
    );
    assert_eq!(validate_workflow(&both, &tasks(), &[]), Err(WorkflowValidationError::TaskAndInlineTask { node: 0 }));
    let cond = workflow(vec![node("d", WorkflowNodeKind::Decision { condition: " ".into() })], vec![]);
    assert_eq!(validate_workflow(&cond, &tasks(), &[]), Err(WorkflowValidationError::EmptyCondition { node: 0 }));
    let gate = workflow(vec![node("h", WorkflowNodeKind::HumanGate { prompt: "".into() })], vec![]);
    assert_eq!(validate_workflow(&gate, &tasks(), &[]), Err(WorkflowValidationError::EmptyPrompt { node: 0 }));
    let tr = workflow(
        vec![node("t", WorkflowNodeKind::Transform { transform_id: "upper".into(), input_key: None })],
        vec![],
    );
    assert_eq!(validate_workflow(&tr, &tasks(), &[]), Err(WorkflowValidationError::UnknownTransform { node: 0 }));
    assert_eq!(validate_workflow(&tr, &tasks(), &["upper".to_string()]), Ok(()));
    let bad_edge = workflow(vec![task_node("a", "research")], vec![edge("a", "zz", WorkflowEdgeTransition::Always)]);
    assert_eq!(validate_workflow(&bad_edge, &tasks(), &[]), Err(WorkflowValidationError::UnknownEdgeNode { edge: 0 }));
    let join = workflow(vec![node("j", WorkflowNodeKind::Join)], vec![]);
    assert_eq!(validate_workflow(&join, &tasks(), &[]), Err(WorkflowValidationError::JoinWithoutIncoming { node: 0 }));
}

#[test]
fn sources_start_and_successors_follow_their_edges() {
    let wf = workflow(
        vec![task_node("a", "research"), task_node("b", "write"), task_node("c", "write")],
        vec![
            edge("a", "b", WorkflowEdgeTransition::OnSuccess),
            edge("a", "c", WorkflowEdgeTransition::OnFailure),
        ],
    );
    let ix = index_edges(&wf).unwrap();
    let conds = vec![false, false];
    let start = vec![NodeStatus::Pending, NodeStatus::Pending, NodeStatus::Pending];
    assert_eq!(ready_nodes(&wf, &ix, &start, &conds), vec![0]);
    let mut after = vec![NodeStatus::Completed, NodeStatus::Pending, NodeStatus::Pending];
    assert_eq!(ready_nodes(&wf, &ix, &after, &conds), vec![1]);
    let skipped = skip_unreachable(&wf, &ix, &mut after, &conds);
    assert_eq!(skipped, vec![2]);
    assert_eq!(after, vec![NodeStatus::Completed, NodeStatus::Pending, NodeStatus::Skipped]);
    let bad = workflow(vec![task_node("a", "research")], vec![edge("a", "x", WorkflowEdgeTransition::Always)]);
    assert!(index_edges(&bad).is_none());
}

#[test]
fn edges_fire_by_their_transition() {
    assert!(edge_is_active(&WorkflowEdgeTransition::Always, NodeStatus::Skipped, false));
    assert!(!edge_is_active(&WorkflowEdgeTransition::Always, NodeStatus::Running, true));
    assert!(edge_is_active(&WorkflowEdgeTransition::OnFailure, NodeStatus::Failed, false));
    assert!(!edge_is_active(&WorkflowEdgeTransition::OnSuccess, NodeStatus::Failed, true));
    assert!(edge_is_active(&WorkflowEdgeTransition::Condition("x".into()), NodeStatus::Completed, true));
    assert!(!edge_is_active(&WorkflowEdgeTransition::Condition("x".into()), NodeStatus::Completed, false));
}

#[test]
fn failures_retry_then_follow_the_policy() {
    let retry = RetryPolicy { max_attempts: 3 };
    assert_eq!(failure_decision(1, retry, WorkflowFailurePolicy::FailWorkflow), FailureDecision::Retry);
    assert_eq!(failure_decision(3, retry, WorkflowFailurePolicy::FailWorkflow), FailureDecision::FailWorkflow);
    assert_eq!(failure_decision(3, retry, WorkflowFailurePolicy::ContinueBestEffort), FailureDecision::MarkFailed);
    assert_eq!(failure_decision(3, retry, WorkflowFailurePolicy::PauseForIntervention), FailureDecision::Pause);
    assert_eq!(node_status_after_failure(FailureDecision::Retry), NodeStatus::Pending);
    assert_eq!(node_status_after_failure(FailureDecision::Pause), NodeStatus::Paused);
    assert_eq!(finalize_status(true, 2), WorkflowStatus::Paused);
    assert_eq!(finalize_status(false, 0), WorkflowStatus::Completed);
    assert_eq!(finalize_status(false, 1), WorkflowStatus::CompletedWithFailures);
}

#[test]
fn policies_and_keys_come_from_the_nearest_level() {
    let mut wf = workflow(vec![task_node("a", "research")], vec![]);
    let mut task = inline_task(TaskTarget::AgentId("x".into()));
    let n = wf.nodes[0].clone();
    assert_eq!(effective_retry_policy(&wf, &n, None), RetryPolicy { max_attempts: 1 });
    assert_eq!(effective_failure_policy(&wf, &n, None), WorkflowFailurePolicy::ContinueBestEffort);
    wf.retry_policy = Some(RetryPolicy { max_attempts: 4 });
    task.failure_policy = Some(WorkflowFailurePolicy::FailWorkflow);
    assert_eq!(effective_retry_policy(&wf, &n, Some(&task)), RetryPolicy { max_attempts: 4 });
    assert_eq!(effective_failure_policy(&wf, &n, Some(&task)), WorkflowFailurePolicy::FailWorkflow);
    assert_eq!(output_key_for(&n, None), "a");
    task.output_key = Some("research_output".into());
    assert_eq!(output_key_for(&n, Some(&task)), "research_output");
}

#[test]
fn run_files_live_under_the_run_directory() {
    let ws = WorkflowWorkspace::new("/home/u");
    assert_eq!(ws.root_dir(), "/home/u/.atomiagent/workflows");
    assert_eq!(ws.run_dir("r1"), "/home/u/.atomiagent/workflows/runs/r1");
    assert_eq!(ws.state_file("r1"), "/home/u/.atomiagent/workflows/runs/r1/state.json");
    assert_eq!(ws.snapshot_file("r1"), "/home/u/.atomiagent/workflows/runs/r1/workflow.json");
    assert_eq!(ws.events_file("r1"), "/home/u/.atomiagent/workflows/runs/r1/events.jsonl");
    assert_eq!(ws.interventions_file("r1"), "/home/u/.atomiagent/workflows/runs/r1/interventions.json");
    assert_eq!(ws.task_workspace("r1", "n"), "/home/u/.atomiagent/workflows/runs/r1/tasks/n");
}

#[test]
fn answers_are_read_loosely() {
    assert!(string_truthy("yes"));
    assert!(string_truthy(" anything "));
    assert!(!string_truthy("  No "));
    assert!(!string_truthy("FALSE"));
    assert!(!string_truthy("0"));
    assert!(!string_truthy("   "));
    assert_eq!(intervention_action(Some(" Retry\n")), InterventionAction::Retry);
    assert_eq!(intervention_action(Some("SKIP")), InterventionAction::Skip);
    assert_eq!(intervention_action(Some("continue")), InterventionAction::Continue);
    assert_eq!(intervention_action(Some("whatever")), InterventionAction::Fail);
    assert_eq!(intervention_action(None), InterventionAction::Fail);
    assert_eq!(action_effect(InterventionAction::Retry), (NodeStatus::Pending, WorkflowStatus::Running, false));
    assert_eq!(action_effect(InterventionAction::Fail), (NodeStatus::Failed, WorkflowStatus::Failed, true));
}

#[test]
fn run_names_are_exact() {
    assert_eq!(attempt_session_id("run-1", "audit", 2), "wf-run-1-audit-attempt-2");
    assert_eq!(
        failure_prompt("audit", 3),
        "Node 'audit' failed after 3 attempt(s). Reply with retry, skip, continue, or fail."
    );
    assert_eq!(failure_reason("boom"), "step_failure:boom");
    assert_eq!(intervention_id(1234), "int-1234");
}

#[test]
fn paths_and_keys_split_as_written() {
    assert_eq!(normalize_path("context.approval.approved"), "approval.approved");
    assert_eq!(normalize_path("approval"), "approval");
    assert_eq!(path_segments("a.b..c").unwrap(), vec!["a", "b", "", "c"]);
    assert!(path_segments("").is_none());
    assert_eq!(key_sources("input.topic"), (Some("topic".to_string()), "input.topic".to_string()));
    assert_eq!(key_sources("context.x"), (None, "x".to_string()));
}

#[test]
fn conditions_split_at_their_operator() {
    match parse_condition("  context.approval.approved == true ") {
        Condition::Equals { path, literal } => {
            assert_eq!(path, "approval.approved");
            assert_eq!(literal, "true");
        }
        _ => panic!("expected equality"),
    }
    match parse_condition("status != 'done'") {
        Condition::NotEquals { path, literal } => {
            assert_eq!(path, "status");
            assert_eq!(literal, "'done'");
        }
        _ => panic!("expected inequality"),
    }
    match parse_condition("! context.flag") {
        Condition::Negated { path } => assert_eq!(path, "flag"),
        _ => panic!("expected negation"),
    }
    match parse_condition("ready") {
        Condition::Truthy { path } => assert_eq!(path, "ready"),
        _ => panic!("expected a path"),
    }
    assert!(matches!(parse_literal(" 'done' "), Literal::Text(t) if t == "done"));
    assert!(matches!(parse_literal("TRUE"), Literal::Bool(true)));
    assert!(matches!(parse_literal("false"), Literal::Bool(false)));
    assert!(matches!(parse_literal("Null"), Literal::Null));
    assert!(matches!(parse_literal(" 42 "), Literal::Other(t) if t == "42"));
}

#[test]
fn templates_split_into_text_and_keys() {
    let pieces = template_pieces("Hi {{ name }}, see {{input.topic}} {{ open");
    let rendered: Vec<String> = pieces
        .iter()
        .map(|p| match p {
            TemplatePiece::Text(t) => format!("T[{}]", t),
            TemplatePiece::Key(k) => format!("K[{}]", k),
        })
        .collect();
    assert_eq!(rendered, vec!["T[Hi ]", "K[name]", "T[, see ]", "K[input.topic]", "T[ ]", "T[{{ open]"]);
}

#[test]
fn runs_and_tasks_get_separate_directories() {
    let ws = WorkflowWorkspace::new("/home/u/");
    assert_eq!(ws.run_dir("run-1"), "/home/u/.atomiagent/workflows/runs/run-1");
    assert_ne!(ws.run_dir("run-1"), ws.run_dir("run-2"));
    assert_ne!(ws.task_workspace("run-1", "draft"), ws.task_workspace("run-1", "audit"));
    assert_eq!(ws.task_workspace("run-1", "draft"), "/home/u/.atomiagent/workflows/runs/run-1/tasks/draft");
}

#[test]
fn validation_errors_read_as_messages() {
    let cond = |id: &str| node(id, WorkflowNodeKind::Decision { condition: "x".to_string() });
    let w = workflow(
        vec![cond("a"), cond("b")],
        vec![edge("a", "b", WorkflowEdgeTransition::Always), edge("b", "a", WorkflowEdgeTransition::Always)],
    );
    let e = validate_workflow(&w, &[], &[]).err().unwrap();
    assert_eq!(validation_message(&w, e), "Workflow graph contains a cycle at node 'a'.");
    let w = workflow(vec![cond("a"), cond("a")], vec![]);
    let e = validate_workflow(&w, &[], &[]).err().unwrap();
    assert_eq!(validation_message(&w, e), "Workflow 'flow' has duplicate node 'a'.");
    let w = workflow(vec![cond("a")], vec![edge("a", "z", WorkflowEdgeTransition::Always)]);
    let e = validate_workflow(&w, &[], &[]).err().unwrap();
    assert_eq!(validation_message(&w, e), "Workflow 'flow' edge 'a' -> 'z' references an unknown node.");
    let w = workflow(vec![task_node("t", "nope")], vec![]);
    let e = validate_workflow(&w, &[], &[]).err().unwrap();
    assert_eq!(validation_message(&w, e), "Workflow 'flow' references unknown task 'nope'.");
    let w = workflow(vec![node("j", WorkflowNodeKind::Join)], vec![]);
    let e = validate_workflow(&w, &[], &[]).err().unwrap();
    assert_eq!(validation_message(&w, e), "Workflow 'flow' join node 'j' must have at least one incoming edge.");
}
