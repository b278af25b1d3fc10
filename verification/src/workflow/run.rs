//! The state of a workflow run and every change a run makes to it: starting,
//! starting and finishing nodes, failures and their policies, human gates
//! and interventions, skipping unreachable nodes, settling, and what each
//! round of driving a run does next. The caller carries the rounds out: it
//! runs tasks and transforms, reads the clock, evaluates edge conditions,
//! records events and saves the state.
use crate::json::{copy_json, field, get_field, same_entries, same_json, JsonValue};
use crate::workflow::context::{context_lookup, lookup_path};
use crate::workflow::rules::{
    action_effect, action_effect_spec, intervention_action, intervention_action_spec, InterventionAction,
    attempt_session_id, attempt_session_spec, failure_prompt, failure_prompt_spec, failure_reason, intervention_id,
};
use crate::text::decimal;
use crate::workflow::schedule::{
    edge_active, edge_is_active, effective_failure_policy, effective_retry_policy, failure_decision,
    status_after_failure,
    is_ready, ready_nodes, run_shape, skip_pass, skip_unreachable, EdgeIndex,
    effective_failure_spec, effective_retry_spec, failure_decision_spec, output_key_for, output_key_spec,
    FailureDecision,
};
use crate::workflow::types::{
    InterventionRequest, InterventionStatus, NodeStatus, RetryPolicy, TaskDefinition, TaskTarget,
    WorkflowDefinition, WorkflowEvent, WorkflowFailurePolicy, WorkflowNodeDefinition, WorkflowNodeKind,
    WorkflowStatus,
};
use crate::text::{cat3, is_blank, str_eq, string_views, trim_seq};
use vstd::prelude::*;

verus! {

/// Where one node stands in a run.
pub struct NodeRunState {
    pub node_id: String,
    pub status: NodeStatus,
    pub attempts: usize,
    pub started_at: Option<u128>,
    pub completed_at: Option<u128>,
    pub last_error: Option<String>,
    pub output_key: String,
    pub output: Option<JsonValue>,
    pub activated_incoming: Vec<String>,
    pub session_id: Option<String>,
}

/// A run: its status, its context (the input under `input`, then each
/// node's output under its key), one state per node of the workflow (in the
/// workflow's node order), the interventions it asked for, and the nodes
/// that failed.
pub struct WorkflowRunState {
    pub workflow_id: String,
    pub run_id: String,
    pub status: WorkflowStatus,
    pub created_at: u128,
    pub updated_at: u128,
    pub input: JsonValue,
    pub context: Vec<(String, JsonValue)>,
    pub node_states: Vec<NodeRunState>,
    pub pending_interventions: Vec<InterventionRequest>,
    pub failed_nodes: Vec<String>,
}


/// No id occurs twice.
pub open spec fn no_duplicates(ids: Seq<Seq<char>>) -> bool {
    forall|i: int, j: int| 0 <= i < j < ids.len() ==> ids[i] != ids[j]
}

/// The state belongs to `wf`: one node state per node, in order, and each
/// failed node listed once.
pub open spec fn run_matches(wf: WorkflowDefinition, st: WorkflowRunState) -> bool {
    &&& st.node_states@.len() == wf.nodes@.len()
    &&& forall|k: int| 0 <= k < wf.nodes@.len() ==> (#[trigger] st.node_states@[k]).node_id@ == wf.node_ids()[k]
    &&& no_duplicates(string_views(st.failed_nodes@))
}

/// The index of the first task with id `id`.
pub open spec fn task_position_from(tasks: Seq<TaskDefinition>, id: Seq<char>, i: int) -> Option<int>
    decreases tasks.len() - i,
{
    if i < 0 || i >= tasks.len() {
        None
    } else if tasks[i].id@ == id {
        Some(i)
    } else {
        task_position_from(tasks, id, i + 1)
    }
}

pub proof fn lemma_task_position_from(tasks: Seq<TaskDefinition>, id: Seq<char>, i: int)
    requires
        0 <= i,
    ensures
        task_position_from(tasks, id, i) matches Some(j) ==> i <= j < tasks.len() && tasks[j].id@ == id,
    decreases tasks.len() - i,
{
    if i < tasks.len() && tasks[i].id@ != id {
        lemma_task_position_from(tasks, id, i + 1);
    }
}

/// The task a node runs: the registered task it names, or its inline task;
/// none for a node of another kind. Naming an unknown task is an error.
pub open spec fn resolve_task_spec(node: WorkflowNodeDefinition, tasks: Seq<TaskDefinition>) -> Result<
    Option<TaskDefinition>,
    Seq<char>,
> {
    match node.kind {
        WorkflowNodeKind::Task { task_id, task } => match (task_id, task) {
            (Some(id), None) => match task_position_from(tasks, id@, 0) {
                Some(i) => Ok(Some(tasks[i])),
                None => Err("Unknown task '"@ + id@ + "'."@),
            },
            (None, Some(t)) => Ok(Some(t)),
            _ => Ok(None),
        },
        _ => Ok(None),
    }
}

pub open spec fn resolved_view(r: Result<Option<&TaskDefinition>, String>) -> Result<Option<TaskDefinition>, Seq<char>> {
    match r {
        Ok(Some(t)) => Ok(Some(*t)),
        Ok(None) => Ok(None),
        Err(e) => Err(e@),
    }
}

pub fn resolve_task<'a>(node: &'a WorkflowNodeDefinition, tasks: &'a [TaskDefinition]) -> (res: Result<
    Option<&'a TaskDefinition>,
    String,
>)
    ensures
        resolved_view(res) == resolve_task_spec(*node, tasks@),
{
    match &node.kind {
        WorkflowNodeKind::Task { task_id, task } => match (task_id, task) {
            (Some(id), None) => {
                let mut i: usize = 0;
                while i < tasks.len()
                    invariant
                        i <= tasks@.len(),
                        node.kind matches WorkflowNodeKind::Task { task_id: Some(tid), task: None } && tid@ == id@,
                        task_position_from(tasks@, id@, 0) == task_position_from(tasks@, id@, i as int),
                    decreases tasks@.len() - i,
                {
                    if str_eq(tasks[i].id.as_str(), id.as_str()) {
                        return Ok(Some(&tasks[i]));
                    }
                    i = i + 1;
                }
                Err(cat3("Unknown task '", id.as_str(), "'."))
            },
            (None, Some(t)) => Ok(Some(t)),
            _ => Ok(None),
        },
        _ => Ok(None),
    }
}

/// A task's target can be used: a non-blank agent id, or some capabilities.
pub fn validate_task(task: &TaskDefinition) -> (res: Result<(), String>)
    ensures
        match task.target {
            TaskTarget::AgentId(a) => if trim_seq(a@).len() == 0 {
                res matches Err(e) && e@ == "Task target agent_id cannot be empty."@
            } else {
                res is Ok
            },
            TaskTarget::Capabilities(c) => if c@.len() == 0 {
                res matches Err(e) && e@ == "Task target capabilities cannot be empty."@
            } else {
                res is Ok
            },
        },
{
    match &task.target {
        TaskTarget::AgentId(agent_id) => if is_blank(agent_id.as_str()) {
            Err("Task target agent_id cannot be empty.".to_owned())
        } else {
            Ok(())
        },
        TaskTarget::Capabilities(capabilities) => if capabilities.len() == 0 {
            Err("Task target capabilities cannot be empty.".to_owned())
        } else {
            Ok(())
        },
    }
}

/// The first node at or after `k` whose task does not resolve.
pub open spec fn first_resolve_error(wf: WorkflowDefinition, tasks: Seq<TaskDefinition>, k: int) -> Option<Seq<char>>
    decreases wf.nodes@.len() - k,
{
    if k < 0 || k >= wf.nodes@.len() {
        None
    } else {
        match resolve_task_spec(wf.nodes@[k], tasks) {
            Err(e) => Some(e),
            Ok(_) => first_resolve_error(wf, tasks, k + 1),
        }
    }
}

/// A node that has not started: pending, no attempts, writing its key.
pub open spec fn fresh_node(n: NodeRunState, node: WorkflowNodeDefinition, tasks: Seq<TaskDefinition>) -> bool {
    &&& n.node_id@ == node.id@
    &&& n.status == NodeStatus::Pending
    &&& n.attempts == 0
    &&& n.started_at is None
    &&& n.completed_at is None
    &&& n.last_error is None
    &&& resolve_task_spec(node, tasks) matches Ok(t) && n.output_key@ == output_key_spec(node, t)
    &&& n.output is None
    &&& n.activated_incoming@.len() == 0
    &&& n.session_id is None
}

/// A new run of `wf` with `input`, made at `now`: pending, its context
/// holding the input, every node fresh. Fails when a node's task does not
/// resolve.
pub fn new_run_state(
    wf: &WorkflowDefinition,
    tasks: &[TaskDefinition],
    run_id: String,
    input: JsonValue,
    now: u128,
) -> (res: Result<WorkflowRunState, String>)
    ensures
        match res {
            Ok(st) => {
                &&& first_resolve_error(*wf, tasks@, 0) is None
                &&& run_matches(*wf, st)
                &&& st.workflow_id@ == wf.id@
                &&& st.run_id == run_id
                &&& st.status == WorkflowStatus::Pending
                &&& st.created_at == now && st.updated_at == now
                &&& st.input == input
                &&& st.context@.len() == 1 && st.context@[0].0@ == "input"@ && same_json(input, st.context@[0].1)
                &&& forall|k: int| 0 <= k < wf.nodes@.len() ==> fresh_node(#[trigger] st.node_states@[k], wf.nodes@[k], tasks@)
                &&& st.pending_interventions@.len() == 0
                &&& st.failed_nodes@.len() == 0
            },
            Err(e) => first_resolve_error(*wf, tasks@, 0) == Some(e@),
        },
{
    let mut node_states: Vec<NodeRunState> = Vec::new();
    let mut k: usize = 0;
    while k < wf.nodes.len()
        invariant
            k <= wf.nodes@.len(),
            node_states@.len() == k,
            first_resolve_error(*wf, tasks@, 0) == first_resolve_error(*wf, tasks@, k as int),
            forall|j: int| 0 <= j < k ==> fresh_node(#[trigger] node_states@[j], wf.nodes@[j], tasks@),
        decreases wf.nodes@.len() - k,
    {
        let node = &wf.nodes[k];
        let task = match resolve_task(node, tasks) {
            Ok(t) => t,
            Err(e) => {
                return Err(e);
            },
        };
        let output_key = output_key_for(node, task);
        proof {
            assert(crate::workflow::schedule::opt_task(task) == match resolve_task_spec(*node, tasks@) {
                Ok(t) => t,
                Err(_) => None,
            });
        }
        node_states.push(
            NodeRunState {
                node_id: node.id.clone(),
                status: NodeStatus::Pending,
                attempts: 0,
                started_at: None,
                completed_at: None,
                last_error: None,
                output_key,
                output: None,
                activated_incoming: Vec::new(),
                session_id: None,
            },
        );
        k = k + 1;
    }
    let copy = copy_json(&input);
    let mut context: Vec<(String, JsonValue)> = Vec::new();
    context.push(("input".to_owned(), copy));
    let st = WorkflowRunState {
        workflow_id: wf.id.clone(),
        run_id,
        status: WorkflowStatus::Pending,
        created_at: now,
        updated_at: now,
        input,
        context,
        node_states,
        pending_interventions: Vec::new(),
        failed_nodes: Vec::new(),
    };
    proof {
        assert(string_views(st.failed_nodes@) =~= Seq::<Seq<char>>::empty());
        assert forall|k: int| 0 <= k < wf.nodes@.len() implies (#[trigger] st.node_states@[k]).node_id@
            == wf.node_ids()[k] by {
            assert(fresh_node(st.node_states@[k], wf.nodes@[k], tasks@));
        }
    }
    Ok(st)
}


/// Starts a pending run: it is running now, and the start is an event.
/// A run that already started is left as it is.
pub fn begin_run(st: &mut WorkflowRunState, workflow_id: &str) -> (ev: Option<WorkflowEvent>)
    ensures
        old(st).status == WorkflowStatus::Pending ==> {
            &&& final(st).status == WorkflowStatus::Running
            &&& ev matches Some(WorkflowEvent::WorkflowStarted { workflow_id: w, run_id: r }) && w@ == workflow_id@
                && r@ == old(st).run_id@
        },
        old(st).status != WorkflowStatus::Pending ==> final(st).status == old(st).status && ev is None,
        final(st).node_states == old(st).node_states,
        final(st).context == old(st).context,
        final(st).pending_interventions == old(st).pending_interventions,
        final(st).failed_nodes == old(st).failed_nodes,
        final(st).run_id == old(st).run_id,
{
    if st.status == WorkflowStatus::Pending {
        st.status = WorkflowStatus::Running;
        Some(WorkflowEvent::WorkflowStarted { workflow_id: workflow_id.to_owned(), run_id: st.run_id.clone() })
    } else {
        None
    }
}

pub open spec fn is_pending_request(r: InterventionRequest) -> bool {
    r.status == InterventionStatus::Pending
}

/// Whether some intervention still waits for an answer.
pub fn has_pending_intervention(st: &WorkflowRunState) -> (res: bool)
    ensures
        res == exists|i: int| 0 <= i < st.pending_interventions@.len() && is_pending_request(
            #[trigger] st.pending_interventions@[i],
        ),
{
    let mut i: usize = 0;
    while i < st.pending_interventions.len()
        invariant
            i <= st.pending_interventions@.len(),
            forall|j: int| 0 <= j < i ==> !is_pending_request(#[trigger] st.pending_interventions@[j]),
        decreases st.pending_interventions@.len() - i,
    {
        if st.pending_interventions[i].status == InterventionStatus::Pending {
            return true;
        }
        i = i + 1;
    }
    false
}

/// The interventions that still wait for an answer, in the order they were asked.
pub fn list_pending_interventions(st: &WorkflowRunState) -> (res: Vec<&InterventionRequest>)
    ensures
        res@.map_values(|r: &InterventionRequest| *r) == st.pending_interventions@.filter(
            |r: InterventionRequest| is_pending_request(r),
        ),
{
    let ghost all = st.pending_interventions@;
    let ghost pred = |r: InterventionRequest| is_pending_request(r);
    let mut out: Vec<&InterventionRequest> = Vec::new();
    let mut i: usize = 0;
    while i < st.pending_interventions.len()
        invariant
            i <= all.len(),
            all == st.pending_interventions@,
            pred == (|r: InterventionRequest| is_pending_request(r)),
            out@.map_values(|r: &InterventionRequest| *r) == all.take(i as int).filter(pred),
        decreases all.len() - i,
    {
        let ghost prev = out@;
        let keep = st.pending_interventions[i].status == InterventionStatus::Pending;
        if keep {
            out.push(&st.pending_interventions[i]);
        }
        proof {
            assert(all.take(i + 1).drop_last() =~= all.take(i as int));
            assert(all.take(i + 1).last() == all[i as int]);
            reveal(Seq::filter);
            if keep {
                assert(out@.map_values(|r: &InterventionRequest| *r) =~= prev.map_values(
                    |r: &InterventionRequest| *r,
                ).push(all[i as int]));
            } else {
                assert(out@ == prev);
            }
        }
        i = i + 1;
    }
    proof {
        assert(all.take(all.len() as int) =~= all);
    }
    out
}

/// Records a human's answer to intervention `intervention_id` at `now`.
pub fn submit_intervention(st: &mut WorkflowRunState, intervention_id: &str, response: Option<String>, now: u128) -> (res:
    Result<(), String>)
    ensures
        match res {
            Ok(()) => exists|i: int|
                0 <= i < old(st).pending_interventions@.len() && (#[trigger] old(st).pending_interventions@[i]).id@
                    == intervention_id@ && (forall|j: int| 0 <= j < i ==> old(st).pending_interventions@[j].id@ != intervention_id@)
                    && final(st).pending_interventions@.len() == old(st).pending_interventions@.len()
                    && (forall|j: int|
                    0 <= j < old(st).pending_interventions@.len() && j != i ==> final(st).pending_interventions@[j]
                        == old(st).pending_interventions@[j]) && ({
                    let before = old(st).pending_interventions@[i];
                    let after = final(st).pending_interventions@[i];
                    &&& after.id == before.id && after.workflow_id == before.workflow_id && after.run_id == before.run_id
                    &&& after.node_id == before.node_id && after.prompt == before.prompt && after.reason == before.reason
                    &&& after.created_at == before.created_at
                    &&& after.response == response
                    &&& after.status == InterventionStatus::Resolved
                    &&& after.resolved_at == Some(now)
                }) && final(st).updated_at == now,
            Err(e) => (forall|j: int|
                0 <= j < old(st).pending_interventions@.len() ==> old(st).pending_interventions@[j].id@ != intervention_id@)
                && e@ == "Intervention '"@ + intervention_id@ + "' not found for run '"@ + old(st).run_id@ + "'."@
                && final(st).pending_interventions == old(st).pending_interventions,
        },
        final(st).status == old(st).status,
        final(st).node_states == old(st).node_states,
        final(st).context == old(st).context,
        final(st).failed_nodes == old(st).failed_nodes,
        final(st).run_id == old(st).run_id,
{
    let mut i: usize = 0;
    while i < st.pending_interventions.len()
        invariant
            i <= st.pending_interventions@.len(),
            st.pending_interventions == old(st).pending_interventions,
            st.status == old(st).status,
            st.node_states == old(st).node_states,
            st.context == old(st).context,
            st.failed_nodes == old(st).failed_nodes,
            st.run_id == old(st).run_id,
            forall|j: int| 0 <= j < i ==> st.pending_interventions@[j].id@ != intervention_id@,
        decreases st.pending_interventions@.len() - i,
    {
        if str_eq(st.pending_interventions[i].id.as_str(), intervention_id) {
            let ghost before = st.pending_interventions@;
            let r = st.pending_interventions.remove(i);
            let updated = InterventionRequest {
                id: r.id,
                workflow_id: r.workflow_id,
                run_id: r.run_id,
                node_id: r.node_id,
                prompt: r.prompt,
                reason: r.reason,
                response,
                status: InterventionStatus::Resolved,
                created_at: r.created_at,
                resolved_at: Some(now),
            };
            st.pending_interventions.insert(i, updated);
            st.updated_at = now;
            proof {
                assert(st.pending_interventions@ =~= before.update(i as int, st.pending_interventions@[i as int]));
            }
            return Ok(());
        }
        i = i + 1;
    }
    let head = cat3("Intervention '", intervention_id, "' not found for run '");
    Err(cat3(head.as_str(), st.run_id.as_str(), "'."))
}

/// A run with nothing left to do: paused while an intervention waits,
/// else completed, with failures when some node failed.
pub fn finalize_if_quiescent(st: &mut WorkflowRunState) -> (ev: WorkflowEvent)
    ensures
        (exists|i: int| 0 <= i < old(st).pending_interventions@.len() && is_pending_request(
            #[trigger] old(st).pending_interventions@[i],
        )) ==> final(st).status == WorkflowStatus::Paused && (ev matches WorkflowEvent::WorkflowPaused {
            run_id,
            reason,
        } && run_id@ == old(st).run_id@ && reason@ == "Waiting for intervention"@),
        !(exists|i: int| 0 <= i < old(st).pending_interventions@.len() && is_pending_request(
            #[trigger] old(st).pending_interventions@[i],
        )) ==> final(st).status == (if old(st).failed_nodes@.len() == 0 {
            WorkflowStatus::Completed
        } else {
            WorkflowStatus::CompletedWithFailures
        }) && (ev matches WorkflowEvent::WorkflowCompleted { run_id, status } && run_id@ == old(st).run_id@
            && status == final(st).status),
        final(st).node_states == old(st).node_states,
        final(st).context == old(st).context,
        final(st).pending_interventions == old(st).pending_interventions,
        final(st).failed_nodes == old(st).failed_nodes,
        final(st).run_id == old(st).run_id,
{
    if has_pending_intervention(st) {
        st.status = WorkflowStatus::Paused;
        return WorkflowEvent::WorkflowPaused { run_id: st.run_id.clone(), reason: "Waiting for intervention".to_owned() };
    }
    st.status = if st.failed_nodes.len() == 0 {
        WorkflowStatus::Completed
    } else {
        WorkflowStatus::CompletedWithFailures
    };
    WorkflowEvent::WorkflowCompleted { run_id: st.run_id.clone(), status: st.status }
}

pub open spec fn statuses_of(ns: Seq<NodeRunState>) -> Seq<NodeStatus> {
    ns.map_values(|n: NodeRunState| n.status)
}

/// The status of each node, in order.
pub fn node_statuses(st: &WorkflowRunState) -> (res: Vec<NodeStatus>)
    ensures
        res@ == statuses_of(st.node_states@),
{
    let mut out: Vec<NodeStatus> = Vec::new();
    let mut i: usize = 0;
    while i < st.node_states.len()
        invariant
            i <= st.node_states@.len(),
            out@ == statuses_of(st.node_states@.take(i as int)),
        decreases st.node_states@.len() - i,
    {
        out.push(st.node_states[i].status);
        i = i + 1;
        proof {
            assert(out@ =~= statuses_of(st.node_states@.take(i as int)));
        }
    }
    proof {
        assert(st.node_states@.take(st.node_states@.len() as int) =~= st.node_states@);
    }
    out
}

/// The nodes that can start now, in workflow order (see `is_ready`); `conds`
/// holds, per edge, whether its condition holds in the run's context.
pub fn collect_ready_nodes(wf: &WorkflowDefinition, ix: &EdgeIndex, st: &WorkflowRunState, conds: &[bool]) -> (res:
    Vec<usize>)
    requires
        run_matches(*wf, *st),
        ix.resolves(*wf),
        conds@.len() == wf.edges@.len(),
    ensures
        forall|i: int, j: int| 0 <= i < j < res@.len() ==> res@[i] < res@[j],
        forall|k: int|
            0 <= k < wf.nodes@.len() ==> (res@.contains(k as usize) <==> is_ready(
                *wf,
                *ix,
                statuses_of(st.node_states@),
                conds@,
                k,
            )),
        forall|i: int| 0 <= i < res@.len() ==> (res@[i] as int) < wf.nodes@.len(),
{
    let statuses = node_statuses(st);
    ready_nodes(wf, ix, &statuses, conds)
}

/// The ids of the nodes, among the first `k`, whose status differs between
/// `before` and `after`, in order.
pub open spec fn changed_ids(before: Seq<NodeRunState>, after: Seq<NodeStatus>, k: int) -> Seq<Seq<char>>
    decreases k,
{
    if k <= 0 {
        seq![]
    } else if before[k - 1].status != after[k - 1] {
        changed_ids(before, after, k - 1).push(before[k - 1].node_id@)
    } else {
        changed_ids(before, after, k - 1)
    }
}

/// The node each event names (empty for events that name none).
pub open spec fn skipped_node(e: WorkflowEvent) -> Seq<char> {
    match e {
        WorkflowEvent::NodeSkipped { node_id } => node_id@,
        _ => Seq::empty(),
    }
}

/// Skips, in workflow order, each pending node whose entering edges are all
/// settled and none of which fired (a node skipped earlier in the pass counts
/// as settled), at `now`. Returns the skip events, in order.
pub fn reconcile_skipped_nodes(
    wf: &WorkflowDefinition,
    ix: &EdgeIndex,
    st: &mut WorkflowRunState,
    conds: &[bool],
    now: u128,
) -> (events: Vec<WorkflowEvent>)
    requires
        run_matches(*wf, *old(st)),
        ix.resolves(*wf),
        conds@.len() == wf.edges@.len(),
    ensures
        run_matches(*wf, *final(st)),
        statuses_of(final(st).node_states@) == skip_pass(*wf, *ix, statuses_of(old(st).node_states@), conds@, 0),
        forall|k: int|
            0 <= k < wf.nodes@.len() ==> {
                let before = #[trigger] old(st).node_states@[k];
                let after = final(st).node_states@[k];
                if before.status != after.status {
                    &&& before.status == NodeStatus::Pending && after.status == NodeStatus::Skipped
                    &&& after.completed_at == Some(now)
                    &&& after.node_id == before.node_id && after.attempts == before.attempts
                    &&& after.output_key == before.output_key && after.output == before.output
                    &&& after.last_error == before.last_error && after.started_at == before.started_at
                    &&& after.session_id == before.session_id
                    &&& after.activated_incoming == before.activated_incoming
                } else {
                    after == before
                }
            },
        forall|i: int|
            0 <= i < events@.len() ==> ((#[trigger] events@[i]) matches WorkflowEvent::NodeSkipped { node_id }
                && exists|k: int| 0 <= k < wf.nodes@.len() && old(st).node_states@[k].status != final(st).node_states@[k].status && node_id@ == wf.node_ids()[k]),
        (events@.len() == 0) == (forall|k: int|
            0 <= k < wf.nodes@.len() ==> #[trigger] old(st).node_states@[k].status == final(st).node_states@[k].status),
        events@.map_values(|e: WorkflowEvent| skipped_node(e)) == changed_ids(
            old(st).node_states@,
            statuses_of(final(st).node_states@),
            wf.nodes@.len() as int,
        ),
        final(st).status == old(st).status,
        final(st).context == old(st).context,
        final(st).pending_interventions == old(st).pending_interventions,
        final(st).failed_nodes == old(st).failed_nodes,
        final(st).run_id == old(st).run_id,
{
    let mut statuses = node_statuses(st);
    let _skipped = skip_unreachable(wf, ix, &mut statuses, conds);
    let ghost given = st.node_states@;
    let mut events: Vec<WorkflowEvent> = Vec::new();
    let mut k: usize = 0;
    while k < statuses.len()
        invariant
            k <= statuses@.len(),
            st.node_states@.len() == given.len(),
            given.len() == wf.nodes@.len(),
            statuses@.len() == given.len(),
            statuses@ == skip_pass(*wf, *ix, statuses_of(given), conds@, 0),
            forall|m: int|
                0 <= m < given.len() && given[m].status != statuses@[m] ==> given[m].status == NodeStatus::Pending
                    && statuses@[m] == NodeStatus::Skipped,
            forall|m: int|
                0 <= m < given.len() ==> {
                    let before = given[m];
                    let after = #[trigger] st.node_states@[m];
                    if m < k && before.status != statuses@[m] {
                        &&& after.status == NodeStatus::Skipped
                        &&& after.completed_at == Some(now)
                        &&& after.node_id == before.node_id && after.attempts == before.attempts
                        &&& after.output_key == before.output_key && after.output == before.output
                        &&& after.last_error == before.last_error && after.started_at == before.started_at
                        &&& after.session_id == before.session_id
                        &&& after.activated_incoming == before.activated_incoming
                    } else {
                        after == before
                    }
                },
            forall|a: int|
                0 <= a < events@.len() ==> ((#[trigger] events@[a]) matches WorkflowEvent::NodeSkipped { node_id }
                    && exists|m: int| 0 <= m < k && given[m].status != statuses@[m] && node_id@ == given[m].node_id@),
            st.status == old(st).status,
            st.context == old(st).context,
            st.pending_interventions == old(st).pending_interventions,
            st.failed_nodes == old(st).failed_nodes,
            st.run_id == old(st).run_id,
            given == old(st).node_states@,
            (events@.len() == 0) == (forall|m: int| 0 <= m < k ==> #[trigger] given[m].status == statuses@[m]),
            events@.map_values(|e: WorkflowEvent| skipped_node(e)) == changed_ids(given, statuses@, k as int),
        decreases statuses@.len() - k,
    {
        if st.node_states[k].status != statuses[k] {
            let ghost before = st.node_states@;
            let n = st.node_states.remove(k);
            let updated = NodeRunState {
                node_id: n.node_id,
                status: NodeStatus::Skipped,
                attempts: n.attempts,
                started_at: n.started_at,
                completed_at: Some(now),
                last_error: n.last_error,
                output_key: n.output_key,
                output: n.output,
                activated_incoming: n.activated_incoming,
                session_id: n.session_id,
            };
            let event = WorkflowEvent::NodeSkipped { node_id: updated.node_id.clone() };
            st.node_states.insert(k, updated);
            let ghost ev_before = events@;
            events.push(event);
            proof {
                assert(st.node_states@ =~= before.update(k as int, st.node_states@[k as int]));
                assert(events@.map_values(|e: WorkflowEvent| skipped_node(e)) =~= ev_before.map_values(
                    |e: WorkflowEvent| skipped_node(e),
                ).push(given[k as int].node_id@));
            }
        }
        k = k + 1;
    }
    proof {
        assert(statuses_of(st.node_states@) =~= statuses@);
        assert(given == old(st).node_states@);
        assert forall|m: int| 0 <= m < wf.nodes@.len() implies (#[trigger] st.node_states@[m]).node_id@ == wf.node_ids()[m] by {
            assert(old(st).node_states@[m].node_id@ == wf.node_ids()[m]);
        }
        assert forall|a: int| 0 <= a < events@.len() implies ((#[trigger] events@[a]) matches WorkflowEvent::NodeSkipped { node_id }
            && exists|m: int| 0 <= m < wf.nodes@.len() && old(st).node_states@[m].status != st.node_states@[m].status && node_id@ == wf.node_ids()[m]) by {
            if let WorkflowEvent::NodeSkipped { node_id } = events@[a] {
                let m = choose|m: int| 0 <= m < k && given[m].status != statuses@[m] && node_id@ == given[m].node_id@;
                assert(st.node_states@[m].status == statuses@[m]);
                assert(given[m].node_id@ == wf.node_ids()[m]);
            }
        }
        if events@.len() > 0 {
            let m = choose|m: int| 0 <= m < k && !(given[m].status == statuses@[m]);
            assert(old(st).node_states@[m].status != st.node_states@[m].status);
        }
    }
    events
}


/// What the driver of a run does next.
pub enum DriveStep {
    /// Leave the run as it stands: it is finished, or waits for an answer.
    Stop,
    /// Nodes were skipped and none is ready yet: look again.
    Again,
    /// Start these nodes (indices into the workflow's nodes), in this order.
    Run(Vec<usize>),
}

/// Some intervention of the run still waits for an answer.
pub open spec fn waits_for_answer(st: WorkflowRunState) -> bool {
    exists|i: int| 0 <= i < st.pending_interventions@.len() && is_pending_request(#[trigger] st.pending_interventions@[i])
}

/// The run is left as it is: it finished, or it is paused for an answer.
pub open spec fn stands_still(st: WorkflowRunState) -> bool {
    st.status.finished() || (st.status == WorkflowStatus::Paused && waits_for_answer(st))
}

/// The status a settled run ends with: paused while an answer is awaited,
/// else completed, with failures when some node failed.
pub open spec fn settled_status(st: WorkflowRunState) -> WorkflowStatus {
    if waits_for_answer(st) {
        WorkflowStatus::Paused
    } else if st.failed_nodes@.len() == 0 {
        WorkflowStatus::Completed
    } else {
        WorkflowStatus::CompletedWithFailures
    }
}

/// One round of driving a run, once answered interventions are applied
/// (`conds` holds, per edge, whether its condition holds in the context).
/// A finished run, or a paused one still waiting for an answer, stops as it
/// is; a paused one whose answers all came runs again. Then unreachable nodes
/// are skipped (see `reconcile_skipped_nodes`) and the ready nodes are to be
/// started; when none is ready and none was skipped, the run settles (see
/// `finalize_if_quiescent`) and stops. Returns the step and the events of the
/// round, in order.
pub fn drive_round(
    wf: &WorkflowDefinition,
    ix: &EdgeIndex,
    st: &mut WorkflowRunState,
    conds: &[bool],
    now: u128,
) -> (res: (DriveStep, Vec<WorkflowEvent>))
    requires
        run_matches(*wf, *old(st)),
        ix.resolves(*wf),
        conds@.len() == wf.edges@.len(),
    ensures
        run_matches(*wf, *final(st)),
        final(st).context == old(st).context,
        final(st).pending_interventions == old(st).pending_interventions,
        final(st).failed_nodes == old(st).failed_nodes,
        final(st).run_id == old(st).run_id,
        stands_still(*old(st)) ==> {
            &&& res.0 is Stop
            &&& res.1@.len() == 0
            &&& final(st).status == old(st).status
            &&& final(st).node_states == old(st).node_states
        },
        !stands_still(*old(st)) ==> {
            let after = statuses_of(final(st).node_states@);
            let skipped_any = exists|k: int|
                0 <= k < wf.nodes@.len() && #[trigger] old(st).node_states@[k].status != final(st).node_states@[k].status;
            let none_ready = forall|k: int| 0 <= k < wf.nodes@.len() ==> !#[trigger] is_ready(*wf, *ix, after, conds@, k);
            &&& after == skip_pass(*wf, *ix, statuses_of(old(st).node_states@), conds@, 0)
            &&& match res.0 {
                DriveStep::Run(v) => {
                    &&& v@.len() > 0
                    &&& forall|i: int, j: int| 0 <= i < j < v@.len() ==> v@[i] < v@[j]
                    &&& forall|k: int|
                        0 <= k < wf.nodes@.len() ==> (v@.contains(k as usize) <==> #[trigger] is_ready(
                            *wf,
                            *ix,
                            after,
                            conds@,
                            k,
                        ))
                    &&& forall|i: int| 0 <= i < v@.len() ==> (v@[i] as int) < wf.nodes@.len()
                    &&& final(st).status == (if old(st).status == WorkflowStatus::Paused {
                        WorkflowStatus::Running
                    } else {
                        old(st).status
                    })
                },
                DriveStep::Again => {
                    &&& none_ready
                    &&& skipped_any
                    &&& final(st).status == (if old(st).status == WorkflowStatus::Paused {
                        WorkflowStatus::Running
                    } else {
                        old(st).status
                    })
                },
                DriveStep::Stop => {
                    &&& none_ready
                    &&& !skipped_any
                    &&& (wf.is_acyclic() && forall|k: int|
                        0 <= k < wf.nodes@.len() ==> #[trigger] after[k] != NodeStatus::Running && after[k]
                            != NodeStatus::Paused) ==> forall|k: int| 0 <= k < wf.nodes@.len() ==> (#[trigger] after[k]).terminal()
                    &&& final(st).status == settled_status(*old(st))
                    &&& res.1@.len() == 1
                    &&& if waits_for_answer(*old(st)) {
                        res.1@[0] matches WorkflowEvent::WorkflowPaused { run_id, reason } && run_id@ == old(
                            st,
                        ).run_id@ && reason@ == "Waiting for intervention"@
                    } else {
                        res.1@[0] matches WorkflowEvent::WorkflowCompleted { run_id, status } && run_id@ == old(
                            st,
                        ).run_id@ && status == final(st).status
                    }
                },
            }
            &&& !(res.0 is Stop) ==> forall|i: int|
                0 <= i < res.1@.len() ==> ((#[trigger] res.1@[i]) matches WorkflowEvent::NodeSkipped { node_id }
                    && exists|k: int|
                    0 <= k < wf.nodes@.len() && old(st).node_states@[k].status != final(st).node_states@[k].status
                        && node_id@ == wf.node_ids()[k])
        },
{
    if st.status == WorkflowStatus::Failed || st.status == WorkflowStatus::Completed || st.status
        == WorkflowStatus::CompletedWithFailures {
        return (DriveStep::Stop, Vec::new());
    }
    if st.status == WorkflowStatus::Paused {
        if has_pending_intervention(st) {
            return (DriveStep::Stop, Vec::new());
        }
        st.status = WorkflowStatus::Running;
    }
    let ghost resumed = *st;
    let mut events = reconcile_skipped_nodes(wf, ix, st, conds, now);
    let ready = collect_ready_nodes(wf, ix, st, conds);
    if ready.len() == 0 {
        proof {
            assert forall|k: int| 0 <= k < wf.nodes@.len() implies !#[trigger] is_ready(
                *wf,
                *ix,
                statuses_of(st.node_states@),
                conds@,
                k,
            ) by {
                if is_ready(*wf, *ix, statuses_of(st.node_states@), conds@, k) {
                    assert(ready@.contains(k as usize));
                }
            }
        }
        if events.len() == 0 {
            proof {
                let after = statuses_of(st.node_states@);
                let before = statuses_of(resumed.node_states@);
                assert(after =~= before);
                if wf.is_acyclic() && forall|k: int|
                    0 <= k < wf.nodes@.len() ==> #[trigger] after[k] != NodeStatus::Running && after[k]
                        != NodeStatus::Paused {
                    crate::workflow::schedule::law_settled_run_is_finished(*wf, *ix, after, conds@);
                }
            }
            let ghost settled = *st;
            let ev = finalize_if_quiescent(st);
            events.push(ev);
            proof {
                assert(waits_for_answer(settled) == waits_for_answer(*old(st)));
            }
            return (DriveStep::Stop, events);
        }
        return (DriveStep::Again, events);
    }
    (DriveStep::Run(ready), events)
}

/// The context after `insert(key, value)`: the entry with that key gets the
/// value, or a new entry is added at the end.
pub open spec fn context_inserted(
    before: Seq<(String, JsonValue)>,
    after: Seq<(String, JsonValue)>,
    key: Seq<char>,
    value: JsonValue,
) -> bool {
    match crate::json::field_index(before, key) {
        Some(i) => {
            &&& after.len() == before.len()
            &&& forall|j: int| 0 <= j < before.len() && j != i ==> after[j] == before[j]
            &&& after[i].0 == before[i].0
            &&& after[i].1 == value
        },
        None => {
            &&& after.len() == before.len() + 1
            &&& after.drop_last() == before
            &&& after.last().0@ == key
            &&& after.last().1 == value
        },
    }
}

/// Puts `value` under `key` in the context.
pub fn context_insert(context: &mut Vec<(String, JsonValue)>, key: &str, value: JsonValue)
    ensures
        context_inserted(old(context)@, final(context)@, key@, value),
{
    match crate::json::find_field(context, key) {
        Some(i) => {
            let ghost before = context@;
            let (k, _) = context.remove(i);
            context.insert(i, (k, value));
            proof {
                assert(context@ =~= before.update(i as int, context@[i as int]));
            }
        },
        None => {
            let ghost before = context@;
            context.push((key.to_owned(), value));
            proof {
                assert(context@.drop_last() =~= before);
            }
        },
    }
}

/// `after` is `before` with `id` at the end, unless it is there already.
pub open spec fn listed_once(before: Seq<Seq<char>>, after: Seq<Seq<char>>, id: Seq<char>) -> bool {
    if before.contains(id) {
        after == before
    } else {
        after == before.push(id)
    }
}

/// Lists node `id` among the failed nodes, once.
pub fn mark_failed(failed: &mut Vec<String>, id: &String)
    requires
        no_duplicates(string_views(old(failed)@)),
    ensures
        listed_once(string_views(old(failed)@), string_views(final(failed)@), id@),
        no_duplicates(string_views(final(failed)@)),
{
    let ghost before = string_views(failed@);
    if !crate::workflow::validate::contains_string(failed, id) {
        failed.push(id.clone());
        proof {
            assert(string_views(failed@) =~= before.push(id@));
        }
    } else {
        proof {
            assert(string_views(failed@) =~= before);
        }
    }
}

/// The nodes that entered node `k` through an edge that fired, in edge
/// order: edges `0..n` are looked at.
pub open spec fn activated_upto(
    wf: WorkflowDefinition,
    ix: EdgeIndex,
    statuses: Seq<NodeStatus>,
    conds: Seq<bool>,
    k: int,
    n: int,
) -> Seq<Seq<char>>
    decreases n,
{
    if n <= 0 {
        seq![]
    } else {
        let prev = activated_upto(wf, ix, statuses, conds, k, n - 1);
        let e = n - 1;
        if ix.to@[e] as int == k && edge_active(wf.edges@[e].transition, statuses[ix.from@[e] as int], conds[e]) {
            prev.push(wf.edges@[e].from@)
        } else {
            prev
        }
    }
}

/// The state of node `k` once it starts its next attempt.
pub open spec fn started(
    before: NodeRunState,
    after: NodeRunState,
    run_id: Seq<char>,
    attempt: nat,
    output_key: Seq<char>,
    activated: Seq<Seq<char>>,
    now: u128,
) -> bool {
    &&& after.node_id == before.node_id
    &&& after.status == NodeStatus::Running
    &&& after.attempts == attempt
    &&& after.started_at == Some(now)
    &&& after.session_id matches Some(s) && s@ == attempt_session_spec(run_id, before.node_id@, attempt)
    &&& after.output_key@ == output_key
    &&& string_views(after.activated_incoming@) == activated
    &&& after.completed_at == before.completed_at
    &&& after.last_error == before.last_error
    &&& after.output == before.output
}

/// Node `k`'s next attempt, numbered `attempt`, has begun at `now`: its task
/// resolves, the attempt is counted, the node runs (see `started`), no other
/// node changes, the run's own fields stay, and a start event is emitted.
pub open spec fn attempt_begun(
    wf: WorkflowDefinition,
    ix: EdgeIndex,
    tasks: Seq<TaskDefinition>,
    before: WorkflowRunState,
    after: WorkflowRunState,
    k: int,
    conds: Seq<bool>,
    now: u128,
    attempt: usize,
    ev: WorkflowEvent,
) -> bool {
    &&& resolve_task_spec(wf.nodes@[k], tasks) matches Ok(t)
    &&& attempt == before.node_states@[k].attempts + 1
    &&& started(
        before.node_states@[k],
        after.node_states@[k],
        before.run_id@,
        attempt as nat,
        output_key_spec(wf.nodes@[k], t),
        activated_upto(wf, ix, statuses_of(before.node_states@), conds, k, wf.edges@.len() as int),
        now,
    )
    &&& forall|j: int| 0 <= j < wf.nodes@.len() && j != k ==> after.node_states@[j] == before.node_states@[j]
    &&& ev matches WorkflowEvent::NodeStarted { node_id, attempt: a } && node_id@ == wf.node_ids()[k] && a
        == attempt
    &&& after.status == before.status
    &&& after.failed_nodes == before.failed_nodes
    &&& after.pending_interventions == before.pending_interventions
}

/// Starts node `k`'s next attempt at `now`: it runs, counts the attempt,
/// gets its session, its output key and the nodes whose edges into it
/// fired. Fails, changing nothing, when the node's task does not resolve.
pub fn start_node(
    wf: &WorkflowDefinition,
    ix: &EdgeIndex,
    tasks: &[TaskDefinition],
    st: &mut WorkflowRunState,
    k: usize,
    conds: &[bool],
    now: u128,
) -> (res: Result<(usize, WorkflowEvent), String>)
    requires
        run_matches(*wf, *old(st)),
        ix.resolves(*wf),
        conds@.len() == wf.edges@.len(),
        k < wf.nodes@.len(),
        old(st).node_states@[k as int].attempts < usize::MAX,
    ensures
        run_matches(*wf, *final(st)),
        match res {
            Ok((attempt, ev)) => attempt_begun(*wf, *ix, tasks@, *old(st), *final(st), k as int, conds@, now, attempt, ev),
            Err(e) => resolve_task_spec(wf.nodes@[k as int], tasks@) == Err::<Option<TaskDefinition>, Seq<char>>(e@)
                && final(st).node_states == old(st).node_states,
        },
        final(st).status == old(st).status,
        final(st).context == old(st).context,
        final(st).pending_interventions == old(st).pending_interventions,
        final(st).failed_nodes == old(st).failed_nodes,
        final(st).run_id == old(st).run_id,
        final(st).workflow_id == old(st).workflow_id,
{
    let node = &wf.nodes[k];
    let task = match resolve_task(node, tasks) {
        Ok(t) => t,
        Err(e) => {
            return Err(e);
        },
    };
    let attempt = st.node_states[k].attempts + 1;
    let output_key = output_key_for(node, task);
    proof {
        assert(crate::workflow::schedule::opt_task(task) == match resolve_task_spec(*node, tasks@) {
            Ok(t) => t,
            Err(_) => None,
        });
    }
    let session_id = attempt_session_id(st.run_id.as_str(), st.node_states[k].node_id.as_str(), attempt);
    let ghost statuses = statuses_of(st.node_states@);
    let mut activated: Vec<String> = Vec::new();
    let mut e: usize = 0;
    while e < wf.edges.len()
        invariant
            e <= wf.edges@.len(),
            ix.resolves(*wf),
            conds@.len() == wf.edges@.len(),
            st.node_states@.len() == wf.nodes@.len(),
            statuses == statuses_of(st.node_states@),
            string_views(activated@) == activated_upto(*wf, *ix, statuses, conds@, k as int, e as int),
        decreases wf.edges@.len() - e,
    {
        let ghost prev = string_views(activated@);
        let from = ix.from[e];
        if ix.to[e] == k && edge_is_active(&wf.edges[e].transition, st.node_states[from].status, conds[e]) {
            activated.push(wf.edges[e].from.clone());
            proof {
                assert(string_views(activated@) =~= prev.push(wf.edges@[e as int].from@));
            }
        }
        e = e + 1;
    }
    let ghost before = st.node_states@;
    let n = st.node_states.remove(k);
    let updated = NodeRunState {
        node_id: n.node_id,
        status: NodeStatus::Running,
        attempts: attempt,
        started_at: Some(now),
        completed_at: n.completed_at,
        last_error: n.last_error,
        output_key,
        output: n.output,
        activated_incoming: activated,
        session_id: Some(session_id),
    };
    let event = WorkflowEvent::NodeStarted { node_id: updated.node_id.clone(), attempt };
    st.node_states.insert(k, updated);
    proof {
        assert(st.node_states@ =~= before.update(k as int, st.node_states@[k as int]));
        assert forall|j: int| 0 <= j < wf.nodes@.len() implies (#[trigger] st.node_states@[j]).node_id@ == wf.node_ids()[j] by {
            assert(before[j].node_id@ == wf.node_ids()[j]);
        }
    }
    Ok((attempt, event))
}

/// Node `k` finished with `output` at `now`: the output goes into the
/// context under the node's key, and the node is completed.
pub fn complete_node(wf: &WorkflowDefinition, st: &mut WorkflowRunState, k: usize, output: JsonValue, now: u128) -> (ev:
    WorkflowEvent)
    requires
        run_matches(*wf, *old(st)),
        k < wf.nodes@.len(),
    ensures
        run_matches(*wf, *final(st)),
        exists|c: JsonValue|
            #![trigger context_inserted(old(st).context@, final(st).context@, old(st).node_states@[k as int].output_key@, c)]
            same_json(output, c) && context_inserted(
                old(st).context@,
                final(st).context@,
                old(st).node_states@[k as int].output_key@,
                c,
            ),
        ({
            let before = old(st).node_states@[k as int];
            let after = final(st).node_states@[k as int];
            &&& after.node_id == before.node_id && after.attempts == before.attempts
            &&& after.status == NodeStatus::Completed
            &&& after.completed_at == Some(now)
            &&& after.output == Some(output)
            &&& after.last_error is None
            &&& after.output_key == before.output_key && after.started_at == before.started_at
            &&& after.session_id == before.session_id && after.activated_incoming == before.activated_incoming
        }),
        forall|j: int| 0 <= j < wf.nodes@.len() && j != k ==> final(st).node_states@[j] == old(st).node_states@[j],
        ev matches WorkflowEvent::NodeCompleted { node_id, output_key } && node_id@ == wf.node_ids()[k as int]
            && output_key@ == old(st).node_states@[k as int].output_key@,
        final(st).status == old(st).status,
        final(st).pending_interventions == old(st).pending_interventions,
        final(st).failed_nodes == old(st).failed_nodes,
        final(st).run_id == old(st).run_id,
        final(st).workflow_id == old(st).workflow_id,
{
    let copy = copy_json(&output);
    let ghost c = copy;
    let key = st.node_states[k].output_key.clone();
    context_insert(&mut st.context, key.as_str(), copy);
    let ghost before = st.node_states@;
    let n = st.node_states.remove(k);
    let updated = NodeRunState {
        node_id: n.node_id,
        status: NodeStatus::Completed,
        attempts: n.attempts,
        started_at: n.started_at,
        completed_at: Some(now),
        last_error: None,
        output_key: n.output_key,
        output: Some(output),
        activated_incoming: n.activated_incoming,
        session_id: n.session_id,
    };
    let event = WorkflowEvent::NodeCompleted { node_id: updated.node_id.clone(), output_key: key };
    st.node_states.insert(k, updated);
    proof {
        assert(same_json(output, c));
        assert(context_inserted(old(st).context@, st.context@, old(st).node_states@[k as int].output_key@, c));
        assert(st.node_states@ =~= before.update(k as int, st.node_states@[k as int]));
        assert forall|j: int| 0 <= j < wf.nodes@.len() implies (#[trigger] st.node_states@[j]).node_id@ == wf.node_ids()[j] by {
            assert(before[j].node_id@ == wf.node_ids()[j]);
        }
    }
    event
}


/// What a failure decision does to the node: a retry sends it back to
/// pending; otherwise it is done, failed or paused. Either way the error is
/// kept.
pub open spec fn node_after_failure(
    before: NodeRunState,
    after: NodeRunState,
    d: FailureDecision,
    error: Seq<char>,
    now: u128,
) -> bool {
    &&& after.node_id == before.node_id && after.attempts == before.attempts
    &&& after.started_at == before.started_at && after.output_key == before.output_key
    &&& after.output == before.output && after.session_id == before.session_id
    &&& after.activated_incoming == before.activated_incoming
    &&& after.status == status_after_failure(d)
    &&& after.last_error matches Some(e) && e@ == error
    &&& after.completed_at == (if d == FailureDecision::Retry {
        before.completed_at
    } else {
        Some(now)
    })
}

/// The intervention a paused failure asks for.
pub open spec fn is_failure_intervention(
    r: InterventionRequest,
    st: WorkflowRunState,
    node_id: Seq<char>,
    attempt: nat,
    error: Seq<char>,
    now: u128,
) -> bool {
    &&& r.id@ == "int-"@ + decimal(now as nat)
    &&& r.workflow_id@ == st.workflow_id@ && r.run_id@ == st.run_id@
    &&& r.node_id@ == node_id
    &&& r.prompt@ == failure_prompt_spec(node_id, attempt)
    &&& r.reason@ == "step_failure:"@ + error
    &&& r.response is None
    &&& r.status == InterventionStatus::Pending
    &&& r.created_at == now && r.resolved_at is None
}

/// Attempt `attempt` of node `k` failed with `error` at `now` and the failure
/// was handled: the node's task resolves, and the failure decision (retry
/// while attempts remain, else the effective failure policy) sets the node,
/// the run and the events as `handle_node_failure` describes.
pub open spec fn failure_handled(
    wf: WorkflowDefinition,
    tasks: Seq<TaskDefinition>,
    before: WorkflowRunState,
    after: WorkflowRunState,
    k: int,
    attempt: usize,
    error: Seq<char>,
    now: u128,
    events: Seq<WorkflowEvent>,
) -> bool {
    &&& resolve_task_spec(wf.nodes@[k], tasks) matches Ok(t)
    &&& ({
        let node = wf.nodes@[k];
        let node_id = wf.node_ids()[k];
        let d = failure_decision_spec(
            attempt,
            effective_retry_spec(wf, node, t),
            effective_failure_spec(wf, node, t),
        );
        &&& node_after_failure(before.node_states@[k], after.node_states@[k], d, error, now)
        &&& forall|j: int| 0 <= j < wf.nodes@.len() && j != k ==> after.node_states@[j] == before.node_states@[j]
        &&& match d {
            FailureDecision::Retry => {
                &&& after.status == before.status
                &&& after.failed_nodes == before.failed_nodes
                &&& after.pending_interventions == before.pending_interventions
                &&& events.len() == 1
                &&& events[0] matches WorkflowEvent::NodeRetryScheduled { node_id: n, attempt: a, error: e }
                    && n@ == node_id && a == attempt && e@ == error
            },
            FailureDecision::MarkFailed => {
                &&& after.status == before.status
                &&& listed_once(string_views(before.failed_nodes@), string_views(after.failed_nodes@), node_id)
                &&& after.pending_interventions == before.pending_interventions
                &&& events.len() == 1
                &&& events[0] matches WorkflowEvent::NodeFailed { node_id: n, error: e } && n@ == node_id
                    && e@ == error
            },
            FailureDecision::FailWorkflow => {
                &&& after.status == WorkflowStatus::Failed
                &&& listed_once(string_views(before.failed_nodes@), string_views(after.failed_nodes@), node_id)
                &&& after.pending_interventions == before.pending_interventions
                &&& events.len() == 2
                &&& events[0] matches WorkflowEvent::NodeFailed { node_id: n, error: e } && n@ == node_id
                    && e@ == error
                &&& events[1] matches WorkflowEvent::WorkflowCompleted { run_id: r, status: s } && r@
                    == before.run_id@ && s == WorkflowStatus::Failed
            },
            FailureDecision::Pause => {
                &&& after.status == WorkflowStatus::Paused
                &&& after.failed_nodes == before.failed_nodes
                &&& after.pending_interventions@.len() == before.pending_interventions@.len() + 1
                &&& after.pending_interventions@.drop_last() == before.pending_interventions@
                &&& is_failure_intervention(
                    after.pending_interventions@.last(),
                    before,
                    node_id,
                    attempt as nat,
                    error,
                    now,
                )
                &&& events.len() == 1
                &&& events[0] matches WorkflowEvent::InterventionRequested {
                    intervention_id: i,
                    node_id: n,
                    reason: r,
                } && i@ == after.pending_interventions@.last().id@ && n@ == node_id && r@ == error
            },
        }
    })
}

/// A failed attempt of a task node: once the node's next attempt has begun
/// and its failure has been handled, the node has counted one more attempt
/// and keeps the error. While the effective retry policy (the node's, else
/// its task's, else the workflow's, else one attempt) allows more attempts
/// it is pending again and the run goes on; after the last one the effective
/// failure policy decides: continue best effort (the node failed and is
/// listed once among the failed nodes), fail the run, or pause the run with
/// a pending intervention for the node.
pub proof fn law_failed_attempt(
    wf: WorkflowDefinition,
    ix: EdgeIndex,
    tasks: Seq<TaskDefinition>,
    st0: WorkflowRunState,
    st1: WorkflowRunState,
    st2: WorkflowRunState,
    k: int,
    conds: Seq<bool>,
    attempt: usize,
    ev: WorkflowEvent,
    events: Seq<WorkflowEvent>,
    error: Seq<char>,
    started_at: u128,
    failed_at: u128,
)
    requires
        attempt_begun(wf, ix, tasks, st0, st1, k, conds, started_at, attempt, ev),
        failure_handled(wf, tasks, st1, st2, k, attempt, error, failed_at, events),
    ensures
        st2.node_states@[k].attempts == st0.node_states@[k].attempts + 1,
        st2.node_states@[k].last_error matches Some(e) && e@ == error,
        resolve_task_spec(wf.nodes@[k], tasks) matches Ok(t) && ({
            let node = wf.nodes@[k];
            let max = effective_retry_spec(wf, node, t).max_attempts;
            let policy = effective_failure_spec(wf, node, t);
            let id = wf.node_ids()[k];
            &&& attempt < max ==> st2.node_states@[k].status == NodeStatus::Pending && st2.status == st0.status
                && st2.failed_nodes == st0.failed_nodes
            &&& attempt >= max && policy == WorkflowFailurePolicy::ContinueBestEffort ==> st2.node_states@[k].status
                == NodeStatus::Failed && st2.status == st0.status && listed_once(
                string_views(st0.failed_nodes@),
                string_views(st2.failed_nodes@),
                id,
            )
            &&& attempt >= max && policy == WorkflowFailurePolicy::FailWorkflow ==> st2.node_states@[k].status
                == NodeStatus::Failed && st2.status == WorkflowStatus::Failed
            &&& attempt >= max && policy == WorkflowFailurePolicy::PauseForIntervention
                ==> st2.node_states@[k].status == NodeStatus::Paused && st2.status == WorkflowStatus::Paused
                && st2.pending_interventions@.last().node_id@ == id && st2.pending_interventions@.last().status
                == InterventionStatus::Pending
        }),
{
}

/// Attempt `attempt` of node `k` failed with `error` at `now`: retry while
/// attempts remain, else apply the failure policy (see `failure_decision`).
/// Fails, changing nothing, when the node's task does not resolve.
pub fn handle_node_failure(
    wf: &WorkflowDefinition,
    tasks: &[TaskDefinition],
    st: &mut WorkflowRunState,
    k: usize,
    attempt: usize,
    error: String,
    now: u128,
) -> (res: Result<Vec<WorkflowEvent>, String>)
    requires
        run_matches(*wf, *old(st)),
        k < wf.nodes@.len(),
    ensures
        run_matches(*wf, *final(st)),
        final(st).context == old(st).context,
        final(st).run_id == old(st).run_id,
        final(st).workflow_id == old(st).workflow_id,
        match res {
            Err(e) => resolve_task_spec(wf.nodes@[k as int], tasks@) == Err::<Option<TaskDefinition>, Seq<char>>(e@)
                && final(st).node_states == old(st).node_states && final(st).status == old(st).status
                && final(st).failed_nodes == old(st).failed_nodes
                && final(st).pending_interventions == old(st).pending_interventions,
            Ok(events) => failure_handled(*wf, tasks@, *old(st), *final(st), k as int, attempt, error@, now, events@),
        },
{
    let node = &wf.nodes[k];
    let task = match resolve_task(node, tasks) {
        Ok(t) => t,
        Err(e) => {
            return Err(e);
        },
    };
    proof {
        assert(crate::workflow::schedule::opt_task(task) == match resolve_task_spec(*node, tasks@) {
            Ok(t) => t,
            Err(_) => None,
        });
    }
    let retry = effective_retry_policy(wf, node, task);
    let policy = effective_failure_policy(wf, node, task);
    let d = failure_decision(attempt, retry, policy);
    let node_id = st.node_states[k].node_id.clone();
    let ghost before = st.node_states@;
    let n = st.node_states.remove(k);
    let completed_at = if d == FailureDecision::Retry {
        n.completed_at
    } else {
        Some(now)
    };
    let status = crate::workflow::schedule::node_status_after_failure(d);
    let updated = NodeRunState {
        node_id: n.node_id,
        status,
        attempts: n.attempts,
        started_at: n.started_at,
        completed_at,
        last_error: Some(error.clone()),
        output_key: n.output_key,
        output: n.output,
        activated_incoming: n.activated_incoming,
        session_id: n.session_id,
    };
    st.node_states.insert(k, updated);
    proof {
        assert(st.node_states@ =~= before.update(k as int, st.node_states@[k as int]));
        assert forall|j: int| 0 <= j < wf.nodes@.len() implies (#[trigger] st.node_states@[j]).node_id@ == wf.node_ids()[j] by {
            assert(before[j].node_id@ == wf.node_ids()[j]);
        }
    }
    let mut events: Vec<WorkflowEvent> = Vec::new();
    match d {
        FailureDecision::Retry => {
            events.push(WorkflowEvent::NodeRetryScheduled { node_id, attempt, error });
        },
        FailureDecision::MarkFailed => {
            mark_failed(&mut st.failed_nodes, &node_id);
            events.push(WorkflowEvent::NodeFailed { node_id, error });
        },
        FailureDecision::FailWorkflow => {
            mark_failed(&mut st.failed_nodes, &node_id);
            st.status = WorkflowStatus::Failed;
            events.push(WorkflowEvent::NodeFailed { node_id, error });
            events.push(WorkflowEvent::WorkflowCompleted { run_id: st.run_id.clone(), status: WorkflowStatus::Failed });
        },
        FailureDecision::Pause => {
            let id = intervention_id(now);
            let request = InterventionRequest {
                id: id.clone(),
                workflow_id: st.workflow_id.clone(),
                run_id: st.run_id.clone(),
                node_id: node_id.clone(),
                prompt: failure_prompt(node_id.as_str(), attempt),
                reason: failure_reason(error.as_str()),
                response: None,
                status: InterventionStatus::Pending,
                created_at: now,
                resolved_at: None,
            };
            let ghost pending = st.pending_interventions@;
            st.pending_interventions.push(request);
            st.status = WorkflowStatus::Paused;
            events.push(WorkflowEvent::InterventionRequested { intervention_id: id, node_id, reason: error });
            proof {
                assert(st.pending_interventions@.drop_last() =~= pending);
            }
        },
    }
    Ok(events)
}

/// The events of a node that failed because the run paused for it: the
/// intervention it asked for (the first one still pending for the node),
/// then the pause with the error as its reason.
pub fn paused_failure_events(st: &WorkflowRunState, k: usize, error: String) -> (events: Vec<WorkflowEvent>)
    requires
        k < st.node_states@.len(),
    ensures
        ({
            let node_id = st.node_states@[k as int].node_id@;
            let found = exists|i: int|
                0 <= i < st.pending_interventions@.len() && #[trigger] st.pending_interventions@[i].node_id@ == node_id
                    && st.pending_interventions@[i].status == InterventionStatus::Pending;
            &&& events@.len() == (if found {
                2int
            } else {
                1int
            })
            &&& found ==> (events@[0] matches WorkflowEvent::InterventionRequested {
                intervention_id: i,
                node_id: n,
                reason: r,
            } && n@ == node_id && exists|j: int|
                0 <= j < st.pending_interventions@.len() && (#[trigger] st.pending_interventions@[j]).id@ == i@
                    && st.pending_interventions@[j].node_id@ == node_id && st.pending_interventions@[j].status
                    == InterventionStatus::Pending && st.pending_interventions@[j].reason@ == r@ && forall|m: int|
                    0 <= m < j ==> !(st.pending_interventions@[m].node_id@ == node_id
                        && st.pending_interventions@[m].status == InterventionStatus::Pending))
            &&& events@.last() matches WorkflowEvent::WorkflowPaused { run_id, reason } && run_id@ == st.run_id@
                && reason == error
        }),
{
    let node_id = st.node_states[k].node_id.as_str();
    let mut events: Vec<WorkflowEvent> = Vec::new();
    let mut i: usize = 0;
    let mut found = false;
    while i < st.pending_interventions.len() && !found
        invariant
            i <= st.pending_interventions@.len(),
            k < st.node_states@.len(),
            node_id@ == st.node_states@[k as int].node_id@,
            found ==> i < st.pending_interventions@.len() && st.pending_interventions@[i as int].node_id@ == node_id@
                && st.pending_interventions@[i as int].status == InterventionStatus::Pending,
            forall|m: int|
                0 <= m < i ==> !(#[trigger] st.pending_interventions@[m].node_id@ == node_id@
                    && st.pending_interventions@[m].status == InterventionStatus::Pending),
        decreases st.pending_interventions@.len() - i, if found { 0int } else { 1int },
    {
        let r = &st.pending_interventions[i];
        if str_eq(r.node_id.as_str(), node_id) && r.status == InterventionStatus::Pending {
            found = true;
        } else {
            i = i + 1;
        }
    }
    if found {
        let r = &st.pending_interventions[i];
        events.push(
            WorkflowEvent::InterventionRequested {
                intervention_id: r.id.clone(),
                node_id: r.node_id.clone(),
                reason: r.reason.clone(),
            },
        );
    }
    events.push(WorkflowEvent::WorkflowPaused { run_id: st.run_id.clone(), reason: error });
    events
}


/// `{"approved": .., "response": ..}`: a human gate's answer, approved when
/// the text counts as yes.
pub open spec fn is_gate_output(v: JsonValue, response: Seq<char>) -> bool {
    &&& v matches JsonValue::Object(es)
    &&& es@.len() == 2
    &&& es@[0].0@ == "approved"@ && es@[0].1 == JsonValue::Bool(crate::workflow::rules::text_truthy(response))
    &&& es@[1].0@ == "response"@ && (es@[1].1 matches JsonValue::String(r) && r@ == response)
}

pub fn gate_output(response: String) -> (v: JsonValue)
    ensures
        is_gate_output(v, response@),
{
    let approved = crate::workflow::rules::string_truthy(response.as_str());
    let mut es: Vec<(String, JsonValue)> = Vec::new();
    es.push(("approved".to_owned(), JsonValue::Bool(approved)));
    es.push(("response".to_owned(), JsonValue::String(response)));
    JsonValue::Object(es)
}

/// The answer a human gate already got: the first resolved intervention for
/// the node, if any.
pub open spec fn resolved_for(reqs: Seq<InterventionRequest>, node_id: Seq<char>, i: int) -> bool {
    0 <= i < reqs.len() && reqs[i].node_id@ == node_id && reqs[i].status == InterventionStatus::Resolved
}

/// A human gate at node `k`: with an answer already given, its output;
/// otherwise it asks for one at `now` (the node and the run pause) and the
/// node ends with an error.
pub fn human_gate(wf: &WorkflowDefinition, st: &mut WorkflowRunState, k: usize, prompt: &str, now: u128) -> (res: Result<
    JsonValue,
    String,
>)
    requires
        run_matches(*wf, *old(st)),
        k < wf.nodes@.len(),
    ensures
        run_matches(*wf, *final(st)),
        final(st).context == old(st).context,
        final(st).failed_nodes == old(st).failed_nodes,
        final(st).run_id == old(st).run_id,
        final(st).workflow_id == old(st).workflow_id,
        ({
            let node_id = old(st).node_states@[k as int].node_id@;
            let reqs = old(st).pending_interventions@;
            match res {
                Ok(v) => exists|i: int|
                    #[trigger] resolved_for(reqs, node_id, i) && (forall|j: int| 0 <= j < i ==> !resolved_for(reqs, node_id, j))
                        && is_gate_output(
                        v,
                        match reqs[i].response {
                            Some(r) => r@,
                            None => Seq::empty(),
                        },
                    ) && final(st).node_states == old(st).node_states && final(st).status == old(st).status
                        && final(st).pending_interventions == old(st).pending_interventions,
                Err(e) => {
                    &&& forall|i: int| !resolved_for(reqs, node_id, i)
                    &&& e@ == "Human intervention required"@
                    &&& final(st).status == WorkflowStatus::Paused
                    &&& final(st).node_states@[k as int].status == NodeStatus::Paused
                    &&& forall|j: int| 0 <= j < wf.nodes@.len() && j != k ==> final(st).node_states@[j] == old(st).node_states@[j]
                    &&& final(st).pending_interventions@.drop_last() == reqs
                    &&& ({
                        let r = final(st).pending_interventions@.last();
                        &&& final(st).pending_interventions@.len() == reqs.len() + 1
                        &&& r.id@ == "int-"@ + decimal(now as nat)
                        &&& r.workflow_id@ == old(st).workflow_id@ && r.run_id@ == old(st).run_id@
                        &&& r.node_id@ == node_id && r.prompt@ == prompt@ && r.reason@ == "human_gate"@
                        &&& r.response is None && r.status == InterventionStatus::Pending
                        &&& r.created_at == now && r.resolved_at is None
                    })
                },
            }
        }),
{
    let node_id = st.node_states[k].node_id.clone();
    let mut i: usize = 0;
    while i < st.pending_interventions.len()
        invariant
            i <= st.pending_interventions@.len(),
            st.pending_interventions == old(st).pending_interventions,
            st.node_states == old(st).node_states,
            run_matches(*wf, *st),
            k < wf.nodes@.len(),
            st.failed_nodes == old(st).failed_nodes,
            st.context == old(st).context,
            st.status == old(st).status,
            st.run_id == old(st).run_id,
            st.workflow_id == old(st).workflow_id,
            k < st.node_states@.len(),
            node_id@ == st.node_states@[k as int].node_id@,
            forall|j: int| 0 <= j < i ==> !resolved_for(st.pending_interventions@, node_id@, j),
        decreases st.pending_interventions@.len() - i,
    {
        let r = &st.pending_interventions[i];
        if str_eq(r.node_id.as_str(), node_id.as_str()) && r.status == InterventionStatus::Resolved {
            let response = match &r.response {
                Some(t) => t.clone(),
                None => String::new(),
            };
            let v = gate_output(response);
            proof {
                assert(resolved_for(st.pending_interventions@, node_id@, i as int));
            }
            return Ok(v);
        }
        i = i + 1;
    }
    let request = InterventionRequest {
        id: intervention_id(now),
        workflow_id: st.workflow_id.clone(),
        run_id: st.run_id.clone(),
        node_id: node_id.clone(),
        prompt: prompt.to_owned(),
        reason: "human_gate".to_owned(),
        response: None,
        status: InterventionStatus::Pending,
        created_at: now,
        resolved_at: None,
    };
    let ghost reqs = st.pending_interventions@;
    st.pending_interventions.push(request);
    let ghost before = st.node_states@;
    let n = st.node_states.remove(k);
    let updated = NodeRunState {
        node_id: n.node_id,
        status: NodeStatus::Paused,
        attempts: n.attempts,
        started_at: n.started_at,
        completed_at: n.completed_at,
        last_error: n.last_error,
        output_key: n.output_key,
        output: n.output,
        activated_incoming: n.activated_incoming,
        session_id: n.session_id,
    };
    st.node_states.insert(k, updated);
    st.status = WorkflowStatus::Paused;
    proof {
        assert(st.pending_interventions@.drop_last() =~= reqs);
        assert(st.node_states@ =~= before.update(k as int, st.node_states@[k as int]));
        assert forall|j: int| 0 <= j < wf.nodes@.len() implies (#[trigger] st.node_states@[j]).node_id@ == wf.node_ids()[j] by {
            assert(before[j].node_id@ == wf.node_ids()[j]);
        }
        assert forall|j: int| !resolved_for(reqs, node_id@, j) by {
            if 0 <= j < reqs.len() {
                assert(!resolved_for(reqs, node_id@, j));
            }
        }
    }
    Err("Human intervention required".to_owned())
}

/// A join node's output: `{"joined": [..]}` with the nodes whose edges into
/// it fired.
pub fn join_output(st: &WorkflowRunState, k: usize) -> (v: JsonValue)
    requires
        k < st.node_states@.len(),
    ensures
        v matches JsonValue::Object(es) && es@.len() == 1 && es@[0].0@ == "joined"@ && (es@[0].1 matches JsonValue::Array(
            items,
        ) && items@.len() == st.node_states@[k as int].activated_incoming@.len() && forall|i: int|
            0 <= i < items@.len() ==> (#[trigger] items@[i] matches JsonValue::String(s) && s@
                == st.node_states@[k as int].activated_incoming@[i]@)),
{
    let ids = &st.node_states[k].activated_incoming;
    let mut items: Vec<JsonValue> = Vec::new();
    let mut i: usize = 0;
    while i < ids.len()
        invariant
            i <= ids@.len(),
            k < st.node_states@.len(),
            *ids == st.node_states@[k as int].activated_incoming,
            items@.len() == i,
            forall|j: int| 0 <= j < i ==> (#[trigger] items@[j] matches JsonValue::String(s) && s@ == ids@[j]@),
        decreases ids@.len() - i,
    {
        items.push(JsonValue::String(ids[i].clone()));
        i = i + 1;
    }
    let mut es: Vec<(String, JsonValue)> = Vec::new();
    es.push(("joined".to_owned(), JsonValue::Array(items)));
    JsonValue::Object(es)
}

/// A decision node's output: `{"matched": ..}`.
pub fn decision_output(matched: bool) -> (v: JsonValue)
    ensures
        v matches JsonValue::Object(es) && es@.len() == 1 && es@[0].0@ == "matched"@ && es@[0].1
            == JsonValue::Bool(matched),
{
    let mut es: Vec<(String, JsonValue)> = Vec::new();
    es.push(("matched".to_owned(), JsonValue::Bool(matched)));
    JsonValue::Object(es)
}

/// A task's output when its run gave no value: what the agent said, who
/// answered, in which session and attempt.
pub fn task_fallback_output(content: String, agent_id: String, session_id: String, attempt: usize) -> (v: JsonValue)
    ensures
        v matches JsonValue::Object(es) && es@.len() == 4 && es@[0].0@ == "agent_id"@ && (es@[0].1 matches JsonValue::String(
            a,
        ) && a == agent_id) && es@[1].0@ == "attempt"@ && (es@[1].1 matches JsonValue::Number(n) && n@ == decimal(
            attempt as nat,
        )) && es@[2].0@ == "content"@ && (es@[2].1 matches JsonValue::String(c) && c == content) && es@[3].0@
            == "session_id"@ && (es@[3].1 matches JsonValue::String(s) && s == session_id),
{
    let mut es: Vec<(String, JsonValue)> = Vec::new();
    es.push(("agent_id".to_owned(), JsonValue::String(agent_id)));
    es.push(("attempt".to_owned(), JsonValue::Number(crate::text::usize_to_string(attempt))));
    es.push(("content".to_owned(), JsonValue::String(content)));
    es.push(("session_id".to_owned(), JsonValue::String(session_id)));
    JsonValue::Object(es)
}

/// What a task gets as input: with no bindings, the run's input (an empty
/// object when the context has none); otherwise an object with each alias
/// bound to the value at its path in the context (null when there is none).
pub fn task_input(task: &TaskDefinition, st: &WorkflowRunState) -> (v: JsonValue)
    ensures
        task.input_bindings@.len() == 0 ==> match field(st.context@, "input"@) {
            Some(i) => same_json(i, v),
            None => v matches JsonValue::Object(es) && es@.len() == 0,
        },
        task.input_bindings@.len() > 0 ==> (v matches JsonValue::Object(es) && es@.len() == task.input_bindings@.len()
            && forall|i: int|
            0 <= i < es@.len() ==> (#[trigger] es@[i]).0@ == task.input_bindings@[i].0@ && match context_lookup(
                st.context@,
                task.input_bindings@[i].1@,
            ) {
                Some(x) => same_json(x, es@[i].1),
                None => es@[i].1 is Null,
            }),
{
    if task.input_bindings.len() == 0 {
        return match get_field(&st.context, "input") {
            Some(i) => copy_json(i),
            None => JsonValue::Object(Vec::new()),
        };
    }
    let mut es: Vec<(String, JsonValue)> = Vec::new();
    let mut i: usize = 0;
    while i < task.input_bindings.len()
        invariant
            i <= task.input_bindings@.len(),
            es@.len() == i,
            forall|j: int|
                0 <= j < i ==> (#[trigger] es@[j]).0@ == task.input_bindings@[j].0@ && match context_lookup(
                    st.context@,
                    task.input_bindings@[j].1@,
                ) {
                    Some(x) => same_json(x, es@[j].1),
                    None => es@[j].1 is Null,
                },
        decreases task.input_bindings@.len() - i,
    {
        let (alias, path) = &task.input_bindings[i];
        let value = match lookup_path(&st.context, path.as_str()) {
            Some(x) => copy_json(x),
            None => JsonValue::Null,
        };
        es.push((alias.clone(), value));
        i = i + 1;
    }
    JsonValue::Object(es)
}

/// What a transform node gets: the value at its input key in the context
/// (null when there is none), or, without a key, the whole context.
pub fn transform_input(st: &WorkflowRunState, input_key: Option<&str>) -> (v: JsonValue)
    ensures
        match input_key {
            Some(key) => match context_lookup(st.context@, key@) {
                Some(x) => same_json(x, v),
                None => v is Null,
            },
            None => v matches JsonValue::Object(es) && es@.len() == st.context@.len() && same_entries(
                st.context@,
                es@,
                es@.len() as int,
            ),
        },
{
    match input_key {
        Some(key) => match lookup_path(&st.context, key) {
            Some(x) => copy_json(x),
            None => JsonValue::Null,
        },
        None => {
            let whole = crate::json::copy_entries_of(&st.context);
            JsonValue::Object(whole)
        },
    }
}

/// The built-in `extract_content` transform: an object's `content` value
/// (the object itself when it has none); any other value as it is.
pub fn extract_content(input: JsonValue) -> (v: JsonValue)
    ensures
        match input {
            JsonValue::Object(es) => match field(es@, "content"@) {
                Some(c) => v == c,
                None => v == input,
            },
            _ => v == input,
        },
{
    match input {
        JsonValue::Object(mut es) => match crate::json::find_field(&es, "content") {
            Some(i) => {
                let ghost before = es@;
                let (_, c) = es.remove(i);
                proof {
                    assert(c == before[i as int].1);
                }
                c
            },
            None => JsonValue::Object(es),
        },
        other => other,
    }
}


pub open spec fn response_text(r: InterventionRequest) -> Seq<char> {
    match r.response {
        Some(t) => t@,
        None => Seq::empty(),
    }
}

pub open spec fn response_view(r: InterventionRequest) -> Option<Seq<char>> {
    match r.response {
        Some(t) => Some(t@),
        None => None,
    }
}

/// What an answered intervention does to its node `k` (and the run): a
/// human gate completes with the answer as its output; a failure's answer
/// retries, skips, continues past or fails the node (see `action_effect`).
pub open spec fn resolution_applied(
    before: WorkflowRunState,
    after: WorkflowRunState,
    r: InterventionRequest,
    k: int,
    now: u128,
) -> bool {
    let b = before.node_states@[k];
    let a = after.node_states@[k];
    &&& forall|j: int| 0 <= j < before.node_states@.len() && j != k ==> after.node_states@[j] == before.node_states@[j]
    &&& a.node_id == b.node_id && a.attempts == b.attempts && a.started_at == b.started_at
    &&& a.output_key == b.output_key && a.session_id == b.session_id && a.activated_incoming == b.activated_incoming
    &&& if r.reason@ == "human_gate"@ {
        &&& a.status == NodeStatus::Completed
        &&& a.completed_at == Some(now)
        &&& a.last_error is None
        &&& a.output matches Some(o) && is_gate_output(o, response_text(r))
        &&& exists|c: JsonValue|
            #![trigger context_inserted(before.context@, after.context@, b.output_key@, c)]
            same_json(a.output->0, c) && context_inserted(before.context@, after.context@, b.output_key@, c)
        &&& after.status == before.status
        &&& after.failed_nodes == before.failed_nodes
    } else {
        let (node_status, run_status, failed) = action_effect_spec(intervention_action_spec(response_view(r)));
        &&& a.status == node_status
        &&& a.completed_at == (if node_status == NodeStatus::Pending {
            b.completed_at
        } else {
            Some(now)
        })
        &&& a.last_error == b.last_error && a.output == b.output
        &&& after.context == before.context
        &&& after.status == run_status
        &&& if failed {
            listed_once(string_views(before.failed_nodes@), string_views(after.failed_nodes@), b.node_id@)
        } else {
            after.failed_nodes == before.failed_nodes
        }
    }
}

/// Applies an answered intervention `r` at `now`. Its node must be one of the
/// workflow's.
pub fn apply_resolution(wf: &WorkflowDefinition, st: &mut WorkflowRunState, r: &InterventionRequest, now: u128) -> (res:
    Result<Vec<WorkflowEvent>, String>)
    requires
        run_matches(*wf, *old(st)),
    ensures
        final(st).pending_interventions == old(st).pending_interventions,
        final(st).run_id == old(st).run_id,
        final(st).workflow_id == old(st).workflow_id,
        match res {
            Err(e) => !wf.has_node(r.node_id@) && e@ == "Workflow node '"@ + r.node_id@ + "' not found."@,
            Ok(events) => {
                &&& run_matches(*wf, *final(st))
                &&& exists|k: int|
                    0 <= k < wf.nodes@.len() && wf.node_ids()[k] == r.node_id@ && (forall|j: int|
                        0 <= j < k ==> wf.node_ids()[j] != r.node_id@) && #[trigger] resolution_applied(
                        *old(st),
                        *final(st),
                        *r,
                        k,
                        now,
                    )
                &&& events@.len() >= 1
                &&& events@[0] matches WorkflowEvent::InterventionResolved { intervention_id: i, node_id: n } && i@
                    == r.id@ && n@ == r.node_id@
                &&& if r.reason@ == "human_gate"@ {
                    events@.len() == 2 && (events@[1] matches WorkflowEvent::NodeCompleted { node_id: n, output_key: o }
                        && n@ == r.node_id@)
                } else if intervention_action_spec(response_view(*r)) == InterventionAction::Skip {
                    events@.len() == 2 && (events@[1] matches WorkflowEvent::NodeSkipped { node_id: n } && n@ == r.node_id@)
                } else {
                    events@.len() == 1
                }
            },
        },
{
    let mut events: Vec<WorkflowEvent> = Vec::new();
    events.push(WorkflowEvent::InterventionResolved { intervention_id: r.id.clone(), node_id: r.node_id.clone() });
    let k = match crate::workflow::validate::node_index(wf, &r.node_id) {
        Some(k) => k,
        None => {
            return Err(cat3("Workflow node '", r.node_id.as_str(), "' not found."));
        },
    };
    proof {
        assert(st.node_states@[k as int].node_id@ == r.node_id@);
    }
    let ghost old_st = *st;
    if str_eq(r.reason.as_str(), "human_gate") {
        let response = match &r.response {
            Some(t) => t.clone(),
            None => String::new(),
        };
        let output = gate_output(response);
        let ev = complete_node(wf, st, k, output, now);
        events.push(ev);
        proof {
            assert(resolution_applied(old_st, *st, *r, k as int, now));
        }
        return Ok(events);
    }
    let action = intervention_action(
        match &r.response {
            Some(t) => Some(t.as_str()),
            None => None,
        },
    );
    let (node_status, run_status, failed) = action_effect(action);
    let ghost before = st.node_states@;
    let n = st.node_states.remove(k);
    let completed_at = if node_status == NodeStatus::Pending {
        n.completed_at
    } else {
        Some(now)
    };
    let updated = NodeRunState {
        node_id: n.node_id,
        status: node_status,
        attempts: n.attempts,
        started_at: n.started_at,
        completed_at,
        last_error: n.last_error,
        output_key: n.output_key,
        output: n.output,
        activated_incoming: n.activated_incoming,
        session_id: n.session_id,
    };
    let skip_event = if action == InterventionAction::Skip {
        Some(WorkflowEvent::NodeSkipped { node_id: updated.node_id.clone() })
    } else {
        None
    };
    let node_id = updated.node_id.clone();
    st.node_states.insert(k, updated);
    proof {
        assert(st.node_states@ =~= before.update(k as int, st.node_states@[k as int]));
        assert forall|j: int| 0 <= j < wf.nodes@.len() implies (#[trigger] st.node_states@[j]).node_id@ == wf.node_ids()[j] by {
            assert(before[j].node_id@ == wf.node_ids()[j]);
        }
    }
    if failed {
        mark_failed(&mut st.failed_nodes, &node_id);
    }
    st.status = run_status;
    if let Some(ev) = skip_event {
        events.push(ev);
    }
    proof {
        assert(resolution_applied(old_st, *st, *r, k as int, now));
    }
    Ok(events)
}

/// The first answered intervention, from index `i` on, whose node the
/// workflow does not have.
pub open spec fn first_unknown_resolution(wf: WorkflowDefinition, reqs: Seq<InterventionRequest>, i: int) -> Option<int>
    decreases reqs.len() - i,
{
    if i < 0 || i >= reqs.len() {
        None
    } else if !is_pending_request(reqs[i]) && !wf.has_node(reqs[i].node_id@) {
        Some(i)
    } else {
        first_unknown_resolution(wf, reqs, i + 1)
    }
}

/// Applies, in order, every intervention that got an answer (see
/// `apply_resolution`); the ones still waiting stay, in order.
pub fn apply_resolved_interventions(wf: &WorkflowDefinition, st: &mut WorkflowRunState, now: u128) -> (res: Result<
    Vec<WorkflowEvent>,
    (Vec<WorkflowEvent>, String),
>)
    requires
        run_matches(*wf, *old(st)),
    ensures
        final(st).run_id == old(st).run_id,
        final(st).workflow_id == old(st).workflow_id,
        (res is Ok) == (first_unknown_resolution(*wf, old(st).pending_interventions@, 0) is None),
        match res {
            Ok(events) => {
                &&& run_matches(*wf, *final(st))
                &&& final(st).pending_interventions@ == old(st).pending_interventions@.filter(
                    |r: InterventionRequest| is_pending_request(r),
                )
            },
            Err((events, e)) => {
                let i = first_unknown_resolution(*wf, old(st).pending_interventions@, 0)->0;
                let r = old(st).pending_interventions@[i];
                &&& e@ == "Workflow node '"@ + r.node_id@ + "' not found."@
                &&& events@.len() >= 1
                &&& events@.last() matches WorkflowEvent::InterventionResolved { intervention_id: id, node_id: n }
                    && id@ == r.id@ && n@ == r.node_id@
            },
        },
{
    let mut all: Vec<InterventionRequest> = Vec::new();
    std::mem::swap(&mut all, &mut st.pending_interventions);
    let ghost given = all@;
    let ghost pred = |r: InterventionRequest| is_pending_request(r);
    let mut remaining: Vec<InterventionRequest> = Vec::new();
    let mut events: Vec<WorkflowEvent> = Vec::new();
    let mut done: usize = 0;
    proof {
        assert(all@.len() == all.len());
    }
    while all.len() > 0
        invariant
            given.len() <= usize::MAX,
            run_matches(*wf, *st),
            st.run_id == old(st).run_id,
            st.workflow_id == old(st).workflow_id,
            given == old(st).pending_interventions@,
            done <= given.len(),
            first_unknown_resolution(*wf, given, 0) == first_unknown_resolution(*wf, given, done as int),
            all@ == given.skip(done as int),
            pred == (|r: InterventionRequest| is_pending_request(r)),
            remaining@ == given.take(done as int).filter(pred),
        decreases all@.len(),
    {
        let r = all.remove(0);
        proof {
            assert(r == given[done as int]);
            assert(all@ =~= given.skip(done + 1));
            assert(given.take(done + 1).drop_last() =~= given.take(done as int));
            assert(given.take(done + 1).last() == given[done as int]);
            reveal(Seq::filter);
        }
        if r.status == InterventionStatus::Pending {
            let ghost prev = remaining@;
            remaining.push(r);
            proof {
                assert(remaining@ =~= prev.push(given[done as int]));
            }
        } else {
            match apply_resolution(wf, st, &r, now) {
                Ok(mut evs) => {
                    events.append(&mut evs);
                },
                Err(e) => {
                    events.push(WorkflowEvent::InterventionResolved { intervention_id: r.id.clone(), node_id: r.node_id.clone() });
                    return Err((events, e));
                },
            }
        }
        done = done + 1;
    }
    proof {
        assert(given.take(given.len() as int) =~= given);
    }
    st.pending_interventions = remaining;
    Ok(events)
}


/// Reading back what was written: after `insert(key, value)`, looking up a
/// plain key (non-empty, without dots) finds the value.
pub proof fn law_context_read_after_write(
    before: Seq<(String, JsonValue)>,
    after: Seq<(String, JsonValue)>,
    key: Seq<char>,
    value: JsonValue,
)
    requires
        context_inserted(before, after, key, value),
        key.len() > 0,
        !key.contains('.'),
    ensures
        context_lookup(after, key) == Some(value),
{
    crate::text::lemma_char_index_from_bounds(key, '.', 0);
    assert(crate::workflow::rules::split_dots_from(key, 0) =~= seq![key]) by {
        if let Some(i) = crate::text::char_index_from(key, '.', 0) {
            assert(key[i] == '.');
        }
        assert(key.subrange(0, key.len() as int) =~= key);
    }
    crate::json::lemma_field_index_from(before, key, 0);
    crate::json::lemma_field_index_from(after, key, 0);
    match crate::json::field_index(before, key) {
        Some(i) => {
            if let Some(j) = crate::json::field_index(after, key) {
                if j < i {
                    assert(after[j] == before[j]);
                }
                if i < j {
                    assert(after[i].0@ == key);
                }
            }
        },
        None => {
            let n = before.len() as int;
            assert(after[n].0@ == key);
            if let Some(j) = crate::json::field_index(after, key) {
                if j < n {
                    assert(after[j] == after.drop_last()[j]);
                }
            }
        },
    }
    assert(seq![key].drop_first() =~= Seq::<Seq<char>>::empty());
}

} // verus!
