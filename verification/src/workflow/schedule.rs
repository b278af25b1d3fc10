//! The decisions a workflow run makes between node executions: which edges
//! fire, which nodes become ready, which are skipped, how a failure is handled,
//! and when the run is finished.
use crate::workflow::types::{
    NodeStatus, RetryPolicy, TaskDefinition, WorkflowDefinition, WorkflowEdgeTransition,
    WorkflowFailurePolicy, WorkflowNodeDefinition, WorkflowStatus,
};
use crate::workflow::validate::node_index;
use vstd::prelude::*;

verus! {

/// The node index of each edge's source and target.
pub struct EdgeIndex {
    pub from: Vec<usize>,
    pub to: Vec<usize>,
}

impl EdgeIndex {
    /// `self` resolves every edge of `wf` to the nodes its ids name.
    pub open spec fn resolves(&self, wf: WorkflowDefinition) -> bool {
        &&& self.from@.len() == wf.edges@.len()
        &&& self.to@.len() == wf.edges@.len()
        &&& forall|e: int|
            0 <= e < wf.edges@.len() ==> {
                &&& (#[trigger] self.from@[e] as int) < wf.nodes@.len()
                &&& (self.to@[e] as int) < wf.nodes@.len()
                &&& wf.node_ids()[self.from@[e] as int] == wf.edges@[e].from@
                &&& wf.node_ids()[self.to@[e] as int] == wf.edges@[e].to@
            }
    }
}

/// Resolves edge endpoints to node indices; `None` when an edge names an
/// unknown node.
pub fn index_edges(wf: &WorkflowDefinition) -> (res: Option<EdgeIndex>)
    ensures
        res matches Some(ix) ==> ix.resolves(*wf),
        res is None ==> exists|e: int|
            0 <= e < wf.edges@.len() && !(wf.has_node(#[trigger] wf.edges@[e].from@) && wf.has_node(
                wf.edges@[e].to@,
            )),
{
    let mut from: Vec<usize> = Vec::new();
    let mut to: Vec<usize> = Vec::new();
    let mut e: usize = 0;
    while e < wf.edges.len()
        invariant
            e <= wf.edges@.len(),
            from@.len() == e,
            to@.len() == e,
            forall|i: int|
                0 <= i < e ==> {
                    &&& (#[trigger] from@[i] as int) < wf.nodes@.len()
                    &&& (to@[i] as int) < wf.nodes@.len()
                    &&& wf.node_ids()[from@[i] as int] == wf.edges@[i].from@
                    &&& wf.node_ids()[to@[i] as int] == wf.edges@[i].to@
                },
        decreases wf.edges@.len() - e,
    {
        let a = node_index(wf, &wf.edges[e].from);
        let b = node_index(wf, &wf.edges[e].to);
        match (a, b) {
            (Some(a), Some(b)) => {
                let ghost pf = from@;
                let ghost pt = to@;
                from.push(a);
                to.push(b);
                proof {
                    assert forall|i: int| 0 <= i < e + 1 implies {
                        &&& (#[trigger] from@[i] as int) < wf.nodes@.len()
                        &&& (to@[i] as int) < wf.nodes@.len()
                        &&& wf.node_ids()[from@[i] as int] == wf.edges@[i].from@
                        &&& wf.node_ids()[to@[i] as int] == wf.edges@[i].to@
                    } by {
                        if i < e {
                            assert(from@[i] == pf[i] && to@[i] == pt[i]);
                        }
                    }
                }
            },
            _ => {
                return None;
            },
        }
        e = e + 1;
    }
    Some(EdgeIndex { from, to })
}

/// Whether an edge fires, given the status of its source and, for a
/// conditional edge, whether its condition holds.
pub open spec fn edge_active(t: WorkflowEdgeTransition, from: NodeStatus, cond: bool) -> bool {
    match t {
        WorkflowEdgeTransition::Always => from.terminal(),
        WorkflowEdgeTransition::OnSuccess => from == NodeStatus::Completed,
        WorkflowEdgeTransition::OnFailure => from == NodeStatus::Failed,
        WorkflowEdgeTransition::Condition(_) => from == NodeStatus::Completed && cond,
    }
}

pub fn edge_is_active(t: &WorkflowEdgeTransition, from: NodeStatus, cond: bool) -> (res: bool)
    ensures
        res == edge_active(*t, from, cond),
{
    match t {
        WorkflowEdgeTransition::Always => from.is_terminal(),
        WorkflowEdgeTransition::OnSuccess => from == NodeStatus::Completed,
        WorkflowEdgeTransition::OnFailure => from == NodeStatus::Failed,
        WorkflowEdgeTransition::Condition(_) => from == NodeStatus::Completed && cond,
    }
}

/// When each kind of edge fires, for every source status and condition
/// outcome: an `Always` edge as soon as its source has finished (completed,
/// failed or skipped), an `OnSuccess` edge only from a completed source, an
/// `OnFailure` edge only from a failed one, and a `Condition` edge from a
/// completed source whose condition holds.
pub proof fn law_edge_firing(from: NodeStatus, cond: bool, condition: String)
    ensures
        edge_active(WorkflowEdgeTransition::Always, from, cond) <==> (from == NodeStatus::Completed || from
            == NodeStatus::Failed || from == NodeStatus::Skipped),
        edge_active(WorkflowEdgeTransition::OnSuccess, from, cond) <==> from == NodeStatus::Completed,
        edge_active(WorkflowEdgeTransition::OnFailure, from, cond) <==> from == NodeStatus::Failed,
        edge_active(WorkflowEdgeTransition::Condition(condition), from, cond) <==> (from == NodeStatus::Completed
            && cond),
        from == NodeStatus::Pending || from == NodeStatus::Running || from == NodeStatus::Paused ==> !edge_active(
            WorkflowEdgeTransition::Always,
            from,
            cond,
        ),
{
}

/// The status of every node, the edge index, and one condition outcome per
/// edge line up with the workflow.
pub open spec fn run_shape(
    wf: WorkflowDefinition,
    ix: EdgeIndex,
    statuses: Seq<NodeStatus>,
    conds: Seq<bool>,
) -> bool {
    &&& ix.resolves(wf)
    &&& statuses.len() == wf.nodes@.len()
    &&& conds.len() == wf.edges@.len()
}

pub open spec fn has_incoming_idx(ix: EdgeIndex, k: int) -> bool {
    exists|e: int| 0 <= e < ix.to@.len() && #[trigger] ix.to@[e] as int == k
}

pub open spec fn incoming_all_terminal(ix: EdgeIndex, statuses: Seq<NodeStatus>, k: int) -> bool {
    forall|e: int|
        0 <= e < ix.to@.len() && #[trigger] ix.to@[e] as int == k ==> statuses[ix.from@[e] as int].terminal()
}

pub open spec fn incoming_some_active(
    wf: WorkflowDefinition,
    ix: EdgeIndex,
    statuses: Seq<NodeStatus>,
    conds: Seq<bool>,
    k: int,
) -> bool {
    exists|e: int|
        0 <= e < ix.to@.len() && #[trigger] ix.to@[e] as int == k && edge_active(
            wf.edges@[e].transition,
            statuses[ix.from@[e] as int],
            conds[e],
        )
}

/// A pending node is ready when nothing enters it, or when every node that
/// enters it is finished and at least one entering edge fired.
pub open spec fn is_ready(
    wf: WorkflowDefinition,
    ix: EdgeIndex,
    statuses: Seq<NodeStatus>,
    conds: Seq<bool>,
    k: int,
) -> bool {
    &&& statuses[k] == NodeStatus::Pending
    &&& (!has_incoming_idx(ix, k) || (incoming_all_terminal(ix, statuses, k) && incoming_some_active(
        wf,
        ix,
        statuses,
        conds,
        k,
    )))
}

/// A pending node is skipped when something enters it, every node that enters
/// it is finished, and no entering edge fired.
pub open spec fn should_skip(
    wf: WorkflowDefinition,
    ix: EdgeIndex,
    statuses: Seq<NodeStatus>,
    conds: Seq<bool>,
    k: int,
) -> bool {
    &&& statuses[k] == NodeStatus::Pending
    &&& has_incoming_idx(ix, k)
    &&& incoming_all_terminal(ix, statuses, k)
    &&& !incoming_some_active(wf, ix, statuses, conds, k)
}

/// A pending node whose entering nodes have all finished is either ready or
/// skipped, never both.
pub proof fn law_settled_node_ready_or_skipped(
    wf: WorkflowDefinition,
    ix: EdgeIndex,
    statuses: Seq<NodeStatus>,
    conds: Seq<bool>,
    k: int,
)
    requires
        statuses[k] == NodeStatus::Pending,
        incoming_all_terminal(ix, statuses, k),
    ensures
        is_ready(wf, ix, statuses, conds, k) != should_skip(wf, ix, statuses, conds, k),
{
}

/// The skip pass leaves the nodes before `k` as they were.
proof fn lemma_skip_pass_keeps_prefix(
    wf: WorkflowDefinition,
    ix: EdgeIndex,
    statuses: Seq<NodeStatus>,
    conds: Seq<bool>,
    k: int,
)
    requires
        0 <= k,
    ensures
        skip_pass(wf, ix, statuses, conds, k).len() == statuses.len(),
        forall|j: int| 0 <= j < k && j < statuses.len() ==> #[trigger] skip_pass(wf, ix, statuses, conds, k)[j]
            == statuses[j],
    decreases statuses.len() - k,
{
    if k < statuses.len() {
        let next = if should_skip(wf, ix, statuses, conds, k) {
            statuses.update(k, NodeStatus::Skipped)
        } else {
            statuses
        };
        lemma_skip_pass_keeps_prefix(wf, ix, next, conds, k + 1);
    }
}

/// When the skip pass changes nothing, no node from `k` on meets the skip condition.
proof fn lemma_unchanged_skip_pass(
    wf: WorkflowDefinition,
    ix: EdgeIndex,
    statuses: Seq<NodeStatus>,
    conds: Seq<bool>,
    k: int,
)
    requires
        0 <= k,
        skip_pass(wf, ix, statuses, conds, k) == statuses,
    ensures
        forall|j: int| k <= j < statuses.len() ==> !#[trigger] should_skip(wf, ix, statuses, conds, j),
    decreases statuses.len() - k,
{
    if k < statuses.len() {
        if should_skip(wf, ix, statuses, conds, k) {
            let next = statuses.update(k, NodeStatus::Skipped);
            lemma_skip_pass_keeps_prefix(wf, ix, next, conds, k + 1);
            assert(skip_pass(wf, ix, statuses, conds, k)[k] == NodeStatus::Skipped);
        } else {
            lemma_unchanged_skip_pass(wf, ix, statuses, conds, k + 1);
        }
    }
}

/// A pending node of highest rank among the first `n` nodes, if any is pending.
proof fn lemma_top_pending(statuses: Seq<NodeStatus>, r: spec_fn(int) -> int, n: int) -> (m: int)
    requires
        0 <= n <= statuses.len(),
        exists|i: int| 0 <= i < n && statuses[i] == NodeStatus::Pending,
    ensures
        0 <= m < n,
        statuses[m] == NodeStatus::Pending,
        forall|i: int| 0 <= i < n && statuses[i] == NodeStatus::Pending ==> r(i) <= r(m),
    decreases n,
{
    if exists|i: int| 0 <= i < n - 1 && statuses[i] == NodeStatus::Pending {
        let m0 = lemma_top_pending(statuses, r, n - 1);
        if statuses[n - 1] == NodeStatus::Pending && r(n - 1) > r(m0) {
            n - 1
        } else {
            m0
        }
    } else {
        n - 1
    }
}

/// A settled run of a workflow without cycles is finished: when no node is
/// running or paused, none is ready, and the skip pass skips none, every
/// node is completed, failed or skipped.
pub proof fn law_settled_run_is_finished(
    wf: WorkflowDefinition,
    ix: EdgeIndex,
    statuses: Seq<NodeStatus>,
    conds: Seq<bool>,
)
    requires
        ix.resolves(wf),
        wf.is_acyclic(),
        statuses.len() == wf.nodes@.len(),
        forall|k: int|
            0 <= k < statuses.len() ==> #[trigger] statuses[k] != NodeStatus::Running && statuses[k]
                != NodeStatus::Paused,
        forall|k: int| 0 <= k < statuses.len() ==> !#[trigger] is_ready(wf, ix, statuses, conds, k),
        skip_pass(wf, ix, statuses, conds, 0) == statuses,
    ensures
        forall|k: int| 0 <= k < statuses.len() ==> (#[trigger] statuses[k]).terminal(),
{
    lemma_unchanged_skip_pass(wf, ix, statuses, conds, 0);
    if exists|k: int| 0 <= k < statuses.len() && !(#[trigger] statuses[k]).terminal() {
        let k0 = choose|k: int| 0 <= k < statuses.len() && !(#[trigger] statuses[k]).terminal();
        assert(statuses[k0] == NodeStatus::Pending);
        let rank = choose|rank: spec_fn(Seq<char>) -> int| #[trigger] wf.ranked_by(rank);
        let r = |i: int| rank(wf.node_ids()[i]);
        let m = lemma_top_pending(statuses, r, statuses.len() as int);
        assert(incoming_all_terminal(ix, statuses, m)) by {
            assert forall|e: int| 0 <= e < ix.to@.len() && #[trigger] ix.to@[e] as int == m implies statuses[ix.from@[e] as int].terminal() by {
                let f = ix.from@[e] as int;
                assert(rank(wf.edges@[e].to@) < rank(wf.edges@[e].from@));
                assert(r(m) < r(f));
                assert(statuses[f] != NodeStatus::Running && statuses[f] != NodeStatus::Paused);
            }
        }
        law_settled_node_ready_or_skipped(wf, ix, statuses, conds, m);
        assert(!is_ready(wf, ix, statuses, conds, m));
        assert(!should_skip(wf, ix, statuses, conds, m));
    }
}

/// A node with no entering edge is ready as soon as it is pending, and is
/// never skipped.
pub proof fn law_source_node_ready(
    wf: WorkflowDefinition,
    ix: EdgeIndex,
    statuses: Seq<NodeStatus>,
    conds: Seq<bool>,
    k: int,
)
    requires
        statuses[k] == NodeStatus::Pending,
        !has_incoming_idx(ix, k),
    ensures
        is_ready(wf, ix, statuses, conds, k),
        !should_skip(wf, ix, statuses, conds, k),
{
}

/// Examines the edges entering node `k`: (every source finished, some edge fired).
fn inspect_incoming(
    wf: &WorkflowDefinition,
    ix: &EdgeIndex,
    statuses: &[NodeStatus],
    conds: &[bool],
    k: usize,
) -> (res: (bool, bool, bool))
    requires
        run_shape(*wf, *ix, statuses@, conds@),
        k < wf.nodes@.len(),
    ensures
        res.0 == has_incoming_idx(*ix, k as int),
        res.1 == incoming_all_terminal(*ix, statuses@, k as int),
        res.1 ==> res.2 == incoming_some_active(*wf, *ix, statuses@, conds@, k as int),
{
    let mut any = false;
    let mut all_terminal = true;
    let mut activated = false;
    let mut e: usize = 0;
    while e < ix.to.len()
        invariant
            run_shape(*wf, *ix, statuses@, conds@),
            e <= ix.to@.len(),
            any == exists|i: int| 0 <= i < e && #[trigger] ix.to@[i] as int == k,
            all_terminal == forall|i: int|
                0 <= i < e && #[trigger] ix.to@[i] as int == k ==> statuses@[ix.from@[i] as int].terminal(),
            activated == exists|i: int|
                0 <= i < e && #[trigger] ix.to@[i] as int == k && edge_active(
                    wf.edges@[i].transition,
                    statuses@[ix.from@[i] as int],
                    conds@[i],
                ),
        decreases ix.to@.len() - e,
    {
        if ix.to[e] == k {
            any = true;
            let from = statuses[ix.from[e]];
            if !from.is_terminal() {
                all_terminal = false;
            }
            if edge_is_active(&wf.edges[e].transition, from, conds[e]) {
                activated = true;
            }
        }
        e = e + 1;
    }
    (any, all_terminal, activated)
}

/// The nodes that can start now, in declaration order.
pub fn ready_nodes(wf: &WorkflowDefinition, ix: &EdgeIndex, statuses: &[NodeStatus], conds: &[bool]) -> (res:
    Vec<usize>)
    requires
        run_shape(*wf, *ix, statuses@, conds@),
    ensures
        forall|i: int, j: int| 0 <= i < j < res@.len() ==> res@[i] < res@[j],
        forall|i: int| 0 <= i < res@.len() ==> (res@[i] as int) < wf.nodes@.len(),
        forall|k: int|
            0 <= k < wf.nodes@.len() ==> (res@.contains(k as usize) <==> is_ready(
                *wf,
                *ix,
                statuses@,
                conds@,
                k,
            )),
{
    let mut ready: Vec<usize> = Vec::new();
    let mut k: usize = 0;
    while k < wf.nodes.len()
        invariant
            run_shape(*wf, *ix, statuses@, conds@),
            k <= wf.nodes@.len(),
            forall|i: int, j: int| 0 <= i < j < ready@.len() ==> ready@[i] < ready@[j],
            forall|i: int| 0 <= i < ready@.len() ==> (ready@[i] as int) < k,
            forall|m: int|
                0 <= m < k ==> (ready@.contains(m as usize) <==> is_ready(
                    *wf,
                    *ix,
                    statuses@,
                    conds@,
                    m,
                )),
        decreases wf.nodes@.len() - k,
    {
        let ghost prev = ready@;
        let mut push = false;
        if statuses[k] == NodeStatus::Pending {
            let (any, all_terminal, activated) = inspect_incoming(wf, ix, statuses, conds, k);
            push = !any || (all_terminal && activated);
        }
        assert(push == is_ready(*wf, *ix, statuses@, conds@, k as int));
        if push {
            ready.push(k);
        }
        proof {
            assert forall|m: int|
                0 <= m < k + 1 implies (ready@.contains(m as usize) <==> is_ready(
                *wf,
                *ix,
                statuses@,
                conds@,
                m,
            )) by {
                if ready@.contains(m as usize) {
                    let i = choose|i: int| 0 <= i < ready@.len() && ready@[i] == m as usize;
                    if i < prev.len() {
                        assert(prev[i] == m as usize);
                        assert(prev.contains(m as usize));
                    }
                }
                if m < k && prev.contains(m as usize) {
                    let i = choose|i: int| 0 <= i < prev.len() && prev[i] == m as usize;
                    assert(ready@[i] == m as usize);
                }
                if m == k && push {
                    assert(ready@[ready@.len() - 1] == k);
                }
                if m == k && prev.contains(m as usize) {
                    let i = choose|i: int| 0 <= i < prev.len() && prev[i] == m as usize;
                    assert(prev[i] < k);
                }
            }
        }
        k = k + 1;
    }
    ready
}

/// The statuses after the skip pass has examined nodes `k..`: each examined
/// node is skipped when it meets the skip condition given the statuses left
/// by the nodes examined before it.
pub open spec fn skip_pass(
    wf: WorkflowDefinition,
    ix: EdgeIndex,
    statuses: Seq<NodeStatus>,
    conds: Seq<bool>,
    k: int,
) -> Seq<NodeStatus>
    decreases statuses.len() - k,
{
    if k < 0 || k >= statuses.len() {
        statuses
    } else {
        let next = if should_skip(wf, ix, statuses, conds, k) {
            statuses.update(k, NodeStatus::Skipped)
        } else {
            statuses
        };
        skip_pass(wf, ix, next, conds, k + 1)
    }
}

/// Marks as skipped, in declaration order, each pending node whose entering
/// edges are all settled and none of which fired. Returns the skipped nodes.
pub fn skip_unreachable(
    wf: &WorkflowDefinition,
    ix: &EdgeIndex,
    statuses: &mut Vec<NodeStatus>,
    conds: &[bool],
) -> (skipped: Vec<usize>)
    requires
        run_shape(*wf, *ix, old(statuses)@, conds@),
    ensures
        final(statuses)@ == skip_pass(*wf, *ix, old(statuses)@, conds@, 0),
        final(statuses)@.len() == old(statuses)@.len(),
        forall|i: int, j: int| 0 <= i < j < skipped@.len() ==> skipped@[i] < skipped@[j],
        forall|i: int| 0 <= i < skipped@.len() ==> (skipped@[i] as int) < old(statuses)@.len(),
        forall|k: int|
            0 <= k < old(statuses)@.len() ==> (skipped@.contains(k as usize) <==> (old(statuses)@[k]
                != final(statuses)@[k])),
        forall|k: int|
            0 <= k < old(statuses)@.len() && old(statuses)@[k] != final(statuses)@[k] ==> old(
                statuses,
            )@[k] == NodeStatus::Pending && final(statuses)@[k] == NodeStatus::Skipped,
{
    let ghost given = statuses@;
    let mut skipped: Vec<usize> = Vec::new();
    let mut k: usize = 0;
    while k < statuses.len()
        invariant
            run_shape(*wf, *ix, statuses@, conds@),
            statuses@.len() == given.len(),
            k <= statuses@.len(),
            skip_pass(*wf, *ix, given, conds@, 0) == skip_pass(*wf, *ix, statuses@, conds@, k as int),
            forall|m: int| k <= m < statuses@.len() ==> statuses@[m] == given[m],
            forall|i: int, j: int| 0 <= i < j < skipped@.len() ==> skipped@[i] < skipped@[j],
            forall|i: int| 0 <= i < skipped@.len() ==> (skipped@[i] as int) < k,
            forall|m: int|
                0 <= m < k ==> (skipped@.contains(m as usize) <==> (given[m] != statuses@[m])),
            forall|m: int|
                0 <= m < given.len() && given[m] != statuses@[m] ==> given[m]
                    == NodeStatus::Pending && statuses@[m] == NodeStatus::Skipped,
        decreases statuses@.len() - k,
    {
        let mut skip = false;
        if statuses[k] == NodeStatus::Pending {
            let (any, all_terminal, activated) = inspect_incoming(wf, ix, statuses, conds, k);
            skip = any && all_terminal && !activated;
        }
        let ghost before = statuses@;
        assert(skip == should_skip(*wf, *ix, before, conds@, k as int));
        let ghost prev = skipped@;
        if skip {
            statuses.set(k, NodeStatus::Skipped);
            skipped.push(k);
        }
        proof {
            assert forall|m: int|
                0 <= m < k + 1 implies (skipped@.contains(m as usize) <==> (given[m]
                != statuses@[m])) by {
                if skipped@.contains(m as usize) {
                    let i = choose|i: int| 0 <= i < skipped@.len() && skipped@[i] == m as usize;
                    if i < prev.len() {
                        assert(prev[i] == m as usize);
                        assert(prev.contains(m as usize));
                    }
                }
                if m < k && prev.contains(m as usize) {
                    let i = choose|i: int| 0 <= i < prev.len() && prev[i] == m as usize;
                    assert(skipped@[i] == m as usize);
                }
                if m == k && skip {
                    assert(skipped@[skipped@.len() - 1] == k);
                }
                if m == k && prev.contains(m as usize) {
                    let i = choose|i: int| 0 <= i < prev.len() && prev[i] == m as usize;
                    assert(prev[i] < k);
                }
            }
        }
        k = k + 1;
    }
    skipped
}

/// The status a run settles in once no node is ready and none was skipped.
pub open spec fn settled_status(pending_intervention: bool, any_failed: bool) -> WorkflowStatus {
    if pending_intervention {
        WorkflowStatus::Paused
    } else if any_failed {
        WorkflowStatus::CompletedWithFailures
    } else {
        WorkflowStatus::Completed
    }
}

/// A quiescent run pauses while an intervention is pending, and otherwise
/// completes, with failures if any node failed.
pub fn finalize_status(pending_intervention: bool, failed_nodes: usize) -> (res: WorkflowStatus)
    ensures
        res == settled_status(pending_intervention, failed_nodes > 0),
{
    if pending_intervention {
        WorkflowStatus::Paused
    } else if failed_nodes == 0 {
        WorkflowStatus::Completed
    } else {
        WorkflowStatus::CompletedWithFailures
    }
}

/// What a run does with a node whose attempt failed.
#[derive(Debug, Clone, Copy, PartialEq, Eq, Structural)]
pub enum FailureDecision {
    /// Back to pending for another attempt.
    Retry,
    /// The node fails; the run goes on.
    MarkFailed,
    /// The node fails and so does the run.
    FailWorkflow,
    /// The node pauses and an intervention is requested.
    Pause,
}

pub open spec fn failure_decision_spec(
    attempt: usize,
    retry: RetryPolicy,
    policy: WorkflowFailurePolicy,
) -> FailureDecision {
    if attempt < retry.max_attempts {
        FailureDecision::Retry
    } else {
        match policy {
            WorkflowFailurePolicy::ContinueBestEffort => FailureDecision::MarkFailed,
            WorkflowFailurePolicy::FailWorkflow => FailureDecision::FailWorkflow,
            WorkflowFailurePolicy::PauseForIntervention => FailureDecision::Pause,
        }
    }
}

/// Retries while attempts remain, then applies the failure policy.
pub fn failure_decision(attempt: usize, retry: RetryPolicy, policy: WorkflowFailurePolicy) -> (res:
    FailureDecision)
    ensures
        res == failure_decision_spec(attempt, retry, policy),
{
    if attempt < retry.max_attempts {
        FailureDecision::Retry
    } else {
        match policy {
            WorkflowFailurePolicy::ContinueBestEffort => FailureDecision::MarkFailed,
            WorkflowFailurePolicy::FailWorkflow => FailureDecision::FailWorkflow,
            WorkflowFailurePolicy::PauseForIntervention => FailureDecision::Pause,
        }
    }
}

/// The node status a failure decision leaves behind.
pub open spec fn status_after_failure(d: FailureDecision) -> NodeStatus {
    match d {
        FailureDecision::Retry => NodeStatus::Pending,
        FailureDecision::MarkFailed => NodeStatus::Failed,
        FailureDecision::FailWorkflow => NodeStatus::Failed,
        FailureDecision::Pause => NodeStatus::Paused,
    }
}

pub fn node_status_after_failure(d: FailureDecision) -> (res: NodeStatus)
    ensures
        res == status_after_failure(d),
{
    match d {
        FailureDecision::Retry => NodeStatus::Pending,
        FailureDecision::MarkFailed => NodeStatus::Failed,
        FailureDecision::FailWorkflow => NodeStatus::Failed,
        FailureDecision::Pause => NodeStatus::Paused,
    }
}

pub open spec fn opt_task(task: Option<&TaskDefinition>) -> Option<TaskDefinition> {
    match task {
        Some(t) => Some(*t),
        None => None,
    }
}

/// The retry policy of the node, else of its task, else of the workflow, else one attempt.
pub open spec fn effective_retry_spec(
    wf: WorkflowDefinition,
    node: WorkflowNodeDefinition,
    task: Option<TaskDefinition>,
) -> RetryPolicy {
    match node.retry_policy {
        Some(p) => p,
        None => match task {
            Some(t) if t.retry_policy is Some => t.retry_policy->0,
            _ => match wf.retry_policy {
                Some(p) => p,
                None => RetryPolicy { max_attempts: 1 },
            },
        },
    }
}

/// Which retry and failure policies govern a node: the node's own when it
/// sets one; otherwise its task's when the task sets one, whatever the
/// workflow says; otherwise the workflow's; otherwise a single attempt and
/// continuing best effort.
pub proof fn law_effective_policies(
    wf: WorkflowDefinition,
    node: WorkflowNodeDefinition,
    task: Option<TaskDefinition>,
)
    ensures
        node.retry_policy is Some ==> effective_retry_spec(wf, node, task) == node.retry_policy->0,
        node.retry_policy is None && task is Some && task->0.retry_policy is Some ==> effective_retry_spec(
            wf,
            node,
            task,
        ) == task->0.retry_policy->0,
        node.retry_policy is None && (task is None || task->0.retry_policy is None) && wf.retry_policy is Some
            ==> effective_retry_spec(wf, node, task) == wf.retry_policy->0,
        node.retry_policy is None && (task is None || task->0.retry_policy is None) && wf.retry_policy is None
            ==> effective_retry_spec(wf, node, task).max_attempts == 1,
        node.failure_policy is Some ==> effective_failure_spec(wf, node, task) == node.failure_policy->0,
        node.failure_policy is None && task is Some && task->0.failure_policy is Some ==> effective_failure_spec(
            wf,
            node,
            task,
        ) == task->0.failure_policy->0,
        node.failure_policy is None && (task is None || task->0.failure_policy is None) && wf.failure_policy is Some
            ==> effective_failure_spec(wf, node, task) == wf.failure_policy->0,
        node.failure_policy is None && (task is None || task->0.failure_policy is None) && wf.failure_policy is None
            ==> effective_failure_spec(wf, node, task) == WorkflowFailurePolicy::ContinueBestEffort,
{
}

pub fn effective_retry_policy(
    wf: &WorkflowDefinition,
    node: &WorkflowNodeDefinition,
    task: Option<&TaskDefinition>,
) -> (res: RetryPolicy)
    ensures
        res == effective_retry_spec(*wf, *node, opt_task(task)),
{
    if let Some(p) = node.retry_policy {
        return p;
    }
    if let Some(t) = task {
        if let Some(p) = t.retry_policy {
            return p;
        }
    }
    match wf.retry_policy {
        Some(p) => p,
        None => RetryPolicy::default_policy(),
    }
}

/// The failure policy of the node, else of its task, else of the workflow,
/// else continue best effort.
pub open spec fn effective_failure_spec(
    wf: WorkflowDefinition,
    node: WorkflowNodeDefinition,
    task: Option<TaskDefinition>,
) -> WorkflowFailurePolicy {
    match node.failure_policy {
        Some(p) => p,
        None => match task {
            Some(t) if t.failure_policy is Some => t.failure_policy->0,
            _ => match wf.failure_policy {
                Some(p) => p,
                None => WorkflowFailurePolicy::ContinueBestEffort,
            },
        },
    }
}

pub fn effective_failure_policy(
    wf: &WorkflowDefinition,
    node: &WorkflowNodeDefinition,
    task: Option<&TaskDefinition>,
) -> (res: WorkflowFailurePolicy)
    ensures
        res == effective_failure_spec(*wf, *node, opt_task(task)),
{
    if let Some(p) = node.failure_policy {
        return p;
    }
    if let Some(t) = task {
        if let Some(p) = t.failure_policy {
            return p;
        }
    }
    match wf.failure_policy {
        Some(p) => p,
        None => WorkflowFailurePolicy::default_policy(),
    }
}

/// The context key a node writes: the node's own key, else its task's, else the node id.
pub open spec fn output_key_spec(node: WorkflowNodeDefinition, task: Option<TaskDefinition>) -> Seq<char> {
    match node.output_key {
        Some(k) => k@,
        None => match task {
            Some(t) if t.output_key is Some => t.output_key->0@,
            _ => node.id@,
        },
    }
}

pub fn output_key_for(node: &WorkflowNodeDefinition, task: Option<&TaskDefinition>) -> (res: String)
    ensures
        res@ == output_key_spec(*node, opt_task(task)),
{
    if let Some(k) = &node.output_key {
        return k.clone();
    }
    if let Some(t) = task {
        if let Some(k) = &t.output_key {
            return k.clone();
        }
    }
    node.id.clone()
}

} // verus!
