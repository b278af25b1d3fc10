//! Workflow definitions: tasks, nodes, edges, and the status values a run goes through.
use vstd::prelude::*;

verus! {

/// What a run does when a node has exhausted its attempts.
#[derive(Debug, Clone, Copy, PartialEq, Eq, Structural)]
pub enum WorkflowFailurePolicy {
    ContinueBestEffort,
    FailWorkflow,
    PauseForIntervention,
}

impl WorkflowFailurePolicy {
    /// The policy used when no node, task or workflow sets one.
    pub fn default_policy() -> (res: Self)
        ensures
            res == WorkflowFailurePolicy::ContinueBestEffort,
    {
        WorkflowFailurePolicy::ContinueBestEffort
    }
}

/// How many times a node may be attempted.
#[derive(Debug, Clone, Copy, PartialEq, Eq, Structural)]
pub struct RetryPolicy {
    pub max_attempts: usize,
}

impl RetryPolicy {
    /// The policy used when no node, task or workflow sets one: one attempt.
    pub fn default_policy() -> (res: Self)
        ensures
            res.max_attempts == 1,
    {
        RetryPolicy { max_attempts: 1 }
    }
}

/// The agent a task is sent to: one agent by id, or the single online agent
/// that has all the listed capabilities.
#[derive(Debug, Clone)]
pub enum TaskTarget {
    AgentId(String),
    Capabilities(Vec<String>),
}

#[derive(Debug, Clone)]
pub struct TaskDefinition {
    pub id: String,
    pub target: TaskTarget,
    pub prompt: String,
    /// Aliases and the context paths bound to them, in key order.
    pub input_bindings: Vec<(String, String)>,
    pub input_transform: Option<String>,
    pub output_transform: Option<String>,
    pub output_key: Option<String>,
    pub retry_policy: Option<RetryPolicy>,
    pub failure_policy: Option<WorkflowFailurePolicy>,
}

#[derive(Debug, Clone)]
pub enum WorkflowNodeKind {
    Task { task_id: Option<String>, task: Option<TaskDefinition> },
    Decision { condition: String },
    HumanGate { prompt: String },
    Transform { transform_id: String, input_key: Option<String> },
    Join,
}

#[derive(Debug, Clone)]
pub struct WorkflowNodeDefinition {
    pub id: String,
    pub kind: WorkflowNodeKind,
    pub output_key: Option<String>,
    pub retry_policy: Option<RetryPolicy>,
    pub failure_policy: Option<WorkflowFailurePolicy>,
}

#[derive(Debug, Clone)]
pub enum WorkflowEdgeTransition {
    Always,
    OnSuccess,
    OnFailure,
    Condition(String),
}

#[derive(Debug, Clone)]
pub struct WorkflowEdgeDefinition {
    pub from: String,
    pub to: String,
    pub transition: WorkflowEdgeTransition,
}

#[derive(Debug, Clone)]
pub struct WorkflowDefinition {
    pub id: String,
    pub name: String,
    pub nodes: Vec<WorkflowNodeDefinition>,
    pub edges: Vec<WorkflowEdgeDefinition>,
    pub retry_policy: Option<RetryPolicy>,
    pub failure_policy: Option<WorkflowFailurePolicy>,
}

impl WorkflowDefinition {
    /// The node ids, in declaration order.
    pub open spec fn node_ids(self) -> Seq<Seq<char>> {
        self.nodes@.map_values(|n: WorkflowNodeDefinition| n.id@)
    }

    pub open spec fn has_node(self, id: Seq<char>) -> bool {
        self.node_ids().contains(id)
    }

    /// There is an edge from `a` to `b`.
    pub open spec fn has_edge(self, a: Seq<char>, b: Seq<char>) -> bool {
        exists|e: int| 0 <= e < self.edges@.len() && #[trigger] self.edges@[e].from@ == a
            && self.edges@[e].to@ == b
    }

    /// Some edge ends at `id`.
    pub open spec fn has_incoming(self, id: Seq<char>) -> bool {
        exists|e: int| 0 <= e < self.edges@.len() && #[trigger] self.edges@[e].to@ == id
    }

    /// Every edge goes from a node of higher rank to one of strictly lower rank.
    pub open spec fn ranked_by(self, rank: spec_fn(Seq<char>) -> int) -> bool {
        forall|e: int|
            0 <= e < self.edges@.len() ==> rank(#[trigger] self.edges@[e].to@) < rank(
                self.edges@[e].from@,
            )
    }

    /// The edges admit a ranking that every edge strictly decreases: the graph has no cycle.
    pub open spec fn is_acyclic(self) -> bool {
        exists|rank: spec_fn(Seq<char>) -> int| #[trigger] self.ranked_by(rank)
    }

    /// `cycle` is a closed walk along edges: each id has an edge to the next,
    /// and the last has an edge back to the first.
    pub open spec fn is_cycle(self, cycle: Seq<Seq<char>>) -> bool {
        &&& cycle.len() > 0
        &&& forall|k: int| 0 <= k < cycle.len() - 1 ==> self.has_edge(#[trigger] cycle[k], cycle[k + 1])
        &&& self.has_edge(cycle.last(), cycle[0])
    }

    /// `id` lies on a cycle of the graph.
    pub open spec fn on_cycle(self, id: Seq<char>) -> bool {
        exists|cycle: Seq<Seq<char>>| self.is_cycle(cycle) && cycle[0] == id
    }
}

/// Where a node stands in a run.
#[derive(Debug, Clone, Copy, PartialEq, Eq, Structural)]
pub enum NodeStatus {
    Pending,
    Running,
    Completed,
    Failed,
    Skipped,
    Paused,
}

impl NodeStatus {
    pub open spec fn terminal(self) -> bool {
        self == NodeStatus::Completed || self == NodeStatus::Failed || self == NodeStatus::Skipped
    }

    /// Completed, failed and skipped nodes are finished.
    pub fn is_terminal(&self) -> (res: bool)
        ensures
            res == self.terminal(),
    {
        match self {
            NodeStatus::Completed | NodeStatus::Failed | NodeStatus::Skipped => true,
            _ => false,
        }
    }
}

#[derive(Debug, Clone, Copy, PartialEq, Eq, Structural)]
pub enum InterventionStatus {
    Pending,
    Resolved,
}

#[derive(Debug, Clone)]
pub struct InterventionRequest {
    pub id: String,
    pub workflow_id: String,
    pub run_id: String,
    pub node_id: String,
    pub prompt: String,
    pub reason: String,
    pub response: Option<String>,
    pub status: InterventionStatus,
    pub created_at: u128,
    pub resolved_at: Option<u128>,
}

#[derive(Debug, Clone, Copy, PartialEq, Eq, Structural)]
pub enum WorkflowStatus {
    Pending,
    Running,
    Paused,
    Failed,
    Completed,
    CompletedWithFailures,
}

impl WorkflowStatus {
    pub open spec fn finished(self) -> bool {
        self == WorkflowStatus::Failed || self == WorkflowStatus::Completed || self
            == WorkflowStatus::CompletedWithFailures
    }
}

/// What happened during a run, in the order it happened.
#[derive(Debug, Clone)]
pub enum WorkflowEvent {
    WorkflowStarted { workflow_id: String, run_id: String },
    NodeReady { node_id: String },
    NodeStarted { node_id: String, attempt: usize },
    NodeCompleted { node_id: String, output_key: String },
    NodeFailed { node_id: String, error: String },
    NodeRetryScheduled { node_id: String, attempt: usize, error: String },
    NodeSkipped { node_id: String },
    InterventionRequested { intervention_id: String, node_id: String, reason: String },
    InterventionResolved { intervention_id: String, node_id: String },
    WorkflowPaused { run_id: String, reason: String },
    WorkflowCompleted { run_id: String, status: WorkflowStatus },
}

} // verus!
