//! Checks that a workflow definition can be run: unique node ids, resolvable
//! tasks and transforms, well-formed nodes, edges between known nodes, joins
//! with inputs, and no cycle.
use crate::text::{cat3, cat5, cat7, concat_all, is_blank, string_views, trim_seq};
use crate::workflow::graph::{
    adj_edge, adj_view, find_cycle, first_cycle_node, is_index_cycle, lemma_cycle_unranked, ranks_edges,
    well_formed_adj,
};
use crate::workflow::types::{
    TaskDefinition, TaskTarget, WorkflowDefinition, WorkflowNodeDefinition, WorkflowNodeKind,
};
use vstd::prelude::*;

verus! {

/// The first reason, in checking order, for which a workflow is rejected.
/// Indices refer to `nodes` or `edges` of the workflow.
#[derive(Debug, Clone, Copy, PartialEq, Eq, Structural)]
pub enum WorkflowValidationError {
    DuplicateNode { node: usize },
    UnknownTask { node: usize },
    TaskAndInlineTask { node: usize },
    MissingTask { node: usize },
    EmptyTaskAgent { node: usize },
    EmptyTaskCapabilities { node: usize },
    EmptyCondition { node: usize },
    EmptyPrompt { node: usize },
    UnknownTransform { node: usize },
    UnknownEdgeNode { edge: usize },
    JoinWithoutIncoming { node: usize },
    Cycle { node: usize },
}


/// Why an inline task's target cannot be used, if it cannot.
pub open spec fn task_target_error(task: TaskDefinition, node: int) -> Option<WorkflowValidationError> {
    match task.target {
        TaskTarget::AgentId(agent) => if trim_seq(agent@).len() == 0 {
            Some(WorkflowValidationError::EmptyTaskAgent { node: node as usize })
        } else {
            None
        },
        TaskTarget::Capabilities(caps) => if caps@.len() == 0 {
            Some(WorkflowValidationError::EmptyTaskCapabilities { node: node as usize })
        } else {
            None
        },
    }
}

/// What is wrong with node `k` on its own (given the nodes before it), if anything.
pub open spec fn node_error(
    wf: WorkflowDefinition,
    k: int,
    tasks: Seq<Seq<char>>,
    transforms: Seq<Seq<char>>,
) -> Option<WorkflowValidationError> {
    let ids = wf.node_ids();
    let node = k as usize;
    if exists|j: int| 0 <= j < k && ids[j] == ids[k] {
        Some(WorkflowValidationError::DuplicateNode { node })
    } else {
        match wf.nodes@[k].kind {
            WorkflowNodeKind::Task { task_id, task } => match (task_id, task) {
                (Some(id), None) => if tasks.contains(id@) {
                    None
                } else {
                    Some(WorkflowValidationError::UnknownTask { node })
                },
                (None, Some(t)) => task_target_error(t, k),
                (Some(_), Some(_)) => Some(WorkflowValidationError::TaskAndInlineTask { node }),
                (None, None) => Some(WorkflowValidationError::MissingTask { node }),
            },
            WorkflowNodeKind::Decision { condition } => if trim_seq(condition@).len() == 0 {
                Some(WorkflowValidationError::EmptyCondition { node })
            } else {
                None
            },
            WorkflowNodeKind::HumanGate { prompt } => if trim_seq(prompt@).len() == 0 {
                Some(WorkflowValidationError::EmptyPrompt { node })
            } else {
                None
            },
            WorkflowNodeKind::Transform { transform_id, input_key } => if transforms.contains(
                transform_id@,
            ) {
                None
            } else {
                Some(WorkflowValidationError::UnknownTransform { node })
            },
            WorkflowNodeKind::Join => None,
        }
    }
}

/// The first node error at index `k` or later.
pub open spec fn first_node_error(
    wf: WorkflowDefinition,
    k: int,
    tasks: Seq<Seq<char>>,
    transforms: Seq<Seq<char>>,
) -> Option<WorkflowValidationError>
    decreases wf.nodes@.len() - k,
{
    if k < 0 || k >= wf.nodes@.len() {
        None
    } else {
        match node_error(wf, k, tasks, transforms) {
            Some(e) => Some(e),
            None => first_node_error(wf, k + 1, tasks, transforms),
        }
    }
}

/// The first edge at index `e` or later that names a node the workflow lacks.
pub open spec fn first_edge_error(wf: WorkflowDefinition, e: int) -> Option<WorkflowValidationError>
    decreases wf.edges@.len() - e,
{
    if e < 0 || e >= wf.edges@.len() {
        None
    } else if !wf.has_node(wf.edges@[e].from@) || !wf.has_node(wf.edges@[e].to@) {
        Some(WorkflowValidationError::UnknownEdgeNode { edge: e as usize })
    } else {
        first_edge_error(wf, e + 1)
    }
}

/// The first join node at index `k` or later that no edge enters.
pub open spec fn first_join_error(wf: WorkflowDefinition, k: int) -> Option<WorkflowValidationError>
    decreases wf.nodes@.len() - k,
{
    if k < 0 || k >= wf.nodes@.len() {
        None
    } else if wf.nodes@[k].kind is Join && !wf.has_incoming(wf.nodes@[k].id@) {
        Some(WorkflowValidationError::JoinWithoutIncoming { node: k as usize })
    } else {
        first_join_error(wf, k + 1)
    }
}

/// The first error found by the checks that precede cycle detection, in order:
/// nodes, then edges, then joins.
pub open spec fn structural_error(
    wf: WorkflowDefinition,
    tasks: Seq<Seq<char>>,
    transforms: Seq<Seq<char>>,
) -> Option<WorkflowValidationError> {
    match first_node_error(wf, 0, tasks, transforms) {
        Some(e) => Some(e),
        None => match first_edge_error(wf, 0) {
            Some(e) => Some(e),
            None => first_join_error(wf, 0),
        },
    }
}

/// Every edge starts and ends at a node of the workflow.
pub open spec fn edges_known(wf: WorkflowDefinition) -> bool {
    forall|i: int|
        0 <= i < wf.edges@.len() ==> wf.has_node(#[trigger] wf.edges@[i].from@) && wf.has_node(
            wf.edges@[i].to@,
        )
}

pub open spec fn unique_ids(ids: Seq<Seq<char>>) -> bool {
    forall|i: int, j: int| 0 <= i < ids.len() && 0 <= j < ids.len() && i != j ==> ids[i] != ids[j]
}

/// Whether `list` holds a string equal to `s`.
pub fn contains_string(list: &[String], s: &String) -> (res: bool)
    ensures
        res == string_views(list@).contains(s@),
{
    let mut i: usize = 0;
    while i < list.len()
        invariant
            i <= list@.len(),
            forall|k: int| 0 <= k < i ==> list@[k]@ != s@,
        decreases list@.len() - i,
    {
        if list[i] == *s {
            assert(string_views(list@)[i as int] == s@);
            return true;
        }
        i = i + 1;
    }
    proof {
        if string_views(list@).contains(s@) {
            let k = choose|k: int| 0 <= k < string_views(list@).len() && string_views(list@)[k] == s@;
            assert(list@[k]@ == s@);
        }
    }
    false
}

/// The index of the first of `ids`, from the `j`-th on, equal to `s`, or
/// the length of `ids` if there is none.
pub open spec fn index_from(ids: Seq<Seq<char>>, s: Seq<char>, j: int) -> int
    decreases ids.len() - j,
{
    if j < 0 || j >= ids.len() {
        ids.len() as int
    } else if ids[j] == s {
        j
    } else {
        index_from(ids, s, j + 1)
    }
}

/// In edge order, the index of the target node of each of the first `e`
/// edges that leave node `a`.
pub open spec fn edge_targets(wf: WorkflowDefinition, a: int, e: int) -> Seq<usize>
    decreases e,
{
    if e <= 0 {
        Seq::empty()
    } else {
        let prev = edge_targets(wf, a, e - 1);
        let edge = wf.edges@[e - 1];
        if edge.from@ == wf.node_ids()[a] {
            prev.push(index_from(wf.node_ids(), edge.to@, 0) as usize)
        } else {
            prev
        }
    }
}

/// The node graph as adjacency lists: for each node, the targets of the
/// edges leaving it, in edge order.
pub open spec fn wf_adjacency(wf: WorkflowDefinition) -> Seq<Seq<usize>> {
    Seq::new(wf.nodes@.len(), |a: int| edge_targets(wf, a, wf.edges@.len() as int))
}

/// The index of the first node whose id is `id`.
pub fn node_index(wf: &WorkflowDefinition, id: &String) -> (res: Option<usize>)
    ensures
        match res {
            Some(k) => k < wf.nodes@.len() && wf.node_ids()[k as int] == id@ && forall|j: int|
                0 <= j < k ==> wf.node_ids()[j] != id@,
            None => !wf.has_node(id@),
        },
        res matches Some(k) ==> k as int == index_from(wf.node_ids(), id@, 0),
{
    let mut k: usize = 0;
    while k < wf.nodes.len()
        invariant
            k <= wf.nodes@.len(),
            forall|j: int| 0 <= j < k ==> wf.node_ids()[j] != id@,
            index_from(wf.node_ids(), id@, 0) == index_from(wf.node_ids(), id@, k as int),
        decreases wf.nodes@.len() - k,
    {
        if wf.nodes[k].id == *id {
            return Some(k);
        }
        k = k + 1;
    }
    proof {
        if wf.has_node(id@) {
            let j = choose|j: int| 0 <= j < wf.node_ids().len() && wf.node_ids()[j] == id@;
            assert(wf.node_ids()[j] == id@);
        }
    }
    None
}

fn check_node(
    wf: &WorkflowDefinition,
    k: usize,
    task_ids: &[String],
    transform_ids: &[String],
) -> (res: Option<WorkflowValidationError>)
    requires
        k < wf.nodes@.len(),
    ensures
        res == node_error(*wf, k as int, string_views(task_ids@), string_views(transform_ids@)),
{
    let mut j: usize = 0;
    while j < k
        invariant
            j <= k < wf.nodes@.len(),
            forall|i: int| 0 <= i < j ==> wf.node_ids()[i] != wf.node_ids()[k as int],
        decreases k - j,
    {
        if wf.nodes[j].id == wf.nodes[k].id {
            assert(wf.node_ids()[j as int] == wf.node_ids()[k as int]);
            return Some(WorkflowValidationError::DuplicateNode { node: k });
        }
        j = j + 1;
    }
    let node = &wf.nodes[k];
    match &node.kind {
        WorkflowNodeKind::Task { task_id, task } => match (task_id, task) {
            (Some(id), None) => {
                if contains_string(task_ids, id) {
                    None
                } else {
                    Some(WorkflowValidationError::UnknownTask { node: k })
                }
            },
            (None, Some(t)) => match &t.target {
                TaskTarget::AgentId(agent) => {
                    if is_blank(agent.as_str()) {
                        Some(WorkflowValidationError::EmptyTaskAgent { node: k })
                    } else {
                        None
                    }
                },
                TaskTarget::Capabilities(caps) => {
                    if caps.len() == 0 {
                        Some(WorkflowValidationError::EmptyTaskCapabilities { node: k })
                    } else {
                        None
                    }
                },
            },
            (Some(_), Some(_)) => Some(WorkflowValidationError::TaskAndInlineTask { node: k }),
            (None, None) => Some(WorkflowValidationError::MissingTask { node: k }),
        },
        WorkflowNodeKind::Decision { condition } => {
            if is_blank(condition.as_str()) {
                Some(WorkflowValidationError::EmptyCondition { node: k })
            } else {
                None
            }
        },
        WorkflowNodeKind::HumanGate { prompt } => {
            if is_blank(prompt.as_str()) {
                Some(WorkflowValidationError::EmptyPrompt { node: k })
            } else {
                None
            }
        },
        WorkflowNodeKind::Transform { transform_id, .. } => {
            if contains_string(transform_ids, transform_id) {
                None
            } else {
                Some(WorkflowValidationError::UnknownTransform { node: k })
            }
        },
        WorkflowNodeKind::Join => None,
    }
}

fn has_incoming_edge(wf: &WorkflowDefinition, id: &String) -> (res: bool)
    ensures
        res == wf.has_incoming(id@),
{
    let mut e: usize = 0;
    while e < wf.edges.len()
        invariant
            e <= wf.edges@.len(),
            forall|i: int| 0 <= i < e ==> wf.edges@[i].to@ != id@,
        decreases wf.edges@.len() - e,
    {
        if wf.edges[e].to == *id {
            return true;
        }
        e = e + 1;
    }
    false
}

/// The checks before cycle detection, in the order the runtime makes them.
pub fn check_structure(wf: &WorkflowDefinition, task_ids: &[String], transform_ids: &[String]) -> (res:
    Option<WorkflowValidationError>)
    ensures
        res == structural_error(*wf, string_views(task_ids@), string_views(transform_ids@)),
{
    let ghost tasks = string_views(task_ids@);
    let ghost transforms = string_views(transform_ids@);
    let n = wf.nodes.len();
    let mut k: usize = n;
    // Scan from the back so that the first error wins.
    let mut found: Option<WorkflowValidationError> = None;
    while k > 0
        invariant
            k <= n == wf.nodes@.len(),
            tasks == string_views(task_ids@),
            transforms == string_views(transform_ids@),
            found == first_node_error(*wf, k as int, tasks, transforms),
        decreases k,
    {
        k = k - 1;
        let r = check_node(wf, k, task_ids, transform_ids);
        assert(first_node_error(*wf, k as int, tasks, transforms) == match node_error(
            *wf,
            k as int,
            tasks,
            transforms,
        ) {
            Some(e) => Some(e),
            None => first_node_error(*wf, k + 1, tasks, transforms),
        });
        match r {
            Some(e) => {
                found = Some(e);
            },
            None => {},
        }
    }
    if found.is_some() {
        return found;
    }
    let m = wf.edges.len();
    let mut e: usize = 0;
    while e < m
        invariant
            e <= m == wf.edges@.len(),
            tasks == string_views(task_ids@),
            transforms == string_views(transform_ids@),
            first_node_error(*wf, 0, tasks, transforms) is None,
            first_edge_error(*wf, 0) == first_edge_error(*wf, e as int),
        decreases m - e,
    {
        let from_known = node_index(wf, &wf.edges[e].from).is_some();
        let to_known = node_index(wf, &wf.edges[e].to).is_some();
        if !from_known || !to_known {
            return Some(WorkflowValidationError::UnknownEdgeNode { edge: e });
        }
        e = e + 1;
    }
    let mut j: usize = 0;
    while j < n
        invariant
            j <= n == wf.nodes@.len(),
            tasks == string_views(task_ids@),
            transforms == string_views(transform_ids@),
            first_node_error(*wf, 0, tasks, transforms) is None,
            first_edge_error(*wf, 0) is None,
            first_join_error(*wf, 0) == first_join_error(*wf, j as int),
        decreases n - j,
    {
        let is_join = match &wf.nodes[j].kind {
            WorkflowNodeKind::Join => true,
            _ => false,
        };
        if is_join && !has_incoming_edge(wf, &wf.nodes[j].id) {
            return Some(WorkflowValidationError::JoinWithoutIncoming { node: j });
        }
        j = j + 1;
    }
    None
}

proof fn lemma_no_node_error_unique(
    wf: WorkflowDefinition,
    k: int,
    tasks: Seq<Seq<char>>,
    transforms: Seq<Seq<char>>,
)
    requires
        0 <= k <= wf.nodes@.len(),
        first_node_error(wf, k, tasks, transforms) is None,
    ensures
        forall|i: int, j: int|
            0 <= i < j && k <= j < wf.nodes@.len() ==> wf.node_ids()[i] != wf.node_ids()[j],
    decreases wf.nodes@.len() - k,
{
    if k < wf.nodes@.len() {
        lemma_no_node_error_unique(wf, k + 1, tasks, transforms);
        assert(node_error(wf, k, tasks, transforms) is None);
    }
}

proof fn lemma_edges_known(wf: WorkflowDefinition, e: int)
    requires
        0 <= e <= wf.edges@.len(),
        first_edge_error(wf, e) is None,
    ensures
        forall|i: int|
            e <= i < wf.edges@.len() ==> wf.has_node(#[trigger] wf.edges@[i].from@) && wf.has_node(
                wf.edges@[i].to@,
            ),
        e == 0 ==> edges_known(wf),
    decreases wf.edges@.len() - e,
{
    if e < wf.edges@.len() {
        lemma_edges_known(wf, e + 1);
    }
}

/// Edge `e` appears in the adjacency lists, from the index of its source to
/// the index of its target.
pub open spec fn edge_indexed(wf: WorkflowDefinition, adj: Seq<Vec<usize>>, e: int) -> bool {
    exists|a: int, b: int|
        0 <= a < wf.nodes@.len() && 0 <= b < wf.nodes@.len() && wf.node_ids()[a]
            == wf.edges@[e].from@ && wf.node_ids()[b] == wf.edges@[e].to@ && #[trigger] adj_edge(
            adj,
            a,
            b,
        )
}

/// The adjacency lists of the node graph: `adj[a]` holds, in edge order, the
/// index of the target of each edge leaving node `a`.
fn build_adjacency(wf: &WorkflowDefinition) -> (adj: Vec<Vec<usize>>)
    requires
        unique_ids(wf.node_ids()),
        edges_known(*wf),
    ensures
        adj@.len() == wf.nodes@.len(),
        well_formed_adj(adj@),
        forall|a: int, b: int|
            #[trigger] adj_edge(adj@, a, b) ==> wf.has_edge(wf.node_ids()[a], wf.node_ids()[b]),
        forall|e: int| 0 <= e < wf.edges@.len() ==> #[trigger] edge_indexed(*wf, adj@, e),
        adj_view(adj@) == wf_adjacency(*wf),
{
    let n = wf.nodes.len();
    let ghost ids = wf.node_ids();
    let mut adj: Vec<Vec<usize>> = Vec::new();
    let mut a: usize = 0;
    while a < n
        invariant
            n == wf.nodes@.len(),
            ids == wf.node_ids(),
            unique_ids(ids),
            edges_known(*wf),
            a <= n,
            adj@.len() == a,
            forall|x: int, k: int|
                0 <= x < a && 0 <= k < adj@[x]@.len() ==> (#[trigger] adj@[x]@[k] as int) < n,
            forall|x: int, b: int|
                0 <= x < a && #[trigger] adj_edge(adj@, x, b) ==> wf.has_edge(ids[x], ids[b]),
            forall|e: int|
                0 <= e < wf.edges@.len() && (exists|x: int| 0 <= x < a && ids[x]
                    == #[trigger] wf.edges@[e].from@) ==> exists|x: int, b: int|
                    0 <= x < a && 0 <= b < n && ids[x] == wf.edges@[e].from@ && ids[b]
                        == wf.edges@[e].to@ && adj_edge(adj@, x, b),
            forall|x: int| 0 <= x < a ==> #[trigger] adj@[x]@ == edge_targets(*wf, x, wf.edges@.len() as int),
        decreases n - a,
    {
        let mut children: Vec<usize> = Vec::new();
        let mut e: usize = 0;
        while e < wf.edges.len()
            invariant
                n == wf.nodes@.len(),
                ids == wf.node_ids(),
                a < n,
                e <= wf.edges@.len(),
                edges_known(*wf),
                forall|k: int|
                    0 <= k < children@.len() ==> (#[trigger] children@[k] as int) < n && wf.has_edge(
                        ids[a as int],
                        ids[children@[k] as int],
                    ),
                forall|i: int|
                    0 <= i < e && #[trigger] wf.edges@[i].from@ == ids[a as int] ==> exists|b: int,
                        k: int|
                        0 <= b < n && ids[b] == wf.edges@[i].to@ && 0 <= k < children@.len()
                            && children@[k] as int == b,
                children@ == edge_targets(*wf, a as int, e as int),
            decreases wf.edges@.len() - e,
        {
            if wf.edges[e].from == wf.nodes[a].id {
                let to = node_index(wf, &wf.edges[e].to);
                match to {
                    Some(b) => {
                        proof {
                            assert(wf.has_edge(ids[a as int], ids[b as int])) by {
                                assert(wf.edges@[e as int].from@ == ids[a as int]);
                            }
                        }
                        let ghost prev = children@;
                        children.push(b);
                        proof {
                            assert(wf.nodes@[a as int].id@ == ids[a as int]);
                            assert(children@ =~= edge_targets(*wf, a as int, e + 1));
                            assert forall|i: int|
                                0 <= i < e + 1 && #[trigger] wf.edges@[i].from@ == ids[a as int]
                                implies exists|bb: int, k: int|
                                0 <= bb < n && ids[bb] == wf.edges@[i].to@ && 0 <= k
                                    < children@.len() && children@[k] as int == bb by {
                                if i < e {
                                    let (bb, k) = choose|bb: int, k: int|
                                        0 <= bb < n && ids[bb] == wf.edges@[i].to@ && 0 <= k
                                            < prev.len() && prev[k] as int == bb;
                                    assert(children@[k] == prev[k]);
                                } else {
                                    assert(children@[children@.len() - 1] as int == b as int);
                                }
                            }
                        }
                    },
                    None => {
                        assert(wf.has_node(wf.edges@[e as int].to@));
                    },
                }
            }
            proof {
                if wf.edges@[e as int].from@ != ids[a as int] {
                    assert(wf.nodes@[a as int].id@ == ids[a as int]);
                    assert(children@ == edge_targets(*wf, a as int, e + 1));
                }
            }
            e = e + 1;
        }
        let ghost old_adj = adj@;
        adj.push(children);
        proof {
            assert forall|x: int, b: int|
                0 <= x < a + 1 && #[trigger] adj_edge(adj@, x, b) implies wf.has_edge(ids[x], ids[b]) by {
                let k = choose|k: int| 0 <= k < adj@[x]@.len() && #[trigger] adj@[x]@[k] as int == b;
                if x < a {
                    assert(adj_edge(old_adj, x, b));
                }
            }
            assert forall|e: int|
                0 <= e < wf.edges@.len() && (exists|x: int| 0 <= x < a + 1 && ids[x]
                    == #[trigger] wf.edges@[e].from@) implies exists|x: int, b: int|
                0 <= x < a + 1 && 0 <= b < n && ids[x] == wf.edges@[e].from@ && ids[b]
                    == wf.edges@[e].to@ && adj_edge(adj@, x, b) by {
                let x = choose|x: int| 0 <= x < a + 1 && ids[x] == wf.edges@[e].from@;
                if x < a {
                    let (x2, b) = choose|x2: int, b: int|
                        0 <= x2 < a && 0 <= b < n && ids[x2] == wf.edges@[e].from@ && ids[b]
                            == wf.edges@[e].to@ && adj_edge(old_adj, x2, b);
                    let k = choose|k: int| 0 <= k < old_adj[x2]@.len() && #[trigger] old_adj[x2]@[k] as int == b;
                    assert(adj@[x2]@[k] as int == b);
                    assert(adj_edge(adj@, x2, b));
                } else {
                    let (b, k) = choose|b: int, k: int|
                        0 <= b < n && ids[b] == wf.edges@[e].to@ && 0 <= k < children@.len()
                            && children@[k] as int == b;
                    assert(adj@[a as int]@[k] as int == b);
                    assert(adj_edge(adj@, a as int, b));
                }
            }
        }
        proof {
            assert forall|x: int| 0 <= x < a + 1 implies #[trigger] adj@[x]@ == edge_targets(
                *wf,
                x,
                wf.edges@.len() as int,
            ) by {
                if x < a {
                    assert(adj@[x] == old_adj[x]);
                }
            }
        }
        a = a + 1;
    }
    proof {
        assert(adj_view(adj@) =~= wf_adjacency(*wf));
        assert forall|e: int| 0 <= e < wf.edges@.len() implies #[trigger] edge_indexed(*wf, adj@, e) by {
            assert(wf.has_node(wf.edges@[e].from@));
            let x = choose|x: int| 0 <= x < ids.len() && ids[x] == wf.edges@[e].from@;
            assert(0 <= x < n && ids[x] == wf.edges@[e].from@);
            assert(exists|x: int| 0 <= x < n && ids[x] == #[trigger] wf.edges@[e].from@);
            let (x2, b) = choose|x2: int, b: int|
                0 <= x2 < n && 0 <= b < n && ids[x2] == wf.edges@[e].from@ && ids[b]
                    == wf.edges@[e].to@ && adj_edge(adj@, x2, b);
            assert(0 <= x2 < wf.nodes@.len() && 0 <= b < wf.nodes@.len() && wf.node_ids()[x2]
                == wf.edges@[e].from@ && wf.node_ids()[b] == wf.edges@[e].to@
                && adj_edge(adj@, x2, b));
        }
    }
    adj
}

/// The error names a node or an edge the workflow has.
pub open spec fn error_in_range(wf: WorkflowDefinition, e: WorkflowValidationError) -> bool {
    match e {
        WorkflowValidationError::UnknownEdgeNode { edge } => edge < wf.edges@.len(),
        WorkflowValidationError::DuplicateNode { node } => node < wf.nodes@.len(),
        WorkflowValidationError::UnknownTask { node } => node < wf.nodes@.len(),
        WorkflowValidationError::TaskAndInlineTask { node } => node < wf.nodes@.len(),
        WorkflowValidationError::MissingTask { node } => node < wf.nodes@.len(),
        WorkflowValidationError::EmptyTaskAgent { node } => node < wf.nodes@.len(),
        WorkflowValidationError::EmptyTaskCapabilities { node } => node < wf.nodes@.len(),
        WorkflowValidationError::EmptyCondition { node } => node < wf.nodes@.len(),
        WorkflowValidationError::EmptyPrompt { node } => node < wf.nodes@.len(),
        WorkflowValidationError::UnknownTransform { node } => node < wf.nodes@.len(),
        WorkflowValidationError::JoinWithoutIncoming { node } => node < wf.nodes@.len(),
        WorkflowValidationError::Cycle { node } => node < wf.nodes@.len(),
    }
}

/// The task id a task node names (empty when it names none).
pub open spec fn named_task(n: WorkflowNodeDefinition) -> Seq<char> {
    match n.kind {
        WorkflowNodeKind::Task { task_id: Some(t), .. } => t@,
        _ => Seq::empty(),
    }
}

/// The transform id a transform node names (empty for other nodes).
pub open spec fn named_transform(n: WorkflowNodeDefinition) -> Seq<char> {
    match n.kind {
        WorkflowNodeKind::Transform { transform_id, .. } => transform_id@,
        _ => Seq::empty(),
    }
}

/// The message a validation error is reported with.
pub open spec fn validation_message_spec(wf: WorkflowDefinition, e: WorkflowValidationError) -> Seq<char> {
    let w = wf.id@;
    match e {
        WorkflowValidationError::DuplicateNode { node } => "Workflow '"@ + w + "' has duplicate node '"@
            + wf.nodes@[node as int].id@ + "'."@,
        WorkflowValidationError::UnknownTask { node } => "Workflow '"@ + w + "' references unknown task '"@
            + named_task(wf.nodes@[node as int]) + "'."@,
        WorkflowValidationError::TaskAndInlineTask { node } => "Workflow '"@ + w + "' node '"@
            + wf.nodes@[node as int].id@ + "' cannot define both task_id and inline task."@,
        WorkflowValidationError::MissingTask { node } => "Workflow '"@ + w + "' node '"@
            + wf.nodes@[node as int].id@ + "' must define a task_id or inline task."@,
        WorkflowValidationError::EmptyTaskAgent { .. } => "Task target agent_id cannot be empty."@,
        WorkflowValidationError::EmptyTaskCapabilities { .. } => "Task target capabilities cannot be empty."@,
        WorkflowValidationError::EmptyCondition { node } => "Workflow '"@ + w + "' decision node '"@
            + wf.nodes@[node as int].id@ + "' must define a condition."@,
        WorkflowValidationError::EmptyPrompt { node } => "Workflow '"@ + w + "' human_gate node '"@
            + wf.nodes@[node as int].id@ + "' must define a prompt."@,
        WorkflowValidationError::UnknownTransform { node } => "Workflow '"@ + w + "' transform node '"@
            + wf.nodes@[node as int].id@ + "' references unknown transform '"@ + named_transform(
            wf.nodes@[node as int],
        ) + "'."@,
        WorkflowValidationError::UnknownEdgeNode { edge } => "Workflow '"@ + w + "' edge '"@
            + wf.edges@[edge as int].from@ + "' -> '"@ + wf.edges@[edge as int].to@
            + "' references an unknown node."@,
        WorkflowValidationError::JoinWithoutIncoming { node } => "Workflow '"@ + w + "' join node '"@
            + wf.nodes@[node as int].id@ + "' must have at least one incoming edge."@,
        WorkflowValidationError::Cycle { node } => "Workflow graph contains a cycle at node '"@
            + wf.nodes@[node as int].id@ + "'."@,
    }
}

/// The message a validation error of `wf` is reported with.
pub fn validation_message(wf: &WorkflowDefinition, e: WorkflowValidationError) -> (res: String)
    requires
        error_in_range(*wf, e),
    ensures
        res@ == validation_message_spec(*wf, e),
{
    let w = wf.id.as_str();
    match e {
        WorkflowValidationError::DuplicateNode { node } => cat5(
            "Workflow '",
            w,
            "' has duplicate node '",
            wf.nodes[node].id.as_str(),
            "'.",
        ),
        WorkflowValidationError::UnknownTask { node } => {
            let t = match &wf.nodes[node].kind {
                WorkflowNodeKind::Task { task_id: Some(t), .. } => t.as_str(),
                _ => "",
            };
            proof {
                reveal_strlit("");
            }
            cat5("Workflow '", w, "' references unknown task '", t, "'.")
        },
        WorkflowValidationError::TaskAndInlineTask { node } => cat5(
            "Workflow '",
            w,
            "' node '",
            wf.nodes[node].id.as_str(),
            "' cannot define both task_id and inline task.",
        ),
        WorkflowValidationError::MissingTask { node } => cat5(
            "Workflow '",
            w,
            "' node '",
            wf.nodes[node].id.as_str(),
            "' must define a task_id or inline task.",
        ),
        WorkflowValidationError::EmptyTaskAgent { .. } => "Task target agent_id cannot be empty.".to_owned(),
        WorkflowValidationError::EmptyTaskCapabilities { .. } => "Task target capabilities cannot be empty.".to_owned(),
        WorkflowValidationError::EmptyCondition { node } => cat5(
            "Workflow '",
            w,
            "' decision node '",
            wf.nodes[node].id.as_str(),
            "' must define a condition.",
        ),
        WorkflowValidationError::EmptyPrompt { node } => cat5(
            "Workflow '",
            w,
            "' human_gate node '",
            wf.nodes[node].id.as_str(),
            "' must define a prompt.",
        ),
        WorkflowValidationError::UnknownTransform { node } => {
            let t = match &wf.nodes[node].kind {
                WorkflowNodeKind::Transform { transform_id, .. } => transform_id.as_str(),
                _ => "",
            };
            proof {
                reveal_strlit("");
            }
            cat7(
                "Workflow '",
                w,
                "' transform node '",
                wf.nodes[node].id.as_str(),
                "' references unknown transform '",
                t,
                "'.",
            )
        },
        WorkflowValidationError::UnknownEdgeNode { edge } => cat7(
            "Workflow '",
            w,
            "' edge '",
            wf.edges[edge].from.as_str(),
            "' -> '",
            wf.edges[edge].to.as_str(),
            "' references an unknown node.",
        ),
        WorkflowValidationError::JoinWithoutIncoming { node } => cat5(
            "Workflow '",
            w,
            "' join node '",
            wf.nodes[node].id.as_str(),
            "' must have at least one incoming edge.",
        ),
        WorkflowValidationError::Cycle { node } => cat3(
            "Workflow graph contains a cycle at node '",
            wf.nodes[node].id.as_str(),
            "'.",
        ),
    }
}

/// Every error the structural checks report names a node or an edge the
/// workflow has.
proof fn lemma_structural_error_in_range(wf: WorkflowDefinition, tasks: Seq<Seq<char>>, transforms: Seq<Seq<char>>)
    ensures
        structural_error(wf, tasks, transforms) matches Some(e) ==> error_in_range(wf, e),
{
    lemma_node_errors_in_range(wf, 0, tasks, transforms);
    lemma_edge_errors_in_range(wf, 0);
    lemma_join_errors_in_range(wf, 0);
}

proof fn lemma_node_errors_in_range(wf: WorkflowDefinition, k: int, tasks: Seq<Seq<char>>, transforms: Seq<Seq<char>>)
    requires
        0 <= k,
    ensures
        first_node_error(wf, k, tasks, transforms) matches Some(e) ==> error_in_range(wf, e),
    decreases wf.nodes@.len() - k,
{
    if k < wf.nodes@.len() {
        lemma_node_errors_in_range(wf, k + 1, tasks, transforms);
    }
}

proof fn lemma_edge_errors_in_range(wf: WorkflowDefinition, e: int)
    requires
        0 <= e,
    ensures
        first_edge_error(wf, e) matches Some(x) ==> error_in_range(wf, x),
    decreases wf.edges@.len() - e,
{
    if e < wf.edges@.len() {
        lemma_edge_errors_in_range(wf, e + 1);
    }
}

proof fn lemma_join_errors_in_range(wf: WorkflowDefinition, k: int)
    requires
        0 <= k,
    ensures
        first_join_error(wf, k) matches Some(x) ==> error_in_range(wf, x),
    decreases wf.nodes@.len() - k,
{
    if k < wf.nodes@.len() {
        lemma_join_errors_in_range(wf, k + 1);
    }
}

/// The outcome of cycle detection on a structurally sound workflow: the
/// node at which the depth-first search first closes a cycle, if any.
pub open spec fn cycle_verdict(wf: WorkflowDefinition) -> Result<(), WorkflowValidationError> {
    match first_cycle_node(wf_adjacency(wf)) {
        Some(x) => Err(WorkflowValidationError::Cycle { node: x as usize }),
        None => Ok(()),
    }
}

/// Checks a workflow definition against the registered task and transform ids.
///
/// Structural errors are reported first, in checking order; when there is
/// none, the result is `Ok` exactly when the node graph has no cycle, and a
/// reported cycle names the node at which a depth-first search over the
/// nodes in order, following edges in order, first closes one (a node that
/// lies on a cycle).
pub fn validate_workflow(wf: &WorkflowDefinition, task_ids: &[String], transform_ids: &[String]) -> (res:
    Result<(), WorkflowValidationError>)
    ensures
        structural_error(*wf, string_views(task_ids@), string_views(transform_ids@)) matches Some(e) ==> res
            == Err::<(), WorkflowValidationError>(e),
        res matches Err(e) ==> error_in_range(*wf, e),
        structural_error(*wf, string_views(task_ids@), string_views(transform_ids@)) is None ==> {
            &&& (res is Ok <==> wf.is_acyclic())
            &&& res is Err ==> (res matches Err(WorkflowValidationError::Cycle { node })
                && node < wf.nodes@.len() && wf.on_cycle(wf.node_ids()[node as int]))
            &&& res == cycle_verdict(*wf)
        },
{
    if let Some(e) = check_structure(wf, task_ids, transform_ids) {
        proof {
            lemma_structural_error_in_range(*wf, string_views(task_ids@), string_views(transform_ids@));
        }
        return Err(e);
    }
    let ghost ids = wf.node_ids();
    proof {
        lemma_no_node_error_unique(*wf, 0, string_views(task_ids@), string_views(transform_ids@));
        lemma_edges_known(*wf, 0);
    }
    let adj = build_adjacency(wf);
    match find_cycle(&adj) {
        Ok(()) => {
            proof {
                let r = choose|r: Seq<int>| ranks_edges(adj@, r);
                let rank = |s: Seq<char>|
                    if exists|k: int| 0 <= k < ids.len() && ids[k] == s {
                        r[choose|k: int| 0 <= k < ids.len() && ids[k] == s]
                    } else {
                        0
                    };
                assert forall|e: int| 0 <= e < wf.edges@.len() implies rank(
                    #[trigger] wf.edges@[e].to@,
                ) < rank(wf.edges@[e].from@) by {
                    assert(edge_indexed(*wf, adj@, e));
                    let (a, b) = choose|a: int, b: int|
                        0 <= a < wf.nodes@.len() && 0 <= b < wf.nodes@.len() && ids[a]
                            == wf.edges@[e].from@ && ids[b] == wf.edges@[e].to@ && adj_edge(
                            adj@,
                            a,
                            b,
                        );
                    let ka = choose|k: int| 0 <= k < ids.len() && ids[k] == wf.edges@[e].from@;
                    let kb = choose|k: int| 0 <= k < ids.len() && ids[k] == wf.edges@[e].to@;
                    assert(ka == a);
                    assert(kb == b);
                }
                assert(wf.ranked_by(rank));
            }
            Ok(())
        },
        Err(x) => {
            proof {
                let c = choose|c: Seq<int>| is_index_cycle(adj@, c) && c[0] == x as int;
                let idc = c.map_values(|i: int| ids[i]);
                assert forall|k: int| 0 <= k < idc.len() - 1 implies wf.has_edge(
                    #[trigger] idc[k],
                    idc[k + 1],
                ) by {
                    assert(adj_edge(adj@, c[k], c[k + 1]));
                }
                assert(adj_edge(adj@, c.last(), c[0]));
                assert(wf.is_cycle(idc));
                if wf.is_acyclic() {
                    let rank = choose|rank: spec_fn(Seq<char>) -> int| #[trigger] wf.ranked_by(rank);
                    let r = Seq::new(adj@.len(), |i: int| rank(ids[i]));
                    assert forall|a: int, b: int| #[trigger] adj_edge(adj@, a, b) implies r[b] < r[a] by {
                        let k = choose|k: int| 0 <= k < adj@[a]@.len() && #[trigger] adj@[a]@[k] as int == b;
                        assert(wf.has_edge(ids[a], ids[b]));
                        let e = choose|e: int|
                            0 <= e < wf.edges@.len() && #[trigger] wf.edges@[e].from@ == ids[a]
                                && wf.edges@[e].to@ == ids[b];
                        assert(rank(wf.edges@[e].to@) < rank(wf.edges@[e].from@));
                    }
                    lemma_cycle_unranked(adj@, c, r);
                }
            }
            Err(WorkflowValidationError::Cycle { node: x })
        },
    }
}

} // verus!
