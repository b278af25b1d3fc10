//! Where a workflow run keeps its files: one directory per run under
//! `<home>/.atomiagent/workflows/runs`, with the run's state, snapshot, event
//! log, interventions and one workspace directory per task.
use crate::text::{join_path, join_path_spec};
use vstd::prelude::*;

verus! {

/// A relative path (one that does not start with `/`).
pub open spec fn relative(p: Seq<char>) -> bool {
    !(p.len() > 0 && p[0] == '/')
}

/// Joining different relative paths to one base gives different paths.
pub proof fn lemma_join_injective(base: Seq<char>, a: Seq<char>, b: Seq<char>)
    requires
        relative(a),
        relative(b),
        a != b,
    ensures
        join_path_spec(base, a) != join_path_spec(base, b),
{
    let p = if base.len() == 0 || base.last() == '/' {
        base
    } else {
        base + seq!['/']
    };
    assert(join_path_spec(base, a) =~= p + a);
    assert(join_path_spec(base, b) =~= p + b);
    assert((p + a).skip(p.len() as int) =~= a);
    assert((p + b).skip(p.len() as int) =~= b);
}

/// Two runs never share a directory: different (relative) run ids give
/// different run directories.
pub proof fn law_runs_have_separate_dirs(ws: WorkflowWorkspace, a: Seq<char>, b: Seq<char>)
    requires
        relative(a),
        relative(b),
        a != b,
    ensures
        ws.run_view(a) != ws.run_view(b),
{
    lemma_join_injective(ws.runs_view(), a, b);
}

/// Within a run, different (relative) node ids get different task workspaces.
pub proof fn law_tasks_have_separate_workspaces(ws: WorkflowWorkspace, run: Seq<char>, a: Seq<char>, b: Seq<char>)
    requires
        relative(a),
        relative(b),
        a != b,
    ensures
        join_path_spec(join_path_spec(ws.run_view(run), "tasks"@), a) != join_path_spec(
            join_path_spec(ws.run_view(run), "tasks"@),
            b,
        ),
{
    lemma_join_injective(join_path_spec(ws.run_view(run), "tasks"@), a, b);
}

/// A plain path segment: not empty and without `/`.
pub open spec fn segment(p: Seq<char>) -> bool {
    p.len() > 0 && !p.contains('/')
}

/// Two segments followed by the same separator give one text only when
/// they are the same segment and what follows is the same.
proof fn lemma_segment_split(pre: Seq<char>, a: Seq<char>, x: Seq<char>, b: Seq<char>, y: Seq<char>)
    requires
        segment(a),
        segment(b),
        x.len() > 0 && x[0] == '/',
        y.len() > 0 && y[0] == '/',
        pre + a + x == pre + b + y,
    ensures
        a == b,
        x == y,
{
    let s1 = pre + a + x;
    let s2 = pre + b + y;
    if a.len() < b.len() {
        assert(s1[(pre.len() + a.len()) as int] == x[0]);
        assert(s2[(pre.len() + a.len()) as int] == b[a.len() as int]);
        assert(b.contains(b[a.len() as int]));
    } else if b.len() < a.len() {
        assert(s2[(pre.len() + b.len()) as int] == y[0]);
        assert(s1[(pre.len() + b.len()) as int] == a[b.len() as int]);
        assert(a.contains(a[b.len() as int]));
    } else {
        assert forall|i: int| 0 <= i < a.len() implies a[i] == b[i] by {
            assert(s1[pre.len() as int + i] == a[i]);
            assert(s2[pre.len() as int + i] == b[i]);
        }
        assert(a =~= b);
        assert(s1.skip((pre.len() + a.len()) as int) =~= x);
        assert(s2.skip((pre.len() + b.len()) as int) =~= y);
    }
}

/// No two tasks of any runs share a workspace: different (run, node) pairs
/// of plain segments give different task workspaces.
pub proof fn law_task_workspaces_are_separate(
    ws: WorkflowWorkspace,
    run_a: Seq<char>,
    node_a: Seq<char>,
    run_b: Seq<char>,
    node_b: Seq<char>,
)
    requires
        segment(run_a),
        segment(node_a),
        segment(run_b),
        segment(node_b),
        run_a != run_b || node_a != node_b,
    ensures
        join_path_spec(join_path_spec(ws.run_view(run_a), "tasks"@), node_a) != join_path_spec(
            join_path_spec(ws.run_view(run_b), "tasks"@),
            node_b,
        ),
{
    reveal_strlit("tasks");
    let base = ws.runs_view();
    let pre = if base.len() == 0 || base.last() == '/' {
        base
    } else {
        base + seq!['/']
    };
    assert(!run_a.contains('/') ==> run_a[0] != '/') by {
        if run_a[0] == '/' {
            assert(run_a.contains(run_a[0]));
        }
    }
    assert(!run_b.contains('/') ==> run_b[0] != '/') by {
        if run_b[0] == '/' {
            assert(run_b.contains(run_b[0]));
        }
    }
    assert(node_a[0] != '/') by {
        if node_a[0] == '/' {
            assert(node_a.contains(node_a[0]));
        }
    }
    assert(node_b[0] != '/') by {
        if node_b[0] == '/' {
            assert(node_b.contains(node_b[0]));
        }
    }
    let tail_a = seq!['/'] + "tasks"@ + seq!['/'] + node_a;
    let tail_b = seq!['/'] + "tasks"@ + seq!['/'] + node_b;
    assert(ws.run_view(run_a) =~= pre + run_a);
    assert(ws.run_view(run_b) =~= pre + run_b);
    assert(join_path_spec(join_path_spec(ws.run_view(run_a), "tasks"@), node_a) =~= pre + run_a + tail_a);
    assert(join_path_spec(join_path_spec(ws.run_view(run_b), "tasks"@), node_b) =~= pre + run_b + tail_b);
    if pre + run_a + tail_a == pre + run_b + tail_b {
        lemma_segment_split(pre, run_a, tail_a, run_b, tail_b);
        let head = seq!['/'] + "tasks"@ + seq!['/'];
        assert(tail_a =~= head + node_a);
        assert(tail_b =~= head + node_b);
        assert(tail_a.skip(head.len() as int) =~= node_a);
        assert(tail_b.skip(head.len() as int) =~= node_b);
    }
}

pub struct WorkflowWorkspace {
    root_dir: String,
    runs_dir: String,
}

impl WorkflowWorkspace {
    /// The workflows directory, `<home>/.atomiagent/workflows`.
    pub closed spec fn root_view(&self) -> Seq<char> {
        self.root_dir@
    }

    /// The directory that holds one directory per run.
    pub open spec fn runs_view(&self) -> Seq<char> {
        join_path_spec(self.root_view(), "runs"@)
    }

    pub open spec fn run_view(&self, run_id: Seq<char>) -> Seq<char> {
        join_path_spec(self.runs_view(), run_id)
    }

    #[verifier::type_invariant]
    spec fn runs_under_root(&self) -> bool {
        self.runs_dir@ == join_path_spec(self.root_dir@, "runs"@)
    }

    pub fn new(home_dir: &str) -> (ws: Self)
        ensures
            ws.root_view() == join_path_spec(
                join_path_spec(home_dir@, ".atomiagent"@),
                "workflows"@,
            ),
    {
        let base = join_path(home_dir, ".atomiagent");
        let root_dir = join_path(&base, "workflows");
        let runs_dir = join_path(&root_dir, "runs");
        WorkflowWorkspace { root_dir, runs_dir }
    }

    pub fn root_dir(&self) -> (res: &str)
        ensures
            res@ == self.root_view(),
    {
        self.root_dir.as_str()
    }

    pub fn run_dir(&self, run_id: &str) -> (res: String)
        ensures
            res@ == self.run_view(run_id@),
    {
        proof {
            use_type_invariant(self);
        }
        join_path(&self.runs_dir, run_id)
    }

    pub fn task_workspace(&self, run_id: &str, node_id: &str) -> (res: String)
        ensures
            res@ == join_path_spec(join_path_spec(self.run_view(run_id@), "tasks"@), node_id@),
    {
        let run = self.run_dir(run_id);
        let tasks = join_path(&run, "tasks");
        join_path(&tasks, node_id)
    }

    pub fn state_file(&self, run_id: &str) -> (res: String)
        ensures
            res@ == join_path_spec(self.run_view(run_id@), "state.json"@),
    {
        let run = self.run_dir(run_id);
        join_path(&run, "state.json")
    }

    pub fn snapshot_file(&self, run_id: &str) -> (res: String)
        ensures
            res@ == join_path_spec(self.run_view(run_id@), "workflow.json"@),
    {
        let run = self.run_dir(run_id);
        join_path(&run, "workflow.json")
    }

    pub fn events_file(&self, run_id: &str) -> (res: String)
        ensures
            res@ == join_path_spec(self.run_view(run_id@), "events.jsonl"@),
    {
        let run = self.run_dir(run_id);
        join_path(&run, "events.jsonl")
    }

    pub fn interventions_file(&self, run_id: &str) -> (res: String)
        ensures
            res@ == join_path_spec(self.run_view(run_id@), "interventions.json"@),
    {
        let run = self.run_dir(run_id);
        join_path(&run, "interventions.json")
    }
}

} // verus!
