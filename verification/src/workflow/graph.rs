//! Cycle detection by depth-first search over an adjacency-list graph whose
//! nodes are `0..n`.
use vstd::prelude::*;

verus! {

/// `adj[a]` lists `b`: there is an edge from `a` to `b`.
pub open spec fn adj_edge(adj: Seq<Vec<usize>>, a: int, b: int) -> bool {
    0 <= a < adj.len() && exists|k: int| 0 <= k < adj[a]@.len() && #[trigger] adj[a]@[k] as int == b
}

pub open spec fn well_formed_adj(adj: Seq<Vec<usize>>) -> bool {
    forall|a: int, k: int|
        0 <= a < adj.len() && 0 <= k < adj[a]@.len() ==> (#[trigger] adj[a]@[k] as int) < adj.len()
}

/// A closed walk through the index graph.
pub open spec fn is_index_cycle(adj: Seq<Vec<usize>>, cycle: Seq<int>) -> bool {
    &&& cycle.len() > 0
    &&& forall|k: int| 0 <= k < cycle.len() - 1 ==> adj_edge(adj, #[trigger] cycle[k], cycle[k + 1])
    &&& adj_edge(adj, cycle.last(), cycle[0])
}

/// Every edge goes from a higher rank to a strictly lower one.
pub open spec fn ranks_edges(adj: Seq<Vec<usize>>, rank: Seq<int>) -> bool {
    &&& rank.len() == adj.len()
    &&& forall|a: int, b: int| #[trigger] adj_edge(adj, a, b) ==> rank[b] < rank[a]
}

pub open spec fn num_free(v: Seq<bool>) -> nat
    decreases v.len(),
{
    if v.len() == 0 {
        0
    } else {
        num_free(v.drop_last()) + if v.last() {
            0nat
        } else {
            1nat
        }
    }
}

/// Marking a free slot taken lowers the count of free ones by one.
pub proof fn lemma_num_free_set(v: Seq<bool>, i: int)
    requires
        0 <= i < v.len(),
        !v[i],
    ensures
        num_free(v.update(i, true)) + 1 == num_free(v),
    decreases v.len(),
{
    let w = v.update(i, true);
    if i == v.len() - 1 {
        assert(w.drop_last() =~= v.drop_last());
    } else {
        assert(w.drop_last() =~= v.drop_last().update(i, true));
        lemma_num_free_set(v.drop_last(), i);
    }
}

/// The adjacency lists as sequences.
pub open spec fn adj_view(adj: Seq<Vec<usize>>) -> Seq<Seq<usize>> {
    Seq::new(adj.len(), |i: int| adj[i]@)
}

/// What the depth-first visit of `u` meets, given the nodes on the current
/// path (`vis`) and the finished ones (`done`): the node at which it first
/// closes a cycle, if any, and otherwise the finished nodes afterwards.
pub open spec fn dfs_visit(adj: Seq<Seq<usize>>, u: int, vis: Seq<bool>, done: Seq<bool>) -> (Option<int>, Seq<bool>)
    decreases num_free(vis), 0int,
{
    if !(0 <= u < vis.len()) || !(u < done.len()) {
        (None, done)
    } else if done[u] {
        (None, done)
    } else if vis[u] {
        (Some(u), done)
    } else {
        proof {
            lemma_num_free_set(vis, u);
        }
        let inner = dfs_children(adj, u, 0, vis.update(u, true), done);
        match inner.0 {
            Some(x) => (Some(x), inner.1),
            None => (None, inner.1.update(u, true)),
        }
    }
}

/// The visits of the successors of `u` from the `k`-th on, in list order,
/// stopping at the first that meets a cycle.
pub open spec fn dfs_children(adj: Seq<Seq<usize>>, u: int, k: int, vis: Seq<bool>, done: Seq<bool>) -> (
    Option<int>,
    Seq<bool>,
)
    decreases num_free(vis), adj[u].len() - k + 1,
{
    if !(0 <= u < adj.len()) || k < 0 || k >= adj[u].len() {
        (None, done)
    } else {
        let first = dfs_visit(adj, adj[u][k] as int, vis, done);
        match first.0 {
            Some(x) => (Some(x), first.1),
            None => dfs_children(adj, u, k + 1, vis, first.1),
        }
    }
}

/// Visits the nodes from `r` on, in order, with an empty path each time; the
/// node at which the first cycle is met, if any.
pub open spec fn dfs_scan(adj: Seq<Seq<usize>>, r: int, done: Seq<bool>) -> Option<int>
    decreases adj.len() - r,
{
    if r < 0 || r >= adj.len() {
        None
    } else {
        let step = dfs_visit(adj, r, Seq::new(adj.len(), |i: int| false), done);
        match step.0 {
            Some(x) => Some(x),
            None => dfs_scan(adj, r + 1, step.1),
        }
    }
}

/// The node at which a depth-first search over all nodes, in order, first
/// closes a cycle.
pub open spec fn first_cycle_node(adj: Seq<Seq<usize>>) -> Option<int> {
    dfs_scan(adj, 0, Seq::new(adj.len(), |i: int| false))
}

/// The search state: nodes on the current path, finished nodes, and the
/// finishing time of each finished node.
pub struct DfsState {
    pub visiting: Vec<bool>,
    pub visited: Vec<bool>,
    pub finish: Ghost<Seq<int>>,
    pub clock: Ghost<int>,
}

impl DfsState {
    pub open spec fn inv(&self, adj: Seq<Vec<usize>>, path: Seq<int>) -> bool {
        let n = adj.len();
        &&& well_formed_adj(adj)
        &&& self.visiting@.len() == n
        &&& self.visited@.len() == n
        &&& self.finish@.len() == n
        &&& forall|i: int| 0 <= i < n ==> (#[trigger] self.visiting@[i] <==> path.contains(i))
        &&& forall|k: int| 0 <= k < path.len() ==> 0 <= #[trigger] path[k] < n
        &&& forall|k: int| 0 <= k < path.len() - 1 ==> adj_edge(adj, #[trigger] path[k], path[k + 1])
        &&& forall|i: int| 0 <= i < n ==> !(#[trigger] self.visiting@[i] && self.visited@[i])
        &&& forall|i: int, j: int|
            self.visited@[i] && #[trigger] adj_edge(adj, i, j) ==> self.visited@[j]
                && self.finish@[j] < self.finish@[i]
        &&& forall|i: int| 0 <= i < n && #[trigger] self.visited@[i] ==> self.finish@[i] < self.clock@
    }
}

proof fn lemma_cycle_from_path(adj: Seq<Vec<usize>>, path: Seq<int>, u: int, k: int)
    requires
        0 <= k < path.len(),
        path[k] == u,
        forall|j: int| 0 <= j < path.len() - 1 ==> adj_edge(adj, #[trigger] path[j], path[j + 1]),
        adj_edge(adj, path.last(), u),
    ensures
        is_index_cycle(adj, path.skip(k)),
        path.skip(k)[0] == u,
{
    let c = path.skip(k);
    assert forall|j: int| 0 <= j < c.len() - 1 implies adj_edge(adj, #[trigger] c[j], c[j + 1]) by {
        assert(c[j] == path[j + k]);
        assert(c[j + 1] == path[j + k + 1]);
    }
    assert(c.last() == path.last());
}

proof fn lemma_visit_reports(
    adj: Seq<Seq<usize>>,
    u: int,
    k: int,
    vis: Seq<bool>,
    done0: Seq<bool>,
    done: Seq<bool>,
    x: int,
)
    requires
        0 <= u < vis.len(),
        u < done0.len(),
        0 <= u < adj.len(),
        0 <= k < adj[u].len(),
        !done0[u],
        !vis[u],
        dfs_children(adj, u, 0, vis.update(u, true), done0) == dfs_children(adj, u, k, vis.update(u, true), done),
        dfs_visit(adj, adj[u][k] as int, vis.update(u, true), done).0 == Some(x),
    ensures
        dfs_visit(adj, u, vis, done0).0 == Some(x),
{
}

proof fn lemma_visit_finishes(adj: Seq<Seq<usize>>, u: int, vis: Seq<bool>, done0: Seq<bool>, done: Seq<bool>)
    requires
        0 <= u < vis.len(),
        u < done0.len(),
        0 <= u < adj.len(),
        !done0[u],
        !vis[u],
        dfs_children(adj, u, 0, vis.update(u, true), done0) == dfs_children(
            adj,
            u,
            adj[u].len() as int,
            vis.update(u, true),
            done,
        ),
    ensures
        dfs_visit(adj, u, vis, done0) == (None::<int>, done.update(u, true)),
{
}

/// Depth-first visit of `u`, as `dfs_visit` describes. `Ok` leaves `u`
/// finished; `Err(x)` reports the node `x`, on a cycle, at which the visit
/// first closed one.
pub fn visit(adj: &Vec<Vec<usize>>, u: usize, st: &mut DfsState, Ghost(path): Ghost<Seq<int>>) -> (res:
    Result<(), usize>)
    requires
        old(st).inv(adj@, path),
        u < adj@.len(),
        path.len() > 0 ==> adj_edge(adj@, path.last(), u as int),
    ensures
        res is Ok ==> {
            &&& final(st).inv(adj@, path)
            &&& final(st).visited@[u as int]
            &&& final(st).visiting@ == old(st).visiting@
            &&& forall|i: int|
                0 <= i < adj@.len() && #[trigger] old(st).visited@[i] ==> final(st).visited@[i]
                    && final(st).finish@[i] == old(st).finish@[i]
        },
        res matches Err(x) ==> exists|c: Seq<int>| is_index_cycle(adj@, c) && c[0] == x as int,
        ({
            let s = dfs_visit(adj_view(adj@), u as int, old(st).visiting@, old(st).visited@);
            match res {
                Ok(()) => s.0 is None && final(st).visited@ == s.1,
                Err(x) => s.0 == Some(x as int),
            }
        }),
    decreases num_free(old(st).visiting@),
{
    if st.visited[u] {
        return Ok(());
    }
    if st.visiting[u] {
        proof {
            assert(path.contains(u as int));
            let k = choose|k: int| 0 <= k < path.len() && path[k] == u as int;
            lemma_cycle_from_path(adj@, path, u as int, k);
        }
        return Err(u);
    }
    let ghost old_visited = st.visited@;
    let ghost old_finish = st.finish@;
    let ghost old_visiting = st.visiting@;
    let ghost inner = path.push(u as int);
    proof {
        lemma_num_free_set(st.visiting@, u as int);
    }
    st.visiting.set(u, true);
    proof {
        assert forall|i: int| 0 <= i < adj@.len() implies (#[trigger] st.visiting@[i] <==> inner.contains(i)) by {
            if i == u {
                assert(inner[inner.len() - 1] == u);
            } else {
                if path.contains(i) {
                    let k = choose|k: int| 0 <= k < path.len() && path[k] == i;
                    assert(inner[k] == i);
                }
                if inner.contains(i) {
                    let k = choose|k: int| 0 <= k < inner.len() && inner[k] == i;
                    assert(path[k] == i);
                }
            }
        }
        assert forall|k: int| 0 <= k < inner.len() - 1 implies adj_edge(adj@, #[trigger] inner[k], inner[k + 1]) by {
            if k < path.len() - 1 {
                assert(inner[k] == path[k] && inner[k + 1] == path[k + 1]);
            } else {
                assert(inner[k] == path.last());
            }
        }
    }
    let children = &adj[u];
    let mut idx: usize = 0;
    while idx < children.len()
        invariant
            children@ == adj@[u as int]@,
            idx <= children@.len(),
            u < adj@.len(),
            inner == path.push(u as int),
            st.inv(adj@, inner),
            st.visiting@ == old_visiting.update(u as int, true),
            old_visiting == old(st).visiting@,
            old_visited == old(st).visited@,
            old_visiting.len() == adj@.len(),
            old_visited.len() == adj@.len(),
            !old_visiting[u as int],
            !old_visited[u as int],
            !st.visited@[u as int],
            forall|k: int| 0 <= k < idx ==> #[trigger] st.visited@[children@[k] as int],
            forall|i: int|
                0 <= i < adj@.len() && #[trigger] old_visited[i] ==> st.visited@[i]
                    && st.finish@[i] == old_finish[i],
            num_free(st.visiting@) < num_free(old_visiting),
            dfs_children(adj_view(adj@), u as int, 0, old_visiting.update(u as int, true), old_visited)
                == dfs_children(adj_view(adj@), u as int, idx as int, old_visiting.update(u as int, true), st.visited@),
        decreases children@.len() - idx,
    {
        let child = children[idx];
        proof {
            assert(adj@[u as int]@[idx as int] as int == child as int);
            assert(adj_edge(adj@, u as int, child as int));
            assert(inner.last() == u as int);
        }
        let ghost before = st.visited@;
        let ghost vis1 = st.visiting@;
        proof {
            assert(adj_view(adj@)[u as int] == children@);
        }
        let r = visit(adj, child, st, Ghost(inner));
        match r {
            Ok(()) => {},
            Err(x) => {
                proof {
                    lemma_visit_reports(adj_view(adj@), u as int, idx as int, old_visiting, old_visited, before, x as int);
                }
                return Err(x);
            },
        }
        proof {
            assert(dfs_children(adj_view(adj@), u as int, idx as int, vis1, before) == dfs_children(
                adj_view(adj@),
                u as int,
                idx + 1,
                vis1,
                st.visited@,
            ));
            assert forall|k: int| 0 <= k < idx + 1 implies #[trigger] st.visited@[children@[k] as int] by {
                if k < idx {
                    assert(before[children@[k] as int]);
                }
            }
            assert(!st.visited@[u as int]) by {
                assert(st.visiting@[u as int]);
            }
        }
        idx = idx + 1;
    }
    let ghost mid_finish = st.finish@;
    let ghost mid_visited = st.visited@;
    proof {
        lemma_visit_finishes(adj_view(adj@), u as int, old_visiting, old_visited, mid_visited);
    }
    st.visiting.set(u, false);
    st.visited.set(u, true);
    let ghost clock = st.clock@;
    st.finish = Ghost(st.finish@.update(u as int, clock));
    st.clock = Ghost(clock + 1);
    proof {
        assert(st.visiting@ =~= old_visiting);
        let n = adj@.len();
        assert forall|i: int| 0 <= i < n implies (#[trigger] st.visiting@[i] <==> path.contains(i)) by {
            assert(old(st).visiting@[i] <==> path.contains(i));
        }
        assert forall|i: int, j: int|
            st.visited@[i] && #[trigger] adj_edge(adj@, i, j) implies st.visited@[j]
                && st.finish@[j] < st.finish@[i] by {
            assert(st.visited@ == mid_visited.update(u as int, true));
            assert(st.finish@ == mid_finish.update(u as int, clock));
            if i == u {
                let k = choose|k: int| 0 <= k < adj@[u as int]@.len() && #[trigger] adj@[u as int]@[k] as int == j;
                assert(children@[k] as int == j);
                assert(mid_visited[j]);
                assert(j < n);
                assert(j != u);
                assert(mid_finish[j] < clock);
            } else {
                assert(mid_visited[i]);
                assert(mid_visited[j]);
                if j == u {
                    assert(false);
                }
            }
        }
        assert forall|i: int| 0 <= i < n && #[trigger] st.visited@[i] implies st.finish@[i] < st.clock@ by {
            if i != u {
                assert(mid_visited[i]);
            }
        }
        assert forall|i: int| 0 <= i < n implies !(#[trigger] st.visiting@[i] && st.visited@[i]) by {
            if i != u {
                assert(!(old_visiting[i] && mid_visited[i])) by {
                    assert(st.visiting@[i] == old_visiting[i]);
                }
            }
        }
        assert forall|i: int| 0 <= i < n && #[trigger] old_visited[i] implies st.visited@[i]
            && st.finish@[i] == old_finish[i] by {
            assert(i != u);
        }
    }
    Ok(())
}

/// Visits every node in order. `Ok` exactly when the graph has no cycle;
/// `Err(x)` names the node at which the search first closes a cycle, a node
/// on that cycle.
pub fn find_cycle(adj: &Vec<Vec<usize>>) -> (res: Result<(), usize>)
    requires
        well_formed_adj(adj@),
    ensures
        res is Ok ==> exists|rank: Seq<int>| ranks_edges(adj@, rank),
        res matches Err(x) ==> x < adj@.len() && exists|c: Seq<int>| is_index_cycle(adj@, c) && c[0] == x as int,
        first_cycle_node(adj_view(adj@)) == match res {
            Ok(()) => None::<int>,
            Err(x) => Some(x as int),
        },
{
    let n = adj.len();
    let mut visiting: Vec<bool> = Vec::new();
    let mut visited: Vec<bool> = Vec::new();
    let mut i: usize = 0;
    while i < n
        invariant
            n == adj@.len(),
            i <= n,
            visiting@.len() == i,
            visited@.len() == i,
            forall|k: int| 0 <= k < i ==> !(#[trigger] visiting@[k]),
            forall|k: int| 0 <= k < i ==> !(#[trigger] visited@[k]),
        decreases n - i,
    {
        visiting.push(false);
        visited.push(false);
        i = i + 1;
    }
    let mut st = DfsState {
        visiting,
        visited,
        finish: Ghost(Seq::new(n as nat, |k: int| 0)),
        clock: Ghost(0),
    };
    let ghost empty: Seq<int> = Seq::empty();
    proof {
        assert(st.visited@ =~= Seq::new(adj_view(adj@).len(), |i: int| false));
    }
    let mut r: usize = 0;
    while r < n
        invariant
            n == adj@.len(),
            r <= n,
            st.inv(adj@, empty),
            empty.len() == 0,
            forall|k: int| 0 <= k < r ==> #[trigger] st.visited@[k],
            first_cycle_node(adj_view(adj@)) == dfs_scan(adj_view(adj@), r as int, st.visited@),
        decreases n - r,
    {
        let ghost before = st.visited@;
        proof {
            assert(st.visiting@ =~= Seq::new(adj_view(adj@).len(), |i: int| false)) by {
                assert forall|i: int| 0 <= i < n implies !st.visiting@[i] by {
                    assert(!empty.contains(i));
                }
            }
        }
        match visit(adj, r, &mut st, Ghost(empty)) {
            Ok(()) => {},
            Err(x) => {
                proof {
                    let c = choose|c: Seq<int>| is_index_cycle(adj@, c) && c[0] == x as int;
                    assert(adj_edge(adj@, c.last(), c[0]));
                }
                return Err(x);
            },
        }
        proof {
            assert forall|k: int| 0 <= k < r + 1 implies #[trigger] st.visited@[k] by {
                if k < r {
                    assert(before[k]);
                }
            }
        }
        r = r + 1;
    }
    proof {
        let rank = st.finish@;
        assert forall|a: int, b: int| #[trigger] adj_edge(adj@, a, b) implies rank[b] < rank[a] by {
            assert(st.visited@[a]);
        }
        assert(ranks_edges(adj@, rank));
    }
    Ok(())
}

/// A closed walk rules out any ranking that every edge decreases.
pub proof fn lemma_cycle_unranked(adj: Seq<Vec<usize>>, c: Seq<int>, rank: Seq<int>)
    requires
        is_index_cycle(adj, c),
    ensures
        !ranks_edges(adj, rank),
{
    if ranks_edges(adj, rank) {
        lemma_cycle_unranked_contra(adj, c, rank);
    }
}

proof fn lemma_cycle_unranked_contra(adj: Seq<Vec<usize>>, c: Seq<int>, rank: Seq<int>)
    requires
        is_index_cycle(adj, c),
        ranks_edges(adj, rank),
    ensures
        c.len() < 0,
{
    assert forall|k: int| 0 <= k < c.len() implies #[trigger] rank[c[k]] <= rank[c[0]] - k by {
        lemma_rank_descends(adj, c, rank, k);
    }
    assert(adj_edge(adj, c.last(), c[0]));
}

proof fn lemma_rank_descends(adj: Seq<Vec<usize>>, c: Seq<int>, rank: Seq<int>, k: int)
    requires
        is_index_cycle(adj, c),
        ranks_edges(adj, rank),
        0 <= k < c.len(),
    ensures
        rank[c[k]] <= rank[c[0]] - k,
    decreases k,
{
    if k > 0 {
        lemma_rank_descends(adj, c, rank, k - 1);
        assert(adj_edge(adj, c[k - 1], c[k]));
    }
}

} // verus!
