//! Ordering the nodes of a workflow DAG: a topological order, and the
//! levels of nodes that can run in parallel (Kahn's algorithm).

use vstd::prelude::*;
use vstd::set_lib::*;

use crate::engine::flatten;

verus! {

/// A directed edge between two node ids.
#[derive(Debug, Clone, Copy, PartialEq, Eq, Structural)]
pub struct Edge {
    pub from: u128,
    pub to: u128,
}

/// The node ids and edges of a workflow.
pub struct WorkflowGraph {
    pub nodes: Vec<u128>,
    pub edges: Vec<Edge>,
}

/// Errors of the execution engine.
#[derive(Debug)]
pub enum EngineError {
    ValidationError(String),
    NodeNotFound(u128),
    ExecutionError(String),
    CycleDetected,
    VariableNotFound(String),
    TemplateError(String),
    Timeout(String),
    ExecutionPaused,
    ExecutionCancelled,
}

/// Every edge joins two nodes of the graph.
pub open spec fn edges_within(nodes: Seq<u128>, edges: Seq<Edge>) -> bool {
    forall|k: int|
        0 <= k < edges.len() ==> nodes.contains(#[trigger] edges[k].from) && nodes.contains(
            edges[k].to,
        )
}

/// `order` lists each node exactly once, and no edge goes from a node to one
/// listed at the same place or earlier.
#[verifier::opaque]
pub open spec fn is_topological_order(nodes: Seq<u128>, edges: Seq<Edge>, order: Seq<u128>) -> bool {
    &&& order.len() == nodes.len()
    &&& order.no_duplicates()
    &&& forall|i: int| 0 <= i < order.len() ==> nodes.contains(#[trigger] order[i])
    &&& forall|i: int| 0 <= i < nodes.len() ==> order.contains(#[trigger] nodes[i])
    &&& forall|i: int, j: int, k: int|
        #![trigger order[i], order[j], edges[k]]
        0 <= i <= j < order.len() && 0 <= k < edges.len() && order[j] == edges[k].from
            ==> order[i] != edges[k].to
}

/// The graph has distinct node ids and no cycle.
pub open spec fn is_acyclic(nodes: Seq<u128>, edges: Seq<Edge>) -> bool {
    &&& nodes.no_duplicates()
    &&& exists|order: Seq<u128>| is_topological_order(nodes, edges, order)
}

// ---------------------------------------------------------------------
// Index-level graph: edge k goes from node index src[k] to tgt[k], and
// adj[u] lists the indices of the edges that leave u.
// ---------------------------------------------------------------------

spec fn index_graph(n: nat, src: Seq<usize>, tgt: Seq<usize>, adj: Seq<Vec<usize>>) -> bool {
    &&& src.len() == tgt.len()
    &&& forall|k: int|
        #![trigger src[k]]
        #![trigger tgt[k]]
        0 <= k < src.len() ==> src[k] < n && tgt[k] < n
    &&& adj.len() == n
    &&& forall|u: int| 0 <= u < n ==> (#[trigger] adj[u])@.no_duplicates()
    &&& forall|u: int, t: int|
        0 <= u < n && 0 <= t < adj[u]@.len() ==> #[trigger] adj[u]@[t] < src.len() && src[adj[u]@[t] as int]
            == u
    &&& forall|k: int| 0 <= k < src.len() ==> adj[src[k] as int]@.contains(#[trigger] (k as usize))
}

/// Edges into `v` not yet removed.
spec fn unremoved(tgt: Seq<usize>, v: usize, removed: Set<int>) -> Set<int> {
    Set::new(|k: int| 0 <= k < tgt.len() && tgt[k] == v && !removed.contains(k))
}

proof fn lemma_unremoved_finite(tgt: Seq<usize>, v: usize, removed: Set<int>)
    ensures
        unremoved(tgt, v, removed).finite(),
        unremoved(tgt, v, removed).len() <= tgt.len(),
{
    lemma_int_range(0, tgt.len() as int);
    assert(unremoved(tgt, v, removed).subset_of(set_int_range(0, tgt.len() as int)));
    lemma_set_subset_finite(set_int_range(0, tgt.len() as int), unremoved(tgt, v, removed));
    lemma_len_subset(unremoved(tgt, v, removed), set_int_range(0, tgt.len() as int));
}

proof fn lemma_unremoved_remove(tgt: Seq<usize>, v: usize, removed: Set<int>, k0: int)
    requires
        0 <= k0 < tgt.len(),
        !removed.contains(k0),
    ensures
        tgt[k0] == v ==> unremoved(tgt, v, removed.insert(k0)).len() + 1 == unremoved(
            tgt,
            v,
            removed,
        ).len(),
        tgt[k0] != v ==> unremoved(tgt, v, removed.insert(k0)) == unremoved(tgt, v, removed),
{
    lemma_unremoved_finite(tgt, v, removed);
    if tgt[k0] == v {
        assert(unremoved(tgt, v, removed.insert(k0)) =~= unremoved(tgt, v, removed).remove(k0));
    } else {
        assert(unremoved(tgt, v, removed.insert(k0)) =~= unremoved(tgt, v, removed));
    }
}

proof fn lemma_unremoved_empty(tgt: Seq<usize>, v: usize, removed: Set<int>, k: int)
    requires
        unremoved(tgt, v, removed).len() == 0,
        0 <= k < tgt.len(),
        tgt[k] == v,
    ensures
        removed.contains(k),
{
    lemma_unremoved_finite(tgt, v, removed);
    if !removed.contains(k) {
        assert(unremoved(tgt, v, removed).contains(k));
    }
}

proof fn lemma_unremoved_witness(tgt: Seq<usize>, v: usize, removed: Set<int>) -> (k: int)
    requires
        unremoved(tgt, v, removed).len() != 0,
    ensures
        0 <= k < tgt.len(),
        tgt[k] == v,
        !removed.contains(k),
{
    lemma_unremoved_finite(tgt, v, removed);
    let s = unremoved(tgt, v, removed);
    let k = s.choose();
    assert(s.contains(k));
    k
}

/// A duplicate-free sequence of indices below `n` has at most `n` elements,
/// and exactly `n` when it lists every index below `n`.
proof fn lemma_nodup_bounded(s: Seq<usize>, n: usize)
    requires
        s.no_duplicates(),
        forall|i: int| 0 <= i < s.len() ==> #[trigger] s[i] < n,
    ensures
        s.len() <= n,
        s.len() == n <==> (forall|v: usize| v < n ==> s.contains(v)),
    decreases n,
{
    if n == 0 {
        if s.len() > 0 {
            assert(s[0] < 0);
        }
        assert(s.len() == 0);
    } else {
        let top = (n - 1) as usize;
        let m = (n - 1) as usize;
        if s.contains(top) {
            let p = choose|p: int| 0 <= p < s.len() && s[p] == top;
            let t = s.remove(p);
            assert forall|i: int| 0 <= i < t.len() implies #[trigger] t[i] < m by {
                if i < p {
                    assert(t[i] == s[i]);
                    assert(s[i] != s[p]);
                } else {
                    assert(t[i] == s[i + 1]);
                    assert(s[i + 1] != s[p]);
                }
            }
            assert(t.no_duplicates()) by {
                assert forall|a: int, b: int| 0 <= a < b < t.len() implies t[a] != t[b] by {
                    let sa = if a < p { a } else { a + 1 };
                    let sb = if b < p { b } else { b + 1 };
                    assert(t[a] == s[sa]);
                    assert(t[b] == s[sb]);
                }
            }
            lemma_nodup_bounded(t, m);
            if s.len() == n {
                assert forall|v: usize| v < n implies s.contains(v) by {
                    if v == top {
                    } else {
                        assert(t.contains(v));
                        let q = choose|q: int| 0 <= q < t.len() && t[q] == v;
                        if q < p {
                            assert(s[q] == v);
                        } else {
                            assert(s[q + 1] == v);
                        }
                    }
                }
            }
            if forall|v: usize| v < n ==> s.contains(v) {
                assert forall|v: usize| v < m implies t.contains(v) by {
                    assert(s.contains(v));
                    let q = choose|q: int| 0 <= q < s.len() && s[q] == v;
                    assert(s[p] == top);
                    assert(q != p);
                    if q < p {
                        assert(t[q] == v);
                    } else {
                        assert(t[q - 1] == v);
                    }
                }
            }
        } else {
            assert forall|i: int| 0 <= i < s.len() implies #[trigger] s[i] < m by {
                assert(s[i] != top);
            }
            lemma_nodup_bounded(s, m);
            if forall|v: usize| v < n ==> s.contains(v) {
                assert(s.contains(top));
            }
        }
    }
}

/// Position `i` of the result has all its incoming edges coming from
/// nodes listed before it.
spec fn preds_before(src: Seq<usize>, tgt: Seq<usize>, res: Seq<usize>) -> bool {
    forall|i: int, k: int|
        #![trigger res[i], tgt[k]]
        0 <= i < res.len() && 0 <= k < tgt.len() && tgt[k] == res[i] ==> res.take(i).contains(
            src[k],
        )
}

/// Builds the outgoing-edge lists.
fn build_adjacency(n: usize, src: &Vec<usize>, tgt: &Vec<usize>) -> (adj: Vec<Vec<usize>>)
    requires
        src@.len() == tgt@.len(),
        forall|k: int| 0 <= k < src@.len() ==> #[trigger] src@[k] < n && tgt@[k] < n,
    ensures
        index_graph(n as nat, src@, tgt@, adj@),
{
    let mut adj: Vec<Vec<usize>> = Vec::new();
    let mut u: usize = 0;
    while u < n
        invariant
            u <= n,
            adj@.len() == u,
            forall|w: int| 0 <= w < u ==> (#[trigger] adj@[w])@.len() == 0,
            src@.len() == tgt@.len(),
            forall|e: int| 0 <= e < src@.len() ==> #[trigger] src@[e] < n && tgt@[e] < n,
        decreases n - u,
    {
        adj.push(Vec::new());
        u = u + 1;
    }
    let m = src.len();
    let mut k: usize = 0;
    while k < m
        invariant
            m == src@.len(),
            src@.len() == tgt@.len(),
            forall|e: int| 0 <= e < src@.len() ==> #[trigger] src@[e] < n && tgt@[e] < n,
            k <= m,
            adj@.len() == n,
            forall|w: int| 0 <= w < n ==> (#[trigger] adj@[w])@.no_duplicates(),
            forall|w: int, t: int|
                0 <= w < n && 0 <= t < adj@[w]@.len() ==> #[trigger] adj@[w]@[t] < k && src@[adj@[w]@[t] as int]
                    == w,
            forall|e: int| 0 <= e < k ==> adj@[src@[e] as int]@.contains(#[trigger] (e as usize)),
        decreases m - k,
    {
        let s = src[k];
        let ghost prev = adj@;
        adj[s].push(k);
        assert forall|w: int| 0 <= w < n implies (#[trigger] adj@[w])@.no_duplicates() by {
            if w == s {
                assert forall|a: int, b: int| 0 <= a < b < adj@[w]@.len() implies adj@[w]@[a]
                    != adj@[w]@[b] by {
                    if b == adj@[w]@.len() - 1 {
                        assert(adj@[w]@[a] == prev[w]@[a]);
                        assert(prev[w]@[a] < k);
                    } else {
                        assert(adj@[w]@[a] == prev[w]@[a]);
                        assert(adj@[w]@[b] == prev[w]@[b]);
                    }
                }
            } else {
                assert(adj@[w] == prev[w]);
            }
        }
        assert forall|w: int, t: int|
            0 <= w < n && 0 <= t < adj@[w]@.len() implies #[trigger] adj@[w]@[t] < k + 1
            && src@[adj@[w]@[t] as int] == w by {
            if w == s && t == adj@[w]@.len() - 1 {
            } else {
                assert(adj@[w]@[t] == prev[w]@[t]);
            }
        }
        assert forall|e: int| 0 <= e < k + 1 implies adj@[src@[e] as int]@.contains(
            #[trigger] (e as usize),
        ) by {
            if e == k {
                assert(adj@[s as int]@[adj@[s as int]@.len() - 1] == k);
            } else {
                assert(prev[src@[e] as int]@.contains(e as usize));
                let t = choose|t: int|
                    0 <= t < prev[src@[e] as int]@.len() && prev[src@[e] as int]@[t] == e as usize;
                assert(adj@[src@[e] as int]@[t] == e as usize);
            }
        }
        k = k + 1;
    }
    adj
}

/// In-degrees: indeg[v] is the number of edges into v.
fn in_degrees(n: usize, tgt: &Vec<usize>) -> (indeg: Vec<usize>)
    requires
        forall|k: int| 0 <= k < tgt@.len() ==> #[trigger] tgt@[k] < n,
    ensures
        indeg@.len() == n,
        forall|v: int|
            0 <= v < n ==> #[trigger] indeg@[v] == unremoved(tgt@, v as usize, Set::empty()).len(),
{
    let mut indeg: Vec<usize> = Vec::new();
    let mut v: usize = 0;
    while v < n
        invariant
            v <= n,
            indeg@.len() == v,
            forall|w: int| 0 <= w < v ==> #[trigger] indeg@[w] == 0,
            forall|e: int| 0 <= e < tgt@.len() ==> #[trigger] tgt@[e] < n,
        decreases n - v,
    {
        indeg.push(0);
        v = v + 1;
    }
    let m = tgt.len();
    let mut k: usize = 0;
    assert forall|w: int| 0 <= w < n implies #[trigger] indeg@[w] == unremoved(
        tgt@,
        w as usize,
        set_int_range(0, m as int),
    ).len() by {
        assert(unremoved(tgt@, w as usize, set_int_range(0, m as int)) =~= Set::<int>::empty());
    }
    while k < m
        invariant
            m == tgt@.len(),
            forall|e: int| 0 <= e < tgt@.len() ==> #[trigger] tgt@[e] < n,
            k <= m,
            indeg@.len() == n,
            forall|w: int|
                0 <= w < n ==> #[trigger] indeg@[w] == unremoved(
                    tgt@,
                    w as usize,
                    set_int_range(k as int, m as int),
                ).len(),
        decreases m - k,
    {
        let t = tgt[k];
        proof {
            let r = set_int_range(k as int, m as int);
            let r2 = set_int_range(k + 1, m as int);
            assert(r =~= r2.insert(k as int));
            assert(!r2.contains(k as int));
            assert forall|w: int| 0 <= w < n implies #[trigger] indeg@[w] == unremoved(
                tgt@,
                w as usize,
                r2.insert(k as int),
            ).len() by {
                assert(unremoved(tgt@, w as usize, r2.insert(k as int)) == unremoved(
                    tgt@,
                    w as usize,
                    r,
                ));
            }
            lemma_unremoved_remove(tgt@, t, r2, k as int);
            lemma_unremoved_finite(tgt@, t, r2);
        }
        let d = indeg[t];
        indeg.set(t, d + 1);
        proof {
            let r2 = set_int_range(k + 1, m as int);
            assert forall|w: int| 0 <= w < n implies #[trigger] indeg@[w] == unremoved(
                tgt@,
                w as usize,
                r2,
            ).len() by {
                lemma_unremoved_remove(tgt@, w as usize, r2, k as int);
            }
        }
        k = k + 1;
    }
    assert forall|w: int| 0 <= w < n implies #[trigger] indeg@[w] == unremoved(
        tgt@,
        w as usize,
        Set::empty(),
    ).len() by {
        assert(unremoved(tgt@, w as usize, Set::empty()) =~= unremoved(
            tgt@,
            w as usize,
            set_int_range(m as int, m as int),
        ));
    }
    indeg
}


/// The (duplicate-free) concatenation of result and queue fits in `n`.
proof fn lemma_result_queue_bounded(result: Seq<usize>, queue: Seq<usize>, n: usize)
    requires
        result.no_duplicates(),
        queue.no_duplicates(),
        forall|i: int, j: int|
            0 <= i < result.len() && 0 <= j < queue.len() ==> result[i] != queue[j],
        forall|i: int| 0 <= i < result.len() ==> #[trigger] result[i] < n,
        forall|j: int| 0 <= j < queue.len() ==> #[trigger] queue[j] < n,
    ensures
        result.len() + queue.len() <= n,
{
    let s = result + queue;
    assert forall|i: int| 0 <= i < s.len() implies #[trigger] s[i] < n by {
        if i < result.len() {
            assert(s[i] == result[i]);
        } else {
            assert(s[i] == queue[i - result.len()]);
        }
    }
    assert(s.no_duplicates()) by {
        assert forall|a: int, b: int| 0 <= a < b < s.len() implies s[a] != s[b] by {
            if b < result.len() {
                assert(s[a] == result[a] && s[b] == result[b]);
            } else if a >= result.len() {
                assert(s[a] == queue[a - result.len()] && s[b] == queue[b - result.len()]);
            } else {
                assert(s[a] == result[a] && s[b] == queue[b - result.len()]);
            }
        }
    }
    lemma_nodup_bounded(s, n);
}

/// Kahn's algorithm over node indices: repeatedly take a node with no
/// remaining incoming edge, list it, and remove its outgoing edges.
fn kahn_order(n: usize, src: &Vec<usize>, tgt: &Vec<usize>, adj: &Vec<Vec<usize>>) -> (result: Vec<
    usize,
>)
    requires
        index_graph(n as nat, src@, tgt@, adj@),
    ensures
        result@.no_duplicates(),
        forall|i: int| 0 <= i < result@.len() ==> #[trigger] result@[i] < n,
        preds_before(src@, tgt@, result@),
        forall|v: usize|
            v < n && !result@.contains(v) ==> exists|k: int|
                0 <= k < tgt@.len() && #[trigger] tgt@[k] == v && !result@.contains(src@[k]),
{
    let m = src.len();
    let mut indeg = in_degrees(n, tgt);
    let mut queue: Vec<usize> = Vec::new();
    let mut v: usize = 0;
    while v < n
        invariant
            v <= n,
            indeg@.len() == n,
            queue@.no_duplicates(),
            forall|j: int| 0 <= j < queue@.len() ==> #[trigger] queue@[j] < v,
            forall|w: usize| w < v ==> (indeg@[w as int] == 0 <==> queue@.contains(w)),
        decreases n - v,
    {
        if indeg[v] == 0 {
            let ghost prev = queue@;
            queue.push(v);
            assert forall|a: int, b: int| 0 <= a < b < queue@.len() implies queue@[a]
                != queue@[b] by {
                if b == queue@.len() - 1 {
                    assert(queue@[a] == prev[a]);
                    assert(prev[a] < v);
                } else {
                    assert(queue@[a] == prev[a] && queue@[b] == prev[b]);
                }
            }
            assert forall|w: usize| w < v + 1 implies (indeg@[w as int] == 0 <==> queue@.contains(
                w,
            )) by {
                if w < v {
                    if prev.contains(w) {
                        let q = choose|q: int| 0 <= q < prev.len() && prev[q] == w;
                        assert(queue@[q] == w);
                    }
                    if queue@.contains(w) {
                        let q = choose|q: int| 0 <= q < queue@.len() && queue@[q] == w;
                        assert(q != queue@.len() - 1);
                        assert(prev[q] == w);
                    }
                } else {
                    assert(queue@[queue@.len() - 1] == w);
                }
            }
        } else {
            assert forall|j: int| 0 <= j < queue@.len() implies #[trigger] queue@[j] != v by {}
        }
        v = v + 1;
    }
    let mut result: Vec<usize> = Vec::new();
    let ghost mut removed: Set<int> = Set::empty();
    while queue.len() > 0
        invariant
            index_graph(n as nat, src@, tgt@, adj@),
            m == src@.len(),
            indeg@.len() == n,
            forall|w: int|
                0 <= w < n ==> #[trigger] indeg@[w] == unremoved(tgt@, w as usize, removed).len(),
            forall|k: int|
                0 <= k < m ==> (removed.contains(k) <==> result@.contains(#[trigger] src@[k])),
            forall|w: usize|
                w < n ==> (indeg@[w as int] == 0 <==> (result@.contains(w) || queue@.contains(w))),
            result@.no_duplicates(),
            queue@.no_duplicates(),
            forall|i: int, j: int|
                0 <= i < result@.len() && 0 <= j < queue@.len() ==> result@[i] != queue@[j],
            forall|i: int| 0 <= i < result@.len() ==> #[trigger] result@[i] < n,
            forall|j: int| 0 <= j < queue@.len() ==> #[trigger] queue@[j] < n,
            preds_before(src@, tgt@, result@),
        decreases n - result@.len(),
    {
        proof {
            lemma_result_queue_bounded(result@, queue@, n);
        }
        let ghost q0 = queue@;
        let u = queue.pop().unwrap();
        let ghost prev = result@;
        assert(q0 == queue@.push(u));
        assert(!prev.contains(u)) by {
            if prev.contains(u) {
                let i = choose|i: int| 0 <= i < prev.len() && prev[i] == u;
                assert(q0[q0.len() - 1] == u);
            }
        }
        assert(indeg@[u as int] == 0) by {
            assert(q0.contains(u)) by {
                assert(q0[q0.len() - 1] == u);
            }
        }
        result.push(u);
        proof {
            assert(result@.take(prev.len() as int) =~= prev);
            assert forall|i: int, k: int|
                #![trigger result@[i], tgt@[k]]
                0 <= i < result@.len() && 0 <= k < tgt@.len() && tgt@[k] == result@[i] implies result@.take(
                i,
            ).contains(src@[k]) by {
                if i == prev.len() {
                    lemma_unremoved_empty(tgt@, u, removed, k);
                    assert(prev.contains(src@[k]));
                } else {
                    assert(result@[i] == prev[i]);
                    assert(result@.take(i) =~= prev.take(i));
                }
            }
            assert forall|a: int, b: int| 0 <= a < b < result@.len() implies result@[a]
                != result@[b] by {
                if b == prev.len() {
                    assert(result@[a] == prev[a]);
                } else {
                    assert(result@[a] == prev[a] && result@[b] == prev[b]);
                }
            }
            assert forall|i: int, j: int|
                0 <= i < result@.len() && 0 <= j < queue@.len() implies result@[i]
                != queue@[j] by {
                assert(queue@[j] == q0[j]);
                if i == prev.len() {
                    assert(q0[q0.len() - 1] == u);
                } else {
                    assert(result@[i] == prev[i]);
                }
            }
        }
        proof {
            assert forall|w: usize|
                w < n implies (indeg@[w as int] == 0 <==> (result@.contains(w) || queue@.contains(
                w,
            ))) by {
                if q0.contains(w) && w != u {
                    let q = choose|q: int| 0 <= q < q0.len() && q0[q] == w;
                    assert(q != q0.len() - 1);
                    assert(queue@[q] == w);
                }
                if queue@.contains(w) {
                    let q = choose|q: int| 0 <= q < queue@.len() && queue@[q] == w;
                    assert(q0[q] == w);
                }
                if prev.contains(w) {
                    let i = choose|i: int| 0 <= i < prev.len() && prev[i] == w;
                    assert(result@[i] == w);
                }
                if result@.contains(w) && w != u {
                    let i = choose|i: int| 0 <= i < result@.len() && result@[i] == w;
                    assert(i != prev.len());
                    assert(prev[i] == w);
                }
                if w == u {
                    assert(result@[prev.len() as int] == u);
                }
            }
        }
        let row = &adj[u];
        let mut j: usize = 0;
        while j < row.len()
            invariant
                index_graph(n as nat, src@, tgt@, adj@),
                m == src@.len(),
                u < n,
                *row == adj@[u as int],
                j <= row@.len(),
                indeg@.len() == n,
                forall|w: int|
                    0 <= w < n ==> #[trigger] indeg@[w] == unremoved(tgt@, w as usize, removed).len(),
                forall|k: int|
                    0 <= k < m ==> (removed.contains(k) <==> (prev.contains(#[trigger] src@[k])
                        || row@.take(j as int).contains(k as usize))),
                result@ == prev.push(u),
                !prev.contains(u),
                forall|w: usize|
                    w < n ==> (indeg@[w as int] == 0 <==> (result@.contains(w) || queue@.contains(
                        w,
                    ))),
                result@.no_duplicates(),
                queue@.no_duplicates(),
                forall|i: int, j2: int|
                    0 <= i < result@.len() && 0 <= j2 < queue@.len() ==> result@[i] != queue@[j2],
                forall|i: int| 0 <= i < result@.len() ==> #[trigger] result@[i] < n,
                forall|j2: int| 0 <= j2 < queue@.len() ==> #[trigger] queue@[j2] < n,
                preds_before(src@, tgt@, result@),
            decreases row@.len() - j,
        {
            let k = row[j];
            let w = tgt[k];
            proof {
                assert(src@[k as int] == u);
                assert(!row@.take(j as int).contains(k)) by {
                    if row@.take(j as int).contains(k) {
                        let tk0 = row@.take(j as int);
                        let t = choose|t: int| 0 <= t < tk0.len() && tk0[t] == k;
                        assert(row@[t] == row@[j as int]);
                    }
                }
                assert(!removed.contains(k as int));
                lemma_unremoved_remove(tgt@, w, removed, k as int);
                assert(indeg@[w as int] >= 1);
            }
            let d = indeg[w];
            indeg.set(w, d - 1);
            proof {
                let old_removed = removed;
                removed = removed.insert(k as int);
                assert forall|x: int| 0 <= x < n implies #[trigger] indeg@[x] == unremoved(
                    tgt@,
                    x as usize,
                    removed,
                ).len() by {
                    lemma_unremoved_remove(tgt@, x as usize, old_removed, k as int);
                }
                assert(row@.take(j + 1) == row@.take(j as int).push(k));
                assert forall|e: int|
                    0 <= e < m implies (removed.contains(e) <==> (prev.contains(#[trigger] src@[e])
                    || row@.take(j + 1).contains(e as usize))) by {
                    if e == k as int {
                        assert(row@.take(j + 1)[j as int] == k);
                    } else {
                        let tk1 = row@.take(j + 1);
                        let tk0 = row@.take(j as int);
                        if tk1.contains(e as usize) {
                            let t = choose|t: int| 0 <= t < tk1.len() && tk1[t] == e as usize;
                            assert(t != j);
                            assert(tk0[t] == e as usize);
                        }
                        if tk0.contains(e as usize) {
                            let t = choose|t: int| 0 <= t < tk0.len() && tk0[t] == e as usize;
                            assert(tk1[t] == e as usize);
                        }
                    }
                }
            }
            if d - 1 == 0 {
                let ghost qb = queue@;
                assert(!result@.contains(w) && !qb.contains(w));
                queue.push(w);
                proof {
                    assert forall|a: int, b: int| 0 <= a < b < queue@.len() implies queue@[a]
                        != queue@[b] by {
                        if b == queue@.len() - 1 {
                            assert(queue@[a] == qb[a]);
                        } else {
                            assert(queue@[a] == qb[a] && queue@[b] == qb[b]);
                        }
                    }
                    assert forall|i: int, j2: int|
                        0 <= i < result@.len() && 0 <= j2 < queue@.len() implies result@[i]
                        != queue@[j2] by {
                        if j2 < qb.len() {
                            assert(queue@[j2] == qb[j2]);
                        }
                    }
                    assert forall|x: usize|
                        x < n implies (indeg@[x as int] == 0 <==> (result@.contains(x)
                        || queue@.contains(x))) by {
                        if qb.contains(x) {
                            let q = choose|q: int| 0 <= q < qb.len() && qb[q] == x;
                            assert(queue@[q] == x);
                        }
                        if queue@.contains(x) && x != w {
                            let q = choose|q: int| 0 <= q < queue@.len() && queue@[q] == x;
                            assert(q != queue@.len() - 1);
                            assert(qb[q] == x);
                        }
                        if x == w {
                            assert(queue@[queue@.len() - 1] == w);
                        }
                    }
                }
            }
            j = j + 1;
        }
        proof {
            assert(row@.take(row@.len() as int) =~= row@);
            assert forall|k: int| 0 <= k < m implies (removed.contains(k) <==> result@.contains(
                #[trigger] src@[k],
            )) by {
                if src@[k] == u {
                    assert(row@.contains(k as usize));
                    assert(result@[prev.len() as int] == u);
                } else {
                    if row@.contains(k as usize) {
                        let t = choose|t: int| 0 <= t < row@.len() && row@[t] == k as usize;
                        assert(src@[row@[t] as int] == u);
                    }
                    if result@.contains(src@[k]) {
                        let i = choose|i: int| 0 <= i < result@.len() && result@[i] == src@[k];
                        assert(i != prev.len());
                        assert(prev[i] == src@[k]);
                    }
                    if prev.contains(src@[k]) {
                        let i = choose|i: int| 0 <= i < prev.len() && prev[i] == src@[k];
                        assert(result@[i] == src@[k]);
                    }
                }
            }
        }
    }
    proof {
        assert forall|w: usize| w < n && !result@.contains(w) implies exists|k: int|
            0 <= k < tgt@.len() && #[trigger] tgt@[k] == w && !result@.contains(src@[k]) by {
            assert(indeg@[w as int] != 0);
            let k = lemma_unremoved_witness(tgt@, w, removed);
            assert(tgt@[k] == w);
        }
    }
    result
}

/// The first position of `id` in `nodes`.
fn index_of(nodes: &Vec<u128>, id: u128) -> (r: Option<usize>)
    ensures
        match r {
            Some(i) => i < nodes@.len() && nodes@[i as int] == id,
            None => !nodes@.contains(id),
        },
{
    let mut i: usize = 0;
    while i < nodes.len()
        invariant
            i <= nodes@.len(),
            forall|j: int| 0 <= j < i ==> nodes@[j] != id,
        decreases nodes@.len() - i,
    {
        if nodes[i] == id {
            return Some(i);
        }
        i = i + 1;
    }
    None
}

/// Whether some id occurs twice.
fn has_duplicate_ids(nodes: &Vec<u128>) -> (r: bool)
    ensures
        r == !nodes@.no_duplicates(),
{
    let n = nodes.len();
    let mut i: usize = 0;
    while i < n
        invariant
            n == nodes@.len(),
            i <= n,
            forall|a: int, b: int| 0 <= a < b < n && a < i ==> nodes@[a] != nodes@[b],
        decreases n - i,
    {
        let mut j: usize = i + 1;
        while j < n
            invariant
                n == nodes@.len(),
                i < n,
                i + 1 <= j <= n,
                forall|a: int, b: int| 0 <= a < b < n && a < i ==> nodes@[a] != nodes@[b],
                forall|b: int| i < b < j ==> nodes@[i as int] != nodes@[b],
            decreases n - j,
        {
            if nodes[i] == nodes[j] {
                return true;
            }
            j = j + 1;
        }
        i = i + 1;
    }
    false
}

/// Node indices of the edges' endpoints.
fn edge_indices(nodes: &Vec<u128>, edges: &Vec<Edge>) -> (r: (Vec<usize>, Vec<usize>))
    requires
        edges_within(nodes@, edges@),
    ensures
        r.0@.len() == edges@.len(),
        r.1@.len() == edges@.len(),
        forall|k: int|
            #![trigger r.0@[k]]
            #![trigger r.1@[k]]
            0 <= k < edges@.len() ==> r.0@[k] < nodes@.len() && r.1@[k] < nodes@.len()
                && nodes@[r.0@[k] as int] == edges@[k].from && nodes@[r.1@[k] as int]
                == edges@[k].to,
{
    let mut src: Vec<usize> = Vec::new();
    let mut tgt: Vec<usize> = Vec::new();
    let mut k: usize = 0;
    while k < edges.len()
        invariant
            edges_within(nodes@, edges@),
            k <= edges@.len(),
            src@.len() == k,
            tgt@.len() == k,
            forall|e: int|
                #![trigger src@[e]]
                #![trigger tgt@[e]]
                0 <= e < k ==> src@[e] < nodes@.len() && tgt@[e] < nodes@.len() && nodes@[src@[e] as int]
                    == edges@[e].from && nodes@[tgt@[e] as int] == edges@[e].to,
        decreases edges@.len() - k,
    {
        let e = edges[k];
        assert(nodes@.contains(edges@[k as int].from));
        let a = index_of(nodes, e.from).unwrap();
        let b = index_of(nodes, e.to).unwrap();
        src.push(a);
        tgt.push(b);
        k = k + 1;
    }
    (src, tgt)
}

/// `order[p]` is not the id of any listed node.
spec fn unlisted(nodes: Seq<u128>, res: Seq<usize>, order: Seq<u128>, p: int) -> bool {
    0 <= p < order.len() && forall|i: int|
        0 <= i < res.len() ==> nodes[#[trigger] res[i] as int] != order[p]
}

proof fn lemma_first_unlisted(nodes: Seq<u128>, res: Seq<usize>, order: Seq<u128>, p: int) -> (q: int)
    requires
        unlisted(nodes, res, order, p),
    ensures
        0 <= q <= p,
        unlisted(nodes, res, order, q),
        forall|r: int| 0 <= r < q ==> !#[trigger] unlisted(nodes, res, order, r),
    decreases p,
{
    if exists|r: int| 0 <= r < p && #[trigger] unlisted(nodes, res, order, r) {
        let r = choose|r: int| 0 <= r < p && #[trigger] unlisted(nodes, res, order, r);
        lemma_first_unlisted(nodes, res, order, r)
    } else {
        p
    }
}

proof fn lemma_topo_facts(nodes: Seq<u128>, edges: Seq<Edge>, order: Seq<u128>)
    requires
        is_topological_order(nodes, edges, order),
    ensures
        order.len() == nodes.len(),
        forall|p: int| 0 <= p < order.len() ==> nodes.contains(#[trigger] order[p]),
        forall|x: int| 0 <= x < nodes.len() ==> order.contains(#[trigger] nodes[x]),
{
    reveal(is_topological_order);
}

proof fn lemma_topo_edge(nodes: Seq<u128>, edges: Seq<Edge>, order: Seq<u128>, i: int, j: int, k: int)
    requires
        is_topological_order(nodes, edges, order),
        0 <= i <= j < order.len(),
        0 <= k < edges.len(),
        order[j] == edges[k].from,
    ensures
        order[i] != edges[k].to,
{
    reveal(is_topological_order);
}

/// When Kahn's algorithm gets stuck before listing every node, no
/// topological order exists.
proof fn lemma_stuck_means_cycle(
    nodes: Seq<u128>,
    edges: Seq<Edge>,
    src: Seq<usize>,
    tgt: Seq<usize>,
    res: Seq<usize>,
    order: Seq<u128>,
    n: usize,
)
    requires
        n == nodes.len(),
        nodes.no_duplicates(),
        src.len() == edges.len(),
        tgt.len() == edges.len(),
        forall|k: int|
            #![trigger src[k]]
            #![trigger tgt[k]]
            0 <= k < edges.len() ==> src[k] < nodes.len() && tgt[k] < nodes.len()
                && nodes[src[k] as int] == edges[k].from && nodes[tgt[k] as int] == edges[k].to,
        res.no_duplicates(),
        forall|i: int| 0 <= i < res.len() ==> #[trigger] res[i] < nodes.len(),
        res.len() < nodes.len(),
        forall|v: usize|
            v < nodes.len() && !res.contains(v) ==> exists|k: int|
                0 <= k < tgt.len() && #[trigger] tgt[k] == v && !res.contains(src[k]),
    ensures
        !is_topological_order(nodes, edges, order),
{
    if is_topological_order(nodes, edges, order) {
        lemma_stuck_contradiction(nodes, edges, src, tgt, res, order, n);
    }
}

#[verifier::spinoff_prover]
proof fn lemma_stuck_contradiction(
    nodes: Seq<u128>,
    edges: Seq<Edge>,
    src: Seq<usize>,
    tgt: Seq<usize>,
    res: Seq<usize>,
    order: Seq<u128>,
    n: usize,
)
    requires
        n == nodes.len(),
        nodes.no_duplicates(),
        src.len() == edges.len(),
        tgt.len() == edges.len(),
        forall|k: int|
            #![trigger src[k]]
            #![trigger tgt[k]]
            0 <= k < edges.len() ==> src[k] < nodes.len() && tgt[k] < nodes.len()
                && nodes[src[k] as int] == edges[k].from && nodes[tgt[k] as int] == edges[k].to,
        res.no_duplicates(),
        forall|i: int| 0 <= i < res.len() ==> #[trigger] res[i] < nodes.len(),
        res.len() < nodes.len(),
        forall|v: usize|
            v < nodes.len() && !res.contains(v) ==> exists|k: int|
                0 <= k < tgt.len() && #[trigger] tgt[k] == v && !res.contains(src[k]),
        is_topological_order(nodes, edges, order),
    ensures
        nodes.len() == 0,
{
    lemma_topo_facts(nodes, edges, order);
    lemma_nodup_bounded(res, n);
    let missing = choose|v: usize| v < n && !res.contains(v);
    assert(order.contains(nodes[missing as int]));
    let p0 = choose|p: int| 0 <= p < order.len() && order[p] == nodes[missing as int];
    assert forall|i: int| 0 <= i < res.len() implies nodes[res[i] as int] != order[p0] by {
        if nodes[res[i] as int] == order[p0] {
            assert(res[i] == missing);
        }
    }
    assert(unlisted(nodes, res, order, p0));
    let q = lemma_first_unlisted(nodes, res, order, p0);
    lemma_stuck_step(nodes, edges, src, tgt, res, order, q, n);
}

proof fn lemma_stuck_step(
    nodes: Seq<u128>,
    edges: Seq<Edge>,
    src: Seq<usize>,
    tgt: Seq<usize>,
    res: Seq<usize>,
    order: Seq<u128>,
    q: int,
    n: usize,
)
    requires
        n == nodes.len(),
        nodes.no_duplicates(),
        src.len() == edges.len(),
        tgt.len() == edges.len(),
        forall|k: int|
            #![trigger src[k]]
            #![trigger tgt[k]]
            0 <= k < edges.len() ==> src[k] < nodes.len() && tgt[k] < nodes.len()
                && nodes[src[k] as int] == edges[k].from && nodes[tgt[k] as int] == edges[k].to,
        forall|v: usize|
            v < nodes.len() && !res.contains(v) ==> exists|k: int|
                0 <= k < tgt.len() && #[trigger] tgt[k] == v && !res.contains(src[k]),
        is_topological_order(nodes, edges, order),
        forall|i: int| 0 <= i < res.len() ==> #[trigger] res[i] < nodes.len(),
        unlisted(nodes, res, order, q),
        forall|r: int| 0 <= r < q ==> !#[trigger] unlisted(nodes, res, order, r),
    ensures
        nodes.len() == 0,
{
    lemma_topo_facts(nodes, edges, order);
    assert(nodes.contains(order[q]));
    let x = choose|x: int| 0 <= x < nodes.len() && nodes[x] == order[q];
    assert(x < n);
    let xu = x as usize;
    assert(nodes[xu as int] == order[q]);
    assert(!res.contains(xu)) by {
        if res.contains(xu) {
            let t = choose|t: int| 0 <= t < res.len() && res[t] == xu;
            assert(nodes[res[t] as int] == order[q]);
        }
    }
    let k = choose|k: int| 0 <= k < tgt.len() && #[trigger] tgt[k] == xu && !res.contains(src[k]);
    assert(nodes[tgt[k] as int] == edges[k].to);
    assert(edges[k].to == order[q]);
    let from_node = edges[k].from;
    assert(order.contains(from_node));
    let p1 = choose|p: int| 0 <= p < order.len() && order[p] == from_node;
    if q <= p1 {
        lemma_topo_edge(nodes, edges, order, q, p1, k);
    }
    assert(p1 < q);
    assert(!unlisted(nodes, res, order, p1));
    let i = choose|i: int| 0 <= i < res.len() && nodes[res[i] as int] == order[p1];
    assert(nodes[res[i] as int] == nodes[src[k] as int]);
    assert(res[i] == src[k]);
    assert(res.contains(src[k]));
}

/// A complete Kahn listing, read back as node ids, is a topological order.
proof fn lemma_listed_order(
    ns: Seq<u128>,
    es: Seq<Edge>,
    src: Seq<usize>,
    tgt: Seq<usize>,
    res: Seq<usize>,
    o: Seq<u128>,
    n: usize,
)
    requires
        n == ns.len(),
        ns.no_duplicates(),
        src.len() == es.len(),
        tgt.len() == es.len(),
        forall|k: int|
            #![trigger src[k]]
            #![trigger tgt[k]]
            0 <= k < es.len() ==> src[k] < ns.len() && tgt[k] < ns.len() && ns[src[k] as int]
                == es[k].from && ns[tgt[k] as int] == es[k].to,
        res.no_duplicates(),
        res.len() == ns.len(),
        forall|i: int| 0 <= i < res.len() ==> #[trigger] res[i] < ns.len(),
        preds_before(src, tgt, res),
        o.len() == res.len(),
        forall|j: int| 0 <= j < o.len() ==> #[trigger] o[j] == ns[res[j] as int],
    ensures
        is_topological_order(ns, es, o),
{
    lemma_nodup_bounded(res, n);
    assert(o.no_duplicates()) by {
        assert forall|a: int, b: int| 0 <= a < b < o.len() implies o[a] != o[b] by {
            assert(res[a] != res[b]);
            assert(o[a] == ns[res[a] as int] && o[b] == ns[res[b] as int]);
        }
    }
    assert forall|a: int| 0 <= a < o.len() implies ns.contains(#[trigger] o[a]) by {
        assert(o[a] == ns[res[a] as int]);
    }
    assert forall|a: int| 0 <= a < ns.len() implies o.contains(#[trigger] ns[a]) by {
        assert(res.contains(a as usize));
        let p = choose|p: int| 0 <= p < res.len() && res[p] == a as usize;
        assert(o[p] == ns[a]);
    }
    assert forall|a: int, b: int, k: int|
        #![trigger o[a], o[b], es[k]]
        0 <= a <= b < o.len() && 0 <= k < es.len() && o[b] == es[k].from implies o[a]
        != es[k].to by {
        if o[a] == es[k].to {
            assert(ns[src[k] as int] == es[k].from);
            assert(ns[tgt[k] as int] == es[k].to);
            assert(o[b] == ns[res[b] as int]);
            assert(o[a] == ns[res[a] as int]);
            assert(res[b] == src[k]);
            assert(res[a] == tgt[k]);
            assert(res.take(a).contains(src[k]));
            let p = choose|p: int| 0 <= p < a && res.take(a)[p] == src[k];
            assert(res[p] == res[b]);
        }
    }
    reveal(is_topological_order);
}

#[verifier::spinoff_prover]
/// Perform a topological sort of the workflow's nodes (Kahn's algorithm):
/// a topological order when the ids are distinct and the graph has no
/// cycle, `CycleDetected` otherwise.
pub fn topological_sort(graph: &WorkflowGraph) -> (r: Result<Vec<u128>, EngineError>)
    requires
        edges_within(graph.nodes@, graph.edges@),
    ensures
        match r {
            Ok(order) => is_acyclic(graph.nodes@, graph.edges@) && is_topological_order(
                graph.nodes@,
                graph.edges@,
                order@,
            ),
            Err(e) => e is CycleDetected && !is_acyclic(graph.nodes@, graph.edges@),
        },
{
    let nodes = &graph.nodes;
    let edges = &graph.edges;
    if has_duplicate_ids(nodes) {
        return Err(EngineError::CycleDetected);
    }
    let n = nodes.len();
    let (src, tgt) = edge_indices(nodes, edges);
    let adj = build_adjacency(n, &src, &tgt);
    let res = kahn_order(n, &src, &tgt, &adj);
    if res.len() != n {
        proof {
            lemma_nodup_bounded(res@, n);
            if is_acyclic(nodes@, edges@) {
                let order = choose|order: Seq<u128>| is_topological_order(nodes@, edges@, order);
                lemma_stuck_means_cycle(nodes@, edges@, src@, tgt@, res@, order, n);
                assert(false);
            }
        }
        return Err(EngineError::CycleDetected);
    }
    let mut order: Vec<u128> = Vec::new();
    let mut i: usize = 0;
    while i < n
        invariant
            i <= n,
            n == nodes@.len(),
            res@.len() == n,
            forall|j: int| 0 <= j < res@.len() ==> #[trigger] res@[j] < n,
            order@.len() == i,
            forall|j: int| 0 <= j < i ==> #[trigger] order@[j] == nodes@[res@[j] as int],
        decreases n - i,
    {
        order.push(nodes[res[i]]);
        i = i + 1;
    }
    proof {
        lemma_listed_order(nodes@, edges@, src@, tgt@, res@, order@, n);
    }
    Ok(order)
}


/// Whether every node with an edge into `node` has a result among
/// `completed`.
pub fn dependencies_satisfied(node: u128, edges: &Vec<Edge>, completed: &Vec<u128>) -> (b: bool)
    ensures
        b == (forall|k: int|
            0 <= k < edges@.len() && #[trigger] edges@[k].to == node ==> completed@.contains(
                edges@[k].from,
            )),
{
    let mut k: usize = 0;
    while k < edges.len()
        invariant
            k <= edges@.len(),
            forall|j: int|
                0 <= j < k && #[trigger] edges@[j].to == node ==> completed@.contains(edges@[j].from),
        decreases edges@.len() - k,
    {
        if edges[k].to == node {
            let from = edges[k].from;
            let mut found = false;
            let mut c: usize = 0;
            while c < completed.len()
                invariant
                    c <= completed@.len(),
                    found ==> completed@.contains(from),
                    !found ==> forall|j: int| 0 <= j < c ==> completed@[j] != from,
                decreases completed@.len() - c,
            {
                if completed[c] == from {
                    found = true;
                }
                c = c + 1;
            }
            if !found {
                assert(!completed@.contains(from)) by {
                    if completed@.contains(from) {
                        let j = choose|j: int| 0 <= j < completed@.len() && completed@[j] == from;
                        assert(completed@[j] != from);
                    }
                }
                return false;
            }
        }
        k = k + 1;
    }
    true
}

// ---------------------------------------------------------------------
// Execution levels
// ---------------------------------------------------------------------

/// Node `x` stands in level `i`.
pub open spec fn in_level(levels: Seq<Seq<u128>>, i: int, x: u128) -> bool {
    0 <= i < levels.len() && levels[i].contains(x)
}

/// `levels` groups the nodes into levels that can run one after another,
/// the nodes of a level in parallel: every level is a non-empty list of
/// distinct nodes, every node stands in exactly one level, every edge leads
/// to a later level, and every node past the first level has a predecessor
/// in the level just before it (so each node stands as early as its
/// predecessors allow). The order within a level is left open.
pub open spec fn is_level_plan(nodes: Seq<u128>, edges: Seq<Edge>, levels: Seq<Seq<u128>>) -> bool {
    &&& forall|i: int|
        0 <= i < levels.len() ==> #[trigger] levels[i].len() > 0 && levels[i].no_duplicates()
    &&& forall|i: int, x: u128| #[trigger] in_level(levels, i, x) ==> nodes.contains(x)
    &&& forall|x: u128| nodes.contains(x) ==> exists|i: int| #[trigger] in_level(levels, i, x)
    &&& forall|i1: int, i2: int, x: u128|
        #[trigger] in_level(levels, i1, x) && #[trigger] in_level(levels, i2, x) ==> i1 == i2
    &&& forall|k: int, i1: int, i2: int|
        #![trigger in_level(levels, i1, edges[k].from), in_level(levels, i2, edges[k].to)]
        0 <= k < edges.len() && in_level(levels, i1, edges[k].from) && in_level(
            levels,
            i2,
            edges[k].to,
        ) ==> i1 < i2
    &&& forall|i: int, x: u128|
        0 < i && #[trigger] in_level(levels, i, x) ==> exists|k: int|
            0 <= k < edges.len() && edges[k].to == x && #[trigger] in_level(levels, i - 1, edges[k].from)
}

/// The views of a list of levels.
pub open spec fn level_views(levels: Seq<Vec<u128>>) -> Seq<Seq<u128>> {
    Seq::new(levels.len(), |i: int| levels[i]@)
}

/// Some node of depth `d` has id `x`.
spec fn at_depth(nodes: Seq<u128>, dep: Seq<usize>, d: int, x: u128) -> bool {
    exists|v: int| 0 <= v < nodes.len() && dep[v] == d && #[trigger] nodes[v] == x
}

/// Every edge climbs in depth.
spec fn depths_climb(src: Seq<usize>, tgt: Seq<usize>, dep: Seq<usize>) -> bool {
    forall|k: int| 0 <= k < src.len() ==> dep[#[trigger] src[k] as int] < dep[tgt[k] as int]
}

/// Every node of positive depth has a predecessor one depth below.
spec fn depths_tight(src: Seq<usize>, tgt: Seq<usize>, dep: Seq<usize>) -> bool {
    forall|v: int|
        0 <= v < dep.len() && #[trigger] dep[v] > 0 ==> exists|k: int|
            0 <= k < src.len() && tgt[k] == v && #[trigger] dep[src[k] as int] + 1 == dep[v]
}

/// The depth of each node (by index), processing the nodes in the
/// topological order `res`: a node's depth is one more than the greatest
/// depth of its predecessors, 0 without any.
fn node_depths(n: usize, src: &Vec<usize>, tgt: &Vec<usize>, res: &Vec<usize>) -> (dep: Vec<usize>)
    requires
        src@.len() == tgt@.len(),
        forall|k: int| 0 <= k < src@.len() ==> #[trigger] src@[k] < n && tgt@[k] < n,
        res@.len() == n,
        res@.no_duplicates(),
        forall|i: int| 0 <= i < res@.len() ==> #[trigger] res@[i] < n,
        preds_before(src@, tgt@, res@),
    ensures
        dep@.len() == n,
        forall|v: int| 0 <= v < n ==> #[trigger] dep@[v] < n,
        depths_climb(src@, tgt@, dep@),
        depths_tight(src@, tgt@, dep@),
{
    let m = src.len();
    let mut dep: Vec<usize> = Vec::new();
    let mut i: usize = 0;
    while i < n
        invariant
            i <= n,
            dep@.len() == i,
            forall|v: int| 0 <= v < i ==> dep@[v] == 0,
        decreases n - i,
    {
        dep.push(0);
        i = i + 1;
    }
    let mut p: usize = 0;
    while p < n
        invariant
            m == src@.len(),
            src@.len() == tgt@.len(),
            forall|k: int| 0 <= k < src@.len() ==> #[trigger] src@[k] < n && tgt@[k] < n,
            res@.len() == n,
            res@.no_duplicates(),
            forall|i: int| 0 <= i < res@.len() ==> #[trigger] res@[i] < n,
            preds_before(src@, tgt@, res@),
            dep@.len() == n,
            p <= n,
            forall|k: int|
                0 <= k < m && res@.take(p as int).contains(#[trigger] tgt@[k]) ==> dep@[src@[k] as int]
                    < dep@[tgt@[k] as int],
            forall|q: int|
                0 <= q < p && #[trigger] dep@[res@[q] as int] > 0 ==> exists|k: int|
                    0 <= k < m && tgt@[k] == res@[q] && #[trigger] dep@[src@[k] as int] + 1
                        == dep@[res@[q] as int],
            forall|q: int| 0 <= q < p ==> #[trigger] dep@[res@[q] as int] <= q,
        decreases n - p,
    {
        let v = res[p];
        let mut d: usize = 0;
        let mut k: usize = 0;
        while k < m
            invariant
                m == src@.len(),
                src@.len() == tgt@.len(),
                forall|k: int| 0 <= k < src@.len() ==> #[trigger] src@[k] < n && tgt@[k] < n,
                res@.len() == n,
                res@.no_duplicates(),
                forall|i: int| 0 <= i < res@.len() ==> #[trigger] res@[i] < n,
                preds_before(src@, tgt@, res@),
                dep@.len() == n,
                p < n,
                v == res@[p as int],
                forall|q: int| 0 <= q < p ==> #[trigger] dep@[res@[q] as int] <= q,
                k <= m,
                d <= p,
                forall|e: int| 0 <= e < k && tgt@[e] == v ==> #[trigger] dep@[src@[e] as int] < d,
                d > 0 ==> exists|e: int|
                    0 <= e < k && tgt@[e] == v && #[trigger] dep@[src@[e] as int] + 1 == d,
            decreases m - k,
        {
            if tgt[k] == v {
                let u = src[k];
                proof {
                    assert(res@[p as int] == tgt@[k as int]);
                    assert(res@.take(p as int).contains(src@[k as int]));
                    let q = choose|q: int| 0 <= q < p && #[trigger] res@.take(p as int)[q] == src@[k as int];
                    assert(res@[q] == u);
                    assert(dep@[res@[q] as int] <= q);
                }
                let c = dep[u] + 1;
                if c > d {
                    d = c;
                }
            }
            k = k + 1;
        }
        let ghost old_dep = dep@;
        dep.set(v, d);
        proof {
            assert forall|q: int| 0 <= q < p implies res@[q] != v by {
                assert(res@[q] != res@[p as int]);
            }
            // A predecessor of a node listed up to position `p` is listed
            // before it, hence is not `v`.
            assert forall|k: int|
                0 <= k < m && res@.take(p as int + 1).contains(#[trigger] tgt@[k]) implies src@[k] != v
                && res@.take(p as int).contains(src@[k]) by {
                let i = choose|i: int| 0 <= i <= p && #[trigger] res@.take(p as int + 1)[i] == tgt@[k];
                assert(res@[i] == tgt@[k]);
                assert(res@.take(i).contains(src@[k]));
                let j = choose|j: int| 0 <= j < i && #[trigger] res@.take(i)[j] == src@[k];
                assert(res@[j] == src@[k]);
                assert(res@[j] != res@[p as int]);
                assert(res@.take(p as int)[j] == src@[k]);
            }
            assert forall|k: int|
                0 <= k < m && res@.take(p as int + 1).contains(#[trigger] tgt@[k]) implies dep@[src@[k] as int]
                < dep@[tgt@[k] as int] by {
                if tgt@[k] == v {
                } else {
                    let i = choose|i: int| 0 <= i <= p && #[trigger] res@.take(p as int + 1)[i] == tgt@[k];
                    assert(res@[i] == tgt@[k]);
                    assert(i != p);
                    assert(res@.take(p as int)[i] == tgt@[k]);
                    assert(res@.take(p as int).contains(tgt@[k]));
                }
            }
            assert forall|q: int|
                0 <= q < p + 1 && #[trigger] dep@[res@[q] as int] > 0 implies exists|k: int|
                0 <= k < m && tgt@[k] == res@[q] && #[trigger] dep@[src@[k] as int] + 1
                    == dep@[res@[q] as int] by {
                if q == p {
                    let e = choose|e: int|
                        0 <= e < m && tgt@[e] == v && #[trigger] old_dep[src@[e] as int] + 1 == d;
                    assert(res@.take(p as int + 1)[p as int] == tgt@[e]);
                    assert(res@.take(p as int + 1).contains(tgt@[e]));
                    assert(dep@[src@[e] as int] + 1 == dep@[res@[q] as int]);
                } else {
                    assert(old_dep[res@[q] as int] == dep@[res@[q] as int]);
                    let e = choose|e: int|
                        0 <= e < m && tgt@[e] == res@[q] && #[trigger] old_dep[src@[e] as int] + 1
                            == old_dep[res@[q] as int];
                    assert(res@.take(p as int + 1)[q] == tgt@[e]);
                    assert(res@.take(p as int + 1).contains(tgt@[e]));
                    assert(dep@[src@[e] as int] + 1 == dep@[res@[q] as int]);
                }
            }
            assert forall|q: int| 0 <= q < p + 1 implies #[trigger] dep@[res@[q] as int] <= q by {
                if q < p {
                    assert(old_dep[res@[q] as int] == dep@[res@[q] as int]);
                }
            }
        }
        p = p + 1;
    }
    proof {
        lemma_depths_done(n, src@, tgt@, res@, dep@);
    }
    dep
}

/// Once every node is processed, the depths climb along every edge and are
/// tight.
proof fn lemma_depths_done(n: usize, src: Seq<usize>, tgt: Seq<usize>, res: Seq<usize>, dep: Seq<usize>)
    requires
        src.len() == tgt.len(),
        forall|k: int|
            #![trigger src[k]]
            #![trigger tgt[k]]
            0 <= k < src.len() ==> src[k] < n && tgt[k] < n,
        res.len() == n,
        res.no_duplicates(),
        forall|i: int| 0 <= i < res.len() ==> #[trigger] res[i] < n,
        dep.len() == n,
        forall|k: int|
            0 <= k < src.len() && res.take(n as int).contains(#[trigger] tgt[k]) ==> dep[src[k] as int]
                < dep[tgt[k] as int],
        forall|q: int|
            0 <= q < n && #[trigger] dep[res[q] as int] > 0 ==> exists|k: int|
                0 <= k < src.len() && tgt[k] == res[q] && #[trigger] dep[src[k] as int] + 1 == dep[res[q] as int],
        forall|q: int| 0 <= q < n ==> #[trigger] dep[res[q] as int] <= q,
    ensures
        forall|v: int| 0 <= v < n ==> #[trigger] dep[v] < n,
        depths_climb(src, tgt, dep),
        depths_tight(src, tgt, dep),
{
    lemma_nodup_bounded(res, n);
    assert(res.take(n as int) =~= res);
    assert forall|v: int| 0 <= v < n implies #[trigger] dep[v] < n by {
        assert(res.contains(v as usize));
        let q = choose|q: int| 0 <= q < n && res[q] == v as usize;
        assert(dep[res[q] as int] <= q);
    }
    assert forall|k: int| 0 <= k < src.len() implies dep[#[trigger] src[k] as int] < dep[tgt[k] as int] by {
        assert(tgt[k] < n);
        assert(res.contains(tgt[k]));
    }
    assert forall|v: int| 0 <= v < dep.len() && #[trigger] dep[v] > 0 implies exists|k: int|
        0 <= k < src.len() && tgt[k] == v && #[trigger] dep[src[k] as int] + 1 == dep[v] by {
        assert(res.contains(v as usize));
        let q = choose|q: int| 0 <= q < n && res[q] == v as usize;
        assert(dep[res[q] as int] > 0);
    }
}

/// Below the depth of any node, every depth is held by some node.
proof fn lemma_depth_chain(src: Seq<usize>, tgt: Seq<usize>, dep: Seq<usize>, v: int, d: int)
    requires
        src.len() == tgt.len(),
        forall|k: int| 0 <= k < src.len() ==> #[trigger] src[k] < dep.len() && tgt[k] < dep.len(),
        depths_tight(src, tgt, dep),
        0 <= v < dep.len(),
        0 <= d <= dep[v],
    ensures
        exists|w: int| 0 <= w < dep.len() && #[trigger] dep[w] == d,
    decreases dep[v] - d,
{
    if dep[v] == d {
        assert(dep[v] == d);
    } else {
        let k = choose|k: int| 0 <= k < src.len() && tgt[k] == v && #[trigger] dep[src[k] as int] + 1 == dep[v];
        assert(src[k] < dep.len());
        lemma_depth_chain(src, tgt, dep, src[k] as int, d);
    }
}

/// The nodes of depth `d`, in their order in `nodes`.
fn nodes_at_depth(nodes: &Vec<u128>, dep: &Vec<usize>, d: usize) -> (level: Vec<u128>)
    requires
        dep@.len() == nodes@.len(),
        nodes@.no_duplicates(),
    ensures
        level@.no_duplicates(),
        forall|x: u128| level@.contains(x) <==> at_depth(nodes@, dep@, d as int, x),
{
    let n = nodes.len();
    let mut level: Vec<u128> = Vec::new();
    // The index in `nodes` of each listed id.
    let ghost mut wit: Seq<int> = Seq::empty();
    let mut v: usize = 0;
    while v < n
        invariant
            n == nodes@.len(),
            dep@.len() == n,
            nodes@.no_duplicates(),
            v <= n,
            wit.len() == level@.len(),
            forall|j: int|
                0 <= j < wit.len() ==> 0 <= #[trigger] wit[j] < v && dep@[wit[j]] == d && nodes@[wit[j]]
                    == level@[j],
            forall|a: int, b: int| 0 <= a < b < wit.len() ==> #[trigger] wit[a] < #[trigger] wit[b],
            forall|w: int| 0 <= w < v && dep@[w] == d ==> level@.contains(#[trigger] nodes@[w]),
        decreases n - v,
    {
        if dep[v] == d {
            let ghost before = level@;
            level.push(nodes[v]);
            proof {
                wit = wit.push(v as int);
                assert forall|w: int| 0 <= w < v + 1 && dep@[w] == d implies level@.contains(
                    #[trigger] nodes@[w],
                ) by {
                    if w < v {
                        assert(before.contains(nodes@[w]));
                        let j = choose|j: int| 0 <= j < before.len() && before[j] == nodes@[w];
                        assert(level@[j] == nodes@[w]);
                    } else {
                        assert(level@[before.len() as int] == nodes@[w]);
                    }
                }
            }
        }
        v = v + 1;
    }
    proof {
        assert(level@.no_duplicates()) by {
            assert forall|a: int, b: int| 0 <= a < b < level@.len() implies level@[a] != level@[b] by {
                assert(wit[a] < wit[b]);
                assert(nodes@[wit[a]] != nodes@[wit[b]]);
            }
        }
        assert forall|x: u128| level@.contains(x) <==> at_depth(nodes@, dep@, d as int, x) by {
            if level@.contains(x) {
                let j = choose|j: int| 0 <= j < level@.len() && level@[j] == x;
                assert(nodes@[wit[j]] == x);
            }
            if at_depth(nodes@, dep@, d as int, x) {
                let w = choose|w: int| 0 <= w < nodes@.len() && dep@[w] == d && #[trigger] nodes@[w] == x;
                assert(level@.contains(nodes@[w]));
            }
        }
    }
    level
}

/// Groups the nodes into levels by depth, from depth 0 up to the greatest.
#[verifier::spinoff_prover]
fn group_by_depth(nodes: &Vec<u128>, src: &Vec<usize>, tgt: &Vec<usize>, dep: &Vec<usize>) -> (levels: Vec<Vec<u128>>)
    requires
        dep@.len() == nodes@.len(),
        nodes@.no_duplicates(),
        forall|v: int| 0 <= v < nodes@.len() ==> #[trigger] dep@[v] < nodes@.len(),
        src@.len() == tgt@.len(),
        forall|k: int| 0 <= k < src@.len() ==> #[trigger] src@[k] < nodes@.len() && tgt@[k] < nodes@.len(),
        depths_tight(src@, tgt@, dep@),
    ensures
        forall|i: int|
            0 <= i < levels@.len() ==> #[trigger] levels@[i]@.len() > 0 && levels@[i]@.no_duplicates(),
        forall|i: int, x: u128|
            0 <= i < levels@.len() ==> (#[trigger] levels@[i]@.contains(x) <==> at_depth(nodes@, dep@, i, x)),
        forall|v: int| 0 <= v < nodes@.len() ==> #[trigger] dep@[v] < levels@.len(),
{
    let n = nodes.len();
    let mut levels: Vec<Vec<u128>> = Vec::new();
    if n == 0 {
        return levels;
    }
    let mut maxd: usize = dep[0];
    let mut top: usize = 0;
    let mut v: usize = 0;
    while v < n
        invariant
            n == nodes@.len(),
            dep@.len() == n,
            0 < n,
            v <= n,
            top < n,
            maxd == dep@[top as int],
            forall|w: int| 0 <= w < v ==> #[trigger] dep@[w] <= maxd,
        decreases n - v,
    {
        if dep[v] > maxd {
            maxd = dep[v];
            top = v;
        }
        v = v + 1;
    }
    let mut d: usize = 0;
    while d <= maxd
        invariant
            n == nodes@.len(),
            dep@.len() == n,
            nodes@.no_duplicates(),
            forall|v: int| 0 <= v < n ==> #[trigger] dep@[v] < n,
            src@.len() == tgt@.len(),
            forall|k: int| 0 <= k < src@.len() ==> #[trigger] src@[k] < n && tgt@[k] < n,
            depths_tight(src@, tgt@, dep@),
            top < n,
            maxd == dep@[top as int],
            maxd < n,
            forall|w: int| 0 <= w < n ==> #[trigger] dep@[w] <= maxd,
            d <= maxd + 1,
            levels@.len() == d,
            forall|i: int|
                0 <= i < levels@.len() ==> #[trigger] levels@[i]@.len() > 0 && levels@[i]@.no_duplicates(),
            forall|i: int, x: u128|
                0 <= i < levels@.len() ==> (#[trigger] levels@[i]@.contains(x) <==> at_depth(nodes@, dep@, i, x)),
        decreases maxd + 1 - d,
    {
        let level = nodes_at_depth(nodes, dep, d);
        proof {
            lemma_depth_chain(src@, tgt@, dep@, top as int, d as int);
            let w = choose|w: int| 0 <= w < dep@.len() && #[trigger] dep@[w] == d;
            assert(at_depth(nodes@, dep@, d as int, nodes@[w]));
            assert(level@.contains(nodes@[w]));
        }
        let ghost before = levels@;
        levels.push(level);
        proof {
            assert forall|i: int, x: u128|
                0 <= i < levels@.len() implies (#[trigger] levels@[i]@.contains(x) <==> at_depth(
                nodes@,
                dep@,
                i,
                x,
            )) by {
                if i < before.len() {
                    assert(levels@[i] == before[i]);
                }
            }
        }
        d = d + 1;
    }
    levels
}

/// Groups the workflow's nodes into execution levels (breadth-first
/// Kahn's algorithm): the nodes of a level can run in parallel once the
/// levels before it completed. `CycleDetected` when the ids are not distinct
/// or the graph has a cycle.
#[verifier::spinoff_prover]
pub fn compute_execution_levels(graph: &WorkflowGraph) -> (r: Result<Vec<Vec<u128>>, EngineError>)
    requires
        edges_within(graph.nodes@, graph.edges@),
    ensures
        match r {
            Ok(levels) => is_acyclic(graph.nodes@, graph.edges@) && is_level_plan(
                graph.nodes@,
                graph.edges@,
                level_views(levels@),
            ),
            Err(e) => e is CycleDetected && !is_acyclic(graph.nodes@, graph.edges@),
        },
{
    let nodes = &graph.nodes;
    let edges = &graph.edges;
    if has_duplicate_ids(nodes) {
        return Err(EngineError::CycleDetected);
    }
    let n = nodes.len();
    let (src, tgt) = edge_indices(nodes, edges);
    let adj = build_adjacency(n, &src, &tgt);
    let res = kahn_order(n, &src, &tgt, &adj);
    if res.len() != n {
        proof {
            lemma_nodup_bounded(res@, n);
            if is_acyclic(nodes@, edges@) {
                let order = choose|order: Seq<u128>| is_topological_order(nodes@, edges@, order);
                lemma_stuck_means_cycle(nodes@, edges@, src@, tgt@, res@, order, n);
                assert(false);
            }
        }
        return Err(EngineError::CycleDetected);
    }
    let dep = node_depths(n, &src, &tgt, &res);
    let levels = group_by_depth(nodes, &src, &tgt, &dep);
    proof {
        let o = Seq::new(n as nat, |j: int| nodes@[res@[j] as int]);
        lemma_listed_order(nodes@, edges@, src@, tgt@, res@, o, n);
        lemma_level_plan(nodes@, edges@, src@, tgt@, dep@, levels@);
    }
    Ok(levels)
}

/// The grouping by depth is a level plan.
proof fn lemma_level_plan(
    nodes: Seq<u128>,
    edges: Seq<Edge>,
    src: Seq<usize>,
    tgt: Seq<usize>,
    dep: Seq<usize>,
    levels: Seq<Vec<u128>>,
)
    requires
        nodes.no_duplicates(),
        dep.len() == nodes.len(),
        src.len() == edges.len(),
        tgt.len() == edges.len(),
        forall|k: int|
            #![trigger src[k]]
            #![trigger tgt[k]]
            0 <= k < edges.len() ==> src[k] < nodes.len() && tgt[k] < nodes.len()
                && nodes[src[k] as int] == edges[k].from && nodes[tgt[k] as int] == edges[k].to,
        depths_climb(src, tgt, dep),
        depths_tight(src, tgt, dep),
        forall|i: int|
            0 <= i < levels.len() ==> #[trigger] levels[i]@.len() > 0 && levels[i]@.no_duplicates(),
        forall|i: int, x: u128|
            0 <= i < levels.len() ==> (#[trigger] levels[i]@.contains(x) <==> at_depth(nodes, dep, i, x)),
        forall|v: int| 0 <= v < nodes.len() ==> #[trigger] dep[v] < levels.len(),
    ensures
        is_level_plan(nodes, edges, level_views(levels)),
{
    let lv = level_views(levels);
    assert forall|i: int| 0 <= i < lv.len() implies #[trigger] lv[i].len() > 0 && lv[i].no_duplicates() by {
        assert(lv[i] == levels[i]@);
    }
    // The node of id `x` at depth `i`.
    assert forall|i: int, x: u128| #[trigger] in_level(lv, i, x) implies exists|v: int|
        0 <= v < nodes.len() && dep[v] == i && nodes[v] == x by {
        assert(lv[i] == levels[i]@);
        assert(at_depth(nodes, dep, i, x));
    }
    assert forall|i: int, x: u128| #[trigger] in_level(lv, i, x) implies nodes.contains(x) by {
        let v = choose|v: int| 0 <= v < nodes.len() && dep[v] == i && nodes[v] == x;
        assert(nodes[v] == x);
    }
    assert forall|x: u128| nodes.contains(x) implies exists|i: int| #[trigger] in_level(lv, i, x) by {
        let v = choose|v: int| 0 <= v < nodes.len() && nodes[v] == x;
        assert(at_depth(nodes, dep, dep[v] as int, x));
        assert(lv[dep[v] as int] == levels[dep[v] as int]@);
        assert(in_level(lv, dep[v] as int, x));
    }
    assert forall|i1: int, i2: int, x: u128|
        #[trigger] in_level(lv, i1, x) && #[trigger] in_level(lv, i2, x) implies i1 == i2 by {
        let v1 = choose|v: int| 0 <= v < nodes.len() && dep[v] == i1 && nodes[v] == x;
        let v2 = choose|v: int| 0 <= v < nodes.len() && dep[v] == i2 && nodes[v] == x;
        assert(v1 == v2);
    }
    assert forall|k: int, i1: int, i2: int|
        0 <= k < edges.len() && in_level(lv, i1, edges[k].from) && in_level(lv, i2, edges[k].to)
            implies i1 < i2 by {
        let v1 = choose|v: int| 0 <= v < nodes.len() && dep[v] == i1 && nodes[v] == edges[k].from;
        let v2 = choose|v: int| 0 <= v < nodes.len() && dep[v] == i2 && nodes[v] == edges[k].to;
        assert(nodes[src[k] as int] == edges[k].from);
        assert(v1 == src[k]);
        assert(nodes[tgt[k] as int] == edges[k].to);
        assert(v2 == tgt[k]);
        assert(dep[src[k] as int] < dep[tgt[k] as int]);
    }
    assert forall|i: int, x: u128| 0 < i && #[trigger] in_level(lv, i, x) implies exists|k: int|
        0 <= k < edges.len() && edges[k].to == x && #[trigger] in_level(lv, i - 1, edges[k].from) by {
        let v = choose|v: int| 0 <= v < nodes.len() && dep[v] == i && nodes[v] == x;
        assert(dep[v] > 0);
        let k = choose|k: int| 0 <= k < src.len() && tgt[k] == v && #[trigger] dep[src[k] as int] + 1 == dep[v];
        assert(nodes[tgt[k] as int] == edges[k].to);
        let u = src[k] as int;
        assert(nodes[u] == edges[k].from);
        assert(at_depth(nodes, dep, i - 1, edges[k].from));
        assert(lv[i - 1] == levels[i - 1]@);
        assert(in_level(lv, i - 1, edges[k].from));
    }
}

/// Where level `i` starts in the concatenation of the levels.
spec fn level_start(levels: Seq<Seq<u128>>, i: int) -> int {
    flatten(levels.take(i)).len() as int
}

proof fn lemma_flatten_take_step(levels: Seq<Seq<u128>>, i: int)
    requires
        0 <= i < levels.len(),
    ensures
        flatten(levels.take(i + 1)) == flatten(levels.take(i)) + levels[i],
{
    assert(levels.take(i + 1).drop_last() =~= levels.take(i));
    assert(levels.take(i + 1).last() == levels[i]);
}

/// Level starts grow with the level.
proof fn lemma_level_start_mono(levels: Seq<Seq<u128>>, i: int, j: int)
    requires
        0 <= i <= j <= levels.len(),
    ensures
        level_start(levels, i) <= level_start(levels, j),
    decreases j - i,
{
    if i < j {
        lemma_level_start_mono(levels, i, j - 1);
        lemma_flatten_take_step(levels, j - 1);
    }
}

/// Position `p` of the concatenation lies in level `i`, at its place there.
proof fn lemma_flatten_index(levels: Seq<Seq<u128>>, p: int) -> (i: int)
    requires
        0 <= p < flatten(levels).len(),
    ensures
        0 <= i < levels.len(),
        level_start(levels, i) <= p < level_start(levels, i + 1),
        0 <= p - level_start(levels, i) < levels[i].len(),
        flatten(levels)[p] == levels[i][p - level_start(levels, i)],
    decreases levels.len(),
{
    let init = levels.drop_last();
    assert(levels.take(levels.len() as int) =~= levels);
    lemma_flatten_take_step(levels, levels.len() - 1);
    assert(levels.take(levels.len() - 1) =~= init);
    if p < flatten(init).len() {
        let i = lemma_flatten_index(init, p);
        assert(init.take(i) =~= levels.take(i));
        assert(init.take(i + 1) =~= levels.take(i + 1));
        lemma_flatten_take_step(levels, i);
        i
    } else {
        lemma_flatten_take_step(levels, levels.len() - 1);
        (levels.len() - 1) as int
    }
}

/// The element at a place of a level stands in the concatenation.
proof fn lemma_flatten_has(levels: Seq<Seq<u128>>, i: int, j: int)
    requires
        0 <= i < levels.len(),
        0 <= j < levels[i].len(),
    ensures
        level_start(levels, i) + j < flatten(levels).len(),
        flatten(levels)[level_start(levels, i) + j] == levels[i][j],
    decreases levels.len(),
{
    let init = levels.drop_last();
    assert(levels.take(levels.len() as int) =~= levels);
    lemma_flatten_take_step(levels, levels.len() - 1);
    assert(levels.take(levels.len() - 1) =~= init);
    if i < levels.len() - 1 {
        lemma_flatten_has(init, i, j);
        assert(init.take(i) =~= levels.take(i));
    }
}

/// The levels of a plan, run one after the other, list the nodes in a
/// topological order: no node comes before one it depends on.
pub proof fn law_levels_in_order_are_topological(
    nodes: Seq<u128>,
    edges: Seq<Edge>,
    levels: Seq<Seq<u128>>,
)
    requires
        nodes.no_duplicates(),
        is_level_plan(nodes, edges, levels),
    ensures
        is_topological_order(nodes, edges, flatten(levels)),
{
    let o = flatten(levels);
    // Positions further on lie in levels no earlier.
    assert forall|p: int, q: int, i1: int, i2: int|
        0 <= p <= q < o.len() && #[trigger] in_level(levels, i1, o[p]) && #[trigger] in_level(
            levels,
            i2,
            o[q],
        ) implies i1 <= i2 by {
        let a = lemma_flatten_index(levels, p);
        let b = lemma_flatten_index(levels, q);
        assert(in_level(levels, a, o[p]));
        assert(in_level(levels, b, o[q]));
        if a > b {
            lemma_level_start_mono(levels, b + 1, a);
        }
    }
    assert(o.no_duplicates()) by {
        assert forall|p: int, q: int| 0 <= p < q < o.len() implies o[p] != o[q] by {
            let a = lemma_flatten_index(levels, p);
            let b = lemma_flatten_index(levels, q);
            assert(in_level(levels, a, o[p]));
            assert(in_level(levels, b, o[q]));
            if o[p] == o[q] {
                assert(a == b);
                let pa = p - level_start(levels, a);
                let qa = q - level_start(levels, a);
                assert(levels[a][pa] == levels[a][qa]);
                assert(levels[a].no_duplicates());
            }
        }
    }
    assert forall|p: int| 0 <= p < o.len() implies nodes.contains(#[trigger] o[p]) by {
        let i = lemma_flatten_index(levels, p);
        assert(in_level(levels, i, o[p]));
    }
    assert forall|x: int| 0 <= x < nodes.len() implies o.contains(#[trigger] nodes[x]) by {
        assert(nodes.contains(nodes[x]));
        let i = choose|i: int| #[trigger] in_level(levels, i, nodes[x]);
        let j = choose|j: int| 0 <= j < levels[i].len() && levels[i][j] == nodes[x];
        lemma_flatten_has(levels, i, j);
    }
    assert(o.len() == nodes.len()) by {
        assert(o.to_set() =~= nodes.to_set()) by {
            assert forall|x: u128| o.to_set().contains(x) implies nodes.to_set().contains(x) by {
                let p = choose|p: int| 0 <= p < o.len() && o[p] == x;
                assert(nodes.contains(o[p]));
            }
            assert forall|x: u128| nodes.to_set().contains(x) implies o.to_set().contains(x) by {
                let y = choose|y: int| 0 <= y < nodes.len() && nodes[y] == x;
                assert(o.contains(nodes[y]));
            }
        }
        o.unique_seq_to_set();
        nodes.unique_seq_to_set();
    }
    assert forall|i: int, j: int, k: int|
        #![trigger o[i], o[j], edges[k]]
        0 <= i <= j < o.len() && 0 <= k < edges.len() && o[j] == edges[k].from implies o[i]
        != edges[k].to by {
        if o[i] == edges[k].to {
            let a = lemma_flatten_index(levels, i);
            let b = lemma_flatten_index(levels, j);
            assert(in_level(levels, a, o[i]));
            assert(in_level(levels, b, o[j]));
            assert(in_level(levels, b, edges[k].from));
            assert(in_level(levels, a, edges[k].to));
            if a > b {
                lemma_level_start_mono(levels, b + 1, a);
            }
        }
    }
    reveal(is_topological_order);
}

} // verus!
