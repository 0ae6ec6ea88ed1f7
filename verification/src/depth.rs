//! The depth of a built graph is the length of its longest chain of nodes,
//! each a source of the one before it.

use vstd::prelude::*;
use crate::graph::{
    GraphView, depth_table, lemma_distinct_below_len, max_at, max_prefix, spec_depth,
};
use crate::topo::{is_exec_order, placed_after_sources};

verus! {

/// `p` is a chain of nodes: every entry names a node and each entry after
/// the first is a source of the entry before it.
pub open spec fn is_chain(srcs: Seq<Seq<usize>>, p: Seq<usize>) -> bool {
    &&& p.len() >= 1
    &&& forall|k: int| 0 <= k < p.len() ==> (#[trigger] p[k]) < srcs.len()
    &&& forall|k: int| 0 <= k < p.len() - 1 ==> srcs[(#[trigger] p[k]) as int].contains(p[k + 1])
}

proof fn lemma_table_len(srcs: Seq<Seq<usize>>, order: Seq<usize>, k: int)
    requires
        0 <= k <= order.len(),
        forall|j: int| 0 <= j < order.len() ==> (#[trigger] order[j]) < srcs.len(),
    ensures
        depth_table(srcs, order, k).len() == srcs.len(),
    decreases k,
{
    if k > 0 {
        lemma_table_len(srcs, order, k - 1);
    }
}

/// Once its turn in the order is over, a node's depth no longer changes.
proof fn lemma_table_stable(srcs: Seq<Seq<usize>>, order: Seq<usize>, i: int, k: int)
    requires
        is_exec_order(srcs, order),
        0 <= i < k <= order.len(),
    ensures
        depth_table(srcs, order, k)[order[i] as int] == depth_table(srcs, order, i + 1)[order[i] as int],
    decreases k,
{
    if k > i + 1 {
        lemma_table_stable(srcs, order, i, k - 1);
        lemma_table_len(srcs, order, k - 1);
        assert(order[k - 1] != order[i]);
    }
}

proof fn lemma_max_at_congruent(t1: Seq<nat>, t2: Seq<nat>, s: Seq<usize>, m: int)
    requires
        0 <= m <= s.len(),
        forall|j: int| 0 <= j < m ==> t1[(#[trigger] s[j]) as int] == t2[s[j] as int],
    ensures
        max_at(t1, s, m) == max_at(t2, s, m),
    decreases m,
{
    if m > 0 {
        lemma_max_at_congruent(t1, t2, s, m - 1);
    }
}

proof fn lemma_max_at_ge(t: Seq<nat>, s: Seq<usize>, m: int, j: int)
    requires
        0 <= j < m <= s.len(),
    ensures
        max_at(t, s, m) >= t[s[j] as int],
    decreases m,
{
    if j < m - 1 {
        lemma_max_at_ge(t, s, m - 1, j);
    }
}

proof fn lemma_max_at_attained(t: Seq<nat>, s: Seq<usize>, m: int) -> (j: int)
    requires
        0 < m <= s.len(),
    ensures
        0 <= j < m,
        max_at(t, s, m) == t[s[j] as int],
    decreases m,
{
    if m == 1 {
        assert(max_at(t, s, 0) == 0);
        0
    } else {
        let j0 = lemma_max_at_attained(t, s, m - 1);
        if t[s[m - 1] as int] > max_at(t, s, m - 1) {
            m - 1
        } else {
            j0
        }
    }
}

proof fn lemma_max_prefix_ge(t: Seq<nat>, k: int, v: int)
    requires
        0 <= v < k <= t.len(),
    ensures
        max_prefix(t, k) >= t[v],
    decreases k,
{
    if v < k - 1 {
        lemma_max_prefix_ge(t, k - 1, v);
    }
}

proof fn lemma_max_prefix_attained(t: Seq<nat>, k: int) -> (v: int)
    requires
        0 < k <= t.len(),
    ensures
        0 <= v < k,
        max_prefix(t, k) == t[v],
    decreases k,
{
    if k == 1 {
        assert(max_prefix(t, 0) == 0);
        0
    } else {
        let v0 = lemma_max_prefix_attained(t, k - 1);
        if t[k - 1] > max_prefix(t, k - 1) {
            k - 1
        } else {
            v0
        }
    }
}

/// Every node has a place in an execution order.
pub proof fn lemma_in_order(srcs: Seq<Seq<usize>>, order: Seq<usize>, v: int) -> (i: int)
    requires
        is_exec_order(srcs, order),
        srcs.len() <= usize::MAX,
        0 <= v < srcs.len(),
    ensures
        0 <= i < order.len(),
        order[i] == v,
{
    if !order.contains(v as usize) {
        let s = order.push(v as usize);
        assert forall|x: int, y: int| 0 <= x < y < s.len() implies s[x] != s[y] by {
            if y == s.len() - 1 {
                assert(order[x] == s[x]);
            }
        }
        assert(s.no_duplicates());
        lemma_distinct_below_len(s, srcs.len() as usize);
    }
    choose|i: int| 0 <= i < order.len() && order[i] == v as usize
}

/// In the final table a node is one deeper than its deepest source.
proof fn lemma_final_depth(srcs: Seq<Seq<usize>>, order: Seq<usize>, v: int)
    requires
        is_exec_order(srcs, order),
        srcs.len() <= usize::MAX,
        0 <= v < srcs.len(),
    ensures
        forall|m: int| 0 <= m < srcs[v].len() ==> (#[trigger] srcs[v][m]) < srcs.len(),
        depth_table(srcs, order, order.len() as int)[v] == max_at(
            depth_table(srcs, order, order.len() as int),
            srcs[v],
            srcs[v].len() as int,
        ) + 1,
{
    let n = order.len() as int;
    let d = depth_table(srcs, order, n);
    let i = lemma_in_order(srcs, order, v);
    let ti = depth_table(srcs, order, i);
    lemma_table_len(srcs, order, i);
    lemma_table_stable(srcs, order, i, n);
    assert(placed_after_sources(srcs, order, i));
    assert forall|m: int| 0 <= m < srcs[v].len() implies (#[trigger] srcs[v][m]) < srcs.len()
        && ti[srcs[v][m] as int] == d[srcs[v][m] as int] by {
        assert(order.take(i).contains(srcs[order[i] as int][m]));
        let j = choose|j: int| 0 <= j < i && order.take(i)[j] == srcs[v][m];
        assert(order[j] == srcs[v][m]);
        lemma_table_stable(srcs, order, j, i);
        lemma_table_stable(srcs, order, j, n);
    }
    lemma_max_at_congruent(ti, d, srcs[v], srcs[v].len() as int);
}

/// No chain is longer than the depth of its first node.
proof fn lemma_chain_bound(srcs: Seq<Seq<usize>>, order: Seq<usize>, p: Seq<usize>)
    requires
        is_exec_order(srcs, order),
        srcs.len() <= usize::MAX,
        is_chain(srcs, p),
    ensures
        p.len() <= depth_table(srcs, order, order.len() as int)[p[0] as int],
    decreases p.len(),
{
    let d = depth_table(srcs, order, order.len() as int);
    lemma_final_depth(srcs, order, p[0] as int);
    if p.len() > 1 {
        let q = p.drop_first();
        assert forall|k: int| 0 <= k < q.len() - 1 implies srcs[(#[trigger] q[k]) as int].contains(
            q[k + 1],
        ) by {
            assert(q[k] == p[k + 1]);
            assert(srcs[p[k + 1] as int].contains(p[k + 2]));
        }
        assert(is_chain(srcs, q));
        lemma_chain_bound(srcs, order, q);
        assert(srcs[p[0] as int].contains(p[1]));
        let m = choose|m: int| 0 <= m < srcs[p[0] as int].len() && srcs[p[0] as int][m] == p[1];
        lemma_max_at_ge(d, srcs[p[0] as int], srcs[p[0] as int].len() as int, m);
    }
}

/// Some chain from `v` is exactly as long as the depth of `v`.
proof fn lemma_chain_exists(srcs: Seq<Seq<usize>>, order: Seq<usize>, v: int) -> (p: Seq<usize>)
    requires
        is_exec_order(srcs, order),
        srcs.len() <= usize::MAX,
        0 <= v < srcs.len(),
    ensures
        is_chain(srcs, p),
        p[0] == v,
        p.len() == depth_table(srcs, order, order.len() as int)[v],
    decreases depth_table(srcs, order, order.len() as int)[v],
{
    let d = depth_table(srcs, order, order.len() as int);
    lemma_final_depth(srcs, order, v);
    let sv = srcs[v];
    if sv.len() == 0 {
        seq![v as usize]
    } else {
        let j = lemma_max_at_attained(d, sv, sv.len() as int);
        let s = sv[j];
        let q = lemma_chain_exists(srcs, order, s as int);
        let p = seq![v as usize] + q;
        assert forall|k: int| 0 <= k < p.len() implies (#[trigger] p[k]) < srcs.len() by {
            if k > 0 {
                assert(p[k] == q[k - 1]);
            }
        }
        assert forall|k: int| 0 <= k < p.len() - 1 implies srcs[(#[trigger] p[k]) as int].contains(
            p[k + 1],
        ) by {
            if k == 0 {
                assert(p[1] == q[0]);
                assert(sv[j] == s);
            } else {
                assert(p[k] == q[k - 1]);
                assert(p[k + 1] == q[k]);
            }
        }
        p
    }
}

/// The depth of a built graph is the length of its longest chain of nodes
/// from a node down through its sources: no chain is longer, and unless
/// the graph is empty one chain is exactly that long.
pub proof fn lemma_depth_is_longest_chain(g: GraphView)
    requires
        g.wf(),
        g.built,
    ensures
        forall|p: Seq<usize>| #[trigger] is_chain(g.srcs(), p) ==> p.len() <= spec_depth(g),
        g.nodes.len() > 0 ==> exists|p: Seq<usize>| #[trigger] is_chain(g.srcs(), p) && p.len() == spec_depth(g),
{
    let srcs = g.srcs();
    let order = g.order;
    let n = order.len() as int;
    assert(is_exec_order(srcs, order));
    assert(n == g.nodes.len());
    let d = depth_table(srcs, order, n);
    lemma_table_len(srcs, order, n);
    assert forall|p: Seq<usize>| #[trigger] is_chain(srcs, p) implies p.len() <= spec_depth(g) by {
        lemma_chain_bound(srcs, order, p);
        lemma_max_prefix_ge(d, n, p[0] as int);
    }
    if n > 0 {
        let v = lemma_max_prefix_attained(d, n);
        let p = lemma_chain_exists(srcs, order, v);
        assert(is_chain(srcs, p) && p.len() == spec_depth(g));
    }
}

} // verus!
