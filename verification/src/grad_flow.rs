//! Where a backward pass puts gradients: it keeps every gradient already
//! held, and each node that holds a gradient passes one on to its sources.

use vstd::prelude::*;
use crate::autodiff::{
    BackState, acc_each, arity, back_steps, fail_state, has_backward, ok_state, passes_through,
    spec_accumulate, spec_back_div, spec_back_matmul, spec_back_mul, spec_back_rope,
    spec_back_softmax, spec_back_sqr, spec_back_sqrt, spec_back_sub, spec_backward,
    spec_backward_node, spec_div_rest, spec_output_grad, then_acc,
};
use crate::context::ContextModel;
use crate::graph::{GraphView, NodeView};
use crate::ops::OpOutcome;
use crate::tensor::{OpType, TensorMeta};
use crate::depth::lemma_in_order;
use crate::topo::{is_exec_order, placed_after_sources};

verus! {

/// Every node holding a gradient in `g0` still holds one in `g1`.
pub open spec fn keeps(g0: Map<usize, TensorMeta>, g1: Map<usize, TensorMeta>) -> bool {
    forall|x: usize| #[trigger] g0.contains_key(x) ==> g1.contains_key(x)
}

/// Every node holding a gradient in `g1` held one in `g0` or is listed in `s`.
pub open spec fn adds_only(g0: Map<usize, TensorMeta>, g1: Map<usize, TensorMeta>, s: Seq<usize>) -> bool {
    forall|x: usize| #[trigger] g1.contains_key(x) ==> g0.contains_key(x) || s.contains(x)
}

/// The sources a node's backward rule gives a gradient to: all of them, but
/// for a row gather only the table (its first source).
pub open spec fn feeds(node: NodeView, m: int) -> bool {
    0 <= m < node.sources.len() && (node.op is GetRows ==> m == 0)
}

proof fn lemma_accumulate(c: ContextModel, grads: Map<usize, TensorMeta>, idx: usize, g: TensorMeta)
    ensures
        keeps(grads, spec_accumulate(c, grads, idx, g).grads),
        adds_only(grads, spec_accumulate(c, grads, idx, g).grads, seq![idx]),
        spec_accumulate(c, grads, idx, g).res is Ok ==> spec_accumulate(c, grads, idx, g).grads.contains_key(idx),
{
    let st = spec_accumulate(c, grads, idx, g);
    assert forall|x: usize| #[trigger] st.grads.contains_key(x) implies grads.contains_key(x)
        || seq![idx].contains(x) by {
        if !grads.contains_key(x) {
            assert(x == idx);
            assert(seq![idx][0] == idx);
        }
    }
}

proof fn lemma_then_acc(st: BackState, step: (ContextModel, OpOutcome), idx: usize)
    ensures
        keeps(st.grads, then_acc(st, step, idx).grads),
        adds_only(st.grads, then_acc(st, step, idx).grads, seq![idx]),
        then_acc(st, step, idx).res is Ok ==> st.res is Ok && then_acc(st, step, idx).grads.contains_key(idx),
{
    if st.res is Ok {
        match step.1 {
            Ok(m) => lemma_accumulate(step.0, st.grads, idx, m),
            Err(e) => {
                assert(seq![idx][0] == idx);
            },
        }
    }
}

proof fn lemma_acc_each(c: ContextModel, grads: Map<usize, TensorMeta>, s: Seq<usize>, go: TensorMeta, k: int)
    requires
        0 <= k <= s.len(),
    ensures
        keeps(grads, acc_each(c, grads, s, go, k).grads),
        adds_only(grads, acc_each(c, grads, s, go, k).grads, s),
        acc_each(c, grads, s, go, k).res is Ok ==> forall|j: int|
            0 <= j < k ==> acc_each(c, grads, s, go, k).grads.contains_key(#[trigger] s[j]),
    decreases k,
{
    if k > 0 {
        lemma_acc_each(c, grads, s, go, k - 1);
        let st = acc_each(c, grads, s, go, k - 1);
        if st.res is Ok {
            lemma_accumulate(st.ctx, st.grads, s[k - 1], go);
            let st2 = spec_accumulate(st.ctx, st.grads, s[k - 1], go);
            assert forall|x: usize| #[trigger] st2.grads.contains_key(x) implies grads.contains_key(x)
                || s.contains(x) by {
                if !st.grads.contains_key(x) {
                    assert(seq![s[k - 1]].contains(x));
                    assert(x == s[k - 1]);
                }
            }
        }
    }
}


proof fn lemma_chain_steps(
    g0: Map<usize, TensorMeta>,
    g1: Map<usize, TensorMeta>,
    g2: Map<usize, TensorMeta>,
    a: Seq<usize>,
    b: Seq<usize>,
    s: Seq<usize>,
)
    requires
        keeps(g0, g1),
        keeps(g1, g2),
        adds_only(g0, g1, a),
        adds_only(g1, g2, b),
        forall|x: usize| a.contains(x) ==> s.contains(x),
        forall|x: usize| b.contains(x) ==> s.contains(x),
    ensures
        keeps(g0, g2),
        adds_only(g0, g2, s),
{
}

proof fn lemma_one_in(s: Seq<usize>, m: int)
    requires
        0 <= m < s.len(),
    ensures
        forall|x: usize| seq![s[m]].contains(x) ==> s.contains(x),
{
    assert forall|x: usize| seq![s[m]].contains(x) implies s.contains(x) by {
        assert(seq![s[m]][0] == s[m]);
        assert(x == s[m]);
    }
}

proof fn lemma_same(g: Map<usize, TensorMeta>, s: Seq<usize>)
    ensures
        keeps(g, g),
        adds_only(g, g, s),
{
}

proof fn lemma_div_rest(
    c: ContextModel,
    grads: Map<usize, TensorMeta>,
    go: TensorMeta,
    x: TensorMeta,
    y: TensorMeta,
    idx: usize,
)
    ensures
        keeps(grads, spec_div_rest(c, grads, go, x, y, idx).grads),
        adds_only(grads, spec_div_rest(c, grads, go, x, y, idx).grads, seq![idx]),
        spec_div_rest(c, grads, go, x, y, idx).res is Ok ==> spec_div_rest(c, grads, go, x, y, idx).grads.contains_key(idx),
{
    let st = spec_div_rest(c, grads, go, x, y, idx);
    if st.grads == grads {
        lemma_same(grads, seq![idx]);
    }
    let (c2, o2) = crate::ops::spec_like(c, y, crate::tensor::OpType::Sqr, crate::tensor::params_with(seq![]));
    if let Ok(ysq) = o2 {
        let (c3, o3) = crate::ops::spec_binary(c2, go, x, crate::tensor::OpType::Mul);
        if let Ok(num) = o3 {
            let (c4, o4) = crate::ops::spec_binary(c3, num, ysq, crate::tensor::OpType::Div);
            if let Ok(pos) = o4 {
                lemma_then_acc(
                    ok_state(c4, grads),
                    crate::ops::spec_like(c4, pos, crate::tensor::OpType::Unary, crate::tensor::params_with(seq![])),
                    idx,
                );
            }
        }
    }
}

/// One node's backward rule keeps every gradient, adds gradients only to
/// the node's sources, and when it succeeds every source it feeds has one.
proof fn lemma_backward_node(
    c: ContextModel,
    grads: Map<usize, TensorMeta>,
    tensors: Map<usize, TensorMeta>,
    node: NodeView,
    go: TensorMeta,
)
    ensures
        keeps(grads, spec_backward_node(c, grads, tensors, node, go).grads),
        adds_only(grads, spec_backward_node(c, grads, tensors, node, go).grads, node.sources),
        spec_backward_node(c, grads, tensors, node, go).res is Ok && !(node.op is NoOp) ==> forall|m: int|
            #[trigger] feeds(node, m) ==> spec_backward_node(c, grads, tensors, node, go).grads.contains_key(
                node.sources[m],
            ),
{
    reveal(spec_backward_node);
    let s = node.sources;
    let op = node.op;
    let st = spec_backward_node(c, grads, tensors, node, go);
    if op is NoOp || !has_backward(op) || s.len() != arity(op) {
        lemma_same(grads, s);
    } else if op is Add || op is Concat || op is Flash || passes_through(op) {
        lemma_acc_each(c, grads, s, go, s.len() as int);
    } else if op is GetRows {
        lemma_acc_each(c, grads, s, go, 1);
    } else if op is Sub {
        let st1 = spec_accumulate(c, grads, s[0], go);
        lemma_accumulate(c, grads, s[0], go);
        let step = crate::ops::spec_like(st1.ctx, go, crate::tensor::OpType::Unary, crate::tensor::params_with(seq![]));
        lemma_then_acc(st1, step, s[1]);
        lemma_one_in(s, 0);
        lemma_one_in(s, 1);
        lemma_chain_steps(grads, st1.grads, st.grads, seq![s[0]], seq![s[1]], s);
    } else if op is Mul {
        if !tensors.contains_key(s[0]) || !tensors.contains_key(s[1]) {
            lemma_same(grads, s);
        } else {
            let x = tensors[s[0]];
            let y = tensors[s[1]];
            let step1 = crate::ops::spec_binary(c, go, y, crate::tensor::OpType::Mul);
            let st1 = then_acc(ok_state(c, grads), step1, s[0]);
            lemma_then_acc(ok_state(c, grads), step1, s[0]);
            let step2 = crate::ops::spec_binary(st1.ctx, go, x, crate::tensor::OpType::Mul);
            lemma_then_acc(st1, step2, s[1]);
            lemma_one_in(s, 0);
            lemma_one_in(s, 1);
            lemma_chain_steps(grads, st1.grads, st.grads, seq![s[0]], seq![s[1]], s);
        }
    } else if op is Div {
        if !tensors.contains_key(s[0]) || !tensors.contains_key(s[1]) {
            lemma_same(grads, s);
        } else {
            let x = tensors[s[0]];
            let y = tensors[s[1]];
            let step1 = crate::ops::spec_binary(c, go, y, crate::tensor::OpType::Div);
            let st1 = then_acc(ok_state(c, grads), step1, s[0]);
            lemma_then_acc(ok_state(c, grads), step1, s[0]);
            lemma_one_in(s, 0);
            lemma_one_in(s, 1);
            if st1.res is Err {
                lemma_same(st1.grads, seq![s[1]]);
            } else {
                lemma_div_rest(st1.ctx, st1.grads, go, x, y, s[1]);
            }
            lemma_chain_steps(grads, st1.grads, st.grads, seq![s[0]], seq![s[1]], s);
        }
    } else if op is MulMat {
        if !tensors.contains_key(s[0]) || !tensors.contains_key(s[1]) {
            lemma_same(grads, s);
        } else {
            let a = tensors[s[0]];
            let b = tensors[s[1]];
            let (c1, o1) = crate::ops::spec_transpose(c, b);
            lemma_one_in(s, 0);
            lemma_one_in(s, 1);
            match o1 {
                Err(e) => {
                    lemma_same(grads, s);
                },
                Ok(bt) => {
                    let step1 = crate::ops::spec_matmul(c1, go, bt);
                    let st1 = then_acc(ok_state(c1, grads), step1, s[0]);
                    lemma_then_acc(ok_state(c1, grads), step1, s[0]);
                    if st1.res is Err {
                        lemma_same(st1.grads, seq![s[1]]);
                    } else {
                        let (c3, o3) = crate::ops::spec_transpose(st1.ctx, a);
                        match o3 {
                            Err(e) => {
                                lemma_same(st1.grads, seq![s[1]]);
                            },
                            Ok(at) => {
                                lemma_then_acc(ok_state(c3, st1.grads), crate::ops::spec_matmul(c3, at, go), s[1]);
                            },
                        }
                    }
                    lemma_chain_steps(grads, st1.grads, st.grads, seq![s[0]], seq![s[1]], s);
                },
            }
        }
    } else if op is Sqrt {
        lemma_one_in(s, 0);
        if !tensors.contains_key(node.index) {
            lemma_same(grads, s);
        } else {
            let (c1, o1) = crate::ops::spec_like(
                c,
                tensors[node.index],
                crate::tensor::OpType::Scale,
                crate::tensor::params_with(seq![crate::autodiff::two_bits() as i32]),
            );
            match o1 {
                Err(e) => {
                    lemma_same(grads, s);
                },
                Ok(two) => {
                    lemma_then_acc(ok_state(c1, grads), crate::ops::spec_binary(c1, go, two, crate::tensor::OpType::Div), s[0]);
                },
            }
        }
    } else if op is Sqr {
        lemma_one_in(s, 0);
        if !tensors.contains_key(s[0]) {
            lemma_same(grads, s);
        } else {
            let (c1, o1) = crate::ops::spec_like(
                c,
                tensors[s[0]],
                crate::tensor::OpType::Scale,
                crate::tensor::params_with(seq![crate::autodiff::two_bits() as i32]),
            );
            match o1 {
                Err(e) => {
                    lemma_same(grads, s);
                },
                Ok(two) => {
                    lemma_then_acc(ok_state(c1, grads), crate::ops::spec_binary(c1, go, two, crate::tensor::OpType::Mul), s[0]);
                },
            }
        }
    } else if op is Rope {
        lemma_one_in(s, 0);
        if !tensors.contains_key(node.index) {
            lemma_same(grads, s);
        } else {
            let p = tensors[node.index].op_params;
            lemma_then_acc(
                ok_state(c, grads),
                crate::ops_advanced::spec_rope_like(
                    c,
                    go,
                    crate::tensor::OpType::RopeBack,
                    "RoPE backward requires at least 3D tensor"@,
                    p[0] as usize,
                    p[1] as usize,
                    p[2],
                    p[3] as usize,
                ),
                s[0],
            );
        }
    } else {
        lemma_one_in(s, 0);
        if !tensors.contains_key(node.index) {
            lemma_same(grads, s);
        } else {
            lemma_then_acc(
                ok_state(c, grads),
                crate::ops_advanced::spec_soft_max_back(c, go, tensors[node.index]),
                s[0],
            );
        }
    }
}


/// Step `t` of the walk keeps every gradient and adds gradients only to the
/// sources of the node it visits.
proof fn lemma_step_frame(g: GraphView, tensors: Map<usize, TensorMeta>, st0: BackState, t: int)
    requires
        g.wf(),
        1 <= t <= g.order.len(),
    ensures
        keeps(back_steps(g, tensors, st0, t - 1).grads, back_steps(g, tensors, st0, t).grads),
        adds_only(
            back_steps(g, tensors, st0, t - 1).grads,
            back_steps(g, tensors, st0, t).grads,
            g.srcs()[g.order[g.order.len() - t] as int],
        ),
{
    let st = back_steps(g, tensors, st0, t - 1);
    let v = g.order[g.order.len() - t];
    let s = g.srcs()[v as int];
    if st.res is Err || !g.nodes[v as int].requires_grad || !st.grads.contains_key(v) {
        lemma_same(st.grads, s);
    } else {
        lemma_backward_node(st.ctx, st.grads, tensors, g.nodes[v as int], st.grads[v]);
    }
}

/// Once the walk has failed it stays failed.
proof fn lemma_err_stays(g: GraphView, tensors: Map<usize, TensorMeta>, st0: BackState, j: int, t: int)
    requires
        0 <= j <= t,
        back_steps(g, tensors, st0, j).res is Err,
    ensures
        back_steps(g, tensors, st0, t).res is Err,
    decreases t - j,
{
    if t > j {
        lemma_err_stays(g, tensors, st0, j, t - 1);
    }
}

proof fn lemma_keeps_from(g: GraphView, tensors: Map<usize, TensorMeta>, st0: BackState, j: int, t: int)
    requires
        g.wf(),
        0 <= j <= t <= g.order.len(),
    ensures
        keeps(back_steps(g, tensors, st0, j).grads, back_steps(g, tensors, st0, t).grads),
    decreases t - j,
{
    if t > j {
        lemma_keeps_from(g, tensors, st0, j, t - 1);
        lemma_step_frame(g, tensors, st0, t);
    }
}

/// The node at position `i` of a built graph's order gets no gradient once
/// the walk has passed it: the nodes visited after it come earlier in the
/// order, so it is not among their sources.
proof fn lemma_no_late_gradient(g: GraphView, tensors: Map<usize, TensorMeta>, st0: BackState, i: int, t: int)
    requires
        g.wf(),
        g.built,
        0 <= i < g.order.len(),
        g.order.len() - i - 1 <= t <= g.order.len(),
        back_steps(g, tensors, st0, t).grads.contains_key(g.order[i]),
    ensures
        back_steps(g, tensors, st0, g.order.len() - i - 1).grads.contains_key(g.order[i]),
    decreases t,
{
    let n = g.order.len() as int;
    if t > n - i - 1 {
        lemma_step_frame(g, tensors, st0, t);
        let u = g.order[n - t];
        let srcs = g.srcs();
        if srcs[u as int].contains(g.order[i]) {
            assert(placed_after_sources(srcs, g.order, n - t));
            let m = choose|m: int| 0 <= m < srcs[u as int].len() && srcs[u as int][m] == g.order[i];
            assert(g.order.take(n - t).contains(srcs[g.order[n - t] as int][m]));
            let p = choose|p: int| 0 <= p < n - t && #[trigger] g.order.take(n - t)[p] == g.order[i];
            assert(g.order[p] == g.order[i]);
            assert(false);
        }
        lemma_no_late_gradient(g, tensors, st0, i, t - 1);
    }
}

/// A successful backward pass over a built graph keeps every gradient held
/// before it, gives one to the output node, and every node taking part in
/// gradient computation that ends up with a gradient has passed one on to
/// each source its rule feeds (all of them; for a row gather, the table).
pub proof fn lemma_gradients_reach_sources(
    g: GraphView,
    tensors: Map<usize, TensorMeta>,
    c: ContextModel,
    grads: Map<usize, TensorMeta>,
    output_idx: usize,
    output_grad: Option<TensorMeta>,
)
    requires
        g.wf(),
        g.built,
        spec_backward(g, tensors, c, grads, output_idx, output_grad).res is Ok,
    ensures
        spec_backward(g, tensors, c, grads, output_idx, output_grad).grads.contains_key(output_idx),
        keeps(grads, spec_backward(g, tensors, c, grads, output_idx, output_grad).grads),
        forall|v: int, m: int|
            0 <= v < g.nodes.len() && g.nodes[v].requires_grad && !(g.nodes[v].op is NoOp)
                && spec_backward(g, tensors, c, grads, output_idx, output_grad).grads.contains_key(
                v as usize,
            ) && #[trigger] feeds(g.nodes[v], m) ==> spec_backward(
                g,
                tensors,
                c,
                grads,
                output_idx,
                output_grad,
            ).grads.contains_key(g.nodes[v].sources[m]),
{
    let n = g.order.len() as int;
    let (c1, og) = spec_output_grad(c, tensors, output_idx, output_grad);
    let m0 = og->Ok_0;
    let st0 = ok_state(c1, grads.insert(output_idx, m0));
    let fin = back_steps(g, tensors, st0, n);
    assert(spec_backward(g, tensors, c, grads, output_idx, output_grad) == fin);
    lemma_keeps_from(g, tensors, st0, 0, n);
    assert(st0.grads.contains_key(output_idx));
    assert forall|x: usize| #[trigger] grads.contains_key(x) implies fin.grads.contains_key(x) by {
        assert(st0.grads.contains_key(x));
    }
    assert forall|v: int, m: int|
        0 <= v < g.nodes.len() && g.nodes[v].requires_grad && !(g.nodes[v].op is NoOp)
            && fin.grads.contains_key(v as usize) && #[trigger] feeds(g.nodes[v], m) implies fin.grads.contains_key(
        g.nodes[v].sources[m],
    ) by {
        assert(is_exec_order(g.srcs(), g.order));
        let i = lemma_in_order(g.srcs(), g.order, v);
        let j0 = n - i;
        lemma_no_late_gradient(g, tensors, st0, i, n);
        let before = back_steps(g, tensors, st0, j0 - 1);
        if before.res is Err {
            lemma_err_stays(g, tensors, st0, j0 - 1, n);
        }
        assert(g.order[n - j0] == v as usize);
        let after = back_steps(g, tensors, st0, j0);
        assert(after == spec_backward_node(before.ctx, before.grads, tensors, g.nodes[v], before.grads[v as usize]));
        lemma_backward_node(before.ctx, before.grads, tensors, g.nodes[v], before.grads[v as usize]);
        if after.res is Err {
            lemma_err_stays(g, tensors, st0, j0, n);
        }
        lemma_keeps_from(g, tensors, st0, j0, n);
    }
}

/// After a successful accumulation into `idx`: the step produced a gradient;
/// every other gradient is as it was; a node without a gradient now holds
/// the new one, and one with a gradient holds an `Add` node.
proof fn lemma_then_acc_value(st: BackState, step: (ContextModel, OpOutcome), idx: usize)
    ensures
        then_acc(st, step, idx).res is Ok ==> {
            &&& step.1 is Ok
            &&& forall|x: usize|
                x != idx && #[trigger] st.grads.contains_key(x) ==> then_acc(st, step, idx).grads.contains_key(x)
                    && then_acc(st, step, idx).grads[x] == st.grads[x]
            &&& then_acc(st, step, idx).grads.contains_key(idx)
            &&& !st.grads.contains_key(idx) ==> then_acc(st, step, idx).grads[idx] == step.1->Ok_0
            &&& st.grads.contains_key(idx) ==> then_acc(st, step, idx).grads[idx].op == OpType::Add
        },
{
}

/// The backward step of a two-source arithmetic node is its operation's rule.
proof fn lemma_binary_rule(
    c: ContextModel,
    grads: Map<usize, TensorMeta>,
    tensors: Map<usize, TensorMeta>,
    node: NodeView,
    go: TensorMeta,
)
    requires
        node.sources.len() == 2,
    ensures
        node.op is Add ==> spec_backward_node(c, grads, tensors, node, go) == acc_each(
            c,
            grads,
            node.sources,
            go,
            2,
        ),
        node.op is Sub ==> spec_backward_node(c, grads, tensors, node, go) == spec_back_sub(
            c,
            grads,
            node.sources,
            go,
        ),
        node.op is Mul ==> spec_backward_node(c, grads, tensors, node, go) == spec_back_mul(
            c,
            grads,
            tensors,
            node.sources,
            go,
        ),
        node.op is Div ==> spec_backward_node(c, grads, tensors, node, go) == spec_back_div(
            c,
            grads,
            tensors,
            node.sources,
            go,
        ),
        node.op is MulMat ==> spec_backward_node(c, grads, tensors, node, go) == spec_back_matmul(
            c,
            grads,
            tensors,
            node.sources,
            go,
        ),
{
    reveal(spec_backward_node);
}

/// The gradient of an addition goes unchanged to both of its (distinct)
/// sources: a source without a gradient receives `go` itself, one with a
/// gradient holds the sum (an `Add` node) afterwards.
pub proof fn lemma_add_gradients(
    c: ContextModel,
    grads: Map<usize, TensorMeta>,
    tensors: Map<usize, TensorMeta>,
    node: NodeView,
    go: TensorMeta,
)
    requires
        node.op is Add,
        node.sources.len() == 2,
        node.sources[0] != node.sources[1],
        spec_backward_node(c, grads, tensors, node, go).res is Ok,
    ensures
        ({
            let g = spec_backward_node(c, grads, tensors, node, go).grads;
            let (x, y) = (node.sources[0], node.sources[1]);
            &&& g.contains_key(x) && g.contains_key(y)
            &&& !grads.contains_key(x) ==> g[x] == go
            &&& !grads.contains_key(y) ==> g[y] == go
            &&& grads.contains_key(x) ==> g[x].op == OpType::Add
            &&& grads.contains_key(y) ==> g[y].op == OpType::Add
        }),
{
    lemma_binary_rule(c, grads, tensors, node, go);
    let s = node.sources;
    let st1 = acc_each(c, grads, s, go, 1);
    assert(acc_each(c, grads, s, go, 0) == ok_state(c, grads));
    assert(st1 == spec_accumulate(c, grads, s[0], go));
    assert(st1.res is Ok);
    lemma_then_acc_value(ok_state(c, grads), (c, Ok(go)), s[0]);
    lemma_then_acc_value(st1, (st1.ctx, Ok(go)), s[1]);
}

/// The gradient of a subtraction `x - y` goes unchanged to `x` and negated
/// (a `Unary` node of `go`'s type) to `y`; a source that held a gradient
/// holds the sum (an `Add` node) afterwards.
pub proof fn lemma_sub_gradients(
    c: ContextModel,
    grads: Map<usize, TensorMeta>,
    tensors: Map<usize, TensorMeta>,
    node: NodeView,
    go: TensorMeta,
)
    requires
        node.op is Sub,
        node.sources.len() == 2,
        node.sources[0] != node.sources[1],
        spec_backward_node(c, grads, tensors, node, go).res is Ok,
    ensures
        ({
            let g = spec_backward_node(c, grads, tensors, node, go).grads;
            let (x, y) = (node.sources[0], node.sources[1]);
            &&& g.contains_key(x) && g.contains_key(y)
            &&& !grads.contains_key(x) ==> g[x] == go
            &&& !grads.contains_key(y) ==> g[y].op == OpType::Unary && g[y].tensor_type == go.tensor_type
            &&& grads.contains_key(x) ==> g[x].op == OpType::Add
            &&& grads.contains_key(y) ==> g[y].op == OpType::Add
        }),
{
    lemma_binary_rule(c, grads, tensors, node, go);
    let s = node.sources;
    let st1 = spec_accumulate(c, grads, s[0], go);
    lemma_then_acc_value(ok_state(c, grads), (c, Ok(go)), s[0]);
    let step = crate::ops::spec_like(st1.ctx, go, OpType::Unary, crate::tensor::params_with(seq![]));
    lemma_then_acc_value(st1, step, s[1]);
}

/// The gradient of a product `x * y`: `go * y` to `x` and `go * x` to `y`,
/// each a `Mul` node of `go`'s type; a source that held a gradient holds the
/// sum (an `Add` node) afterwards.
pub proof fn lemma_mul_gradients(
    c: ContextModel,
    grads: Map<usize, TensorMeta>,
    tensors: Map<usize, TensorMeta>,
    node: NodeView,
    go: TensorMeta,
)
    requires
        node.op is Mul,
        node.sources.len() == 2,
        node.sources[0] != node.sources[1],
        spec_backward_node(c, grads, tensors, node, go).res is Ok,
    ensures
        ({
            let g = spec_backward_node(c, grads, tensors, node, go).grads;
            let (x, y) = (node.sources[0], node.sources[1]);
            &&& g.contains_key(x) && g.contains_key(y)
            &&& !grads.contains_key(x) ==> g[x].op == OpType::Mul && g[x].tensor_type == go.tensor_type
            &&& !grads.contains_key(y) ==> g[y].op == OpType::Mul && g[y].tensor_type == go.tensor_type
            &&& grads.contains_key(x) ==> g[x].op == OpType::Add
            &&& grads.contains_key(y) ==> g[y].op == OpType::Add
        }),
{
    lemma_binary_rule(c, grads, tensors, node, go);
    let s = node.sources;
    let xm = tensors[s[0]];
    let ym = tensors[s[1]];
    let step1 = crate::ops::spec_binary(c, go, ym, OpType::Mul);
    let st1 = then_acc(ok_state(c, grads), step1, s[0]);
    lemma_then_acc_value(ok_state(c, grads), step1, s[0]);
    lemma_then_acc_value(st1, crate::ops::spec_binary(st1.ctx, go, xm, OpType::Mul), s[1]);
}

/// The gradient of a quotient `x / y` (d/dx = 1/y, d/dy = -x/y^2): `go / y`,
/// a `Div` node, to `x`, and the negation (a `Unary` node) of
/// `(go * x) / y^2` to `y`, both of `go`'s type; a source that held a
/// gradient holds the sum (an `Add` node) afterwards.
pub proof fn lemma_div_gradients(
    c: ContextModel,
    grads: Map<usize, TensorMeta>,
    tensors: Map<usize, TensorMeta>,
    node: NodeView,
    go: TensorMeta,
)
    requires
        node.op is Div,
        node.sources.len() == 2,
        node.sources[0] != node.sources[1],
        spec_backward_node(c, grads, tensors, node, go).res is Ok,
    ensures
        ({
            let g = spec_backward_node(c, grads, tensors, node, go).grads;
            let (x, y) = (node.sources[0], node.sources[1]);
            &&& g.contains_key(x) && g.contains_key(y)
            &&& !grads.contains_key(x) ==> g[x].op == OpType::Div && g[x].tensor_type == go.tensor_type
            &&& !grads.contains_key(y) ==> g[y].op == OpType::Unary
            &&& grads.contains_key(x) ==> g[x].op == OpType::Add
            &&& grads.contains_key(y) ==> g[y].op == OpType::Add
        }),
{
    lemma_binary_rule(c, grads, tensors, node, go);
    let s = node.sources;
    let xm = tensors[s[0]];
    let ym = tensors[s[1]];
    let step1 = crate::ops::spec_binary(c, go, ym, OpType::Div);
    let st1 = then_acc(ok_state(c, grads), step1, s[0]);
    lemma_then_acc_value(ok_state(c, grads), step1, s[0]);
    let (c2, o2) = crate::ops::spec_like(st1.ctx, ym, OpType::Sqr, crate::tensor::params_with(seq![]));
    let (c3, o3) = crate::ops::spec_binary(c2, go, xm, OpType::Mul);
    let (c4, o4) = crate::ops::spec_binary(c3, o3->Ok_0, o2->Ok_0, OpType::Div);
    lemma_then_acc_value(
        ok_state(c4, st1.grads),
        crate::ops::spec_like(c4, o4->Ok_0, OpType::Unary, crate::tensor::params_with(seq![])),
        s[1],
    );
}

/// The gradient of a matrix product `a @ b`: `go @ b^T` to `a` and
/// `a^T @ go` to `b`, each a `MulMat` node; a source that held a gradient
/// holds the sum (an `Add` node) afterwards.
pub proof fn lemma_matmul_gradients(
    c: ContextModel,
    grads: Map<usize, TensorMeta>,
    tensors: Map<usize, TensorMeta>,
    node: NodeView,
    go: TensorMeta,
)
    requires
        node.op is MulMat,
        node.sources.len() == 2,
        node.sources[0] != node.sources[1],
        spec_backward_node(c, grads, tensors, node, go).res is Ok,
    ensures
        ({
            let g = spec_backward_node(c, grads, tensors, node, go).grads;
            let (a, b) = (node.sources[0], node.sources[1]);
            &&& g.contains_key(a) && g.contains_key(b)
            &&& !grads.contains_key(a) ==> g[a].op == OpType::MulMat
            &&& !grads.contains_key(b) ==> g[b].op == OpType::MulMat
            &&& grads.contains_key(a) ==> g[a].op == OpType::Add
            &&& grads.contains_key(b) ==> g[b].op == OpType::Add
        }),
{
    lemma_binary_rule(c, grads, tensors, node, go);
    let s = node.sources;
    let am = tensors[s[0]];
    let bm = tensors[s[1]];
    let (c1, o1) = crate::ops::spec_transpose(c, bm);
    let step1 = crate::ops::spec_matmul(c1, go, o1->Ok_0);
    let st1 = then_acc(ok_state(c1, grads), step1, s[0]);
    lemma_then_acc_value(ok_state(c1, grads), step1, s[0]);
    let (c3, o3) = crate::ops::spec_transpose(st1.ctx, am);
    lemma_then_acc_value(ok_state(c3, st1.grads), crate::ops::spec_matmul(c3, o3->Ok_0, go), s[1]);
}

/// The backward step of a one-source node is its operation's rule.
proof fn lemma_unary_rule(
    c: ContextModel,
    grads: Map<usize, TensorMeta>,
    tensors: Map<usize, TensorMeta>,
    node: NodeView,
    go: TensorMeta,
)
    requires
        node.sources.len() == 1,
    ensures
        passes_through(node.op) ==> spec_backward_node(c, grads, tensors, node, go) == acc_each(
            c,
            grads,
            node.sources,
            go,
            1,
        ),
        node.op is Sqrt ==> spec_backward_node(c, grads, tensors, node, go) == spec_back_sqrt(
            c,
            grads,
            tensors,
            node,
            go,
        ),
        node.op is Sqr ==> spec_backward_node(c, grads, tensors, node, go) == spec_back_sqr(
            c,
            grads,
            tensors,
            node.sources,
            go,
        ),
        node.op is Rope ==> spec_backward_node(c, grads, tensors, node, go) == spec_back_rope(
            c,
            grads,
            tensors,
            node,
            go,
        ),
        node.op is SoftMax ==> spec_backward_node(c, grads, tensors, node, go)
            == spec_back_softmax(c, grads, tensors, node, go),
{
    reveal(spec_backward_node);
}

/// The gradient rules of the one-source operations, for a node whose
/// backward step succeeds. With `go` the gradient of the node's output, a
/// source that held no gradient before receives:
/// - for the operations whose gradient passes through (unary maps, norms,
///   sums, reshapes, views, transposes, permutations, copies, scaling):
///   `go` itself;
/// - square root: a quotient (`Div`) `go / (2 * out)`;
/// - square: a product (`Mul`) `go * (2 * x)`;
/// - rotary embedding: a backward rotary node (`RopeBack`);
/// - softmax: a softmax-backward node (`SoftMaxBack`);
/// each new node of `go`'s element type. A source that already held a
/// gradient holds the sum (an `Add` node) afterwards.
pub proof fn lemma_unary_gradients(
    c: ContextModel,
    grads: Map<usize, TensorMeta>,
    tensors: Map<usize, TensorMeta>,
    node: NodeView,
    go: TensorMeta,
)
    requires
        node.sources.len() == 1,
        passes_through(node.op) || node.op is Sqrt || node.op is Sqr || node.op is Rope
            || node.op is SoftMax,
        spec_backward_node(c, grads, tensors, node, go).res is Ok,
    ensures
        ({
            let g = spec_backward_node(c, grads, tensors, node, go).grads;
            let x = node.sources[0];
            &&& g.contains_key(x)
            &&& grads.contains_key(x) ==> g[x].op == OpType::Add
            &&& !grads.contains_key(x) ==> g[x].tensor_type == go.tensor_type
            &&& passes_through(node.op) && !grads.contains_key(x) ==> g[x] == go
            &&& node.op is Sqrt && !grads.contains_key(x) ==> g[x].op == OpType::Div
            &&& node.op is Sqr && !grads.contains_key(x) ==> g[x].op == OpType::Mul
            &&& node.op is Rope && !grads.contains_key(x) ==> g[x].op == OpType::RopeBack
            &&& node.op is SoftMax && !grads.contains_key(x) ==> g[x].op == OpType::SoftMaxBack
        }),
{
    lemma_unary_rule(c, grads, tensors, node, go);
    let s = node.sources;
    let st = spec_backward_node(c, grads, tensors, node, go);
    if passes_through(node.op) {
        assert(acc_each(c, grads, s, go, 0) == ok_state(c, grads));
        lemma_then_acc_value(ok_state(c, grads), (c, Ok(go)), s[0]);
    } else if node.op is Sqrt {
        let (c1, o1) = crate::ops::spec_like(
            c,
            tensors[node.index],
            OpType::Scale,
            crate::tensor::params_with(seq![crate::autodiff::two_bits() as i32]),
        );
        lemma_then_acc_value(ok_state(c1, grads), crate::ops::spec_binary(c1, go, o1->Ok_0, OpType::Div), s[0]);
    } else if node.op is Sqr {
        let (c1, o1) = crate::ops::spec_like(
            c,
            tensors[s[0]],
            OpType::Scale,
            crate::tensor::params_with(seq![crate::autodiff::two_bits() as i32]),
        );
        lemma_then_acc_value(ok_state(c1, grads), crate::ops::spec_binary(c1, go, o1->Ok_0, OpType::Mul), s[0]);
    } else if node.op is Rope {
        let p = tensors[node.index].op_params;
        lemma_then_acc_value(
            ok_state(c, grads),
            crate::ops_advanced::spec_rope_like(
                c,
                go,
                OpType::RopeBack,
                "RoPE backward requires at least 3D tensor"@,
                p[0] as usize,
                p[1] as usize,
                p[2],
                p[3] as usize,
            ),
            s[0],
        );
    } else {
        lemma_then_acc_value(
            ok_state(c, grads),
            crate::ops_advanced::spec_soft_max_back(c, go, tensors[node.index]),
            s[0],
        );
    }
}

/// The gradient of a row gather goes, as it is, to the table (the first
/// source) only; the index tensor receives none.
pub proof fn lemma_get_rows_gradients(
    c: ContextModel,
    grads: Map<usize, TensorMeta>,
    tensors: Map<usize, TensorMeta>,
    node: NodeView,
    go: TensorMeta,
)
    requires
        node.op is GetRows,
        node.sources.len() == 2,
        node.sources[0] != node.sources[1],
        spec_backward_node(c, grads, tensors, node, go).res is Ok,
    ensures
        ({
            let g = spec_backward_node(c, grads, tensors, node, go).grads;
            let (t, i) = (node.sources[0], node.sources[1]);
            &&& g.contains_key(t)
            &&& !grads.contains_key(t) ==> g[t] == go
            &&& grads.contains_key(t) ==> g[t].op == OpType::Add
            &&& g.contains_key(i) == grads.contains_key(i)
            &&& grads.contains_key(i) ==> g[i] == grads[i]
        }),
{
    reveal(spec_backward_node);
    let s = node.sources;
    assert(!passes_through(node.op));
    assert(acc_each(c, grads, s, go, 0) == ok_state(c, grads));
    lemma_then_acc_value(ok_state(c, grads), (c, Ok(go)), s[0]);
    lemma_accumulate(c, grads, s[0], go);
}

} // verus!
