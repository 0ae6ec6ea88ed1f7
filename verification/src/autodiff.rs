//! Automatic differentiation and backward pass implementation
//!
//! Gradients are built as graph nodes: walking the execution order backwards,
//! each node that holds a gradient passes gradient nodes on to its sources,
//! adding them to the gradients those sources already hold.

use vstd::prelude::*;
use std::collections::HashMap;
use crate::context::{Context, ContextError, ContextModel};
use crate::graph::{ComputeGraph, GraphError, GraphErrorView, GraphNode, GraphView, NodeView};
use crate::ops::{
    self, OpError, OpErrorView, OpOutcome, lemma_node_ids, spec_binary, spec_like, spec_matmul,
    spec_transpose,
};
use crate::ops_advanced::{self as adv, spec_rope_like, spec_soft_max_back};
use crate::tensor::{OpType, Tensor, TensorMeta, params_with};

verus! {

broadcast use {vstd::std_specs::hash::group_hash_axioms, lemma_node_ids};

/// Errors that can occur during autodiff operations
#[derive(Debug)]
pub enum AutodiffError {
    Graph(GraphError),
    Op(OpError),
    Context(ContextError),
    NodeNotFound(usize),
    NoGradient(usize),
    GradientNotComputed(usize),
    UnsupportedOp(OpType),
    InvalidGradientShape(usize),
}

/// An autodiff error with its messages as text.
pub enum AutodiffErrorView {
    Graph(GraphErrorView),
    Op(OpErrorView),
    Context(ContextError),
    NodeNotFound(usize),
    NoGradient(usize),
    GradientNotComputed(usize),
    UnsupportedOp(OpType),
    InvalidGradientShape(usize),
}

impl From<GraphError> for AutodiffError {
    fn from(e: GraphError) -> (r: Self) {
        AutodiffError::Graph(e)
    }
}

impl vstd::std_specs::convert::FromSpecImpl<GraphError> for AutodiffError {
    open spec fn obeys_from_spec() -> bool {
        true
    }

    open spec fn from_spec(e: GraphError) -> Self {
        AutodiffError::Graph(e)
    }
}

impl From<OpError> for AutodiffError {
    fn from(e: OpError) -> (r: Self) {
        AutodiffError::Op(e)
    }
}

impl vstd::std_specs::convert::FromSpecImpl<OpError> for AutodiffError {
    open spec fn obeys_from_spec() -> bool {
        true
    }

    open spec fn from_spec(e: OpError) -> Self {
        AutodiffError::Op(e)
    }
}

impl From<ContextError> for AutodiffError {
    fn from(e: ContextError) -> (r: Self) {
        AutodiffError::Context(e)
    }
}

impl vstd::std_specs::convert::FromSpecImpl<ContextError> for AutodiffError {
    open spec fn obeys_from_spec() -> bool {
        true
    }

    open spec fn from_spec(e: ContextError) -> Self {
        AutodiffError::Context(e)
    }
}

impl View for AutodiffError {
    type V = AutodiffErrorView;

    open spec fn view(&self) -> AutodiffErrorView {
        match self {
            AutodiffError::Graph(e) => AutodiffErrorView::Graph(e@),
            AutodiffError::Op(e) => AutodiffErrorView::Op(e@),
            AutodiffError::Context(e) => AutodiffErrorView::Context(*e),
            AutodiffError::NodeNotFound(i) => AutodiffErrorView::NodeNotFound(*i),
            AutodiffError::NoGradient(i) => AutodiffErrorView::NoGradient(*i),
            AutodiffError::GradientNotComputed(i) => AutodiffErrorView::GradientNotComputed(*i),
            AutodiffError::UnsupportedOp(op) => AutodiffErrorView::UnsupportedOp(*op),
            AutodiffError::InvalidGradientShape(i) => AutodiffErrorView::InvalidGradientShape(*i),
        }
    }
}

pub open spec fn unit_result(r: Result<(), AutodiffError>) -> Result<(), AutodiffErrorView> {
    match r {
        Ok(()) => Ok(()),
        Err(e) => Err(e@),
    }
}

/// The metadata of each tensor of a map.
pub open spec fn metas(m: Map<usize, Tensor>) -> Map<usize, TensorMeta> {
    m.map_values(|t: Tensor| t.meta())
}

/// Where a backward computation stands: the context, the gradients held
/// per node, and whether it has failed.
pub struct BackState {
    pub ctx: ContextModel,
    pub grads: Map<usize, TensorMeta>,
    pub res: Result<(), AutodiffErrorView>,
}

pub open spec fn ok_state(c: ContextModel, grads: Map<usize, TensorMeta>) -> BackState {
    BackState { ctx: c, grads, res: Ok(()) }
}

pub open spec fn fail_state(
    c: ContextModel,
    grads: Map<usize, TensorMeta>,
    e: AutodiffErrorView,
) -> BackState {
    BackState { ctx: c, grads, res: Err(e) }
}

/// Adding gradient `g` to node `idx`: stored as is for a node without one,
/// otherwise replaced by an addition node of the two.
pub open spec fn spec_accumulate(
    c: ContextModel,
    grads: Map<usize, TensorMeta>,
    idx: usize,
    g: TensorMeta,
) -> BackState {
    if grads.contains_key(idx) {
        let (c2, o) = spec_binary(c, grads[idx], g, OpType::Add);
        match o {
            Ok(m) => ok_state(c2, grads.insert(idx, m)),
            Err(e) => fail_state(c2, grads, AutodiffErrorView::Op(e)),
        }
    } else {
        ok_state(c, grads.insert(idx, g))
    }
}

/// After state `st`, an operation has produced `step`; on success its result
/// is accumulated into node `idx`.
pub open spec fn then_acc(st: BackState, step: (ContextModel, OpOutcome), idx: usize) -> BackState {
    if st.res is Err {
        st
    } else {
        match step.1 {
            Ok(m) => spec_accumulate(step.0, st.grads, idx, m),
            Err(e) => fail_state(step.0, st.grads, AutodiffErrorView::Op(e)),
        }
    }
}

/// Accumulating `go` into `s[0]`, .., `s[k - 1]` in turn.
pub open spec fn acc_each(
    c: ContextModel,
    grads: Map<usize, TensorMeta>,
    s: Seq<usize>,
    go: TensorMeta,
    k: int,
) -> BackState
    decreases k,
{
    if k <= 0 {
        ok_state(c, grads)
    } else {
        let st = acc_each(c, grads, s, go, k - 1);
        if st.res is Err {
            st
        } else {
            spec_accumulate(st.ctx, st.grads, s[k - 1], go)
        }
    }
}

/// Once accumulation has failed, later sources change nothing.
proof fn lemma_acc_each_stops(
    c: ContextModel,
    grads: Map<usize, TensorMeta>,
    s: Seq<usize>,
    go: TensorMeta,
    j: int,
    k: int,
)
    requires
        0 <= j <= k,
        acc_each(c, grads, s, go, j).res is Err,
    ensures
        acc_each(c, grads, s, go, k) == acc_each(c, grads, s, go, j),
    decreases k - j,
{
    if k > j {
        lemma_acc_each_stops(c, grads, s, go, j, k - 1);
    }
}

/// Operations whose gradient is passed to their single source unchanged.
pub open spec fn passes_through(op: OpType) -> bool {
    ||| op is Unary
    ||| op is RmsNorm
    ||| op is Norm
    ||| op is Sum
    ||| op is Mean
    ||| op is SumRows
    ||| op is Reshape
    ||| op is View
    ||| op is Transpose
    ||| op is Permute
    ||| op is Dup
    ||| op is Scale
    ||| op is Cpy
    ||| op is Cont
    ||| op is Clamp
    ||| op is Leaky
    ||| op is DiagMaskInf
    ||| op is DiagMaskZero
}

/// Operations with a backward rule.
pub open spec fn has_backward(op: OpType) -> bool {
    ||| passes_through(op)
    ||| op is Add
    ||| op is Sub
    ||| op is Mul
    ||| op is Div
    ||| op is MulMat
    ||| op is Sqrt
    ||| op is Sqr
    ||| op is Rope
    ||| op is SoftMax
    ||| op is Flash
    ||| op is GetRows
    ||| op is Concat
}

/// Number of sources the backward rule of `op` expects.
pub open spec fn arity(op: OpType) -> int {
    if op is Add || op is Sub || op is Mul || op is Div || op is MulMat || op is GetRows
        || op is Concat {
        2
    } else if op is Flash {
        3
    } else {
        1
    }
}

/// Bit pattern of the single-precision number 2.0.
pub open spec fn two_bits() -> u32 {
    0x4000_0000u32
}

/// Subtraction: the gradient goes to the first source, its negation to the second.
pub open spec fn spec_back_sub(c: ContextModel, grads: Map<usize, TensorMeta>, s: Seq<usize>, go: TensorMeta) -> BackState {
    let st = spec_accumulate(c, grads, s[0], go);
    then_acc(st, spec_like(st.ctx, go, OpType::Unary, params_with(seq![])), s[1])
}

/// Multiplication: `go * y` to `x` and `go * x` to `y`.
pub open spec fn spec_back_mul(
    c: ContextModel,
    grads: Map<usize, TensorMeta>,
    tensors: Map<usize, TensorMeta>,
    s: Seq<usize>,
    go: TensorMeta,
) -> BackState {
    if !tensors.contains_key(s[0]) {
        fail_state(c, grads, AutodiffErrorView::NodeNotFound(s[0]))
    } else if !tensors.contains_key(s[1]) {
        fail_state(c, grads, AutodiffErrorView::NodeNotFound(s[1]))
    } else {
        let x = tensors[s[0]];
        let y = tensors[s[1]];
        let st = then_acc(ok_state(c, grads), spec_binary(c, go, y, OpType::Mul), s[0]);
        then_acc(st, spec_binary(st.ctx, go, x, OpType::Mul), s[1])
    }
}

/// Division: `go / y` to `x` and `-(go * x) / y^2` to `y`.
pub open spec fn spec_back_div(
    c: ContextModel,
    grads: Map<usize, TensorMeta>,
    tensors: Map<usize, TensorMeta>,
    s: Seq<usize>,
    go: TensorMeta,
) -> BackState {
    if !tensors.contains_key(s[0]) {
        fail_state(c, grads, AutodiffErrorView::NodeNotFound(s[0]))
    } else if !tensors.contains_key(s[1]) {
        fail_state(c, grads, AutodiffErrorView::NodeNotFound(s[1]))
    } else {
        let x = tensors[s[0]];
        let y = tensors[s[1]];
        let st = then_acc(ok_state(c, grads), spec_binary(c, go, y, OpType::Div), s[0]);
        if st.res is Err {
            st
        } else {
            spec_div_rest(st.ctx, st.grads, go, x, y, s[1])
        }
    }
}

/// The second half of the division rule: `-(go * x) / y^2` to node `idx`.
pub open spec fn spec_div_rest(
    c: ContextModel,
    grads: Map<usize, TensorMeta>,
    go: TensorMeta,
    x: TensorMeta,
    y: TensorMeta,
    idx: usize,
) -> BackState {
    let (c2, o2) = spec_like(c, y, OpType::Sqr, params_with(seq![]));
    match o2 {
        Err(e) => fail_state(c2, grads, AutodiffErrorView::Op(e)),
        Ok(ysq) => {
            let (c3, o3) = spec_binary(c2, go, x, OpType::Mul);
            match o3 {
                Err(e) => fail_state(c3, grads, AutodiffErrorView::Op(e)),
                Ok(num) => {
                    let (c4, o4) = spec_binary(c3, num, ysq, OpType::Div);
                    match o4 {
                        Err(e) => fail_state(c4, grads, AutodiffErrorView::Op(e)),
                        Ok(pos) => then_acc(
                            ok_state(c4, grads),
                            spec_like(c4, pos, OpType::Unary, params_with(seq![])),
                            idx,
                        ),
                    }
                },
            }
        },
    }
}

/// Matrix product: `go @ b^T` to `a` and `a^T @ go` to `b`.
pub open spec fn spec_back_matmul(
    c: ContextModel,
    grads: Map<usize, TensorMeta>,
    tensors: Map<usize, TensorMeta>,
    s: Seq<usize>,
    go: TensorMeta,
) -> BackState {
    if !tensors.contains_key(s[0]) {
        fail_state(c, grads, AutodiffErrorView::NodeNotFound(s[0]))
    } else if !tensors.contains_key(s[1]) {
        fail_state(c, grads, AutodiffErrorView::NodeNotFound(s[1]))
    } else {
        let a = tensors[s[0]];
        let b = tensors[s[1]];
        let (c1, o1) = spec_transpose(c, b);
        match o1 {
            Err(e) => fail_state(c1, grads, AutodiffErrorView::Op(e)),
            Ok(bt) => {
                let st = then_acc(ok_state(c1, grads), spec_matmul(c1, go, bt), s[0]);
                if st.res is Err {
                    st
                } else {
                    let (c3, o3) = spec_transpose(st.ctx, a);
                    match o3 {
                        Err(e) => fail_state(c3, st.grads, AutodiffErrorView::Op(e)),
                        Ok(at) => then_acc(ok_state(c3, st.grads), spec_matmul(c3, at, go), s[1]),
                    }
                }
            },
        }
    }
}

/// Square root: `go / (2 * out)` to the source, `out` being the node's own tensor.
pub open spec fn spec_back_sqrt(
    c: ContextModel,
    grads: Map<usize, TensorMeta>,
    tensors: Map<usize, TensorMeta>,
    node: NodeView,
    go: TensorMeta,
) -> BackState {
    if !tensors.contains_key(node.index) {
        fail_state(c, grads, AutodiffErrorView::NodeNotFound(node.index))
    } else {
        let (c1, o1) = spec_like(
            c,
            tensors[node.index],
            OpType::Scale,
            params_with(seq![two_bits() as i32]),
        );
        match o1 {
            Err(e) => fail_state(c1, grads, AutodiffErrorView::Op(e)),
            Ok(two) => then_acc(
                ok_state(c1, grads),
                spec_binary(c1, go, two, OpType::Div),
                node.sources[0],
            ),
        }
    }
}

/// Square: `go * (2 * x)` to the source `x`.
pub open spec fn spec_back_sqr(
    c: ContextModel,
    grads: Map<usize, TensorMeta>,
    tensors: Map<usize, TensorMeta>,
    s: Seq<usize>,
    go: TensorMeta,
) -> BackState {
    if !tensors.contains_key(s[0]) {
        fail_state(c, grads, AutodiffErrorView::NodeNotFound(s[0]))
    } else {
        let (c1, o1) = spec_like(c, tensors[s[0]], OpType::Scale, params_with(seq![two_bits() as i32]));
        match o1 {
            Err(e) => fail_state(c1, grads, AutodiffErrorView::Op(e)),
            Ok(two) => then_acc(ok_state(c1, grads), spec_binary(c1, go, two, OpType::Mul), s[0]),
        }
    }
}

/// Rotary embedding: a backward RoPE node with the forward node's parameters.
pub open spec fn spec_back_rope(
    c: ContextModel,
    grads: Map<usize, TensorMeta>,
    tensors: Map<usize, TensorMeta>,
    node: NodeView,
    go: TensorMeta,
) -> BackState {
    if !tensors.contains_key(node.index) {
        fail_state(c, grads, AutodiffErrorView::NodeNotFound(node.index))
    } else {
        let p = tensors[node.index].op_params;
        then_acc(
            ok_state(c, grads),
            spec_rope_like(
                c,
                go,
                OpType::RopeBack,
                "RoPE backward requires at least 3D tensor"@,
                p[0] as usize,
                p[1] as usize,
                p[2],
                p[3] as usize,
            ),
            node.sources[0],
        )
    }
}

/// Softmax: a softmax-backward node of the gradient and the node's own tensor.
pub open spec fn spec_back_softmax(
    c: ContextModel,
    grads: Map<usize, TensorMeta>,
    tensors: Map<usize, TensorMeta>,
    node: NodeView,
    go: TensorMeta,
) -> BackState {
    if !tensors.contains_key(node.index) {
        fail_state(c, grads, AutodiffErrorView::NodeNotFound(node.index))
    } else {
        then_acc(
            ok_state(c, grads),
            spec_soft_max_back(c, go, tensors[node.index]),
            node.sources[0],
        )
    }
}

/// The backward rule of one node, given the gradient `go` of its output.
#[verifier::opaque]
pub open spec fn spec_backward_node(
    c: ContextModel,
    grads: Map<usize, TensorMeta>,
    tensors: Map<usize, TensorMeta>,
    node: NodeView,
    go: TensorMeta,
) -> BackState {
    let s = node.sources;
    let op = node.op;
    if op is NoOp {
        ok_state(c, grads)
    } else if !has_backward(op) || s.len() != arity(op) {
        fail_state(c, grads, AutodiffErrorView::UnsupportedOp(op))
    } else if op is Add || op is Concat || op is Flash || passes_through(op) {
        acc_each(c, grads, s, go, s.len() as int)
    } else if op is GetRows {
        acc_each(c, grads, s, go, 1)
    } else if op is Sub {
        spec_back_sub(c, grads, s, go)
    } else if op is Mul {
        spec_back_mul(c, grads, tensors, s, go)
    } else if op is Div {
        spec_back_div(c, grads, tensors, s, go)
    } else if op is MulMat {
        spec_back_matmul(c, grads, tensors, s, go)
    } else if op is Sqrt {
        spec_back_sqrt(c, grads, tensors, node, go)
    } else if op is Sqr {
        spec_back_sqr(c, grads, tensors, s, go)
    } else if op is Rope {
        spec_back_rope(c, grads, tensors, node, go)
    } else {
        spec_back_softmax(c, grads, tensors, node, go)
    }
}

/// Gradient accumulator for managing gradients during backward pass
pub struct GradientAccumulator {
    /// Map from node index to gradient tensor
    gradients: HashMap<usize, Tensor>,
}

impl View for GradientAccumulator {
    type V = Map<usize, Tensor>;

    closed spec fn view(&self) -> Map<usize, Tensor> {
        self.gradients@
    }
}

impl GradientAccumulator {
    /// Create a new gradient accumulator
    pub fn new() -> (r: Self)
        ensures
            r@ == Map::<usize, Tensor>::empty(),
    {
        Self { gradients: HashMap::new() }
    }

    /// Set the gradient for a node
    pub fn set_gradient(&mut self, node_idx: usize, gradient: Tensor)
        ensures
            final(self)@ == old(self)@.insert(node_idx, gradient),
    {
        self.gradients.insert(node_idx, gradient);
    }

    /// Get the gradient for a node
    pub fn get_gradient(&self, node_idx: usize) -> (r: Option<&Tensor>)
        ensures
            self@.contains_key(node_idx) ==> (r matches Some(t) && *t == self@[node_idx]),
            !self@.contains_key(node_idx) ==> r is None,
    {
        self.gradients.get(&node_idx)
    }

    /// Accumulate gradient for a node (add to existing gradient)
    pub fn accumulate_gradient(&mut self, ctx: &mut Context, node_idx: usize, gradient: Tensor) -> (r:
        Result<(), AutodiffError>)
        requires
            old(ctx)@.wf(),
            old(ctx)@.has_ids_for(1),
        ensures
            final(ctx)@.wf(),
            final(ctx)@.next_id <= old(ctx)@.next_id + 1,
            (BackState { ctx: final(ctx)@, grads: metas(final(self)@), res: unit_result(r) })
                == spec_accumulate(old(ctx)@, metas(old(self)@), node_idx, gradient.meta()),
            !old(self)@.contains_key(node_idx) ==> final(self)@ == old(self)@.insert(node_idx, gradient),
    {
        match self.gradients.get(&node_idx) {
            Some(existing) => {
                // Add new gradient to existing
                let accumulated = match ops::add(ctx, existing, &gradient) {
                    Ok(t) => t,
                    Err(e) => {
                        return Err(AutodiffError::Op(e));
                    },
                };
                self.gradients.insert(node_idx, accumulated);
                assert(metas(self@) =~= metas(old(self)@).insert(node_idx, accumulated.meta()));
            },
            None => {
                // First gradient for this node
                self.gradients.insert(node_idx, gradient);
                assert(metas(self@) =~= metas(old(self)@).insert(node_idx, gradient.meta()));
            },
        }
        Ok(())
    }

    /// Check if gradient exists for a node
    pub fn has_gradient(&self, node_idx: usize) -> (r: bool)
        ensures
            r == self@.contains_key(node_idx),
    {
        self.gradients.contains_key(&node_idx)
    }

    /// Get all gradients
    pub fn gradients(&self) -> (r: &HashMap<usize, Tensor>)
        ensures
            r@ == self@,
    {
        &self.gradients
    }

    /// Clear all gradients
    pub fn clear(&mut self)
        ensures
            final(self)@ == Map::<usize, Tensor>::empty(),
    {
        self.gradients.clear();
    }
}

impl Default for GradientAccumulator {
    fn default() -> (r: Self)
        ensures
            r@ == Map::<usize, Tensor>::empty(),
    {
        Self::new()
    }
}


/// Accumulates the result of an operation into node `idx`, or reports its error.
fn acc_op(acc: &mut GradientAccumulator, ctx: &mut Context, r: Result<Tensor, OpError>, idx: usize) -> (res:
    Result<(), AutodiffError>)
    requires
        old(ctx)@.wf(),
        old(ctx)@.has_ids_for(1),
    ensures
        final(ctx)@.wf(),
        final(ctx)@.next_id <= old(ctx)@.next_id + 1,
        (BackState { ctx: final(ctx)@, grads: metas(final(acc)@), res: unit_result(res) })
            == then_acc(ok_state(old(ctx)@, metas(old(acc)@)), (old(ctx)@, ops::outcome(r)), idx),
{
    match r {
        Ok(t) => acc.accumulate_gradient(ctx, idx, t),
        Err(e) => Err(AutodiffError::Op(e)),
    }
}

/// Accumulates a copy of `go` into each of the first `k` sources.
fn acc_all(acc: &mut GradientAccumulator, ctx: &mut Context, sources: &Vec<usize>, k: usize, go: &Tensor) -> (res:
    Result<(), AutodiffError>)
    requires
        k <= sources@.len(),
        old(ctx)@.wf(),
        old(ctx)@.has_ids_for(k as int),
    ensures
        final(ctx)@.wf(),
        final(ctx)@.next_id <= old(ctx)@.next_id + k,
        (BackState { ctx: final(ctx)@, grads: metas(final(acc)@), res: unit_result(res) })
            == acc_each(old(ctx)@, metas(old(acc)@), sources@, go.meta(), k as int),
{
    let mut j: usize = 0;
    while j < k
        invariant
            j <= k <= sources@.len(),
            ctx@.wf(),
            ctx@.next_id <= old(ctx)@.next_id + j,
            old(ctx)@.has_ids_for(k as int),
            (BackState { ctx: ctx@, grads: metas(acc@), res: Ok(()) }) == acc_each(
                old(ctx)@,
                metas(old(acc)@),
                sources@,
                go.meta(),
                j as int,
            ),
        decreases k - j,
    {
        let g = go.clone();
        let r = acc.accumulate_gradient(ctx, sources[j], g);
        if r.is_err() {
            proof {
                lemma_acc_each_stops(old(ctx)@, metas(old(acc)@), sources@, go.meta(), j + 1, k as int);
            }
            return r;
        }
        j = j + 1;
    }
    Ok(())
}

/// The second half of the division rule: `-(go * x) / y^2` to node `idx`.
#[verifier::spinoff_prover]
#[verifier::rlimit(60)]
fn div_rest(acc: &mut GradientAccumulator, ctx: &mut Context, grad_output: &Tensor, x: &Tensor, y: &Tensor, idx: usize) -> (res:
    Result<(), AutodiffError>)
    requires
        old(ctx)@.wf(),
        old(ctx)@.has_ids_for(5),
    ensures
        final(ctx)@.wf(),
        final(ctx)@.next_id <= old(ctx)@.next_id + 5,
        (BackState { ctx: final(ctx)@, grads: metas(final(acc)@), res: unit_result(res) })
            == spec_div_rest(old(ctx)@, metas(old(acc)@), grad_output.meta(), x.meta(), y.meta(), idx),
{
    let y_squared = match ops::sqr(ctx, y) {
        Ok(t) => t,
        Err(e) => {
            return Err(AutodiffError::Op(e));
        },
    };
    let numerator = match ops::mul(ctx, grad_output, x) {
        Ok(t) => t,
        Err(e) => {
            return Err(AutodiffError::Op(e));
        },
    };
    let grad_y_pos = match ops::div(ctx, &numerator, &y_squared) {
        Ok(t) => t,
        Err(e) => {
            return Err(AutodiffError::Op(e));
        },
    };
    let grad_y = ops::neg(ctx, &grad_y_pos);
    acc_op(acc, ctx, grad_y, idx)
}

/// Backward pass implementation
pub struct BackwardPass<'a> {
    graph: &'a ComputeGraph,
    ctx: &'a mut Context,
    /// Gradients computed so far
    pub accumulator: GradientAccumulator,
    /// Map from node index to tensor (needed for gradient computation)
    tensors: HashMap<usize, Tensor>,
}

/// The gradient the pass starts from at the output node: the one given, or
/// a new tensor shaped like the output node's registered tensor.
pub open spec fn spec_output_grad(
    c: ContextModel,
    tensors: Map<usize, TensorMeta>,
    output_idx: usize,
    output_grad: Option<TensorMeta>,
) -> (ContextModel, Result<TensorMeta, AutodiffErrorView>) {
    match output_grad {
        Some(m) => (c, Ok(m)),
        None => if !tensors.contains_key(output_idx) {
            (c, Err(AutodiffErrorView::NodeNotFound(output_idx)))
        } else {
            let t = tensors[output_idx];
            let ne = crate::tensor::like_shape(t.ne);
            let (c1, o) = c.new_tensor(t.tensor_type, ne);
            match o {
                Ok((p, id)) => (
                    c1,
                    Ok(crate::tensor::node_meta(t.tensor_type, ne, OpType::NoOp, params_with(seq![]), p, id)),
                ),
                Err(e) => (c1, Err(AutodiffErrorView::Context(e))),
            }
        },
    }
}

/// The state after visiting the last `k` entries of the execution order,
/// from the end backwards.
pub open spec fn back_steps(g: GraphView, tensors: Map<usize, TensorMeta>, st0: BackState, k: int) -> BackState
    decreases k,
{
    if k <= 0 {
        st0
    } else {
        let st = back_steps(g, tensors, st0, k - 1);
        if st.res is Err {
            st
        } else {
            let v = g.order[g.order.len() - k];
            if v >= g.nodes.len() {
                fail_state(st.ctx, st.grads, AutodiffErrorView::NodeNotFound(v))
            } else if !g.nodes[v as int].requires_grad || !st.grads.contains_key(v) {
                st
            } else {
                spec_backward_node(st.ctx, st.grads, tensors, g.nodes[v as int], st.grads[v])
            }
        }
    }
}

/// A whole backward pass from node `output_idx`.
pub open spec fn spec_backward(
    g: GraphView,
    tensors: Map<usize, TensorMeta>,
    c: ContextModel,
    grads: Map<usize, TensorMeta>,
    output_idx: usize,
    output_grad: Option<TensorMeta>,
) -> BackState {
    if output_idx >= g.nodes.len() {
        fail_state(c, grads, AutodiffErrorView::NodeNotFound(output_idx))
    } else {
        let (c1, og) = spec_output_grad(c, tensors, output_idx, output_grad);
        match og {
            Err(e) => fail_state(c1, grads, e),
            Ok(m) => back_steps(g, tensors, ok_state(c1, grads.insert(output_idx, m)), g.order.len() as int),
        }
    }
}

pub open spec fn opt_meta(t: Option<Tensor>) -> Option<TensorMeta> {
    match t {
        Some(t) => Some(t.meta()),
        None => None,
    }
}

impl<'a> BackwardPass<'a> {
    pub closed spec fn graph_state(&self) -> GraphView {
        self.graph@
    }

    pub closed spec fn ctx_state(&self) -> ContextModel {
        self.ctx@
    }

    pub closed spec fn tensor_state(&self) -> Map<usize, Tensor> {
        self.tensors@
    }

    pub closed spec fn grad_state(&self) -> Map<usize, Tensor> {
        self.accumulator@
    }

    /// The state of the computation as seen by the backward rules.
    pub open spec fn back_state(&self, r: Result<(), AutodiffError>) -> BackState {
        BackState { ctx: self.ctx_state(), grads: metas(self.grad_state()), res: unit_result(r) }
    }

    /// Create a new backward pass
    pub fn new(graph: &'a ComputeGraph, ctx: &'a mut Context) -> (r: Self)
        ensures
            r.graph_state() == graph@,
            r.ctx_state() == old(ctx)@,
            r.grad_state() == Map::<usize, Tensor>::empty(),
            r.tensor_state() == Map::<usize, Tensor>::empty(),
    {
        Self { graph, ctx, accumulator: GradientAccumulator::new(), tensors: HashMap::new() }
    }

    /// Register a tensor for a node (needed for gradient computation)
    pub fn register_tensor(&mut self, node_idx: usize, tensor: Tensor)
        ensures
            final(self).tensor_state() == old(self).tensor_state().insert(node_idx, tensor),
            final(self).graph_state() == old(self).graph_state(),
            final(self).ctx_state() == old(self).ctx_state(),
            final(self).grad_state() == old(self).grad_state(),
    {
        self.tensors.insert(node_idx, tensor);
    }

    /// Compute gradients for a single node's inputs
    fn backward_node(&mut self, node: &GraphNode, grad_output: &Tensor) -> (r: Result<(), AutodiffError>)
        requires
            old(self).ctx_state().wf(),
            old(self).ctx_state().has_ids_for(7),
        ensures
            final(self).ctx_state().wf(),
            final(self).ctx_state().next_id <= old(self).ctx_state().next_id + 7,
            final(self).graph_state() == old(self).graph_state(),
            final(self).tensor_state() == old(self).tensor_state(),
            final(self).back_state(r) == spec_backward_node(
                old(self).ctx_state(),
                metas(old(self).grad_state()),
                metas(old(self).tensor_state()),
                node@,
                grad_output.meta(),
            ),
    {
        reveal(spec_backward_node);
        let n = node.sources.len();
        match node.op {
            OpType::NoOp => {
                // Leaf node - no backward pass needed
                Ok(())
            },
            OpType::Add | OpType::Concat => {
                // Gradient flows equally to both inputs
                if n != 2 {
                    return Err(AutodiffError::UnsupportedOp(node.op));
                }
                acc_all(&mut self.accumulator, self.ctx, &node.sources, 2, grad_output)
            },
            OpType::Flash => {
                // Gradient is passed on to every input
                if n != 3 {
                    return Err(AutodiffError::UnsupportedOp(node.op));
                }
                acc_all(&mut self.accumulator, self.ctx, &node.sources, 3, grad_output)
            },
            OpType::Unary | OpType::RmsNorm | OpType::Norm | OpType::Sum | OpType::Mean
            | OpType::SumRows | OpType::Reshape | OpType::View | OpType::Transpose
            | OpType::Permute | OpType::Dup | OpType::Scale | OpType::Cpy | OpType::Cont
            | OpType::Clamp | OpType::Leaky | OpType::DiagMaskInf | OpType::DiagMaskZero => {
                // Gradient flows through to the single input
                if n != 1 {
                    return Err(AutodiffError::UnsupportedOp(node.op));
                }
                acc_all(&mut self.accumulator, self.ctx, &node.sources, 1, grad_output)
            },
            OpType::GetRows => {
                // Gradient only flows to the embedding table (first source)
                if n != 2 {
                    return Err(AutodiffError::UnsupportedOp(node.op));
                }
                acc_all(&mut self.accumulator, self.ctx, &node.sources, 1, grad_output)
            },
            OpType::Sub => {
                if n != 2 {
                    return Err(AutodiffError::UnsupportedOp(node.op));
                }
                self.back_sub(node, grad_output)
            },
            OpType::Mul => {
                if n != 2 {
                    return Err(AutodiffError::UnsupportedOp(node.op));
                }
                self.back_mul(node, grad_output)
            },
            OpType::Div => {
                if n != 2 {
                    return Err(AutodiffError::UnsupportedOp(node.op));
                }
                self.back_div(node, grad_output)
            },
            OpType::MulMat => {
                if n != 2 {
                    return Err(AutodiffError::UnsupportedOp(node.op));
                }
                self.back_matmul(node, grad_output)
            },
            OpType::Sqrt => {
                if n != 1 {
                    return Err(AutodiffError::UnsupportedOp(node.op));
                }
                self.back_sqrt(node, grad_output)
            },
            OpType::Sqr => {
                if n != 1 {
                    return Err(AutodiffError::UnsupportedOp(node.op));
                }
                self.back_sqr(node, grad_output)
            },
            OpType::Rope => {
                if n != 1 {
                    return Err(AutodiffError::UnsupportedOp(node.op));
                }
                self.back_rope(node, grad_output)
            },
            OpType::SoftMax => {
                if n != 1 {
                    return Err(AutodiffError::UnsupportedOp(node.op));
                }
                self.back_softmax(node, grad_output)
            },
            _ => {
                // Unsupported operation - return error
                Err(AutodiffError::UnsupportedOp(node.op))
            },
        }
    }

    /// d/dx (x - y) = 1, d/dy (x - y) = -1
    fn back_sub(&mut self, node: &GraphNode, grad_output: &Tensor) -> (r: Result<(), AutodiffError>)
        requires
            node.sources@.len() == 2,
            old(self).ctx_state().wf(),
            old(self).ctx_state().has_ids_for(7),
        ensures
            final(self).ctx_state().wf(),
            final(self).ctx_state().next_id <= old(self).ctx_state().next_id + 7,
            final(self).graph_state() == old(self).graph_state(),
            final(self).tensor_state() == old(self).tensor_state(),
            final(self).back_state(r) == spec_back_sub(
                old(self).ctx_state(),
                metas(old(self).grad_state()),
                node.sources@,
                grad_output.meta(),
            ),
    {
        let r0 = self.accumulator.accumulate_gradient(self.ctx, node.sources[0], grad_output.clone());
        if r0.is_err() {
            return r0;
        }
        // grad_y = -grad_output
        let grad_y = ops::neg(self.ctx, grad_output);
        acc_op(&mut self.accumulator, self.ctx, grad_y, node.sources[1])
    }

    /// d/dx (x * y) = y, d/dy (x * y) = x
    fn back_mul(&mut self, node: &GraphNode, grad_output: &Tensor) -> (r: Result<(), AutodiffError>)
        requires
            node.sources@.len() == 2,
            old(self).ctx_state().wf(),
            old(self).ctx_state().has_ids_for(7),
        ensures
            final(self).ctx_state().wf(),
            final(self).ctx_state().next_id <= old(self).ctx_state().next_id + 7,
            final(self).graph_state() == old(self).graph_state(),
            final(self).tensor_state() == old(self).tensor_state(),
            final(self).back_state(r) == spec_back_mul(
                old(self).ctx_state(),
                metas(old(self).grad_state()),
                metas(old(self).tensor_state()),
                node.sources@,
                grad_output.meta(),
            ),
    {
        let s0 = node.sources[0];
        let s1 = node.sources[1];
        let x = match self.tensors.get(&s0) {
            Some(t) => t,
            None => {
                return Err(AutodiffError::NodeNotFound(s0));
            },
        };
        let y = match self.tensors.get(&s1) {
            Some(t) => t,
            None => {
                return Err(AutodiffError::NodeNotFound(s1));
            },
        };
        // grad_x = grad_output * y
        let grad_x = ops::mul(self.ctx, grad_output, y);
        let r0 = acc_op(&mut self.accumulator, self.ctx, grad_x, s0);
        if r0.is_err() {
            return r0;
        }
        // grad_y = grad_output * x
        let grad_y = ops::mul(self.ctx, grad_output, x);
        acc_op(&mut self.accumulator, self.ctx, grad_y, s1)
    }
}

impl<'a> BackwardPass<'a> {
    /// d/dx (x / y) = 1/y, d/dy (x / y) = -x/y^2
    #[verifier::spinoff_prover]
    #[verifier::rlimit(50)]
    fn back_div(&mut self, node: &GraphNode, grad_output: &Tensor) -> (r: Result<(), AutodiffError>)
        requires
            node.sources@.len() == 2,
            old(self).ctx_state().wf(),
            old(self).ctx_state().has_ids_for(7),
        ensures
            final(self).ctx_state().wf(),
            final(self).ctx_state().next_id <= old(self).ctx_state().next_id + 7,
            final(self).graph_state() == old(self).graph_state(),
            final(self).tensor_state() == old(self).tensor_state(),
            final(self).back_state(r) == spec_back_div(
                old(self).ctx_state(),
                metas(old(self).grad_state()),
                metas(old(self).tensor_state()),
                node.sources@,
                grad_output.meta(),
            ),
    {
        let s0 = node.sources[0];
        let s1 = node.sources[1];
        let x = match self.tensors.get(&s0) {
            Some(t) => t,
            None => {
                return Err(AutodiffError::NodeNotFound(s0));
            },
        };
        let y = match self.tensors.get(&s1) {
            Some(t) => t,
            None => {
                return Err(AutodiffError::NodeNotFound(s1));
            },
        };
        // grad_x = grad_output / y
        let grad_x = ops::div(self.ctx, grad_output, y);
        let r0 = acc_op(&mut self.accumulator, self.ctx, grad_x, s0);
        if r0.is_err() {
            return r0;
        }
        // grad_y = -grad_output * x / y^2
        div_rest(&mut self.accumulator, self.ctx, grad_output, x, y, s1)
    }

    /// Matrix multiplication in the GGML convention, C = A @ B with
    /// A[a0, a1] @ B[b0, b1] = C[b0, a1]: grad_A = grad_C @ B^T and
    /// grad_B = A^T @ grad_C.
    #[verifier::spinoff_prover]
    #[verifier::rlimit(50)]
    fn back_matmul(&mut self, node: &GraphNode, grad_output: &Tensor) -> (r: Result<(), AutodiffError>)
        requires
            node.sources@.len() == 2,
            old(self).ctx_state().wf(),
            old(self).ctx_state().has_ids_for(7),
        ensures
            final(self).ctx_state().wf(),
            final(self).ctx_state().next_id <= old(self).ctx_state().next_id + 7,
            final(self).graph_state() == old(self).graph_state(),
            final(self).tensor_state() == old(self).tensor_state(),
            final(self).back_state(r) == spec_back_matmul(
                old(self).ctx_state(),
                metas(old(self).grad_state()),
                metas(old(self).tensor_state()),
                node.sources@,
                grad_output.meta(),
            ),
    {
        let s0 = node.sources[0];
        let s1 = node.sources[1];
        let a = match self.tensors.get(&s0) {
            Some(t) => t,
            None => {
                return Err(AutodiffError::NodeNotFound(s0));
            },
        };
        let b = match self.tensors.get(&s1) {
            Some(t) => t,
            None => {
                return Err(AutodiffError::NodeNotFound(s1));
            },
        };
        // grad_a = grad_output @ transpose(b)
        let b_t = match ops::transpose(self.ctx, b) {
            Ok(t) => t,
            Err(e) => {
                return Err(AutodiffError::Op(e));
            },
        };
        let grad_a = ops::matmul(self.ctx, grad_output, &b_t);
        let r0 = acc_op(&mut self.accumulator, self.ctx, grad_a, s0);
        if r0.is_err() {
            return r0;
        }
        // grad_b = transpose(a) @ grad_output
        let a_t = match ops::transpose(self.ctx, a) {
            Ok(t) => t,
            Err(e) => {
                return Err(AutodiffError::Op(e));
            },
        };
        let grad_b = ops::matmul(self.ctx, &a_t, grad_output);
        acc_op(&mut self.accumulator, self.ctx, grad_b, s1)
    }

    /// d/dx sqrt(x) = 1 / (2 * sqrt(x))
    fn back_sqrt(&mut self, node: &GraphNode, grad_output: &Tensor) -> (r: Result<(), AutodiffError>)
        requires
            node.sources@.len() == 1,
            old(self).ctx_state().wf(),
            old(self).ctx_state().has_ids_for(7),
        ensures
            final(self).ctx_state().wf(),
            final(self).ctx_state().next_id <= old(self).ctx_state().next_id + 7,
            final(self).graph_state() == old(self).graph_state(),
            final(self).tensor_state() == old(self).tensor_state(),
            final(self).back_state(r) == spec_back_sqrt(
                old(self).ctx_state(),
                metas(old(self).grad_state()),
                metas(old(self).tensor_state()),
                node@,
                grad_output.meta(),
            ),
    {
        let output = match self.tensors.get(&node.index) {
            Some(t) => t,
            None => {
                return Err(AutodiffError::NodeNotFound(node.index));
            },
        };
        // 0x4000_0000 is the bit pattern of 2.0
        let two_sqrt_x = match ops::scale(self.ctx, output, 0x4000_0000u32) {
            Ok(t) => t,
            Err(e) => {
                return Err(AutodiffError::Op(e));
            },
        };
        let grad_input = ops::div(self.ctx, grad_output, &two_sqrt_x);
        acc_op(&mut self.accumulator, self.ctx, grad_input, node.sources[0])
    }

    /// d/dx (x^2) = 2x
    fn back_sqr(&mut self, node: &GraphNode, grad_output: &Tensor) -> (r: Result<(), AutodiffError>)
        requires
            node.sources@.len() == 1,
            old(self).ctx_state().wf(),
            old(self).ctx_state().has_ids_for(7),
        ensures
            final(self).ctx_state().wf(),
            final(self).ctx_state().next_id <= old(self).ctx_state().next_id + 7,
            final(self).graph_state() == old(self).graph_state(),
            final(self).tensor_state() == old(self).tensor_state(),
            final(self).back_state(r) == spec_back_sqr(
                old(self).ctx_state(),
                metas(old(self).grad_state()),
                metas(old(self).tensor_state()),
                node.sources@,
                grad_output.meta(),
            ),
    {
        let s0 = node.sources[0];
        let input = match self.tensors.get(&s0) {
            Some(t) => t,
            None => {
                return Err(AutodiffError::NodeNotFound(s0));
            },
        };
        // 0x4000_0000 is the bit pattern of 2.0
        let two_x = match ops::scale(self.ctx, input, 0x4000_0000u32) {
            Ok(t) => t,
            Err(e) => {
                return Err(AutodiffError::Op(e));
            },
        };
        let grad_input = ops::mul(self.ctx, grad_output, &two_x);
        acc_op(&mut self.accumulator, self.ctx, grad_input, s0)
    }

    /// RoPE backward with the forward node's parameters
    fn back_rope(&mut self, node: &GraphNode, grad_output: &Tensor) -> (r: Result<(), AutodiffError>)
        requires
            node.sources@.len() == 1,
            old(self).ctx_state().wf(),
            old(self).ctx_state().has_ids_for(7),
        ensures
            final(self).ctx_state().wf(),
            final(self).ctx_state().next_id <= old(self).ctx_state().next_id + 7,
            final(self).graph_state() == old(self).graph_state(),
            final(self).tensor_state() == old(self).tensor_state(),
            final(self).back_state(r) == spec_back_rope(
                old(self).ctx_state(),
                metas(old(self).grad_state()),
                metas(old(self).tensor_state()),
                node@,
                grad_output.meta(),
            ),
    {
        // Get the forward tensor to access op_params
        let forward_tensor = match self.tensors.get(&node.index) {
            Some(t) => t,
            None => {
                return Err(AutodiffError::NodeNotFound(node.index));
            },
        };
        let n_past = forward_tensor.op_params[0] as usize;
        let n_dims = forward_tensor.op_params[1] as usize;
        let mode = forward_tensor.op_params[2];
        let n_ctx = forward_tensor.op_params[3] as usize;
        let grad_input = adv::rope_back(self.ctx, grad_output, n_past, n_dims, mode, n_ctx);
        acc_op(&mut self.accumulator, self.ctx, grad_input, node.sources[0])
    }

    /// Softmax backward
    fn back_softmax(&mut self, node: &GraphNode, grad_output: &Tensor) -> (r: Result<(), AutodiffError>)
        requires
            node.sources@.len() == 1,
            old(self).ctx_state().wf(),
            old(self).ctx_state().has_ids_for(7),
        ensures
            final(self).ctx_state().wf(),
            final(self).ctx_state().next_id <= old(self).ctx_state().next_id + 7,
            final(self).graph_state() == old(self).graph_state(),
            final(self).tensor_state() == old(self).tensor_state(),
            final(self).back_state(r) == spec_back_softmax(
                old(self).ctx_state(),
                metas(old(self).grad_state()),
                metas(old(self).tensor_state()),
                node@,
                grad_output.meta(),
            ),
    {
        let output = match self.tensors.get(&node.index) {
            Some(t) => t,
            None => {
                return Err(AutodiffError::NodeNotFound(node.index));
            },
        };
        let grad_input = adv::soft_max_back(self.ctx, grad_output, output);
        acc_op(&mut self.accumulator, self.ctx, grad_input, node.sources[0])
    }
}

/// Once the pass has failed, later nodes change nothing.
proof fn lemma_back_steps_stop(g: GraphView, tensors: Map<usize, TensorMeta>, st0: BackState, j: int, k: int)
    requires
        0 <= j <= k,
        back_steps(g, tensors, st0, j).res is Err,
    ensures
        back_steps(g, tensors, st0, k) == back_steps(g, tensors, st0, j),
    decreases k - j,
{
    if k > j {
        lemma_back_steps_stop(g, tensors, st0, j, k - 1);
    }
}

impl<'a> BackwardPass<'a> {
    /// Run backward pass from a given output node
    ///
    /// # Arguments
    /// * `output_idx` - Index of the output node to backpropagate from
    /// * `output_grad` - Optional gradient of the output (defaults to a new
    ///   tensor shaped like the output node's registered tensor)
    pub fn backward(&mut self, output_idx: usize, output_grad: Option<Tensor>) -> (r: Result<
        (),
        AutodiffError,
    >)
        requires
            old(self).graph_state().wf(),
            old(self).ctx_state().wf(),
            old(self).ctx_state().has_ids_for(1 + 7 * old(self).graph_state().order.len() as int),
        ensures
            final(self).ctx_state().wf(),
            final(self).graph_state() == old(self).graph_state(),
            final(self).tensor_state() == old(self).tensor_state(),
            final(self).back_state(r) == spec_backward(
                old(self).graph_state(),
                metas(old(self).tensor_state()),
                old(self).ctx_state(),
                metas(old(self).grad_state()),
                output_idx,
                opt_meta(output_grad),
            ),
    {
        let graph = self.graph;
        // Get the output node
        if graph.get_node(output_idx).is_none() {
            return Err(AutodiffError::NodeNotFound(output_idx));
        }
        // Initialize output gradient (default: a tensor of the output's type and shape)

        let grad = match output_grad {
            Some(g) => g,
            None => {
                let tensor = match self.tensors.get(&output_idx) {
                    Some(t) => t,
                    None => {
                        return Err(AutodiffError::NodeNotFound(output_idx));
                    },
                };
                let shape = ops::leading_dims_pub(&tensor.ne, tensor.n_dims());
                match self.ctx.new_tensor(tensor.tensor_type, shape.as_slice()) {
                    Ok(t) => t,
                    Err(e) => {
                        return Err(AutodiffError::Context(e));
                    },
                }
            },
        };
        let ghost gv = self.graph_state();
        let ghost tensors = metas(self.tensor_state());
        let ghost grads0 = metas(self.grad_state());
        proof {
            let (c1, og) = spec_output_grad(
                old(self).ctx_state(),
                tensors,
                output_idx,
                opt_meta(output_grad),
            );
            assert(c1 == self.ctx_state());
            assert(og == Ok::<TensorMeta, AutodiffErrorView>(grad.meta()));
        }
        self.accumulator.set_gradient(output_idx, grad);
        let ghost st0 = ok_state(self.ctx_state(), grads0.insert(output_idx, grad.meta()));
        assert(metas(self.grad_state()) =~= grads0.insert(output_idx, grad.meta()));
        // Walk the execution order backwards
        let execution_order = graph.execution_order();
        let len = execution_order.len();
        assert(spec_backward(
            gv,
            tensors,
            old(self).ctx_state(),
            grads0,
            output_idx,
            opt_meta(output_grad),
        ) == back_steps(gv, tensors, st0, len as int));
        let mut k: usize = len;
        while k > 0
            invariant
                k <= len,
                len == gv.order.len(),
                execution_order@ == gv.order,
                graph@ == gv,
                gv.wf(),
                self.graph_state() == gv,
                gv == old(self).graph_state(),
                grads0 == metas(old(self).grad_state()),
                spec_backward(
                    gv,
                    tensors,
                    old(self).ctx_state(),
                    grads0,
                    output_idx,
                    opt_meta(output_grad),
                ) == back_steps(gv, tensors, st0, len as int),
                self.tensor_state() == old(self).tensor_state(),
                tensors == metas(self.tensor_state()),
                self.ctx_state().wf(),
                self.ctx_state().has_ids_for(7 * k as int),
                self.back_state(Ok(())) == back_steps(gv, tensors, st0, (len - k) as int),
            decreases k,
        {
            k = k - 1;
            let node_idx = execution_order[k];
            assert(gv.order[gv.order.len() - (len - k)] == node_idx);
            let node = match graph.get_node(node_idx) {
                Some(n) => n,
                None => {
                    return Err(AutodiffError::NodeNotFound(node_idx));
                },
            };
            // Skip if this node doesn't require gradients
            if !node.requires_grad {
                continue;
            }
            // Skip if no gradient has been computed yet

            if !self.accumulator.has_gradient(node_idx) {
                continue;
            }
            // Get the gradient for this node

            let node_grad = match self.accumulator.get_gradient(node_idx) {
                Some(t) => t.clone(),
                None => {
                    return Err(AutodiffError::GradientNotComputed(node_idx));
                },
            };
            // Compute gradients for input nodes
            let r = self.backward_node(node, &node_grad);
            if r.is_err() {
                proof {
                    lemma_back_steps_stop(gv, tensors, st0, (len - k) as int, len as int);
                }
                return r;
            }
        }
        Ok(())
    }

    /// Get the computed gradients
    pub fn gradients(&self) -> (r: &HashMap<usize, Tensor>)
        ensures
            r@ == self.grad_state(),
    {
        self.accumulator.gradients()
    }

    /// Get gradient for a specific node
    pub fn get_gradient(&self, node_idx: usize) -> (r: Option<&Tensor>)
        ensures
            self.grad_state().contains_key(node_idx) ==> (r matches Some(t) && *t
                == self.grad_state()[node_idx]),
            !self.grad_state().contains_key(node_idx) ==> r is None,
    {
        self.accumulator.get_gradient(node_idx)
    }
}
} // verus!
