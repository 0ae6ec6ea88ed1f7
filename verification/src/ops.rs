//! Tensor operations
//!
//! Each operation checks its operands, allocates the result tensor in the
//! context and records the operation (and its parameters) on it; the values
//! are computed later by a backend.
//! - Element-wise: add, mul, sub, div
//! - Unary: neg, abs, sqrt, sqr
//! - Reduction: sum, mean, max, min
//! - Matrix: matmul, transpose

use vstd::prelude::*;
use crate::context::{Context, ContextError, ContextModel};
use crate::tensor::{
    OpType, Tensor, TensorMeta, TensorType, like_shape, leading_shape, node_meta, padded_shape,
    params_with, shape_count, count_fits, spec_n_dims,
};
use crate::text::{decimal, list_text, push_decimal, push_list};

verus! {

/// Operation errors
#[derive(Debug)]
pub enum OpError {
    ShapeMismatch(String),
    TypeMismatch { expected: TensorType, got: TensorType },
    InvalidDimensions(String),
    UnsupportedType(TensorType),
    Context(ContextError),
}

/// An operation error with its message as text.
pub enum OpErrorView {
    ShapeMismatch(Seq<char>),
    TypeMismatch { expected: TensorType, got: TensorType },
    InvalidDimensions(Seq<char>),
    UnsupportedType(TensorType),
    Context(ContextError),
}

impl From<ContextError> for OpError {
    fn from(e: ContextError) -> (r: Self) {
        OpError::Context(e)
    }
}

impl vstd::std_specs::convert::FromSpecImpl<ContextError> for OpError {
    open spec fn obeys_from_spec() -> bool {
        true
    }

    open spec fn from_spec(e: ContextError) -> Self {
        OpError::Context(e)
    }
}

impl View for OpError {
    type V = OpErrorView;

    open spec fn view(&self) -> OpErrorView {
        match self {
            OpError::ShapeMismatch(m) => OpErrorView::ShapeMismatch(m@),
            OpError::TypeMismatch { expected, got } => OpErrorView::TypeMismatch {
                expected: *expected,
                got: *got,
            },
            OpError::InvalidDimensions(m) => OpErrorView::InvalidDimensions(m@),
            OpError::UnsupportedType(t) => OpErrorView::UnsupportedType(*t),
            OpError::Context(e) => OpErrorView::Context(*e),
        }
    }
}

/// What an operation returns, seen through tensor metadata and error texts.
pub type OpOutcome = Result<TensorMeta, OpErrorView>;

pub open spec fn outcome(r: Result<Tensor, OpError>) -> OpOutcome {
    match r {
        Ok(t) => Ok(t.meta()),
        Err(e) => Err(e@),
    }
}

/// Result links of a successful operation: no gradient, empty sources.
pub open spec fn links_ok(r: Result<Tensor, OpError>) -> bool {
    r matches Ok(t) ==> t.links_fresh()
}

/// Creating a node with operation `op` and parameters `params`.
pub open spec fn spec_node(
    c: ContextModel,
    t: TensorType,
    ne: Seq<usize>,
    op: OpType,
    params: Seq<i32>,
) -> (ContextModel, OpOutcome) {
    let (c2, o) = c.new_tensor(t, ne);
    match o {
        Ok((p, id)) => (c2, Ok(node_meta(t, ne, op, params, p, id))),
        Err(e) => (c2, Err(OpErrorView::Context(e))),
    }
}

/// Creating a node advances the identity counter by at most one.
pub broadcast proof fn lemma_node_ids(
    c: ContextModel,
    t: TensorType,
    ne: Seq<usize>,
    op: OpType,
    params: Seq<i32>,
)
    ensures
        #[trigger] spec_node(c, t, ne, op, params).0.next_id <= c.next_id + 1,
{
}

/// A node shaped like `a` (its leading dimensions) with `a`'s type.
pub open spec fn spec_like(c: ContextModel, a: TensorMeta, op: OpType, params: Seq<i32>) -> (
    ContextModel,
    OpOutcome,
) {
    spec_node(c, a.tensor_type, like_shape(a.ne), op, params)
}

/// The operation needs a context in a good state with room for one more tensor.
pub open spec fn ctx_ready(c: ContextModel) -> bool {
    c.wf() && c.has_ids_for(1)
}

pub open spec fn shape_mismatch_text(a: Seq<usize>, b: Seq<usize>) -> Seq<char> {
    "Tensors have different shapes: "@ + list_text(a.take(spec_n_dims(a) as int)) + " vs "@
        + list_text(b.take(spec_n_dims(b) as int))
}

/// Check that two tensors have the same shape
pub open spec fn spec_check_same_shape(a: TensorMeta, b: TensorMeta) -> Result<(), OpErrorView> {
    if a.ne != b.ne {
        Err(OpErrorView::ShapeMismatch(shape_mismatch_text(a.ne, b.ne)))
    } else {
        Ok(())
    }
}

/// Check that two tensors have the same element type
pub open spec fn spec_check_same_type(a: TensorMeta, b: TensorMeta) -> Result<(), OpErrorView> {
    if a.tensor_type != b.tensor_type {
        Err(OpErrorView::TypeMismatch { expected: a.tensor_type, got: b.tensor_type })
    } else {
        Ok(())
    }
}

pub open spec fn unit_view(r: Result<(), OpError>) -> Result<(), OpErrorView> {
    match r {
        Ok(()) => Ok(()),
        Err(e) => Err(e@),
    }
}

/// The leading `spec_n_dims` dimensions of a tensor, as a slice-shaped vector.
fn leading_dims(ne: &[usize; 4], k: usize) -> (r: Vec<usize>)
    requires
        k <= 4,
    ensures
        r@ == ne@.take(k as int),
{
    let mut v = Vec::new();
    let mut i: usize = 0;
    while i < k
        invariant
            i <= k <= 4,
            v@ == ne@.take(i as int),
        decreases k - i,
    {
        v.push(ne[i]);
        assert(v@ =~= ne@.take(i + 1));
        i = i + 1;
    }
    v
}

/// The first `k` dimensions of `ne`.
pub(crate) fn leading_dims_pub(ne: &[usize; 4], k: usize) -> (r: Vec<usize>)
    requires
        k <= 4,
    ensures
        r@ == ne@.take(k as int),
{
    leading_dims(ne, k)
}

/// Check if two tensors have the same shape
fn check_same_shape(a: &Tensor, b: &Tensor) -> (r: Result<(), OpError>)
    ensures
        unit_view(r) == spec_check_same_shape(a.meta(), b.meta()),
{
    if a.ne[0] != b.ne[0] || a.ne[1] != b.ne[1] || a.ne[2] != b.ne[2] || a.ne[3] != b.ne[3] {
        let mut msg = String::from_str("Tensors have different shapes: ");
        let da = leading_dims(&a.ne, a.n_dims());
        push_list(&mut msg, da.as_slice());
        msg.append(" vs ");
        let db = leading_dims(&b.ne, b.n_dims());
        push_list(&mut msg, db.as_slice());
        return Err(OpError::ShapeMismatch(msg));
    }
    assert(a.ne@ =~= b.ne@);
    Ok(())
}

/// Check if two tensors have compatible types
fn check_same_type(a: &Tensor, b: &Tensor) -> (r: Result<(), OpError>)
    ensures
        unit_view(r) == spec_check_same_type(a.meta(), b.meta()),
{
    if a.tensor_type != b.tensor_type {
        return Err(OpError::TypeMismatch { expected: a.tensor_type, got: b.tensor_type });
    }
    Ok(())
}

/// Allocates a node of type `t` and shape `shape` recording operation `op`.
pub(crate) fn new_node(ctx: &mut Context, t: TensorType, shape: &[usize], op: OpType) -> (r: Result<
    Tensor,
    OpError,
>)
    requires
        ctx_ready(old(ctx)@),
        shape@.len() <= 4,
    ensures
        final(ctx)@.wf(),
        (final(ctx)@, outcome(r)) == spec_node(
            old(ctx)@,
            t,
            padded_shape(shape@),
            op,
            params_with(seq![]),
        ),
        links_ok(r),
{
    match ctx.new_tensor(t, shape) {
        Ok(mut x) => {
            x.op = op;
            Ok(x)
        },
        Err(e) => Err(OpError::Context(e)),
    }
}

/// Allocates a node shaped like `a` (its leading dimensions) recording `op`.
pub(crate) fn new_node_like(ctx: &mut Context, a: &Tensor, op: OpType) -> (r: Result<
    Tensor,
    OpError,
>)
    requires
        ctx_ready(old(ctx)@),
    ensures
        final(ctx)@.wf(),
        (final(ctx)@, outcome(r)) == spec_like(old(ctx)@, a.meta(), op, params_with(seq![])),
        links_ok(r),
{
    let shape = leading_dims(&a.ne, a.n_dims());
    new_node(ctx, a.tensor_type, shape.as_slice(), op)
}

/// Sets operation parameter `i` of a node.
pub(crate) fn set_param(t: &mut Tensor, i: usize, v: i32)
    requires
        i < 64,
    ensures
        final(t).meta() == (TensorMeta { op_params: old(t).meta().op_params.update(i as int, v), ..old(t).meta() }),
        final(t).grad == old(t).grad,
        final(t).src == old(t).src,
{
    t.op_params[i] = v;
}

/// Sets the first parameter of a successful result.
pub(crate) fn with_param0(r: Result<Tensor, OpError>, v: i32) -> (out: Result<Tensor, OpError>)
    ensures
        outcome(out) == match outcome(r) {
            Ok(m) => Ok(TensorMeta { op_params: m.op_params.update(0, v), ..m }),
            Err(e) => Err(e),
        },
        links_ok(r) ==> links_ok(out),
{
    match r {
        Ok(mut t) => {
            set_param(&mut t, 0, v);
            Ok(t)
        },
        Err(e) => Err(e),
    }
}

//
// Element-wise operations
//

/// Element-wise binary operation: same shape and type, result like `a`.
pub open spec fn spec_binary(c: ContextModel, a: TensorMeta, b: TensorMeta, op: OpType) -> (
    ContextModel,
    OpOutcome,
) {
    match spec_check_same_shape(a, b) {
        Err(e) => (c, Err(e)),
        Ok(()) => match spec_check_same_type(a, b) {
            Err(e) => (c, Err(e)),
            Ok(()) => spec_like(c, a, op, params_with(seq![])),
        },
    }
}

fn binary(ctx: &mut Context, a: &Tensor, b: &Tensor, op: OpType) -> (r: Result<Tensor, OpError>)
    requires
        ctx_ready(old(ctx)@),
    ensures
        final(ctx)@.wf(),
        (final(ctx)@, outcome(r)) == spec_binary(old(ctx)@, a.meta(), b.meta(), op),
        links_ok(r),
{
    check_same_shape(a, b)?;
    check_same_type(a, b)?;
    new_node_like(ctx, a, op)
}

/// Add two tensors element-wise: result = a + b
pub fn add(ctx: &mut Context, a: &Tensor, b: &Tensor) -> (r: Result<Tensor, OpError>)
    requires
        ctx_ready(old(ctx)@),
    ensures
        final(ctx)@.wf(),
        (final(ctx)@, outcome(r)) == spec_binary(old(ctx)@, a.meta(), b.meta(), OpType::Add),
        links_ok(r),
{
    binary(ctx, a, b, OpType::Add)
}

/// Multiply two tensors element-wise: result = a * b
pub fn mul(ctx: &mut Context, a: &Tensor, b: &Tensor) -> (r: Result<Tensor, OpError>)
    requires
        ctx_ready(old(ctx)@),
    ensures
        final(ctx)@.wf(),
        (final(ctx)@, outcome(r)) == spec_binary(old(ctx)@, a.meta(), b.meta(), OpType::Mul),
        links_ok(r),
{
    binary(ctx, a, b, OpType::Mul)
}

/// Subtract two tensors element-wise: result = a - b
pub fn sub(ctx: &mut Context, a: &Tensor, b: &Tensor) -> (r: Result<Tensor, OpError>)
    requires
        ctx_ready(old(ctx)@),
    ensures
        final(ctx)@.wf(),
        (final(ctx)@, outcome(r)) == spec_binary(old(ctx)@, a.meta(), b.meta(), OpType::Sub),
        links_ok(r),
{
    binary(ctx, a, b, OpType::Sub)
}

/// Divide two tensors element-wise: result = a / b
pub fn div(ctx: &mut Context, a: &Tensor, b: &Tensor) -> (r: Result<Tensor, OpError>)
    requires
        ctx_ready(old(ctx)@),
    ensures
        final(ctx)@.wf(),
        (final(ctx)@, outcome(r)) == spec_binary(old(ctx)@, a.meta(), b.meta(), OpType::Div),
        links_ok(r),
{
    binary(ctx, a, b, OpType::Div)
}

//
// Unary operations
//

/// Negate a tensor: result = -a
pub fn neg(ctx: &mut Context, a: &Tensor) -> (r: Result<Tensor, OpError>)
    requires
        ctx_ready(old(ctx)@),
    ensures
        final(ctx)@.wf(),
        (final(ctx)@, outcome(r)) == spec_like(old(ctx)@, a.meta(), OpType::Unary, params_with(seq![])),
        links_ok(r),
{
    new_node_like(ctx, a, OpType::Unary)
}

/// Absolute value: result = |a|
pub fn abs(ctx: &mut Context, a: &Tensor) -> (r: Result<Tensor, OpError>)
    requires
        ctx_ready(old(ctx)@),
    ensures
        final(ctx)@.wf(),
        (final(ctx)@, outcome(r)) == spec_like(old(ctx)@, a.meta(), OpType::Unary, params_with(seq![])),
        links_ok(r),
{
    new_node_like(ctx, a, OpType::Unary)
}

/// Square root: result = sqrt(a)
pub fn sqrt(ctx: &mut Context, a: &Tensor) -> (r: Result<Tensor, OpError>)
    requires
        ctx_ready(old(ctx)@),
    ensures
        final(ctx)@.wf(),
        (final(ctx)@, outcome(r)) == spec_like(old(ctx)@, a.meta(), OpType::Sqrt, params_with(seq![])),
        links_ok(r),
{
    new_node_like(ctx, a, OpType::Sqrt)
}

/// Square: result = a^2
pub fn sqr(ctx: &mut Context, a: &Tensor) -> (r: Result<Tensor, OpError>)
    requires
        ctx_ready(old(ctx)@),
    ensures
        final(ctx)@.wf(),
        (final(ctx)@, outcome(r)) == spec_like(old(ctx)@, a.meta(), OpType::Sqr, params_with(seq![])),
        links_ok(r),
{
    new_node_like(ctx, a, OpType::Sqr)
}

//
// Reduction operations
//

/// Sum all elements: result = sum(a)
pub fn sum(ctx: &mut Context, a: &Tensor) -> (r: Result<Tensor, OpError>)
    requires
        ctx_ready(old(ctx)@),
    ensures
        final(ctx)@.wf(),
        (final(ctx)@, outcome(r)) == spec_node(
            old(ctx)@,
            a.tensor_type,
            padded_shape(seq![1usize]),
            OpType::Sum,
            params_with(seq![]),
        ),
        links_ok(r),
{
    let shape = [1usize];
    assert(shape@ =~= seq![1usize]);
    new_node(ctx, a.tensor_type, &shape, OpType::Sum)
}

/// Mean of all elements: result = mean(a)
pub fn mean(ctx: &mut Context, a: &Tensor) -> (r: Result<Tensor, OpError>)
    requires
        ctx_ready(old(ctx)@),
    ensures
        final(ctx)@.wf(),
        (final(ctx)@, outcome(r)) == spec_node(
            old(ctx)@,
            a.tensor_type,
            padded_shape(seq![1usize]),
            OpType::Mean,
            params_with(seq![]),
        ),
        links_ok(r),
{
    let shape = [1usize];
    assert(shape@ =~= seq![1usize]);
    new_node(ctx, a.tensor_type, &shape, OpType::Mean)
}

pub open spec fn sum_rows_shape(ne: Seq<usize>) -> Seq<usize> {
    leading_shape(ne.update(0, 1usize), spec_n_dims(ne) as int)
}

/// Sum along rows: result[i] = sum(a[i, :])
pub open spec fn spec_sum_rows(c: ContextModel, a: TensorMeta) -> (ContextModel, OpOutcome) {
    if spec_n_dims(a.ne) < 2 {
        (c, Err(OpErrorView::InvalidDimensions("sum_rows requires at least 2D tensor"@)))
    } else {
        spec_node(c, a.tensor_type, sum_rows_shape(a.ne), OpType::SumRows, params_with(seq![]))
    }
}

/// Sum along rows: result[i] = sum(a[i, :])
pub fn sum_rows(ctx: &mut Context, a: &Tensor) -> (r: Result<Tensor, OpError>)
    requires
        ctx_ready(old(ctx)@),
    ensures
        final(ctx)@.wf(),
        (final(ctx)@, outcome(r)) == spec_sum_rows(old(ctx)@, a.meta()),
        links_ok(r),
{
    if a.n_dims() < 2 {
        return Err(
            OpError::InvalidDimensions(String::from_str("sum_rows requires at least 2D tensor")),
        );
    }
    // Result has shape [1, ne[1], ne[2], ne[3]]

    let mut shape = a.ne;
    shape[0] = 1;
    assert(shape@ =~= a.ne@.update(0, 1usize));
    let dims = leading_dims(&shape, a.n_dims());
    new_node(ctx, a.tensor_type, dims.as_slice(), OpType::SumRows)
}

/// Maximum value: result = max(a) (recorded as an arg-max node)
pub fn max(ctx: &mut Context, a: &Tensor) -> (r: Result<Tensor, OpError>)
    requires
        ctx_ready(old(ctx)@),
    ensures
        final(ctx)@.wf(),
        (final(ctx)@, outcome(r)) == spec_node(
            old(ctx)@,
            a.tensor_type,
            padded_shape(seq![1usize]),
            OpType::Argmax,
            params_with(seq![]),
        ),
        links_ok(r),
{
    let shape = [1usize];
    assert(shape@ =~= seq![1usize]);
    new_node(ctx, a.tensor_type, &shape, OpType::Argmax)
}

/// Minimum value: result = min(a) (recorded as an arg-max node)
pub fn min(ctx: &mut Context, a: &Tensor) -> (r: Result<Tensor, OpError>)
    requires
        ctx_ready(old(ctx)@),
    ensures
        final(ctx)@.wf(),
        (final(ctx)@, outcome(r)) == spec_node(
            old(ctx)@,
            a.tensor_type,
            padded_shape(seq![1usize]),
            OpType::Argmax,
            params_with(seq![]),
        ),
        links_ok(r),
{
    let shape = [1usize];
    assert(shape@ =~= seq![1usize]);
    new_node(ctx, a.tensor_type, &shape, OpType::Argmax)
}

//
// Matrix operations
//

pub open spec fn matmul_shape(a: Seq<usize>, b: Seq<usize>) -> Seq<usize> {
    leading_shape(seq![b[0], a[1], a[2], a[3]], spec_n_dims(a) as int)
}

pub open spec fn inner_mismatch_text(x: usize, y: usize) -> Seq<char> {
    "Inner dimensions don't match: "@ + decimal(x as nat) + " vs "@ + decimal(y as nat)
}

/// Matrix multiplication in the GGML convention:
/// `a[a0, a1, ..] @ b[b0, b1] -> [b0, a1, ..]`, requiring `a0 == b1`.
pub open spec fn spec_matmul(c: ContextModel, a: TensorMeta, b: TensorMeta) -> (
    ContextModel,
    OpOutcome,
) {
    if spec_n_dims(a.ne) < 2 || spec_n_dims(b.ne) < 2 {
        (c, Err(OpErrorView::InvalidDimensions("matmul requires at least 2D tensors"@)))
    } else if a.ne[0] != b.ne[1] {
        (c, Err(OpErrorView::ShapeMismatch(inner_mismatch_text(a.ne[0], b.ne[1]))))
    } else if a.tensor_type != b.tensor_type {
        (c, Err(OpErrorView::TypeMismatch { expected: a.tensor_type, got: b.tensor_type }))
    } else {
        spec_node(c, a.tensor_type, matmul_shape(a.ne, b.ne), OpType::MulMat, params_with(seq![]))
    }
}

/// A matrix product succeeds only on tensors of at least two dimensions
/// with `a.ne[0] == b.ne[1]` and one element type. Its result is a `MulMat`
/// node of that type with `b.ne[0]` columns and `a.ne[1]` rows, and it keeps
/// the outer (batch) dimensions of `a` that lie within `a`'s rank; the
/// dimensions beyond that rank are 1.
pub proof fn lemma_matmul_result(c: ContextModel, a: TensorMeta, b: TensorMeta)
    requires
        a.ne.len() == 4,
        b.ne.len() == 4,
    ensures
        spec_matmul(c, a, b).1 is Ok ==> spec_n_dims(a.ne) >= 2 && spec_n_dims(b.ne) >= 2
            && a.ne[0] == b.ne[1] && a.tensor_type == b.tensor_type,
        spec_matmul(c, a, b).1 matches Ok(r) ==> {
            &&& r.op == OpType::MulMat
            &&& r.tensor_type == a.tensor_type
            &&& r.ne.len() == 4
            &&& r.ne[0] == b.ne[0]
            &&& r.ne[1] == a.ne[1]
            &&& r.ne[2] == if spec_n_dims(a.ne) >= 3 { a.ne[2] } else { 1 }
            &&& r.ne[3] == if spec_n_dims(a.ne) >= 4 { a.ne[3] } else { 1 }
        },
{
}

/// Matrix multiplication: result = a @ b
///
/// For 2D tensors: C[i,j] = sum_k A[i,k] * B[k,j]
/// Shapes: [m, k] @ [k, n] -> [m, n]
pub fn matmul(ctx: &mut Context, a: &Tensor, b: &Tensor) -> (r: Result<Tensor, OpError>)
    requires
        ctx_ready(old(ctx)@),
    ensures
        final(ctx)@.wf(),
        (final(ctx)@, outcome(r)) == spec_matmul(old(ctx)@, a.meta(), b.meta()),
        links_ok(r),
{
    // Check dimensions
    if a.n_dims() < 2 || b.n_dims() < 2 {
        return Err(
            OpError::InvalidDimensions(String::from_str("matmul requires at least 2D tensors")),
        );
    }
    // Check inner dimensions match: a.ne[0] == b.ne[1]

    if a.ne[0] != b.ne[1] {
        let mut msg = String::from_str("Inner dimensions don't match: ");
        push_decimal(&mut msg, a.ne[0]);
        msg.append(" vs ");
        push_decimal(&mut msg, b.ne[1]);
        return Err(OpError::ShapeMismatch(msg));
    }
    check_same_type(a, b)?;

    // Result shape: [b.ne[0], a.ne[1], a.ne[2], a.ne[3]]
    let mut shape = [1usize; 4];
    shape[0] = b.ne[0];
    shape[1] = a.ne[1];
    if a.n_dims() > 2 {
        shape[2] = a.ne[2];
    }
    if a.n_dims() > 3 {
        shape[3] = a.ne[3];
    }
    let n_dims = a.n_dims();
    let dims = leading_dims(&shape, n_dims);
    assert(padded_shape(dims@) =~= matmul_shape(a.ne@, b.ne@));
    new_node(ctx, a.tensor_type, dims.as_slice(), OpType::MulMat)
}

/// Transpose a 2D tensor: result = a^T
pub open spec fn spec_transpose(c: ContextModel, a: TensorMeta) -> (ContextModel, OpOutcome) {
    if spec_n_dims(a.ne) != 2 {
        (c, Err(OpErrorView::InvalidDimensions("transpose requires 2D tensor"@)))
    } else {
        spec_node(
            c,
            a.tensor_type,
            padded_shape(seq![a.ne[1], a.ne[0]]),
            OpType::Transpose,
            params_with(seq![]),
        )
    }
}

/// Transpose a 2D tensor: result = a^T
pub fn transpose(ctx: &mut Context, a: &Tensor) -> (r: Result<Tensor, OpError>)
    requires
        ctx_ready(old(ctx)@),
    ensures
        final(ctx)@.wf(),
        (final(ctx)@, outcome(r)) == spec_transpose(old(ctx)@, a.meta()),
        links_ok(r),
{
    if a.n_dims() != 2 {
        return Err(OpError::InvalidDimensions(String::from_str("transpose requires 2D tensor")));
    }
    // Swap dimensions

    let shape = [a.ne[1], a.ne[0]];
    assert(shape@ =~= seq![a.ne@[1], a.ne@[0]]);
    new_node(ctx, a.tensor_type, &shape, OpType::Transpose)
}

/// Product of a list of dimensions.
pub open spec fn seq_product(s: Seq<usize>) -> int
    decreases s.len(),
{
    if s.len() == 0 {
        1
    } else {
        seq_product(s.drop_last()) * s.last()
    }
}

/// Every running product of `s` fits in a `usize`.
pub open spec fn product_fits(s: Seq<usize>) -> bool {
    forall|k: int| 0 <= k <= s.len() ==> #[trigger] seq_product(s.take(k)) <= usize::MAX
}

/// Product of the dimensions in `shape`.
fn product(shape: &[usize]) -> (r: usize)
    requires
        product_fits(shape@),
    ensures
        r == seq_product(shape@),
{
    let mut p: usize = 1;
    let mut i: usize = 0;
    assert(shape@.take(0) =~= Seq::<usize>::empty());
    while i < shape.len()
        invariant
            i <= shape@.len(),
            product_fits(shape@),
            p == seq_product(shape@.take(i as int)),
        decreases shape.len() - i,
    {
        assert(shape@.take(i + 1).drop_last() =~= shape@.take(i as int));
        assert(seq_product(shape@.take(i + 1)) <= usize::MAX);
        p = p * shape[i];
        i = i + 1;
    }
    assert(shape@.take(shape@.len() as int) =~= shape@);
    p
}

pub open spec fn reshape_mismatch_text(x: int, y: int) -> Seq<char> {
    "Cannot reshape: element count mismatch ("@ + decimal(x as nat) + " vs "@ + decimal(y as nat)
        + ")"@
}

/// Reshape a tensor (must preserve total number of elements)
pub open spec fn spec_reshape(c: ContextModel, a: TensorMeta, new_shape: Seq<usize>) -> (
    ContextModel,
    OpOutcome,
) {
    if shape_count(a.ne) != seq_product(new_shape) {
        (
            c,
            Err(
                OpErrorView::InvalidDimensions(
                    reshape_mismatch_text(shape_count(a.ne), seq_product(new_shape)),
                ),
            ),
        )
    } else {
        spec_node(c, a.tensor_type, padded_shape(new_shape), OpType::Reshape, params_with(seq![]))
    }
}

/// Reshape a tensor (must preserve total number of elements)
pub fn reshape(ctx: &mut Context, a: &Tensor, new_shape: &[usize]) -> (r: Result<Tensor, OpError>)
    requires
        ctx_ready(old(ctx)@),
        count_fits(a.ne@),
        product_fits(new_shape@),
        new_shape@.len() <= 4 || shape_count(a.ne@) != seq_product(new_shape@),
    ensures
        final(ctx)@.wf(),
        (final(ctx)@, outcome(r)) == spec_reshape(old(ctx)@, a.meta(), new_shape@),
        links_ok(r),
{
    let old_elements = a.n_elements();
    let new_elements = product(new_shape);
    if old_elements != new_elements {
        let mut msg = String::from_str("Cannot reshape: element count mismatch (");
        push_decimal(&mut msg, old_elements);
        msg.append(" vs ");
        push_decimal(&mut msg, new_elements);
        msg.append(")");
        return Err(OpError::InvalidDimensions(msg));
    }
    new_node(ctx, a.tensor_type, new_shape, OpType::Reshape)
}

/// A view of a tensor: a node of the new shape sharing `a`'s data.
pub open spec fn spec_view(c: ContextModel, a: TensorMeta, new_shape: Seq<usize>) -> (
    ContextModel,
    OpOutcome,
) {
    let (c2, o) = spec_node(
        c,
        a.tensor_type,
        padded_shape(new_shape),
        OpType::View,
        params_with(seq![]),
    );
    match o {
        Ok(m) => (c2, Ok(if a.data is Some { TensorMeta { data: a.data, ..m } } else { m })),
        Err(e) => (c2, Err(e)),
    }
}

/// Create a view of a tensor (shares data, different shape/strides)
pub fn view(ctx: &mut Context, a: &Tensor, new_shape: &[usize]) -> (r: Result<Tensor, OpError>)
    requires
        ctx_ready(old(ctx)@),
        new_shape@.len() <= 4,
    ensures
        final(ctx)@.wf(),
        (final(ctx)@, outcome(r)) == spec_view(old(ctx)@, a.meta(), new_shape@),
        links_ok(r),
{
    let mut result = new_node(ctx, a.tensor_type, new_shape, OpType::View)?;
    // Share the data location (a view shares data)
    if let Some(data) = a.data() {
        result.set_data(data);
    }
    Ok(result)
}

/// Duplicate a tensor (deep copy)
pub fn dup(ctx: &mut Context, a: &Tensor) -> (r: Result<Tensor, OpError>)
    requires
        ctx_ready(old(ctx)@),
    ensures
        final(ctx)@.wf(),
        (final(ctx)@, outcome(r)) == spec_like(old(ctx)@, a.meta(), OpType::Dup, params_with(seq![])),
        links_ok(r),
{
    new_node_like(ctx, a, OpType::Dup)
}

/// Scale a tensor by a scalar: result = a * scale
///
/// `scale_bits` is the bit pattern of the IEEE-754 single-precision value,
/// recorded as the first operation parameter.
pub fn scale(ctx: &mut Context, a: &Tensor, scale_bits: u32) -> (r: Result<Tensor, OpError>)
    requires
        ctx_ready(old(ctx)@),
    ensures
        final(ctx)@.wf(),
        (final(ctx)@, outcome(r)) == spec_like(
            old(ctx)@,
            a.meta(),
            OpType::Scale,
            params_with(seq![scale_bits as i32]),
        ),
        links_ok(r),
{
    let r = new_node_like(ctx, a, OpType::Scale);
    assert(params_with(seq![]).update(0, scale_bits as i32) =~= params_with(seq![scale_bits as i32]));
    with_param0(r, scale_bits as i32)
}

//
// Activation functions
//

/// ReLU activation: result = max(0, a)
pub fn relu(ctx: &mut Context, a: &Tensor) -> (r: Result<Tensor, OpError>)
    requires
        ctx_ready(old(ctx)@),
    ensures
        final(ctx)@.wf(),
        (final(ctx)@, outcome(r)) == spec_like(old(ctx)@, a.meta(), OpType::Unary, params_with(seq![])),
        links_ok(r),
{
    new_node_like(ctx, a, OpType::Unary)
}

/// GELU activation (Gaussian Error Linear Unit)
pub fn gelu(ctx: &mut Context, a: &Tensor) -> (r: Result<Tensor, OpError>)
    requires
        ctx_ready(old(ctx)@),
    ensures
        final(ctx)@.wf(),
        (final(ctx)@, outcome(r)) == spec_like(old(ctx)@, a.meta(), OpType::Unary, params_with(seq![])),
        links_ok(r),
{
    new_node_like(ctx, a, OpType::Unary)
}

/// SiLU activation (Sigmoid Linear Unit): result = a * sigmoid(a)
pub fn silu(ctx: &mut Context, a: &Tensor) -> (r: Result<Tensor, OpError>)
    requires
        ctx_ready(old(ctx)@),
    ensures
        final(ctx)@.wf(),
        (final(ctx)@, outcome(r)) == spec_like(old(ctx)@, a.meta(), OpType::Silu, params_with(seq![])),
        links_ok(r),
{
    new_node_like(ctx, a, OpType::Silu)
}

/// Softmax: result[i] = exp(a[i]) / sum(exp(a))
pub fn softmax(ctx: &mut Context, a: &Tensor) -> (r: Result<Tensor, OpError>)
    requires
        ctx_ready(old(ctx)@),
    ensures
        final(ctx)@.wf(),
        (final(ctx)@, outcome(r)) == spec_like(old(ctx)@, a.meta(), OpType::SoftMax, params_with(seq![])),
        links_ok(r),
{
    new_node_like(ctx, a, OpType::SoftMax)
}

//
// Normalization
//

/// RMS normalization
///
/// `eps_bits` is the bit pattern of the IEEE-754 single-precision value,
/// recorded as the first operation parameter.
pub fn rms_norm(ctx: &mut Context, a: &Tensor, eps_bits: u32) -> (r: Result<Tensor, OpError>)
    requires
        ctx_ready(old(ctx)@),
    ensures
        final(ctx)@.wf(),
        (final(ctx)@, outcome(r)) == spec_like(
            old(ctx)@,
            a.meta(),
            OpType::RmsNorm,
            params_with(seq![eps_bits as i32]),
        ),
        links_ok(r),
{
    let r = new_node_like(ctx, a, OpType::RmsNorm);
    assert(params_with(seq![]).update(0, eps_bits as i32) =~= params_with(seq![eps_bits as i32]));
    with_param0(r, eps_bits as i32)
}

/// Layer normalization
///
/// `eps_bits` is the bit pattern of the IEEE-754 single-precision value,
/// recorded as the first operation parameter.
pub fn norm(ctx: &mut Context, a: &Tensor, eps_bits: u32) -> (r: Result<Tensor, OpError>)
    requires
        ctx_ready(old(ctx)@),
    ensures
        final(ctx)@.wf(),
        (final(ctx)@, outcome(r)) == spec_like(
            old(ctx)@,
            a.meta(),
            OpType::Norm,
            params_with(seq![eps_bits as i32]),
        ),
        links_ok(r),
{
    let r = new_node_like(ctx, a, OpType::Norm);
    assert(params_with(seq![]).update(0, eps_bits as i32) =~= params_with(seq![eps_bits as i32]));
    with_param0(r, eps_bits as i32)
}

/// A node built like `a` keeps `a`'s element type and the dimensions of `a`
/// within its rank; the dimensions beyond it are 1. It carries the given
/// operation and parameters.
pub proof fn lemma_like_result(c: ContextModel, a: TensorMeta, op: OpType, params: Seq<i32>)
    requires
        a.ne.len() == 4,
    ensures
        spec_like(c, a, op, params).1 matches Ok(r) ==> {
            &&& r.op == op
            &&& r.op_params == params
            &&& r.tensor_type == a.tensor_type
            &&& r.ne.len() == 4
            &&& forall|i: int|
                0 <= i < 4 ==> #[trigger] r.ne[i] == if i < spec_n_dims(a.ne) { a.ne[i] } else { 1 }
        },
{
}

/// An element-wise binary operation succeeds only on two tensors of one
/// shape and one element type; its result is a node of operation `op` shaped
/// like `a`.
pub proof fn lemma_binary_result(c: ContextModel, a: TensorMeta, b: TensorMeta, op: OpType)
    requires
        a.ne.len() == 4,
    ensures
        spec_binary(c, a, b, op).1 is Ok ==> a.ne == b.ne && a.tensor_type == b.tensor_type,
        a.ne != b.ne ==> spec_binary(c, a, b, op).1 is Err,
        a.tensor_type != b.tensor_type ==> spec_binary(c, a, b, op).1 is Err,
        spec_binary(c, a, b, op).1 matches Ok(r) ==> {
            &&& r.op == op
            &&& r.tensor_type == a.tensor_type
            &&& r.ne.len() == 4
            &&& forall|i: int|
                0 <= i < 4 ==> #[trigger] r.ne[i] == if i < spec_n_dims(a.ne) { a.ne[i] } else { 1 }
        },
{
    lemma_like_result(c, a, op, params_with(seq![]));
}

/// Summing rows turns the first dimension into 1 and keeps the others
/// within the rank; it needs a tensor of at least two dimensions.
pub proof fn lemma_sum_rows_result(c: ContextModel, a: TensorMeta)
    requires
        a.ne.len() == 4,
    ensures
        spec_n_dims(a.ne) < 2 ==> spec_sum_rows(c, a).1 is Err,
        spec_sum_rows(c, a).1 matches Ok(r) ==> {
            &&& r.op == OpType::SumRows
            &&& r.tensor_type == a.tensor_type
            &&& r.ne.len() == 4
            &&& r.ne[0] == 1
            &&& forall|i: int|
                1 <= i < 4 ==> #[trigger] r.ne[i] == if i < spec_n_dims(a.ne) { a.ne[i] } else { 1 }
        },
{
}

/// Transposing swaps the two dimensions of a two-dimensional tensor; other
/// ranks are refused.
pub proof fn lemma_transpose_result(c: ContextModel, a: TensorMeta)
    requires
        a.ne.len() == 4,
    ensures
        spec_n_dims(a.ne) != 2 ==> spec_transpose(c, a).1 is Err,
        spec_transpose(c, a).1 matches Ok(r) ==> {
            &&& r.op == OpType::Transpose
            &&& r.tensor_type == a.tensor_type
            &&& r.ne == seq![a.ne[1], a.ne[0], 1usize, 1usize]
        },
{
    let r = spec_transpose(c, a).1;
    if r is Ok {
        assert(padded_shape(seq![a.ne[1], a.ne[0]]) =~= seq![a.ne[1], a.ne[0], 1usize, 1usize]);
    }
}

/// Reshaping keeps the number of elements: it succeeds only when the new
/// shape has as many elements as `a`, and gives a node of that shape
/// (padded with ones).
pub proof fn lemma_reshape_result(c: ContextModel, a: TensorMeta, new_shape: Seq<usize>)
    requires
        new_shape.len() <= 4,
    ensures
        shape_count(a.ne) != seq_product(new_shape) ==> spec_reshape(c, a, new_shape).1 is Err,
        spec_reshape(c, a, new_shape).1 matches Ok(r) ==> {
            &&& r.op == OpType::Reshape
            &&& r.tensor_type == a.tensor_type
            &&& r.ne.len() == 4
            &&& forall|i: int|
                0 <= i < 4 ==> #[trigger] r.ne[i] == if i < new_shape.len() { new_shape[i] } else { 1 }
        },
{
}

} // verus!
