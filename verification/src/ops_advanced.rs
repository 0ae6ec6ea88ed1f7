//! Advanced tensor operations for neural networks
//!
//! Operations needed by transformer architectures:
//! - RoPE (Rotary Position Embedding)
//! - Attention mechanisms
//! - Activations with parameters
//! - Masking, row lookup, permutation and concatenation

use vstd::prelude::*;
use crate::context::{Context, ContextModel};
use crate::ops::{
    OpError, OpErrorView, OpOutcome, ctx_ready, links_ok, new_node, new_node_like, outcome,
    set_param, spec_like, spec_node, spec_binary, spec_matmul, matmul, scale,
};
use crate::tensor::{
    OpType, Tensor, TensorMeta, leading_shape, padded_shape, params_with, spec_n_dims,
};
use crate::text::{decimal, push_decimal};

verus! {

/// Sets the first four parameters of a successful result.
fn with_params4(r: Result<Tensor, OpError>, v0: i32, v1: i32, v2: i32, v3: i32) -> (out: Result<
    Tensor,
    OpError,
>)
    ensures
        outcome(out) == match outcome(r) {
            Ok(m) => Ok(
                TensorMeta {
                    op_params: m.op_params.update(0, v0).update(1, v1).update(2, v2).update(3, v3),
                    ..m
                },
            ),
            Err(e) => Err(e),
        },
        links_ok(r) ==> links_ok(out),
{
    match r {
        Ok(mut t) => {
            set_param(&mut t, 0, v0);
            set_param(&mut t, 1, v1);
            set_param(&mut t, 2, v2);
            set_param(&mut t, 3, v3);
            Ok(t)
        },
        Err(e) => Err(e),
    }
}

/// Sets the first three parameters of a successful result.
fn with_params3(r: Result<Tensor, OpError>, v0: i32, v1: i32, v2: i32) -> (out: Result<
    Tensor,
    OpError,
>)
    ensures
        outcome(out) == match outcome(r) {
            Ok(m) => Ok(
                TensorMeta { op_params: m.op_params.update(0, v0).update(1, v1).update(2, v2), ..m },
            ),
            Err(e) => Err(e),
        },
        links_ok(r) ==> links_ok(out),
{
    match r {
        Ok(mut t) => {
            set_param(&mut t, 0, v0);
            set_param(&mut t, 1, v1);
            set_param(&mut t, 2, v2);
            Ok(t)
        },
        Err(e) => Err(e),
    }
}

/// Sets the first two parameters of a successful result.
fn with_params2(r: Result<Tensor, OpError>, v0: i32, v1: i32) -> (out: Result<Tensor, OpError>)
    ensures
        outcome(out) == match outcome(r) {
            Ok(m) => Ok(TensorMeta { op_params: m.op_params.update(0, v0).update(1, v1), ..m }),
            Err(e) => Err(e),
        },
        links_ok(r) ==> links_ok(out),
{
    match r {
        Ok(mut t) => {
            set_param(&mut t, 0, v0);
            set_param(&mut t, 1, v1);
            Ok(t)
        },
        Err(e) => Err(e),
    }
}

/// Sets the first parameter of a successful result.
fn with_params1(r: Result<Tensor, OpError>, v0: i32) -> (out: Result<Tensor, OpError>)
    ensures
        outcome(out) == match outcome(r) {
            Ok(m) => Ok(TensorMeta { op_params: m.op_params.update(0, v0), ..m }),
            Err(e) => Err(e),
        },
        links_ok(r) ==> links_ok(out),
{
    match r {
        Ok(mut t) => {
            set_param(&mut t, 0, v0);
            Ok(t)
        },
        Err(e) => Err(e),
    }
}

/// RoPE forward or backward node: parameters `n_past, n_dims, mode, n_ctx`.
pub open spec fn spec_rope_like(
    c: ContextModel,
    a: TensorMeta,
    op: OpType,
    msg: Seq<char>,
    n_past: usize,
    n_dims: usize,
    mode: i32,
    n_ctx: usize,
) -> (ContextModel, OpOutcome) {
    if spec_n_dims(a.ne) < 3 {
        (c, Err(OpErrorView::InvalidDimensions(msg)))
    } else {
        spec_like(c, a, op, params_with(seq![n_past as i32, n_dims as i32, mode, n_ctx as i32]))
    }
}

/// RoPE (Rotary Position Embedding) operation
///
/// Applies rotary position embeddings to a tensor, used in models like LLaMA, Mistral, Qwen.
///
/// # Arguments
/// * `ctx` - Memory context
/// * `a` - Input tensor [batch, seq_len, n_heads, head_dim]
/// * `n_past` - Number of past tokens (for KV cache)
/// * `n_dims` - Number of dimensions to apply RoPE to (typically head_dim or head_dim/2)
/// * `mode` - RoPE mode (0 = normal, 1 = neox style)
/// * `n_ctx` - Context size
pub fn rope(
    ctx: &mut Context,
    a: &Tensor,
    n_past: usize,
    n_dims: usize,
    mode: i32,
    n_ctx: usize,
) -> (r: Result<Tensor, OpError>)
    requires
        ctx_ready(old(ctx)@),
    ensures
        final(ctx)@.wf(),
        (final(ctx)@, outcome(r)) == spec_rope_like(
            old(ctx)@,
            a.meta(),
            OpType::Rope,
            "RoPE requires at least 3D tensor"@,
            n_past,
            n_dims,
            mode,
            n_ctx,
        ),
        links_ok(r),
{
    if a.n_dims() < 3 {
        return Err(
            OpError::InvalidDimensions(String::from_str("RoPE requires at least 3D tensor")),
        );
    }
    let r = new_node_like(ctx, a, OpType::Rope);
    assert(params_with(seq![]).update(0, n_past as i32).update(1, n_dims as i32).update(2, mode).update(3, n_ctx as i32)
        =~= params_with(seq![n_past as i32, n_dims as i32, mode, n_ctx as i32]));
    with_params4(r, n_past as i32, n_dims as i32, mode, n_ctx as i32)
}

/// RoPE backward pass
pub fn rope_back(
    ctx: &mut Context,
    a: &Tensor,
    n_past: usize,
    n_dims: usize,
    mode: i32,
    n_ctx: usize,
) -> (r: Result<Tensor, OpError>)
    requires
        ctx_ready(old(ctx)@),
    ensures
        final(ctx)@.wf(),
        (final(ctx)@, outcome(r)) == spec_rope_like(
            old(ctx)@,
            a.meta(),
            OpType::RopeBack,
            "RoPE backward requires at least 3D tensor"@,
            n_past,
            n_dims,
            mode,
            n_ctx,
        ),
        links_ok(r),
{
    if a.n_dims() < 3 {
        return Err(
            OpError::InvalidDimensions(
                String::from_str("RoPE backward requires at least 3D tensor"),
            ),
        );
    }
    let r = new_node_like(ctx, a, OpType::RopeBack);
    assert(params_with(seq![]).update(0, n_past as i32).update(1, n_dims as i32).update(2, mode).update(3, n_ctx as i32)
        =~= params_with(seq![n_past as i32, n_dims as i32, mode, n_ctx as i32]));
    with_params4(r, n_past as i32, n_dims as i32, mode, n_ctx as i32)
}

/// Softmax with numerical stability
///
/// Computes softmax along the last dimension using the log-sum-exp trick:
/// softmax(x) = exp(x - max(x)) / sum(exp(x - max(x)))
pub fn soft_max(ctx: &mut Context, a: &Tensor) -> (r: Result<Tensor, OpError>)
    requires
        ctx_ready(old(ctx)@),
    ensures
        final(ctx)@.wf(),
        (final(ctx)@, outcome(r)) == spec_like(old(ctx)@, a.meta(), OpType::SoftMax, params_with(seq![])),
        links_ok(r),
{
    new_node_like(ctx, a, OpType::SoftMax)
}

/// Softmax backward pass
pub open spec fn spec_soft_max_back(c: ContextModel, a: TensorMeta, b: TensorMeta) -> (
    ContextModel,
    OpOutcome,
) {
    if spec_n_dims(a.ne) != spec_n_dims(b.ne) {
        (c, Err(OpErrorView::ShapeMismatch("Softmax backward requires matching dimensions"@)))
    } else {
        spec_like(c, a, OpType::SoftMaxBack, params_with(seq![]))
    }
}

/// Softmax backward pass
pub fn soft_max_back(ctx: &mut Context, a: &Tensor, b: &Tensor) -> (r: Result<Tensor, OpError>)
    requires
        ctx_ready(old(ctx)@),
    ensures
        final(ctx)@.wf(),
        (final(ctx)@, outcome(r)) == spec_soft_max_back(old(ctx)@, a.meta(), b.meta()),
        links_ok(r),
{
    if a.n_dims() != b.n_dims() {
        return Err(
            OpError::ShapeMismatch(
                String::from_str("Softmax backward requires matching dimensions"),
            ),
        );
    }
    new_node_like(ctx, a, OpType::SoftMaxBack)
}

pub open spec fn bool_param(b: bool) -> i32 {
    if b {
        1
    } else {
        0
    }
}

/// Flash Attention
pub open spec fn spec_flash_attn(
    c: ContextModel,
    q: TensorMeta,
    k: TensorMeta,
    v: TensorMeta,
    masked: bool,
) -> (ContextModel, OpOutcome) {
    if spec_n_dims(q.ne) != 4 || spec_n_dims(k.ne) != 4 || spec_n_dims(v.ne) != 4 {
        (c, Err(OpErrorView::InvalidDimensions("Flash attention requires 4D tensors"@)))
    } else if q.ne[0] != k.ne[0] || k.ne[0] != v.ne[0] {
        (c, Err(OpErrorView::ShapeMismatch("Head dimension must match across Q, K, V"@)))
    } else if k.ne[1] != v.ne[1] {
        (c, Err(OpErrorView::ShapeMismatch("Sequence length must match for K and V"@)))
    } else {
        spec_node(c, q.tensor_type, q.ne, OpType::Flash, params_with(seq![bool_param(masked)]))
    }
}

/// Flash Attention
///
/// Efficient attention implementation with O(N) memory complexity.
/// Computes: softmax(Q @ K^T / sqrt(d)) @ V
///
/// # Arguments
/// * `q` - Query tensor [batch, n_heads, seq_len_q, head_dim]
/// * `k` - Key tensor [batch, n_heads, seq_len_k, head_dim]
/// * `v` - Value tensor [batch, n_heads, seq_len_k, head_dim]
/// * `masked` - Whether to apply causal masking
pub fn flash_attn(ctx: &mut Context, q: &Tensor, k: &Tensor, v: &Tensor, masked: bool) -> (r:
    Result<Tensor, OpError>)
    requires
        ctx_ready(old(ctx)@),
    ensures
        final(ctx)@.wf(),
        (final(ctx)@, outcome(r)) == spec_flash_attn(old(ctx)@, q.meta(), k.meta(), v.meta(), masked),
        links_ok(r),
{
    if q.n_dims() != 4 || k.n_dims() != 4 || v.n_dims() != 4 {
        return Err(
            OpError::InvalidDimensions(String::from_str("Flash attention requires 4D tensors")),
        );
    }
    // Check dimensions match

    if q.ne[0] != k.ne[0] || k.ne[0] != v.ne[0] {
        return Err(
            OpError::ShapeMismatch(String::from_str("Head dimension must match across Q, K, V")),
        );
    }
    if k.ne[1] != v.ne[1] {
        return Err(
            OpError::ShapeMismatch(String::from_str("Sequence length must match for K and V")),
        );
    }
    // Result shape: [head_dim, seq_len_q, n_heads, batch]

    let shape = [q.ne[0], q.ne[1], q.ne[2], q.ne[3]];
    assert(padded_shape(shape@) =~= q.ne@);
    let r = new_node(ctx, q.tensor_type, &shape, OpType::Flash);
    let m: i32 = if masked { 1 } else { 0 };
    assert(params_with(seq![]).update(0, m) =~= params_with(seq![bool_param(masked)]));
    with_params1(r, m)
}

/// Flash Attention backward pass
pub open spec fn spec_flash_attn_back(
    c: ContextModel,
    q: TensorMeta,
    k: TensorMeta,
    v: TensorMeta,
    d: TensorMeta,
    masked: bool,
) -> (ContextModel, OpOutcome) {
    if spec_n_dims(q.ne) != 4 || spec_n_dims(k.ne) != 4 || spec_n_dims(v.ne) != 4 || spec_n_dims(
        d.ne,
    ) != 4 {
        (c, Err(OpErrorView::InvalidDimensions("Flash attention backward requires 4D tensors"@)))
    } else {
        spec_node(c, q.tensor_type, q.ne, OpType::FlashBack, params_with(seq![bool_param(masked)]))
    }
}

/// Flash Attention backward pass
pub fn flash_attn_back(
    ctx: &mut Context,
    q: &Tensor,
    k: &Tensor,
    v: &Tensor,
    d: &Tensor,
    masked: bool,
) -> (r: Result<Tensor, OpError>)
    requires
        ctx_ready(old(ctx)@),
    ensures
        final(ctx)@.wf(),
        (final(ctx)@, outcome(r)) == spec_flash_attn_back(
            old(ctx)@,
            q.meta(),
            k.meta(),
            v.meta(),
            d.meta(),
            masked,
        ),
        links_ok(r),
{
    if q.n_dims() != 4 || k.n_dims() != 4 || v.n_dims() != 4 || d.n_dims() != 4 {
        return Err(
            OpError::InvalidDimensions(
                String::from_str("Flash attention backward requires 4D tensors"),
            ),
        );
    }
    let shape = [q.ne[0], q.ne[1], q.ne[2], q.ne[3]];
    assert(padded_shape(shape@) =~= q.ne@);
    let r = new_node(ctx, q.tensor_type, &shape, OpType::FlashBack);
    let m: i32 = if masked { 1 } else { 0 };
    assert(params_with(seq![]).update(0, m) =~= params_with(seq![bool_param(masked)]));
    with_params1(r, m)
}

/// Scaled dot-product attention as the chain of nodes it builds:
/// `matmul(q, k)`, a scale node, an optional mask addition, a softmax and
/// `matmul(weights, v)`.
pub open spec fn spec_scaled_dot_product_attention(
    c: ContextModel,
    q: TensorMeta,
    k: TensorMeta,
    v: TensorMeta,
    scale_bits: u32,
    mask: Option<TensorMeta>,
) -> (ContextModel, OpOutcome) {
    let (c1, o1) = spec_matmul(c, q, k);
    match o1 {
        Err(e) => (c1, Err(e)),
        Ok(qk) => {
            let (c2, o2) = spec_like(c1, qk, OpType::Scale, params_with(seq![scale_bits as i32]));
            match o2 {
                Err(e) => (c2, Err(e)),
                Ok(qk_scaled) => {
                    let (c3, o3) = match mask {
                        Some(m) => spec_binary(c2, qk_scaled, m, OpType::Add),
                        None => (c2, Ok(qk_scaled)),
                    };
                    match o3 {
                        Err(e) => (c3, Err(e)),
                        Ok(qk_masked) => {
                            let (c4, o4) = spec_like(
                                c3,
                                qk_masked,
                                OpType::SoftMax,
                                params_with(seq![]),
                            );
                            match o4 {
                                Err(e) => (c4, Err(e)),
                                Ok(weights) => spec_matmul(c4, weights, v),
                            }
                        },
                    }
                },
            }
        },
    }
}

/// Scaled Dot-Product Attention (standard implementation)
///
/// Computes: softmax(Q @ K^T / sqrt(d_k)) @ V
///
/// # Arguments
/// * `q` - Query tensor [batch, n_heads, seq_len_q, head_dim]
/// * `k` - Key tensor [batch, n_heads, seq_len_k, head_dim]
/// * `v` - Value tensor [batch, n_heads, seq_len_k, head_dim]
/// * `scale_bits` - Bit pattern of the single-precision scale factor
///   (typically 1/sqrt(head_dim))
/// * `mask` - Optional attention mask
#[verifier::rlimit(40)]
pub fn scaled_dot_product_attention(
    ctx: &mut Context,
    q: &Tensor,
    k: &Tensor,
    v: &Tensor,
    scale_bits: u32,
    mask: Option<&Tensor>,
) -> (r: Result<Tensor, OpError>)
    requires
        old(ctx)@.wf(),
        old(ctx)@.has_ids_for(5),
    ensures
        final(ctx)@.wf(),
        (final(ctx)@, outcome(r)) == spec_scaled_dot_product_attention(
            old(ctx)@,
            q.meta(),
            k.meta(),
            v.meta(),
            scale_bits,
            match mask {
                Some(m) => Some(m.meta()),
                None => None,
            },
        ),
        links_ok(r),
{
    // Q @ K^T
    let qk = matmul(ctx, q, k)?;
    // Scale
    let qk_scaled = scale(ctx, &qk, scale_bits)?;
    // Add mask if provided
    let qk_masked = if let Some(m) = mask {
        crate::ops::add(ctx, &qk_scaled, m)?
    } else {
        qk_scaled
    };
    // Softmax
    let attn_weights = soft_max(ctx, &qk_masked)?;
    // @ V
    matmul(ctx, &attn_weights, v)
}

/// Clamp values to a range
///
/// Clamps all values in the tensor to [min, max]; `min_bits` and `max_bits`
/// are the single-precision bit patterns, recorded as parameters.
pub fn clamp(ctx: &mut Context, a: &Tensor, min_bits: u32, max_bits: u32) -> (r: Result<
    Tensor,
    OpError,
>)
    requires
        ctx_ready(old(ctx)@),
    ensures
        final(ctx)@.wf(),
        (final(ctx)@, outcome(r)) == spec_like(
            old(ctx)@,
            a.meta(),
            OpType::Clamp,
            params_with(seq![min_bits as i32, max_bits as i32]),
        ),
        links_ok(r),
{
    let r = new_node_like(ctx, a, OpType::Clamp);
    assert(params_with(seq![]).update(0, min_bits as i32).update(1, max_bits as i32) =~= params_with(
        seq![min_bits as i32, max_bits as i32],
    ));
    with_params2(r, min_bits as i32, max_bits as i32)
}

/// Leaky ReLU activation
///
/// f(x) = x if x > 0, else alpha * x; `alpha_bits` is the single-precision
/// bit pattern of the negative slope (typically 0.01).
pub fn leaky_relu(ctx: &mut Context, a: &Tensor, alpha_bits: u32) -> (r: Result<Tensor, OpError>)
    requires
        ctx_ready(old(ctx)@),
    ensures
        final(ctx)@.wf(),
        (final(ctx)@, outcome(r)) == spec_like(
            old(ctx)@,
            a.meta(),
            OpType::Leaky,
            params_with(seq![alpha_bits as i32]),
        ),
        links_ok(r),
{
    let r = new_node_like(ctx, a, OpType::Leaky);
    assert(params_with(seq![]).update(0, alpha_bits as i32) =~= params_with(seq![alpha_bits as i32]));
    with_params1(r, alpha_bits as i32)
}

/// Alibi (Attention with Linear Biases)
///
/// Adds position-dependent bias to attention scores. The node is recorded
/// as a diagonal-mask node with parameters `n_past`, `n_head` and the
/// single-precision bit pattern of `bias_max`.
pub fn alibi(ctx: &mut Context, a: &Tensor, n_past: usize, n_head: usize, bias_max_bits: u32) -> (r:
    Result<Tensor, OpError>)
    requires
        ctx_ready(old(ctx)@),
    ensures
        final(ctx)@.wf(),
        (final(ctx)@, outcome(r)) == spec_like(
            old(ctx)@,
            a.meta(),
            OpType::DiagMaskInf,
            params_with(seq![n_past as i32, n_head as i32, bias_max_bits as i32]),
        ),
        links_ok(r),
{
    let r = new_node_like(ctx, a, OpType::DiagMaskInf);
    assert(params_with(seq![]).update(0, n_past as i32).update(1, n_head as i32).update(
        2,
        bias_max_bits as i32,
    ) =~= params_with(seq![n_past as i32, n_head as i32, bias_max_bits as i32]));
    with_params3(r, n_past as i32, n_head as i32, bias_max_bits as i32)
}

/// Diagonal mask with infinity
///
/// Sets values above diagonal to -inf (for causal masking)
pub fn diag_mask_inf(ctx: &mut Context, a: &Tensor, n_past: usize) -> (r: Result<Tensor, OpError>)
    requires
        ctx_ready(old(ctx)@),
    ensures
        final(ctx)@.wf(),
        (final(ctx)@, outcome(r)) == spec_like(
            old(ctx)@,
            a.meta(),
            OpType::DiagMaskInf,
            params_with(seq![n_past as i32]),
        ),
        links_ok(r),
{
    let r = new_node_like(ctx, a, OpType::DiagMaskInf);
    assert(params_with(seq![]).update(0, n_past as i32) =~= params_with(seq![n_past as i32]));
    with_params1(r, n_past as i32)
}

/// Diagonal mask with zero
///
/// Sets values above diagonal to 0 (for causal masking)
pub fn diag_mask_zero(ctx: &mut Context, a: &Tensor, n_past: usize) -> (r: Result<Tensor, OpError>)
    requires
        ctx_ready(old(ctx)@),
    ensures
        final(ctx)@.wf(),
        (final(ctx)@, outcome(r)) == spec_like(
            old(ctx)@,
            a.meta(),
            OpType::DiagMaskZero,
            params_with(seq![n_past as i32]),
        ),
        links_ok(r),
{
    let r = new_node_like(ctx, a, OpType::DiagMaskZero);
    assert(params_with(seq![]).update(0, n_past as i32) =~= params_with(seq![n_past as i32]));
    with_params1(r, n_past as i32)
}

/// Get rows from a tensor (embedding lookup)
pub open spec fn spec_get_rows(c: ContextModel, a: TensorMeta, b: TensorMeta) -> (
    ContextModel,
    OpOutcome,
) {
    if spec_n_dims(a.ne) != 2 {
        (c, Err(OpErrorView::InvalidDimensions("get_rows requires 2D input tensor"@)))
    } else {
        spec_node(
            c,
            a.tensor_type,
            leading_shape(seq![a.ne[0], b.ne[0], b.ne[1], b.ne[2]], 1 + spec_n_dims(b.ne)),
            OpType::GetRows,
            params_with(seq![]),
        )
    }
}

/// Get rows from a tensor (embedding lookup)
///
/// Extracts specific rows from a 2D tensor, used for embedding lookups
///
/// # Arguments
/// * `a` - Input tensor [vocab_size, embed_dim]
/// * `b` - Row indices [batch_size, seq_len]
pub fn get_rows(ctx: &mut Context, a: &Tensor, b: &Tensor) -> (r: Result<Tensor, OpError>)
    requires
        ctx_ready(old(ctx)@),
        spec_n_dims(a.ne@) == 2 ==> spec_n_dims(b.ne@) <= 3,
    ensures
        final(ctx)@.wf(),
        (final(ctx)@, outcome(r)) == spec_get_rows(old(ctx)@, a.meta(), b.meta()),
        links_ok(r),
{
    if a.n_dims() != 2 {
        return Err(
            OpError::InvalidDimensions(String::from_str("get_rows requires 2D input tensor")),
        );
    }
    // Result shape: [a.ne[0], b.ne[0], b.ne[1], ...]

    let mut shape = [1usize; 4];
    shape[0] = a.ne[0];  // embed_dim
    shape[1] = b.ne[0];  // batch or seq_len
    if b.n_dims() > 1 {
        shape[2] = b.ne[1];
    }
    if b.n_dims() > 2 {
        shape[3] = b.ne[2];
    }
    let n_dims = 1 + b.n_dims();
    let dims = crate::ops::leading_dims_pub(&shape, n_dims);
    assert(padded_shape(dims@) =~= leading_shape(
        seq![a.ne@[0], b.ne@[0], b.ne@[1], b.ne@[2]],
        1 + spec_n_dims(b.ne@),
    ));
    new_node(ctx, a.tensor_type, dims.as_slice(), OpType::GetRows)
}

pub open spec fn invalid_axis_text(axis: usize) -> Seq<char> {
    "Invalid axis: "@ + decimal(axis as nat)
}

/// The dimensions of `ne` moved to their new positions: dimension `i`
/// goes to position `axes[i]`.
pub open spec fn placed_dims(ne: Seq<usize>, axes: Seq<usize>) -> Seq<usize> {
    seq![1usize, 1usize, 1usize, 1usize].update(axes[0] as int, ne[0]).update(axes[1] as int, ne[1]).update(
        axes[2] as int,
        ne[2],
    ).update(axes[3] as int, ne[3])
}

/// Permute tensor dimensions
pub open spec fn spec_permute(c: ContextModel, a: TensorMeta, axes: Seq<usize>) -> (
    ContextModel,
    OpOutcome,
) {
    if axes[0] >= 4 {
        (c, Err(OpErrorView::InvalidDimensions(invalid_axis_text(axes[0]))))
    } else if axes[1] >= 4 {
        (c, Err(OpErrorView::InvalidDimensions(invalid_axis_text(axes[1]))))
    } else if axes[2] >= 4 {
        (c, Err(OpErrorView::InvalidDimensions(invalid_axis_text(axes[2]))))
    } else if axes[3] >= 4 {
        (c, Err(OpErrorView::InvalidDimensions(invalid_axis_text(axes[3]))))
    } else if exists|i: int, j: int| 0 <= i < j < 4 && axes[i] == axes[j] {
        (c, Err(OpErrorView::InvalidDimensions("Duplicate axes in permutation"@)))
    } else {
        spec_node(
            c,
            a.tensor_type,
            leading_shape(placed_dims(a.ne, axes), spec_n_dims(a.ne) as int),
            OpType::Permute,
            params_with(seq![axes[0] as i32, axes[1] as i32, axes[2] as i32, axes[3] as i32]),
        )
    }
}

fn invalid_axis(axis: usize) -> (r: OpError)
    ensures
        r@ == OpErrorView::InvalidDimensions(invalid_axis_text(axis)),
{
    let mut msg = String::from_str("Invalid axis: ");
    push_decimal(&mut msg, axis);
    OpError::InvalidDimensions(msg)
}

/// Permute tensor dimensions
///
/// Rearranges the dimensions of a tensor according to the given permutation
///
/// # Arguments
/// * `axis0` - New position for dimension 0
/// * `axis1` - New position for dimension 1
/// * `axis2` - New position for dimension 2
/// * `axis3` - New position for dimension 3
pub fn permute(
    ctx: &mut Context,
    a: &Tensor,
    axis0: usize,
    axis1: usize,
    axis2: usize,
    axis3: usize,
) -> (r: Result<Tensor, OpError>)
    requires
        ctx_ready(old(ctx)@),
    ensures
        final(ctx)@.wf(),
        (final(ctx)@, outcome(r)) == spec_permute(
            old(ctx)@,
            a.meta(),
            seq![axis0, axis1, axis2, axis3],
        ),
        links_ok(r),
{
    // Validate axes
    let axes = [axis0, axis1, axis2, axis3];
    let ghost ax = seq![axis0, axis1, axis2, axis3];
    assert(axes@ =~= ax);
    let mut k: usize = 0;
    while k < 4
        invariant
            k <= 4,
            axes@ == ax,
            ax == seq![axis0, axis1, axis2, axis3],
            forall|j: int| 0 <= j < k ==> ax[j] < 4,
            ctx_ready(old(ctx)@),
            ctx@ == old(ctx)@,
        decreases 4 - k,
    {
        if axes[k] >= 4 {
            return Err(invalid_axis(axes[k]));
        }
        k = k + 1;
    }
    // Check for duplicates

    let mut i: usize = 0;
    while i < 4
        invariant
            i <= 4,
            axes@ == ax,
            ax == seq![axis0, axis1, axis2, axis3],
            forall|j: int| 0 <= j < 4 ==> ax[j] < 4,
            forall|p: int, q: int| 0 <= p < i && p < q < 4 ==> ax[p] != ax[q],
            ctx_ready(old(ctx)@),
            ctx@ == old(ctx)@,
        decreases 4 - i,
    {
        let mut j: usize = i + 1;
        while j < 4
            invariant
                i < 4,
                i + 1 <= j <= 4,
                axes@ == ax,
                ax == seq![axis0, axis1, axis2, axis3],
                forall|j: int| 0 <= j < 4 ==> ax[j] < 4,
                forall|p: int, q: int| 0 <= p < i && p < q < 4 ==> ax[p] != ax[q],
                forall|q: int| i < q < j ==> ax[i as int] != ax[q],
                ctx_ready(old(ctx)@),
                ctx@ == old(ctx)@,
            decreases 4 - j,
        {
            if axes[i] == axes[j] {
                assert(ax[i as int] == ax[j as int]);
                assert(exists|p: int, q: int| 0 <= p < q < 4 && ax[p] == ax[q]);
                return Err(
                    OpError::InvalidDimensions(String::from_str("Duplicate axes in permutation")),
                );
            }
            j = j + 1;
        }
        i = i + 1;
    }
    // Compute new shape

    // Each dimension goes to the position its argument gives
    let mut new_shape = [1usize; 4];
    new_shape.set(axis0, a.ne[0]);
    new_shape.set(axis1, a.ne[1]);
    new_shape.set(axis2, a.ne[2]);
    new_shape.set(axis3, a.ne[3]);
    assert(new_shape@ =~= placed_dims(a.ne@, seq![axis0, axis1, axis2, axis3]));
    let dims = crate::ops::leading_dims_pub(&new_shape, a.n_dims());
    let r = new_node(ctx, a.tensor_type, dims.as_slice(), OpType::Permute);
    assert(params_with(seq![]).update(0, axis0 as i32).update(1, axis1 as i32).update(2, axis2 as i32).update(3, axis3 as i32)
        =~= params_with(seq![axis0 as i32, axis1 as i32, axis2 as i32, axis3 as i32]));
    with_params4(r, axis0 as i32, axis1 as i32, axis2 as i32, axis3 as i32)
}

/// The first dimension below `n`, from `i` on and other than `axis`, where
/// the two shapes differ.
pub open spec fn first_dim_mismatch(a: Seq<usize>, b: Seq<usize>, axis: usize, i: int, n: int) -> Option<
    int,
>
    decreases n - i,
{
    if i >= n {
        None
    } else if i != axis && a[i] != b[i] {
        Some(i)
    } else {
        first_dim_mismatch(a, b, axis, i + 1, n)
    }
}

pub open spec fn dim_mismatch_text(i: int, x: usize, y: usize) -> Seq<char> {
    "Dimension "@ + decimal(i as nat) + " doesn't match: "@ + decimal(x as nat) + " vs "@ + decimal(
        y as nat,
    )
}

/// The checks of `concat` that come before the result shape is computed pass.
pub open spec fn concat_checks_pass(a: TensorMeta, b: TensorMeta, axis: usize) -> bool {
    &&& spec_n_dims(a.ne) == spec_n_dims(b.ne)
    &&& axis < spec_n_dims(a.ne)
    &&& first_dim_mismatch(a.ne, b.ne, axis, 0, spec_n_dims(a.ne) as int) is None
}

/// Concatenate tensors along a dimension
pub open spec fn spec_concat(c: ContextModel, a: TensorMeta, b: TensorMeta, axis: usize) -> (
    ContextModel,
    OpOutcome,
) {
    let n = spec_n_dims(a.ne);
    if n != spec_n_dims(b.ne) {
        (c, Err(OpErrorView::ShapeMismatch("Tensors must have same number of dimensions"@)))
    } else if axis >= n {
        (c, Err(OpErrorView::InvalidDimensions(invalid_axis_text(axis))))
    } else {
        match first_dim_mismatch(a.ne, b.ne, axis, 0, n as int) {
            Some(i) => (c, Err(OpErrorView::ShapeMismatch(dim_mismatch_text(i, a.ne[i], b.ne[i])))),
            None => spec_node(
                c,
                a.tensor_type,
                leading_shape(
                    a.ne.update(axis as int, (a.ne[axis as int] + b.ne[axis as int]) as usize),
                    n as int,
                ),
                OpType::Concat,
                params_with(seq![axis as i32]),
            ),
        }
    }
}

/// Concatenate tensors along a dimension
///
/// # Arguments
/// * `a` - First tensor
/// * `b` - Second tensor
/// * `axis` - Dimension to concatenate along
pub fn concat(ctx: &mut Context, a: &Tensor, b: &Tensor, axis: usize) -> (r: Result<Tensor, OpError>)
    requires
        ctx_ready(old(ctx)@),
        concat_checks_pass(a.meta(), b.meta(), axis) ==> a.ne@[axis as int] + b.ne@[axis as int]
            <= usize::MAX,
    ensures
        final(ctx)@.wf(),
        (final(ctx)@, outcome(r)) == spec_concat(old(ctx)@, a.meta(), b.meta(), axis),
        links_ok(r),
{
    if a.n_dims() != b.n_dims() {
        return Err(
            OpError::ShapeMismatch(String::from_str("Tensors must have same number of dimensions")),
        );
    }
    let n = a.n_dims();
    if axis >= n {
        return Err(invalid_axis(axis));
    }
    // Check all dimensions except concat axis match

    let mut i: usize = 0;
    while i < n
        invariant
            i <= n,
            n == spec_n_dims(a.ne@),
            n == spec_n_dims(b.ne@),
            axis < n,
            ctx_ready(old(ctx)@),
            ctx@ == old(ctx)@,
            first_dim_mismatch(a.ne@, b.ne@, axis, 0, n as int) == first_dim_mismatch(
                a.ne@,
                b.ne@,
                axis,
                i as int,
                n as int,
            ),
        decreases n - i,
    {
        if i != axis && a.ne[i] != b.ne[i] {
            let mut msg = String::from_str("Dimension ");
            push_decimal(&mut msg, i);
            msg.append(" doesn't match: ");
            push_decimal(&mut msg, a.ne[i]);
            msg.append(" vs ");
            push_decimal(&mut msg, b.ne[i]);
            return Err(OpError::ShapeMismatch(msg));
        }
        i = i + 1;
    }
    // Result shape: same as a, but concat dimension is sum

    let mut shape = a.ne;
    shape[axis] = a.ne[axis] + b.ne[axis];
    assert(shape@ =~= a.ne@.update(axis as int, (a.ne@[axis as int] + b.ne@[axis as int]) as usize));
    let dims = crate::ops::leading_dims_pub(&shape, n);
    let r = new_node(ctx, a.tensor_type, dims.as_slice(), OpType::Concat);
    assert(params_with(seq![]).update(0, axis as i32) =~= params_with(seq![axis as i32]));
    with_params1(r, axis as i32)
}

/// Gathering rows of a two-dimensional table `a` by an index tensor `b`
/// gives rows of `a`'s width: the result is `[a.ne[0], b.ne[0], b.ne[1],
/// b.ne[2]]`, cut to one more dimension than `b` has and padded with ones.
pub proof fn lemma_get_rows_result(c: ContextModel, a: TensorMeta, b: TensorMeta)
    requires
        a.ne.len() == 4,
        b.ne.len() == 4,
        spec_n_dims(b.ne) <= 3,
    ensures
        spec_n_dims(a.ne) != 2 ==> spec_get_rows(c, a, b).1 is Err,
        spec_get_rows(c, a, b).1 matches Ok(r) ==> {
            &&& r.op == OpType::GetRows
            &&& r.tensor_type == a.tensor_type
            &&& r.ne.len() == 4
            &&& r.ne[0] == a.ne[0]
            &&& r.ne[1] == b.ne[0]
            &&& r.ne[2] == if spec_n_dims(b.ne) >= 2 { b.ne[1] } else { 1 }
            &&& r.ne[3] == if spec_n_dims(b.ne) >= 3 { b.ne[2] } else { 1 }
        },
{
}

/// Permuting moves dimension `i` of `a` to position `axes[i]` (a position
/// beyond `a`'s rank holds 1); the axes must be distinct and below 4, and
/// the result records them as its parameters.
pub proof fn lemma_permute_result(c: ContextModel, a: TensorMeta, axes: Seq<usize>)
    requires
        a.ne.len() == 4,
        axes.len() == 4,
    ensures
        (exists|i: int| 0 <= i < 4 && axes[i] >= 4) ==> spec_permute(c, a, axes).1 is Err,
        (exists|i: int, j: int| 0 <= i < j < 4 && axes[i] == axes[j]) ==> spec_permute(c, a, axes).1 is Err,
        spec_permute(c, a, axes).1 matches Ok(r) ==> {
            &&& r.op == OpType::Permute
            &&& r.tensor_type == a.tensor_type
            &&& r.ne.len() == 4
            &&& forall|i: int|
                0 <= i < 4 ==> #[trigger] r.ne[axes[i] as int] == if axes[i] < spec_n_dims(a.ne) {
                    a.ne[i]
                } else {
                    1
                }
            &&& forall|i: int| 0 <= i < 4 ==> #[trigger] r.op_params[i] == axes[i] as i32
        },
{
    if spec_permute(c, a, axes).1 is Ok {
        assert(forall|i: int| 0 <= i < 4 ==> axes[i] < 4);
        assert(forall|i: int, j: int| 0 <= i < j < 4 ==> axes[i] != axes[j]);
    }
}

/// Concatenating along `axis` needs tensors of one rank that agree on every
/// other dimension; the result adds the two sizes along `axis` and keeps the
/// other dimensions of `a`.
pub proof fn lemma_concat_result(c: ContextModel, a: TensorMeta, b: TensorMeta, axis: usize)
    requires
        a.ne.len() == 4,
        b.ne.len() == 4,
        axis < 4 ==> a.ne[axis as int] + b.ne[axis as int] <= usize::MAX,
    ensures
        spec_concat(c, a, b, axis).1 is Ok ==> {
            &&& spec_n_dims(a.ne) == spec_n_dims(b.ne)
            &&& axis < spec_n_dims(a.ne)
            &&& forall|i: int| 0 <= i < spec_n_dims(a.ne) && i != axis ==> #[trigger] a.ne[i] == b.ne[i]
        },
        spec_concat(c, a, b, axis).1 matches Ok(r) ==> {
            &&& r.op == OpType::Concat
            &&& r.tensor_type == a.tensor_type
            &&& r.ne.len() == 4
            &&& r.ne[axis as int] == a.ne[axis as int] + b.ne[axis as int]
            &&& forall|i: int|
                0 <= i < 4 && i != axis ==> #[trigger] r.ne[i] == if i < spec_n_dims(a.ne) {
                    a.ne[i]
                } else {
                    1
                }
        },
{
    if spec_concat(c, a, b, axis).1 is Ok {
        lemma_no_dim_mismatch(a.ne, b.ne, axis, 0, spec_n_dims(a.ne) as int);
        let n = spec_n_dims(a.ne) as int;
        let ne2 = a.ne.update(axis as int, (a.ne[axis as int] + b.ne[axis as int]) as usize);
        assert(leading_shape(ne2, n)[axis as int] == ne2[axis as int]);
    }
}

proof fn lemma_no_dim_mismatch(a: Seq<usize>, b: Seq<usize>, axis: usize, i: int, n: int)
    requires
        first_dim_mismatch(a, b, axis, i, n) is None,
    ensures
        forall|j: int| i <= j < n && j != axis ==> a[j] == b[j],
    decreases n - i,
{
    if i < n {
        lemma_no_dim_mismatch(a, b, axis, i + 1, n);
    }
}

} // verus!
