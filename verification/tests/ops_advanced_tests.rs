use lrama::context::Context;
use lrama::ops::OpError;
use lrama::ops_advanced;
use lrama::tensor::{OpType, TensorType};

#[test]
fn ops_advanced_test_rope() {
    let mut ctx = Context::new(1024 * 1024).unwrap();

    // [batch=2, seq_len=10, n_heads=8, head_dim=64]
    let a = ctx.new_tensor_4d(TensorType::F32, 64, 10, 8, 2).unwrap();

    let result = ops_advanced::rope(&mut ctx, &a, 0, 64, 0, 2048).unwrap();
    assert_eq!(result.ne[0], 64);
    assert_eq!(result.ne[1], 10);
    assert_eq!(result.op, OpType::Rope);
}

#[test]
fn test_soft_max() {
    let mut ctx = Context::new(1024 * 1024).unwrap();
    let a = ctx.new_tensor_2d(TensorType::F32, 10, 20).unwrap();

    let result = ops_advanced::soft_max(&mut ctx, &a).unwrap();
    assert_eq!(result.ne[0], 10);
    assert_eq!(result.ne[1], 20);
    assert_eq!(result.op, OpType::SoftMax);
}

#[test]
fn test_flash_attn() {
    let mut ctx = Context::new(10 * 1024 * 1024).unwrap();

    // [head_dim=64, seq_len=128, n_heads=8, batch=2]
    let q = ctx.new_tensor_4d(TensorType::F32, 64, 128, 8, 2).unwrap();
    let k = ctx.new_tensor_4d(TensorType::F32, 64, 128, 8, 2).unwrap();
    let v = ctx.new_tensor_4d(TensorType::F32, 64, 128, 8, 2).unwrap();

    let result = ops_advanced::flash_attn(&mut ctx, &q, &k, &v, true).unwrap();
    assert_eq!(result.ne[0], 64);
    assert_eq!(result.ne[1], 128);
    assert_eq!(result.op, OpType::Flash);
}

#[test]
fn test_clamp() {
    let mut ctx = Context::new(1024 * 1024).unwrap();
    let a = ctx.new_tensor_1d(TensorType::F32, 100).unwrap();

    let result = ops_advanced::clamp(&mut ctx, &a, (-1.0f32).to_bits(), 1.0f32.to_bits()).unwrap();
    assert_eq!(result.ne[0], 100);
    assert_eq!(result.op, OpType::Clamp);
}

#[test]
fn test_get_rows() {
    let mut ctx = Context::new(1024 * 1024).unwrap();

    // Embedding table: [vocab_size=50000, embed_dim=768]
    let embeddings = ctx.new_tensor_2d(TensorType::F32, 768, 50000).unwrap();

    // Token indices: [batch=4, seq_len=128]
    let indices = ctx.new_tensor_2d(TensorType::I32, 128, 4).unwrap();

    let result = ops_advanced::get_rows(&mut ctx, &embeddings, &indices).unwrap();
    assert_eq!(result.ne[0], 768); // embed_dim
    assert_eq!(result.ne[1], 128); // seq_len
    assert_eq!(result.ne[2], 4); // batch
    assert_eq!(result.op, OpType::GetRows);
}

#[test]
fn test_permute() {
    let mut ctx = Context::new(1024 * 1024).unwrap();

    // [2, 3, 4, 5]
    let a = ctx.new_tensor_4d(TensorType::F32, 2, 3, 4, 5).unwrap();

    // Permute to [3, 2, 5, 4] (swap 0<->1 and 2<->3)
    let result = ops_advanced::permute(&mut ctx, &a, 1, 0, 3, 2).unwrap();
    assert_eq!(result.ne[0], 3);
    assert_eq!(result.ne[1], 2);
    assert_eq!(result.ne[2], 5);
    assert_eq!(result.ne[3], 4);
    assert_eq!(result.op, OpType::Permute);
}

#[test]
fn test_concat() {
    let mut ctx = Context::new(1024 * 1024).unwrap();

    let a = ctx.new_tensor_2d(TensorType::F32, 10, 20).unwrap();
    let b = ctx.new_tensor_2d(TensorType::F32, 10, 30).unwrap();

    // Concatenate along axis 1
    let result = ops_advanced::concat(&mut ctx, &a, &b, 1).unwrap();
    assert_eq!(result.ne[0], 10);
    assert_eq!(result.ne[1], 50); // 20 + 30
    assert_eq!(result.op, OpType::Concat);
}

#[test]
fn test_leaky_relu() {
    let mut ctx = Context::new(1024 * 1024).unwrap();
    let a = ctx.new_tensor_1d(TensorType::F32, 100).unwrap();

    let result = ops_advanced::leaky_relu(&mut ctx, &a, 0.01f32.to_bits()).unwrap();
    assert_eq!(result.ne[0], 100);
    assert_eq!(result.op, OpType::Leaky);
}

#[test]
fn rope_needs_three_dims() {
    let mut ctx = Context::new(4096).unwrap();
    let a = ctx.new_tensor_2d(TensorType::F32, 4, 4).unwrap();
    match ops_advanced::rope(&mut ctx, &a, 0, 4, 0, 16) {
        Err(OpError::InvalidDimensions(m)) => assert_eq!(m, "RoPE requires at least 3D tensor"),
        other => panic!("unexpected: {:?}", other),
    }
}

#[test]
fn rope_records_parameters() {
    let mut ctx = Context::new(1 << 16).unwrap();
    let a = ctx.new_tensor_3d(TensorType::F32, 8, 4, 2).unwrap();
    let r = ops_advanced::rope(&mut ctx, &a, 3, 8, 1, 512).unwrap();
    assert_eq!(&r.op_params[0..4], &[3, 8, 1, 512]);
    assert_eq!(r.ne, a.ne);
}

#[test]
fn permute_rejects_bad_axes() {
    let mut ctx = Context::new(4096).unwrap();
    let a = ctx.new_tensor_4d(TensorType::F32, 2, 3, 4, 5).unwrap();
    match ops_advanced::permute(&mut ctx, &a, 0, 1, 2, 4) {
        Err(OpError::InvalidDimensions(m)) => assert_eq!(m, "Invalid axis: 4"),
        other => panic!("unexpected: {:?}", other),
    }
    match ops_advanced::permute(&mut ctx, &a, 0, 1, 1, 3) {
        Err(OpError::InvalidDimensions(m)) => assert_eq!(m, "Duplicate axes in permutation"),
        other => panic!("unexpected: {:?}", other),
    }
}

#[test]
fn concat_errors() {
    let mut ctx = Context::new(1 << 16).unwrap();
    let a = ctx.new_tensor_2d(TensorType::F32, 10, 20).unwrap();
    let b = ctx.new_tensor_2d(TensorType::F32, 11, 30).unwrap();
    let c = ctx.new_tensor_1d(TensorType::F32, 10).unwrap();
    match ops_advanced::concat(&mut ctx, &a, &c, 0) {
        Err(OpError::ShapeMismatch(m)) => assert_eq!(m, "Tensors must have same number of dimensions"),
        other => panic!("unexpected: {:?}", other),
    }
    match ops_advanced::concat(&mut ctx, &a, &b, 2) {
        Err(OpError::InvalidDimensions(m)) => assert_eq!(m, "Invalid axis: 2"),
        other => panic!("unexpected: {:?}", other),
    }
    match ops_advanced::concat(&mut ctx, &a, &b, 1) {
        Err(OpError::ShapeMismatch(m)) => assert_eq!(m, "Dimension 0 doesn't match: 10 vs 11"),
        other => panic!("unexpected: {:?}", other),
    }
}

#[test]
fn get_rows_needs_matrix() {
    let mut ctx = Context::new(4096).unwrap();
    let a = ctx.new_tensor_3d(TensorType::F32, 2, 2, 2).unwrap();
    let ix = ctx.new_tensor_1d(TensorType::I32, 3).unwrap();
    assert!(ops_advanced::get_rows(&mut ctx, &a, &ix).is_err());
    let m = ctx.new_tensor_2d(TensorType::F32, 5, 7).unwrap();
    let r = ops_advanced::get_rows(&mut ctx, &m, &ix).unwrap();
    assert_eq!(r.ne, [5, 3, 1, 1]);
}

#[test]
fn masks_and_alibi() {
    let mut ctx = Context::new(4096).unwrap();
    let a = ctx.new_tensor_2d(TensorType::F32, 4, 4).unwrap();
    let m = ops_advanced::diag_mask_inf(&mut ctx, &a, 2).unwrap();
    assert_eq!(m.op, OpType::DiagMaskInf);
    assert_eq!(m.op_params[0], 2);
    let z = ops_advanced::diag_mask_zero(&mut ctx, &a, 1).unwrap();
    assert_eq!(z.op, OpType::DiagMaskZero);
    let al = ops_advanced::alibi(&mut ctx, &a, 1, 8, 8.0f32.to_bits()).unwrap();
    assert_eq!(al.op, OpType::DiagMaskInf);
    assert_eq!(&al.op_params[0..3], &[1, 8, 8.0f32.to_bits() as i32]);
}

#[test]
fn attention_result_shape() {
    let mut ctx = Context::new(1 << 20).unwrap();
    // q [8, 4] @ k [6, 8] -> [6, 4]; softmax; @ v [5, 6] -> [5, 4]
    let q = ctx.new_tensor_2d(TensorType::F32, 8, 4).unwrap();
    let k = ctx.new_tensor_2d(TensorType::F32, 6, 8).unwrap();
    let v = ctx.new_tensor_2d(TensorType::F32, 5, 6).unwrap();
    let r = ops_advanced::scaled_dot_product_attention(&mut ctx, &q, &k, &v, 0.25f32.to_bits(), None)
        .unwrap();
    assert_eq!(r.ne, [5, 4, 1, 1]);
    assert_eq!(r.op, OpType::MulMat);
    // the inner dimension of q and v must match too
    let bad = ctx.new_tensor_2d(TensorType::F32, 5, 7).unwrap();
    assert!(ops_advanced::scaled_dot_product_attention(&mut ctx, &q, &k, &bad, 0, None).is_err());
}

#[test]
fn backward_nodes() {
    let mut ctx = Context::new(1 << 20).unwrap();
    let q = ctx.new_tensor_4d(TensorType::F32, 16, 8, 2, 2).unwrap();
    let k = ctx.new_tensor_4d(TensorType::F32, 16, 8, 2, 2).unwrap();
    let m = ctx.new_tensor_2d(TensorType::F32, 16, 8).unwrap();
    let sm = ops_advanced::soft_max_back(&mut ctx, &q, &k).unwrap();
    assert_eq!(sm.ne, q.ne);
    assert_eq!(sm.op, OpType::SoftMaxBack);
    assert!(ops_advanced::soft_max_back(&mut ctx, &q, &m).is_err());
    let fb = ops_advanced::flash_attn_back(&mut ctx, &q, &k, &k, &q, true).unwrap();
    assert_eq!(fb.op, OpType::FlashBack);
    assert_eq!(fb.op_params[0], 1);
    assert!(ops_advanced::flash_attn_back(&mut ctx, &q, &k, &m, &q, false).is_err());
    let rb = ops_advanced::rope_back(&mut ctx, &q, 1, 16, 0, 64).unwrap();
    assert_eq!(rb.op, OpType::RopeBack);
    match ops_advanced::flash_attn(&mut ctx, &q, &k, &q, false) {
        Ok(t) => assert_eq!(t.op_params[0], 0),
        Err(e) => panic!("unexpected: {:?}", e),
    }
}

#[test]
fn permute_moves_each_dimension_to_its_position() {
    let mut ctx = Context::new(1024 * 1024).unwrap();
    let a = ctx.new_tensor_4d(TensorType::F32, 2, 3, 4, 5).unwrap();
    // dimension i goes to position axis_i
    let r = ops_advanced::permute(&mut ctx, &a, 1, 2, 3, 0).unwrap();
    assert_eq!(r.ne, [5, 2, 3, 4]);
    assert_eq!(r.op, OpType::Permute);
    assert_eq!(&r.op_params[0..4], &[1, 2, 3, 0]);
    let r = ops_advanced::permute(&mut ctx, &a, 3, 0, 1, 2).unwrap();
    assert_eq!(r.ne, [3, 4, 5, 2]);
}
