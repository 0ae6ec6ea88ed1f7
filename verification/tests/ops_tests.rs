use lrama::context::Context;
use lrama::ops;
use lrama::ops::OpError;
use lrama::tensor::{OpType, TensorType};

#[test]
fn test_add() {
    let mut ctx = Context::new(1024 * 1024).unwrap();

    let a = ctx.new_tensor_2d(TensorType::F32, 10, 20).unwrap();
    let b = ctx.new_tensor_2d(TensorType::F32, 10, 20).unwrap();

    let c = ops::add(&mut ctx, &a, &b).unwrap();
    assert_eq!(c.n_elements(), 200);
    assert_eq!(c.op, OpType::Add);
}

#[test]
fn test_add_shape_mismatch() {
    let mut ctx = Context::new(1024 * 1024).unwrap();

    let a = ctx.new_tensor_2d(TensorType::F32, 10, 20).unwrap();
    let b = ctx.new_tensor_2d(TensorType::F32, 10, 30).unwrap();

    let result = ops::add(&mut ctx, &a, &b);
    assert!(result.is_err());
}

#[test]
fn test_mul() {
    let mut ctx = Context::new(1024 * 1024).unwrap();

    let a = ctx.new_tensor_1d(TensorType::F32, 100).unwrap();
    let b = ctx.new_tensor_1d(TensorType::F32, 100).unwrap();

    let c = ops::mul(&mut ctx, &a, &b).unwrap();
    assert_eq!(c.n_elements(), 100);
    assert_eq!(c.op, OpType::Mul);
}

#[test]
fn test_unary_ops() {
    let mut ctx = Context::new(1024 * 1024).unwrap();
    let a = ctx.new_tensor_1d(TensorType::F32, 100).unwrap();

    let neg_a = ops::neg(&mut ctx, &a).unwrap();
    assert_eq!(neg_a.n_elements(), 100);

    let abs_a = ops::abs(&mut ctx, &a).unwrap();
    assert_eq!(abs_a.n_elements(), 100);

    let sqrt_a = ops::sqrt(&mut ctx, &a).unwrap();
    assert_eq!(sqrt_a.n_elements(), 100);
    assert_eq!(sqrt_a.op, OpType::Sqrt);

    let sqr_a = ops::sqr(&mut ctx, &a).unwrap();
    assert_eq!(sqr_a.n_elements(), 100);
    assert_eq!(sqr_a.op, OpType::Sqr);
}

#[test]
fn test_reduction_ops() {
    let mut ctx = Context::new(1024 * 1024).unwrap();
    let a = ctx.new_tensor_2d(TensorType::F32, 10, 20).unwrap();

    let sum_a = ops::sum(&mut ctx, &a).unwrap();
    assert_eq!(sum_a.n_elements(), 1);
    assert_eq!(sum_a.op, OpType::Sum);

    let mean_a = ops::mean(&mut ctx, &a).unwrap();
    assert_eq!(mean_a.n_elements(), 1);
    assert_eq!(mean_a.op, OpType::Mean);
}

#[test]
fn test_matmul() {
    let mut ctx = Context::new(1024 * 1024).unwrap();

    // [10, 20] @ [30, 10] -> [30, 20]
    let a = ctx.new_tensor_2d(TensorType::F32, 10, 20).unwrap();
    let b = ctx.new_tensor_2d(TensorType::F32, 30, 10).unwrap();

    let c = ops::matmul(&mut ctx, &a, &b).unwrap();
    assert_eq!(c.ne[0], 30);
    assert_eq!(c.ne[1], 20);
    assert_eq!(c.op, OpType::MulMat);
}

#[test]
fn test_matmul_dimension_mismatch() {
    let mut ctx = Context::new(1024 * 1024).unwrap();

    let a = ctx.new_tensor_2d(TensorType::F32, 10, 20).unwrap();
    let b = ctx.new_tensor_2d(TensorType::F32, 30, 15).unwrap(); // Wrong inner dim

    let result = ops::matmul(&mut ctx, &a, &b);
    assert!(result.is_err());
}

#[test]
fn test_transpose() {
    let mut ctx = Context::new(1024 * 1024).unwrap();

    let a = ctx.new_tensor_2d(TensorType::F32, 10, 20).unwrap();
    let b = ops::transpose(&mut ctx, &a).unwrap();

    assert_eq!(b.ne[0], 20);
    assert_eq!(b.ne[1], 10);
    assert_eq!(b.op, OpType::Transpose);
}

#[test]
fn test_reshape() {
    let mut ctx = Context::new(1024 * 1024).unwrap();

    let a = ctx.new_tensor_2d(TensorType::F32, 10, 20).unwrap();
    let b = ops::reshape(&mut ctx, &a, &[5, 40]).unwrap();

    assert_eq!(b.ne[0], 5);
    assert_eq!(b.ne[1], 40);
    assert_eq!(b.n_elements(), 200);
}

#[test]
fn test_reshape_invalid() {
    let mut ctx = Context::new(1024 * 1024).unwrap();

    let a = ctx.new_tensor_2d(TensorType::F32, 10, 20).unwrap();
    let result = ops::reshape(&mut ctx, &a, &[5, 50]); // Wrong element count

    assert!(result.is_err());
}

#[test]
fn test_scale() {
    let mut ctx = Context::new(1024 * 1024).unwrap();

    let a = ctx.new_tensor_1d(TensorType::F32, 100).unwrap();
    let b = ops::scale(&mut ctx, &a, 2.5f32.to_bits()).unwrap();

    assert_eq!(b.n_elements(), 100);
    assert_eq!(b.op, OpType::Scale);
}

#[test]
fn test_activation_functions() {
    let mut ctx = Context::new(1024 * 1024).unwrap();
    let a = ctx.new_tensor_1d(TensorType::F32, 100).unwrap();

    let relu_a = ops::relu(&mut ctx, &a).unwrap();
    assert_eq!(relu_a.n_elements(), 100);

    let gelu_a = ops::gelu(&mut ctx, &a).unwrap();
    assert_eq!(gelu_a.n_elements(), 100);

    let silu_a = ops::silu(&mut ctx, &a).unwrap();
    assert_eq!(silu_a.n_elements(), 100);
    assert_eq!(silu_a.op, OpType::Silu);
}

#[test]
fn ops_test_normalization() {
    let mut ctx = Context::new(1024 * 1024).unwrap();
    let a = ctx.new_tensor_2d(TensorType::F32, 10, 20).unwrap();

    let rms = ops::rms_norm(&mut ctx, &a, 1e-5f32.to_bits()).unwrap();
    assert_eq!(rms.n_elements(), 200);
    assert_eq!(rms.op, OpType::RmsNorm);

    let norm_a = ops::norm(&mut ctx, &a, 1e-5f32.to_bits()).unwrap();
    assert_eq!(norm_a.n_elements(), 200);
    assert_eq!(norm_a.op, OpType::Norm);
}

#[test]
fn scale_records_bits() {
    let mut ctx = Context::new(4096).unwrap();
    let a = ctx.new_tensor_1d(TensorType::F32, 8).unwrap();
    let b = ops::scale(&mut ctx, &a, 2.5f32.to_bits()).unwrap();
    assert_eq!(b.op_params[0], 2.5f32.to_bits() as i32);
    assert!(b.src.iter().all(|s| s.is_none()));
    assert_ne!(b.id(), a.id());
}

#[test]
fn sub_and_div_nodes() {
    let mut ctx = Context::new(4096).unwrap();
    let a = ctx.new_tensor_1d(TensorType::F32, 8).unwrap();
    let b = ctx.new_tensor_1d(TensorType::F32, 8).unwrap();
    let c = ops::sub(&mut ctx, &a, &b).unwrap();
    assert_eq!(c.op, OpType::Sub);
    assert_eq!(c.ne, a.ne);
    let d = ops::div(&mut ctx, &a, &b).unwrap();
    assert_eq!(d.op, OpType::Div);
}

#[test]
fn mismatch_message_names_shapes() {
    let mut ctx = Context::new(4096).unwrap();
    let a = ctx.new_tensor_2d(TensorType::F32, 2, 3).unwrap();
    let b = ctx.new_tensor_2d(TensorType::F32, 3, 2).unwrap();
    match ops::add(&mut ctx, &a, &b) {
        Err(OpError::ShapeMismatch(m)) => {
            assert_eq!(m, "Tensors have different shapes: [2, 3] vs [3, 2]");
        }
        other => panic!("unexpected: {:?}", other),
    }
}

#[test]
fn type_mismatch_is_reported() {
    let mut ctx = Context::new(4096).unwrap();
    let a = ctx.new_tensor_1d(TensorType::F32, 4).unwrap();
    let b = ctx.new_tensor_1d(TensorType::F16, 4).unwrap();
    match ops::mul(&mut ctx, &a, &b) {
        Err(OpError::TypeMismatch { expected, got }) => {
            assert_eq!(expected, TensorType::F32);
            assert_eq!(got, TensorType::F16);
        }
        other => panic!("unexpected: {:?}", other),
    }
}

#[test]
fn sum_rows_keeps_outer_dims() {
    let mut ctx = Context::new(4096).unwrap();
    let a = ctx.new_tensor_3d(TensorType::F32, 5, 3, 2).unwrap();
    let s = ops::sum_rows(&mut ctx, &a).unwrap();
    assert_eq!(s.ne, [1, 3, 2, 1]);
    let m = ops::max(&mut ctx, &a).unwrap();
    assert_eq!(m.n_elements(), 1);
    assert_eq!(m.op, OpType::Argmax);
    let n = ops::min(&mut ctx, &a).unwrap();
    assert_eq!(n.n_elements(), 1);
}

#[test]
fn view_and_dup() {
    let mut ctx = Context::new(4096).unwrap();
    let a = ctx.new_tensor_2d(TensorType::F32, 4, 6).unwrap();
    let v = ops::view(&mut ctx, &a, &[24]).unwrap();
    assert_eq!(v.ne[0], 24);
    assert_eq!(v.op, OpType::View);
    assert_eq!(v.data(), a.data());
    let d = ops::dup(&mut ctx, &a).unwrap();
    assert_eq!(d.op, OpType::Dup);
    assert_eq!(d.ne, a.ne);
    let s = ops::softmax(&mut ctx, &a).unwrap();
    assert_eq!(s.op, OpType::SoftMax);
}

#[test]
fn dimension_errors_name_the_problem() {
    let mut ctx = Context::new(4096).unwrap();
    let v = ctx.new_tensor_1d(TensorType::F32, 6).unwrap();
    let m = ctx.new_tensor_2d(TensorType::F32, 2, 3).unwrap();
    match ops::transpose(&mut ctx, &v) {
        Err(OpError::InvalidDimensions(s)) => assert_eq!(s, "transpose requires 2D tensor"),
        other => panic!("unexpected: {:?}", other),
    }
    match ops::matmul(&mut ctx, &v, &m) {
        Err(OpError::InvalidDimensions(s)) => assert_eq!(s, "matmul requires at least 2D tensors"),
        other => panic!("unexpected: {:?}", other),
    }
    let m2 = ctx.new_tensor_2d(TensorType::F32, 4, 4).unwrap();
    match ops::matmul(&mut ctx, &m, &m2) {
        Err(OpError::ShapeMismatch(s)) => assert_eq!(s, "Inner dimensions don't match: 2 vs 4"),
        other => panic!("unexpected: {:?}", other),
    }
    match ops::sum_rows(&mut ctx, &v) {
        Err(OpError::InvalidDimensions(s)) => assert_eq!(s, "sum_rows requires at least 2D tensor"),
        other => panic!("unexpected: {:?}", other),
    }
    match ops::reshape(&mut ctx, &m, &[4, 2]) {
        Err(OpError::InvalidDimensions(s)) => assert_eq!(s, "Cannot reshape: element count mismatch (6 vs 8)"),
        other => panic!("unexpected: {:?}", other),
    }
}

#[test]
fn full_context_is_reported() {
    let mut ctx = Context::with_fixed_size(64).unwrap();
    let a = ctx.new_tensor_1d(TensorType::F32, 8).unwrap();
    let b = ops::neg(&mut ctx, &a).unwrap();
    match ops::neg(&mut ctx, &b) {
        Err(OpError::Context(e)) => {
            assert_eq!(e, lrama::context::ContextError::OutOfMemory { requested: 32, available: 0 })
        }
        other => panic!("unexpected: {:?}", other),
    }
}
