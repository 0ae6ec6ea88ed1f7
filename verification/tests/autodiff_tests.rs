use lrama::autodiff::{AutodiffError, BackwardPass, GradientAccumulator};
use lrama::context::Context;
use lrama::graph::ComputeGraph;
use lrama::ops;
use lrama::tensor::{OpType, TensorType};

type Result<T> = std::result::Result<T, AutodiffError>;

#[test]
fn test_gradient_accumulator() {
    let mut ctx = Context::new(1024 * 1024).unwrap();
    let mut acc = GradientAccumulator::new();

    let t1 = ctx.new_tensor_1d(TensorType::F32, 10).unwrap();
    let t2 = ctx.new_tensor_1d(TensorType::F32, 10).unwrap();

    acc.set_gradient(0, t1);
    assert!(acc.has_gradient(0));
    assert!(!acc.has_gradient(1));

    acc.accumulate_gradient(&mut ctx, 1, t2).unwrap();
    assert!(acc.has_gradient(1));
}

#[test]
fn test_backward_simple() -> Result<()> {
    let mut ctx = Context::new(10 * 1024 * 1024)?;
    let mut graph = ComputeGraph::with_gradients();

    // Simple: z = x (identity, leaf node)
    let x = ctx.new_tensor_1d(TensorType::F32, 5)?;
    let idx_x = graph.add_node(&x, true)?;

    graph.build()?;

    // Create explicit gradient for x
    let grad_x = ctx.new_tensor_1d(TensorType::F32, 5)?;

    let mut backward = BackwardPass::new(&graph, &mut ctx);
    backward.register_tensor(idx_x, x.clone());
    backward.accumulator.set_gradient(idx_x, grad_x);

    // Check gradient exists
    assert!(backward.get_gradient(idx_x).is_some());

    Ok(())
}

#[test]
fn test_backward_add() -> Result<()> {
    let mut ctx = Context::new(10 * 1024 * 1024)?;
    let mut graph = ComputeGraph::with_gradients();

    // Create inputs
    let x = ctx.new_tensor_1d(TensorType::F32, 5)?;
    let y = ctx.new_tensor_1d(TensorType::F32, 5)?;

    let idx_x = graph.add_node(&x, true)?;
    let idx_y = graph.add_node(&y, true)?;

    // z = x + y
    let z = ops::add(&mut ctx, &x, &y)?;
    let idx_z = graph.add_node(&z, false)?;
    graph.add_edge(idx_x, idx_z)?;
    graph.add_edge(idx_y, idx_z)?;

    graph.build()?;

    // Create explicit output gradient
    let grad_z = ctx.new_tensor_1d(TensorType::F32, 5)?;

    // Backward pass
    let mut backward = BackwardPass::new(&graph, &mut ctx);
    backward.register_tensor(idx_x, x);
    backward.register_tensor(idx_y, y);
    backward.register_tensor(idx_z, z);
    backward.backward(idx_z, Some(grad_z))?;

    // Check gradients exist
    assert!(backward.get_gradient(idx_x).is_some());
    assert!(backward.get_gradient(idx_y).is_some());

    Ok(())
}

#[test]
fn test_backward_mul() -> Result<()> {
    let mut ctx = Context::new(10 * 1024 * 1024)?;
    let mut graph = ComputeGraph::with_gradients();

    let x = ctx.new_tensor_1d(TensorType::F32, 5)?;
    let y = ctx.new_tensor_1d(TensorType::F32, 5)?;

    let idx_x = graph.add_node(&x, true)?;
    let idx_y = graph.add_node(&y, true)?;

    // z = x * y
    let z = ops::mul(&mut ctx, &x, &y)?;
    let idx_z = graph.add_node(&z, false)?;
    graph.add_edge(idx_x, idx_z)?;
    graph.add_edge(idx_y, idx_z)?;

    graph.build()?;

    // Create explicit output gradient
    let grad_z = ctx.new_tensor_1d(TensorType::F32, 5)?;

    let mut backward = BackwardPass::new(&graph, &mut ctx);
    backward.register_tensor(idx_x, x);
    backward.register_tensor(idx_y, y);
    backward.register_tensor(idx_z, z);
    backward.backward(idx_z, Some(grad_z))?;

    assert!(backward.get_gradient(idx_x).is_some());
    assert!(backward.get_gradient(idx_y).is_some());

    Ok(())
}

#[test]
fn test_backward_chain() -> Result<()> {
    let mut ctx = Context::new(10 * 1024 * 1024)?;
    let mut graph = ComputeGraph::with_gradients();

    // x -> y = x^2 -> z = y + x
    let x = ctx.new_tensor_1d(TensorType::F32, 5)?;
    let idx_x = graph.add_node(&x, true)?;

    let y = ops::sqr(&mut ctx, &x)?;
    let idx_y = graph.add_node(&y, false)?;
    graph.add_edge(idx_x, idx_y)?;

    let z = ops::add(&mut ctx, &y, &x)?;
    let idx_z = graph.add_node(&z, false)?;
    graph.add_edge(idx_y, idx_z)?;
    graph.add_edge(idx_x, idx_z)?;

    graph.build()?;

    // Create explicit output gradient
    let grad_z = ctx.new_tensor_1d(TensorType::F32, 5)?;

    let mut backward = BackwardPass::new(&graph, &mut ctx);
    backward.register_tensor(idx_x, x);
    backward.register_tensor(idx_y, y);
    backward.register_tensor(idx_z, z);
    backward.backward(idx_z, Some(grad_z))?;

    // x should have gradient (accumulated from both paths)
    assert!(backward.get_gradient(idx_x).is_some());

    Ok(())
}

#[test]
fn test_backward_matmul() -> Result<()> {
    let mut ctx = Context::new(10 * 1024 * 1024)?;
    let mut graph = ComputeGraph::with_gradients();

    // A is [4,5], B is [3,4]: C = A @ B is [3, 5]
    let a = ctx.new_tensor_2d(TensorType::F32, 4, 5)?; // a.ne[0]=4, a.ne[1]=5
    let b = ctx.new_tensor_2d(TensorType::F32, 3, 4)?; // b.ne[0]=3, b.ne[1]=4

    let idx_a = graph.add_node(&a, true)?;
    let idx_b = graph.add_node(&b, true)?;

    let c = ops::matmul(&mut ctx, &a, &b)?; // c will be [3, 5]
    let idx_c = graph.add_node(&c, false)?;
    graph.add_edge(idx_a, idx_c)?;
    graph.add_edge(idx_b, idx_c)?;

    graph.build()?;

    // Create explicit output gradient with correct shape [3, 5]
    let grad_c = ctx.new_tensor_2d(TensorType::F32, 3, 5)?;

    let mut backward = BackwardPass::new(&graph, &mut ctx);
    backward.register_tensor(idx_a, a);
    backward.register_tensor(idx_b, b);
    backward.register_tensor(idx_c, c);
    backward.backward(idx_c, Some(grad_c))?;

    assert!(backward.get_gradient(idx_a).is_some());
    assert!(backward.get_gradient(idx_b).is_some());

    Ok(())
}

#[test]
fn accumulating_twice_adds() {
    let mut ctx = Context::new(1 << 16).unwrap();
    let mut acc = GradientAccumulator::default();
    let g1 = ctx.new_tensor_1d(TensorType::F32, 4).unwrap();
    let g2 = ctx.new_tensor_1d(TensorType::F32, 4).unwrap();
    acc.accumulate_gradient(&mut ctx, 3, g1).unwrap();
    assert_eq!(acc.get_gradient(3).unwrap().op, OpType::NoOp);
    acc.accumulate_gradient(&mut ctx, 3, g2).unwrap();
    assert_eq!(acc.get_gradient(3).unwrap().op, OpType::Add);
    assert_eq!(acc.gradients().len(), 1);
    acc.clear();
    assert!(!acc.has_gradient(3));
}

#[test]
fn backward_needs_a_known_node() {
    let mut ctx = Context::new(1 << 16).unwrap();
    let mut graph = ComputeGraph::with_gradients();
    let x = ctx.new_tensor_1d(TensorType::F32, 4).unwrap();
    let ix = graph.add_node(&x, true).unwrap();
    graph.build().unwrap();
    let mut bp = BackwardPass::new(&graph, &mut ctx);
    assert!(matches!(bp.backward(7, None), Err(AutodiffError::NodeNotFound(7))));
    // without an output gradient, the output tensor must be registered
    assert!(matches!(bp.backward(ix, None), Err(AutodiffError::NodeNotFound(0))));
}

#[test]
fn backward_without_output_grad_seeds_shape() -> Result<()> {
    let mut ctx = Context::new(1 << 16)?;
    let mut graph = ComputeGraph::with_gradients();
    let x = ctx.new_tensor_1d(TensorType::F32, 4)?;
    let w = ctx.new_tensor_1d(TensorType::F32, 4)?;
    let ix = graph.add_node(&x, true)?;
    let iw = graph.add_node(&w, true)?;
    let y = ops::sub(&mut ctx, &x, &w)?;
    let iy = graph.add_node(&y, false)?;
    graph.add_edge(ix, iy)?;
    graph.add_edge(iw, iy)?;
    graph.build()?;
    let mut bp = BackwardPass::new(&graph, &mut ctx);
    bp.register_tensor(ix, x);
    bp.register_tensor(iw, w);
    bp.register_tensor(iy, y);
    bp.backward(iy, None)?;
    let gy = bp.get_gradient(iy).unwrap();
    assert_eq!(gy.ne, [4, 1, 1, 1]);
    assert_eq!(bp.get_gradient(ix).unwrap().id(), gy.id());
    assert_eq!(bp.get_gradient(iw).unwrap().op, OpType::Unary);
    assert_eq!(bp.gradients().len(), 3);
    Ok(())
}

#[test]
fn unsupported_operation_is_reported() -> Result<()> {
    let mut ctx = Context::new(1 << 16)?;
    let mut graph = ComputeGraph::with_gradients();
    let x = ctx.new_tensor_1d(TensorType::F32, 4)?;
    let ix = graph.add_node(&x, true)?;
    let y = ops::silu(&mut ctx, &x)?;
    let iy = graph.add_node(&y, false)?;
    graph.add_edge(ix, iy)?;
    graph.build()?;
    let g = ctx.new_tensor_1d(TensorType::F32, 4)?;
    let mut bp = BackwardPass::new(&graph, &mut ctx);
    assert!(matches!(bp.backward(iy, Some(g)), Err(AutodiffError::UnsupportedOp(OpType::Silu))));
    Ok(())
}

#[test]
fn gradients_reach_every_source() -> Result<()> {
    let mut ctx = Context::new(1 << 20)?;
    let mut graph = ComputeGraph::with_gradients();
    let x = ctx.new_tensor_1d(TensorType::F32, 4)?;
    let w = ctx.new_tensor_1d(TensorType::F32, 4)?;
    let ix = graph.add_node(&x, true)?;
    let iw = graph.add_node(&w, true)?;
    let z = ops::mul(&mut ctx, &x, &w)?;
    let iz = graph.add_node(&z, false)?;
    graph.add_edge(ix, iz)?;
    graph.add_edge(iw, iz)?;
    let s = ops::relu(&mut ctx, &z)?;
    let is = graph.add_node(&s, false)?;
    graph.add_edge(iz, is)?;
    graph.build()?;
    let g = ctx.new_tensor_1d(TensorType::F32, 4)?;
    let mut bp = BackwardPass::new(&graph, &mut ctx);
    bp.register_tensor(ix, x);
    bp.register_tensor(iw, w);
    bp.register_tensor(iz, z);
    bp.register_tensor(is, s);
    bp.backward(is, Some(g))?;
    for i in [is, iz, ix, iw] {
        assert!(bp.get_gradient(i).is_some());
    }
    assert_eq!(bp.get_gradient(ix).unwrap().op, OpType::Mul);
    Ok(())
}

#[test]
fn row_gather_feeds_only_the_table() -> Result<()> {
    let mut ctx = Context::new(1 << 20)?;
    let mut graph = ComputeGraph::with_gradients();
    let table = ctx.new_tensor_2d(TensorType::F32, 8, 16)?;
    let ix = ctx.new_tensor_1d(TensorType::I32, 3)?;
    let it = graph.add_node(&table, true)?;
    let ii = graph.add_node(&ix, true)?;
    let r = lrama::ops_advanced::get_rows(&mut ctx, &table, &ix)?;
    let ir = graph.add_node(&r, false)?;
    graph.add_edge(it, ir)?;
    graph.add_edge(ii, ir)?;
    graph.build()?;
    let g = ctx.new_tensor_2d(TensorType::F32, 8, 3)?;
    let mut bp = BackwardPass::new(&graph, &mut ctx);
    bp.backward(ir, Some(g))?;
    assert!(bp.get_gradient(it).is_some());
    assert!(bp.get_gradient(ii).is_none());
    Ok(())
}
