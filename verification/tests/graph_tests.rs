use lrama::context::Context;
use lrama::graph::{ComputeGraph, GraphError};
use lrama::ops;
use lrama::tensor::{OpType, TensorType};

#[test]
fn test_graph_creation() {
    let graph = ComputeGraph::new();
    assert_eq!(graph.num_nodes(), 0);
    assert_eq!(graph.num_leafs(), 0);
    assert!(!graph.is_built());
}

#[test]
fn test_add_node() {
    let mut ctx = Context::new(1024 * 1024).unwrap();
    let mut graph = ComputeGraph::new();

    let tensor = ctx.new_tensor_1d(TensorType::F32, 10).unwrap();
    let idx = graph.add_node(&tensor, true).unwrap();

    assert_eq!(idx, 0);
    assert_eq!(graph.num_nodes(), 1);
    assert_eq!(graph.num_leafs(), 1);
}

#[test]
fn test_simple_graph() {
    let mut ctx = Context::new(1024 * 1024).unwrap();
    let mut graph = ComputeGraph::new();

    // Create a simple computation: c = a + b
    let a = ctx.new_tensor_1d(TensorType::F32, 10).unwrap();
    let b = ctx.new_tensor_1d(TensorType::F32, 10).unwrap();
    let c = ops::add(&mut ctx, &a, &b).unwrap();

    let idx_a = graph.add_node(&a, true).unwrap();
    let idx_b = graph.add_node(&b, true).unwrap();
    let idx_c = graph.add_node(&c, false).unwrap();

    graph.add_edge(idx_a, idx_c).unwrap();
    graph.add_edge(idx_b, idx_c).unwrap();

    assert_eq!(graph.num_nodes(), 3);
    assert_eq!(graph.num_leafs(), 2);
}

#[test]
fn test_topological_sort() {
    let mut ctx = Context::new(1024 * 1024).unwrap();
    let mut graph = ComputeGraph::new();

    // Create: d = (a + b) * c
    let a = ctx.new_tensor_1d(TensorType::F32, 10).unwrap();
    let b = ctx.new_tensor_1d(TensorType::F32, 10).unwrap();
    let c = ctx.new_tensor_1d(TensorType::F32, 10).unwrap();
    let sum = ops::add(&mut ctx, &a, &b).unwrap();
    let result = ops::mul(&mut ctx, &sum, &c).unwrap();

    let idx_a = graph.add_node(&a, true).unwrap();
    let idx_b = graph.add_node(&b, true).unwrap();
    let idx_c = graph.add_node(&c, true).unwrap();
    let idx_sum = graph.add_node(&sum, false).unwrap();
    let idx_result = graph.add_node(&result, false).unwrap();

    graph.add_edge(idx_a, idx_sum).unwrap();
    graph.add_edge(idx_b, idx_sum).unwrap();
    graph.add_edge(idx_sum, idx_result).unwrap();
    graph.add_edge(idx_c, idx_result).unwrap();

    graph.build().unwrap();

    assert!(graph.is_built());
    assert_eq!(graph.execution_order().len(), 5);

    // Verify execution order is valid
    let order = graph.execution_order();
    assert!(
        order.iter().position(|&x| x == idx_a).unwrap()
            < order.iter().position(|&x| x == idx_sum).unwrap()
    );
    assert!(
        order.iter().position(|&x| x == idx_b).unwrap()
            < order.iter().position(|&x| x == idx_sum).unwrap()
    );
    assert!(
        order.iter().position(|&x| x == idx_sum).unwrap()
            < order.iter().position(|&x| x == idx_result).unwrap()
    );
}

#[test]
fn test_graph_stats() {
    let mut ctx = Context::new(1024 * 1024).unwrap();
    let mut graph = ComputeGraph::new();

    let a = ctx.new_tensor_1d(TensorType::F32, 10).unwrap();
    let b = ctx.new_tensor_1d(TensorType::F32, 10).unwrap();
    let c = ops::add(&mut ctx, &a, &b).unwrap();

    graph.add_node(&a, true).unwrap();
    graph.add_node(&b, true).unwrap();
    graph.add_node(&c, false).unwrap();

    let stats = graph.stats();
    assert_eq!(stats.num_nodes, 3);
    assert_eq!(stats.num_leafs, 2);
}

#[test]
fn test_graph_depth() {
    let mut ctx = Context::new(1024 * 1024).unwrap();
    let mut graph = ComputeGraph::new();

    // Create a chain: d = ((a + b) + c)
    let a = ctx.new_tensor_1d(TensorType::F32, 10).unwrap();
    let b = ctx.new_tensor_1d(TensorType::F32, 10).unwrap();
    let c = ctx.new_tensor_1d(TensorType::F32, 10).unwrap();
    let ab = ops::add(&mut ctx, &a, &b).unwrap();
    let abc = ops::add(&mut ctx, &ab, &c).unwrap();

    let idx_a = graph.add_node(&a, true).unwrap();
    let idx_b = graph.add_node(&b, true).unwrap();
    let idx_c = graph.add_node(&c, true).unwrap();
    let idx_ab = graph.add_node(&ab, false).unwrap();
    let idx_abc = graph.add_node(&abc, false).unwrap();

    graph.add_edge(idx_a, idx_ab).unwrap();
    graph.add_edge(idx_b, idx_ab).unwrap();
    graph.add_edge(idx_ab, idx_abc).unwrap();
    graph.add_edge(idx_c, idx_abc).unwrap();

    graph.build().unwrap();

    let depth = graph.depth();
    assert_eq!(depth, 3); // Leaf -> intermediate -> result
}

#[test]
fn test_find_dependents() {
    let mut ctx = Context::new(1024 * 1024).unwrap();
    let mut graph = ComputeGraph::new();

    let a = ctx.new_tensor_1d(TensorType::F32, 10).unwrap();
    let b = ctx.new_tensor_1d(TensorType::F32, 10).unwrap();
    let c = ops::add(&mut ctx, &a, &b).unwrap();
    let d = ops::mul(&mut ctx, &a, &b).unwrap();

    let idx_a = graph.add_node(&a, true).unwrap();
    let idx_b = graph.add_node(&b, true).unwrap();
    let idx_c = graph.add_node(&c, false).unwrap();
    let idx_d = graph.add_node(&d, false).unwrap();

    graph.add_edge(idx_a, idx_c).unwrap();
    graph.add_edge(idx_b, idx_c).unwrap();
    graph.add_edge(idx_a, idx_d).unwrap();
    graph.add_edge(idx_b, idx_d).unwrap();

    let dependents = graph.find_dependents(idx_a);
    assert_eq!(dependents.len(), 2);
    assert!(dependents.contains(&idx_c));
    assert!(dependents.contains(&idx_d));
}

#[test]
fn test_graph_reset() {
    let mut ctx = Context::new(1024 * 1024).unwrap();
    let mut graph = ComputeGraph::new();

    let a = ctx.new_tensor_1d(TensorType::F32, 10).unwrap();
    graph.add_node(&a, true).unwrap();

    assert_eq!(graph.num_nodes(), 1);

    graph.reset();

    assert_eq!(graph.num_nodes(), 0);
    assert_eq!(graph.num_leafs(), 0);
    assert!(!graph.is_built());
}

#[test]
fn test_gradient_graph() {
    let graph = ComputeGraph::with_gradients();
    assert!(graph.has_gradients());
}

#[test]
fn same_tensor_is_added_once() {
    let mut ctx = Context::new(4096).unwrap();
    let mut graph = ComputeGraph::new();
    let a = ctx.new_tensor_1d(TensorType::F32, 4).unwrap();
    let first = graph.add_node(&a, true).unwrap();
    let second = graph.add_node(&a, true).unwrap();
    assert_eq!(first, second);
    assert_eq!(graph.num_nodes(), 1);
    assert_eq!(graph.num_leafs(), 1);
}

#[test]
fn edges_to_missing_nodes_fail() {
    let mut ctx = Context::new(4096).unwrap();
    let mut graph = ComputeGraph::new();
    let a = ctx.new_tensor_1d(TensorType::F32, 4).unwrap();
    graph.add_node(&a, true).unwrap();
    assert!(matches!(graph.add_edge(0, 1), Err(GraphError::NodeNotFound)));
    // the source is not checked here, only by validation
    assert!(graph.add_edge(3, 0).is_ok());
    match graph.validate() {
        Err(GraphError::InvalidStructure(m)) => assert_eq!(m, "Invalid source index: 3"),
        other => panic!("unexpected: {:?}", other),
    }
}

#[test]
fn cycle_is_detected() {
    let mut ctx = Context::new(4096).unwrap();
    let mut graph = ComputeGraph::new();
    let a = ctx.new_tensor_1d(TensorType::F32, 4).unwrap();
    let b = ops::neg(&mut ctx, &a).unwrap();
    let ia = graph.add_node(&a, false).unwrap();
    let ib = graph.add_node(&b, false).unwrap();
    graph.add_edge(ia, ib).unwrap();
    graph.add_edge(ib, ia).unwrap();
    assert!(matches!(graph.build(), Err(GraphError::CycleDetected)));
    assert!(!graph.is_built());
}

#[test]
fn validate_and_nodes() {
    let mut ctx = Context::new(4096).unwrap();
    let mut graph = ComputeGraph::new();
    let a = ctx.new_tensor_1d(TensorType::F32, 4).unwrap();
    let b = ops::relu(&mut ctx, &a).unwrap();
    let ia = graph.add_node(&a, true).unwrap();
    let ib = graph.add_node(&b, false).unwrap();
    graph.add_edge(ia, ib).unwrap();
    assert!(graph.validate().is_ok());
    graph.build().unwrap();
    assert!(graph.validate().is_ok());
    let node = graph.get_node(ib).unwrap();
    assert_eq!(node.op, OpType::Unary);
    assert_eq!(node.sources, vec![ia]);
    assert!(!node.is_leaf);
    assert!(graph.get_node(5).is_none());
    assert_eq!(graph.leafs(), &[ia]);
    assert_eq!(graph.execution_order(), &[ia, ib]);
}

#[test]
fn ancestors_follow_sources() {
    let mut ctx = Context::new(4096).unwrap();
    let mut graph = ComputeGraph::new();
    let a = ctx.new_tensor_1d(TensorType::F32, 4).unwrap();
    let b = ctx.new_tensor_1d(TensorType::F32, 4).unwrap();
    let c = ops::add(&mut ctx, &a, &b).unwrap();
    let d = ops::neg(&mut ctx, &c).unwrap();
    let ia = graph.add_node(&a, true).unwrap();
    let ib = graph.add_node(&b, true).unwrap();
    let ic = graph.add_node(&c, false).unwrap();
    let id = graph.add_node(&d, false).unwrap();
    graph.add_edge(ia, ic).unwrap();
    graph.add_edge(ib, ic).unwrap();
    graph.add_edge(ic, id).unwrap();
    let anc = graph.find_ancestors(id);
    assert_eq!(anc.len(), 3);
    assert!(anc.contains(&ia) && anc.contains(&ib) && anc.contains(&ic));
    assert!(graph.find_ancestors(ia).is_empty());
    assert_eq!(graph.find_dependents(ic), vec![id]);
}

#[test]
fn stats_count_operations() {
    let mut ctx = Context::new(4096).unwrap();
    let mut graph = ComputeGraph::new();
    let a = ctx.new_tensor_1d(TensorType::F32, 4).unwrap();
    let b = ops::neg(&mut ctx, &a).unwrap();
    let c = ops::neg(&mut ctx, &b).unwrap();
    let d = ops::silu(&mut ctx, &c).unwrap();
    for (t, leaf) in [(&a, true), (&b, false), (&c, false), (&d, false)] {
        graph.add_node(t, leaf).unwrap();
    }
    let stats = graph.stats();
    assert_eq!(stats.total_ops(), 4);
    assert_eq!(stats.most_common_op(), Some((OpType::Unary, 2)));
    assert!(!stats.is_built);
    assert!(!stats.has_gradients);
}

#[test]
fn empty_graph_depth_is_zero() {
    let graph = ComputeGraph::default();
    assert_eq!(graph.depth(), 0);
    assert!(graph.stats().most_common_op().is_none());
}

#[test]
fn depth_counts_the_longest_chain() {
    let mut ctx = Context::new(1 << 16).unwrap();
    let mut graph = ComputeGraph::new();
    // a -> b -> c -> d, with a shortcut a -> d
    let a = ctx.new_tensor_1d(TensorType::F32, 4).unwrap();
    let b = ops::neg(&mut ctx, &a).unwrap();
    let c = ops::neg(&mut ctx, &b).unwrap();
    let d = ops::add(&mut ctx, &c, &a).unwrap();
    let ia = graph.add_node(&a, true).unwrap();
    let ib = graph.add_node(&b, false).unwrap();
    let ic = graph.add_node(&c, false).unwrap();
    let id = graph.add_node(&d, false).unwrap();
    graph.add_edge(ia, ib).unwrap();
    graph.add_edge(ib, ic).unwrap();
    graph.add_edge(ic, id).unwrap();
    graph.add_edge(ia, id).unwrap();
    graph.build().unwrap();
    assert_eq!(graph.depth(), 4);
}

#[test]
fn graph_full_is_reported() {
    let mut graph = ComputeGraph::new();
    // distinct tensors, each at its own address, each get a new node
    let ts: Vec<lrama::tensor::Tensor> =
        (0..=lrama::graph::GGML_MAX_NODES).map(|_| lrama::tensor::Tensor::new(TensorType::F32, &[1])).collect();
    for i in 0..lrama::graph::GGML_MAX_NODES {
        assert_eq!(graph.add_node(&ts[i], false).unwrap(), i);
    }
    assert!(matches!(graph.add_node(&ts[16384], false), Err(GraphError::GraphFull(16384))));
    assert_eq!(graph.num_nodes(), 16384);
}

#[test]
fn tensors_are_known_by_address() {
    let mut graph = ComputeGraph::new();
    // a tensor made without a context, added twice, keeps its node
    let t = lrama::tensor::Tensor::new(TensorType::F32, &[3]);
    assert_eq!(graph.add_node(&t, true).unwrap(), 0);
    assert_eq!(graph.add_node(&t, false).unwrap(), 0);
    assert_eq!(graph.num_nodes(), 1);
    // a clone lies elsewhere in memory, so it is another tensor
    let c = t.clone();
    assert_eq!(graph.add_node(&c, false).unwrap(), 1);
    // so is a second tensor of the same shape
    let u = lrama::tensor::Tensor::new(TensorType::F32, &[3]);
    assert_eq!(graph.add_node(&u, false).unwrap(), 2);
    assert_eq!(graph.num_leafs(), 1);
}

#[test]
fn build_follows_kahn_order() {
    let mut graph = ComputeGraph::new();
    for k in 0..5 {
        graph.add_node_keyed(format!("n{}", k), OpType::NoOp, false).unwrap();
    }
    graph.add_edge(3, 0).unwrap();
    graph.add_edge(0, 1).unwrap();
    graph.add_edge(2, 4).unwrap();
    graph.add_edge(1, 4).unwrap();
    graph.build().unwrap();
    // Ready at start: 2 and 3; then 0 (after 3), 1 (after 0), 4 (after 1).
    assert_eq!(graph.execution_order(), &[2, 3, 0, 1, 4]);
}
