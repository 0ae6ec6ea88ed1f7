use lrama::backend::{CpuBackend, CpuBackendError};
use lrama::compute::CpuCompute;
use lrama::context::Context;
use lrama::graph::ComputeGraph;
use lrama::ops;
use lrama::simd::SimdCapabilities;
use lrama::tensor::{OpType, TensorType};

#[test]
fn test_backend_creation() {
    let backend = CpuBackend::new();
    assert!(backend.num_threads() > 0);
}

#[test]
fn test_backend_with_threads() {
    let backend = CpuBackend::with_threads(4);
    assert_eq!(backend.num_threads(), 4);
}

#[test]
fn test_backend_auto_threads() {
    let backend = CpuBackend::with_threads(0);
    assert!(backend.num_threads() > 0);
}

#[test]
fn test_simd_detection() {
    // Every set of capabilities has a non-empty description.
    for bits in 0u32..32 {
        let caps = SimdCapabilities {
            has_avx: bits & 1 != 0,
            has_avx2: bits & 2 != 0,
            has_avx512f: bits & 4 != 0,
            has_fma: bits & 8 != 0,
            has_neon: bits & 16 != 0,
        };
        println!("SIMD capabilities: {}", caps.description());
        assert!(caps.description().len() > 0);
    }
}

#[test]
fn simd_description_text() {
    let none = SimdCapabilities { has_avx: false, has_avx2: false, has_avx512f: false, has_fma: false, has_neon: false };
    assert_eq!(none.description(), "Scalar only");
    let x86 = SimdCapabilities { has_avx: true, has_avx2: true, has_avx512f: false, has_fma: true, has_neon: false };
    assert_eq!(x86.description(), "AVX2, FMA");
    let arm = SimdCapabilities { has_avx: false, has_avx2: false, has_avx512f: false, has_fma: false, has_neon: true };
    assert_eq!(arm.description(), "NEON");
    let wide = SimdCapabilities { has_avx: true, has_avx2: true, has_avx512f: true, has_fma: true, has_neon: true };
    assert_eq!(wide.description(), "AVX-512, FMA, NEON");
}

#[test]
fn empty_graph_computes() {
    let mut ctx = Context::new(1024).unwrap();
    let graph = ComputeGraph::new();
    let backend = CpuBackend::default();
    assert!(backend.compute_graph(&graph, &mut ctx).is_ok());
}

#[test]
fn leaves_only_graph_computes() {
    let mut ctx = Context::new(4096).unwrap();
    let mut graph = ComputeGraph::new();
    let a = ctx.new_tensor_1d(TensorType::F32, 4).unwrap();
    graph.add_node(&a, true).unwrap();
    graph.build().unwrap();
    let used = ctx.used_size();
    assert!(CpuBackend::new().compute_graph(&graph, &mut ctx).is_ok());
    assert_eq!(ctx.used_size(), used);
}

#[test]
fn first_computed_node_finds_no_source() {
    let mut ctx = Context::new(4096).unwrap();
    let mut graph = ComputeGraph::new();
    let a = ctx.new_tensor_1d(TensorType::F32, 4).unwrap();
    let b = ctx.new_tensor_1d(TensorType::F32, 4).unwrap();
    let c = ops::add(&mut ctx, &a, &b).unwrap();
    let ia = graph.add_node(&a, true).unwrap();
    let ib = graph.add_node(&b, true).unwrap();
    let ic = graph.add_node(&c, false).unwrap();
    graph.add_edge(ia, ic).unwrap();
    graph.add_edge(ib, ic).unwrap();
    graph.build().unwrap();
    match CpuBackend::new().compute_graph(&graph, &mut ctx) {
        Err(CpuBackendError::ComputeError(m)) => assert_eq!(m, "Source 0 not found"),
        other => panic!("unexpected: {:?}", other),
    }
}

#[test]
fn kernels_check_source_counts() {
    let mut ctx = Context::new(4096).unwrap();
    let mut graph = ComputeGraph::new();
    let a = ctx.new_tensor_1d(TensorType::F32, 4).unwrap();
    let c = ops::add(&mut ctx, &a, &a).unwrap();
    let ia = graph.add_node(&a, true).unwrap();
    let ic = graph.add_node(&c, false).unwrap();
    graph.add_edge(ia, ic).unwrap();
    graph.build().unwrap();
    match CpuBackend::new().compute_graph(&graph, &mut ctx) {
        Err(CpuBackendError::ComputeError(m)) => assert_eq!(m, "Add requires 2 sources"),
        other => panic!("unexpected: {:?}", other),
    }
    let mut g2 = ComputeGraph::new();
    let n = ops::neg(&mut ctx, &a).unwrap();
    g2.add_node(&n, false).unwrap();
    g2.build().unwrap();
    match CpuBackend::new().compute_graph(&g2, &mut ctx) {
        Err(CpuBackendError::UnsupportedOp(op)) => assert_eq!(op, OpType::Unary),
        other => panic!("unexpected: {:?}", other),
    }
}

#[test]
fn test_transpose_f32() {
    // 2x3 matrix: [1, 2, 3]
    //             [4, 5, 6]
    // Column-major: [1, 4, 2, 5, 3, 6]
    let a = vec![1.0, 4.0, 2.0, 5.0, 3.0, 6.0];
    let mut c = vec![0.0; 6];

    CpuCompute::transpose_f32(&a, [2, 3], &mut c).unwrap();

    // After transpose: [1, 2, 3]  -> column-major: [1, 2, 3, 4, 5, 6]
    //                  [4, 5, 6]
    assert_eq!(c, vec![1.0, 2.0, 3.0, 4.0, 5.0, 6.0]);
}

#[test]
fn test_get_rows_f32() {
    // Embedding matrix [3, 4] in column-major storage: three embeddings
    // of dimension 4, one per row.
    let embeddings = vec![
        1.0, 5.0, 9.0, // col 0
        2.0, 6.0, 10.0, // col 1
        3.0, 7.0, 11.0, // col 2
        4.0, 8.0, 12.0, // col 3
    ];

    // Get rows (embeddings) 0, 2, 1
    let indices = vec![0, 2, 1];
    let mut c = vec![0.0; 12];

    CpuCompute::get_rows_f32(&embeddings, [3, 4], &indices, &mut c).unwrap();

    assert_eq!(&c[0..4], &[1.0, 2.0, 3.0, 4.0]); // row 0
    assert_eq!(&c[4..8], &[9.0, 10.0, 11.0, 12.0]); // row 2
    assert_eq!(&c[8..12], &[5.0, 6.0, 7.0, 8.0]); // row 1
}

#[test]
fn get_rows_errors() {
    let a = vec![1u32, 2, 3, 4, 5, 6];
    let mut c = vec![0u32; 5];
    match CpuCompute::get_rows_f32(&a, [3, 2], &[0, 1], &mut c) {
        Err(CpuBackendError::ShapeMismatch(m)) => assert_eq!(m, "Output size mismatch: expected 4, got 5"),
        other => panic!("unexpected: {:?}", other),
    }
    assert_eq!(c, vec![0; 5]);
    let mut c = vec![0u32; 6];
    match CpuCompute::get_rows_f32(&a, [3, 2], &[2, 3, 0], &mut c) {
        Err(CpuBackendError::ShapeMismatch(m)) => assert_eq!(m, "Row index 3 out of bounds (n_rows=3)"),
        other => panic!("unexpected: {:?}", other),
    }
    // the first token was gathered before the bad index was met
    assert_eq!(c, vec![3, 6, 0, 0, 0, 0]);
}

#[test]
fn copy_and_repeat() {
    let a = vec![1.0f32, 2.0, 3.0];
    let mut c = vec![0.0f32; 3];
    CpuCompute::copy_f32(&a, &mut c).unwrap();
    assert_eq!(c, a);
    let mut short = vec![0.0f32; 2];
    match CpuCompute::copy_f32(&a, &mut short) {
        Err(CpuBackendError::ShapeMismatch(m)) => assert_eq!(m, "Lengths don't match: 3 vs 2"),
        other => panic!("unexpected: {:?}", other),
    }
    let mut r = vec![0.0f32; 9];
    CpuCompute::repeat_f32(&a, 3, &mut r, 3).unwrap();
    assert_eq!(r, vec![1.0, 2.0, 3.0, 1.0, 2.0, 3.0, 1.0, 2.0, 3.0]);
    match CpuCompute::repeat_f32(&a, 2, &mut r, 3) {
        Err(CpuBackendError::ShapeMismatch(m)) => assert_eq!(m, "Input size mismatch"),
        other => panic!("unexpected: {:?}", other),
    }
    match CpuCompute::repeat_f32(&a, 3, &mut r, 2) {
        Err(CpuBackendError::ShapeMismatch(m)) => assert_eq!(m, "Output size mismatch"),
        other => panic!("unexpected: {:?}", other),
    }
}

#[test]
fn permute_swaps_axes() {
    // a box of extents [2, 3, 1] holding 0..6 in column-major order
    let a: Vec<u32> = (0..6).collect();
    let mut c = vec![0u32; 6];
    CpuCompute::permute_f32(&a, [2, 3, 1], &mut c, [1, 0, 2]).unwrap();
    // swapping the first two axes is a transpose
    assert_eq!(c, vec![0, 2, 4, 1, 3, 5]);
    let mut same = vec![0u32; 6];
    CpuCompute::permute_f32(&a, [2, 3, 1], &mut same, [0, 1, 2]).unwrap();
    assert_eq!(same, a);
    let mut small = vec![0u32; 5];
    match CpuCompute::permute_f32(&a, [2, 3, 1], &mut small, [0, 1, 2]) {
        Err(CpuBackendError::ShapeMismatch(m)) => assert_eq!(m, "Size mismatch in permute"),
        other => panic!("unexpected: {:?}", other),
    }
}

#[test]
fn transpose_size_mismatch() {
    let a = vec![1u8, 2, 3];
    let mut c = vec![0u8; 3];
    match CpuCompute::transpose_f32(&a, [2, 2], &mut c) {
        Err(CpuBackendError::ShapeMismatch(m)) => assert_eq!(m, "Size mismatch"),
        other => panic!("unexpected: {:?}", other),
    }
}

#[test]
fn transpose_twice_gives_back_the_matrix() {
    let a: Vec<u16> = (1..=12).collect();
    let mut c = vec![0u16; 12];
    let mut d = vec![0u16; 12];
    CpuCompute::transpose_f32(&a, [3, 4], &mut c).unwrap();
    CpuCompute::transpose_f32(&c, [4, 3], &mut d).unwrap();
    assert_eq!(d, a);
    assert_ne!(c, a);
}
