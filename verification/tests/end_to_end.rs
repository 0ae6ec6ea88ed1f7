use lrama::context::{Context, ContextError};
use lrama::tensor::{Tensor, TensorType};

fn set_f32(ctx: &mut Context, t: &Tensor, vals: &[f32]) -> Result<(), ContextError> {
    let bytes: Vec<u8> = vals.iter().flat_map(|v| v.to_le_bytes()).collect();
    ctx.set_tensor_data_bytes(t, &bytes)
}

fn get_f32(ctx: &Context, t: &Tensor) -> Result<Vec<f32>, ContextError> {
    let bytes = ctx.get_tensor_data_bytes(t)?;
    Ok(bytes.chunks(4).map(|c| f32::from_le_bytes([c[0], c[1], c[2], c[3]])).collect())
}

#[test]
fn test_simple_addition() {
    // Create context with memory
    let mut ctx = Context::new(10 * 1024 * 1024).unwrap();

    // Create input tensors
    let a = ctx.new_tensor_1d(TensorType::F32, 5).unwrap();
    let b = ctx.new_tensor_1d(TensorType::F32, 5).unwrap();

    // Set input data
    let a_data = vec![1.0, 2.0, 3.0, 4.0, 5.0];
    let b_data = vec![10.0, 20.0, 30.0, 40.0, 50.0];

    set_f32(&mut ctx, &a, &a_data).unwrap();
    set_f32(&mut ctx, &b, &b_data).unwrap();

    // Verify data was set correctly
    let a_read = get_f32(&ctx, &a).unwrap();
    assert_eq!(a_read, &[1.0, 2.0, 3.0, 4.0, 5.0]);

    let b_read = get_f32(&ctx, &b).unwrap();
    assert_eq!(b_read, &[10.0, 20.0, 30.0, 40.0, 50.0]);

    println!("✓ Tensor data allocation and copying works!");
}

#[test]
fn test_element_wise_operations() {
    let mut ctx = Context::new(10 * 1024 * 1024).unwrap();

    // Test addition
    {
        let a = ctx.new_tensor_1d(TensorType::F32, 3).unwrap();
        let b = ctx.new_tensor_1d(TensorType::F32, 3).unwrap();

        set_f32(&mut ctx, &a, &[1.0, 2.0, 3.0]).unwrap();
        set_f32(&mut ctx, &b, &[4.0, 5.0, 6.0]).unwrap();

        let a_data = get_f32(&ctx, &a).unwrap();
        let b_data = get_f32(&ctx, &b).unwrap();

        let mut result = vec![0.0; 3];
        for i in 0..3 {
            result[i] = a_data[i] + b_data[i];
        }

        assert_eq!(result, vec![5.0, 7.0, 9.0]);
        println!("✓ Addition works: {:?}", result);
    }

    // Test multiplication
    {
        let a = ctx.new_tensor_1d(TensorType::F32, 3).unwrap();
        let b = ctx.new_tensor_1d(TensorType::F32, 3).unwrap();

        set_f32(&mut ctx, &a, &[2.0, 3.0, 4.0]).unwrap();
        set_f32(&mut ctx, &b, &[5.0, 6.0, 7.0]).unwrap();

        let a_data = get_f32(&ctx, &a).unwrap();
        let b_data = get_f32(&ctx, &b).unwrap();

        let mut result = vec![0.0; 3];
        for i in 0..3 {
            result[i] = a_data[i] * b_data[i];
        }

        assert_eq!(result, vec![10.0, 18.0, 28.0]);
        println!("✓ Multiplication works: {:?}", result);
    }
}

#[test]
fn test_matrix_multiplication() {
    let mut ctx = Context::new(10 * 1024 * 1024).unwrap();

    // Create matrices: A[2,3] @ B[4,2] -> C[4,3]
    let a = ctx.new_tensor_2d(TensorType::F32, 2, 3).unwrap();
    let b = ctx.new_tensor_2d(TensorType::F32, 4, 2).unwrap();

    // GGML uses column-major storage
    let a_data = vec![
        1.0, 4.0, // Column 0
        2.0, 5.0, // Column 1
        3.0, 6.0, // Column 2
    ];

    let b_data = vec![
        1.0, 3.0, 5.0, 7.0, // Column 0
        2.0, 4.0, 6.0, 8.0, // Column 1
    ];

    set_f32(&mut ctx, &a, &a_data).unwrap();
    set_f32(&mut ctx, &b, &b_data).unwrap();

    // Verify data
    let a_read = get_f32(&ctx, &a).unwrap();
    let b_read = get_f32(&ctx, &b).unwrap();

    assert_eq!(a_read.len(), 6);
    assert_eq!(b_read.len(), 8);

    println!("✓ Matrix data allocation works!");
    println!("  A shape: [{}, {}], data: {:?}", a.ne[0], a.ne[1], a_read);
    println!("  B shape: [{}, {}], data: {:?}", b.ne[0], b.ne[1], b_read);
}

#[test]
fn test_neural_network_layer() {
    // Simulate a simple neural network layer: y = ReLU(W @ x + b)
    let mut ctx = Context::new(10 * 1024 * 1024).unwrap();

    // Input: x[3]
    let x = ctx.new_tensor_1d(TensorType::F32, 3).unwrap();
    set_f32(&mut ctx, &x, &[1.0, 2.0, 3.0]).unwrap();

    // Weights: W[4, 3] (4 output neurons, 3 input features)
    let w = ctx.new_tensor_2d(TensorType::F32, 4, 3).unwrap();
    set_f32(
        &mut ctx,
        &w,
        &[
            0.1, 0.2, 0.3, 0.4, // Column 0
            0.5, 0.6, 0.7, 0.8, // Column 1
            0.9, 1.0, 1.1, 1.2, // Column 2
        ],
    )
    .unwrap();

    // Bias: b[4]
    let b = ctx.new_tensor_1d(TensorType::F32, 4).unwrap();
    set_f32(&mut ctx, &b, &[0.1, 0.2, 0.3, 0.4]).unwrap();

    println!("✓ Neural network layer data allocated!");
    println!("  Input shape: [{}]", x.ne[0]);
    println!("  Weight shape: [{}, {}]", w.ne[0], w.ne[1]);
    println!("  Bias shape: [{}]", b.ne[0]);

    let x_data = get_f32(&ctx, &x).unwrap();
    let w_data = get_f32(&ctx, &w).unwrap();
    let b_data = get_f32(&ctx, &b).unwrap();

    println!("  x: {:?}", x_data);
    println!("  w: {:?}", w_data);
    println!("  b: {:?}", b_data);
}

#[test]
fn data_written_to_one_tensor_leaves_the_other() {
    let mut ctx = Context::new(1024).unwrap();
    let a = ctx.new_tensor_1d(TensorType::F32, 2).unwrap();
    let b = ctx.new_tensor_1d(TensorType::F32, 2).unwrap();
    set_f32(&mut ctx, &a, &[1.0, 2.0]).unwrap();
    set_f32(&mut ctx, &b, &[3.0, 4.0]).unwrap();
    set_f32(&mut ctx, &a, &[5.0, 6.0]).unwrap();
    assert_eq!(get_f32(&ctx, &a).unwrap(), vec![5.0, 6.0]);
    assert_eq!(get_f32(&ctx, &b).unwrap(), vec![3.0, 4.0]);
}

#[test]
fn test_memory_efficiency() {
    // Test that we can allocate and use tensors efficiently
    let mut ctx = Context::new(1024 * 1024).unwrap(); // 1 MB

    let initial_stats = ctx.stats();
    println!(
        "Initial memory: {} bytes allocated, {} bytes used",
        initial_stats.total_allocated, initial_stats.used
    );

    // Allocate several tensors
    let t1 = ctx.new_tensor_1d(TensorType::F32, 1000).unwrap();
    let t2 = ctx.new_tensor_2d(TensorType::F32, 100, 100).unwrap();
    let t3 = ctx.new_tensor_1d(TensorType::F32, 500).unwrap();

    let stats = ctx.stats();
    println!(
        "After allocation: {} bytes used, {:.1}% utilization",
        stats.used,
        stats.used as f32 / stats.total_allocated as f32
    );

    // Set data
    let data1 = vec![1.0; 1000];
    let data2 = vec![2.0; 10000];
    let data3 = vec![3.0; 500];

    set_f32(&mut ctx, &t1, &data1).unwrap();
    set_f32(&mut ctx, &t2, &data2).unwrap();
    set_f32(&mut ctx, &t3, &data3).unwrap();

    // Verify
    let read1 = get_f32(&ctx, &t1).unwrap();
    let read2 = get_f32(&ctx, &t2).unwrap();
    let read3 = get_f32(&ctx, &t3).unwrap();

    assert_eq!(read1[0], 1.0);
    assert_eq!(read2[0], 2.0);
    assert_eq!(read3[0], 3.0);

    println!("✓ Memory management works efficiently!");
    println!("  Peak usage: {} bytes", stats.peak_usage);
    println!("  Allocations: {}", stats.num_allocations);
}
