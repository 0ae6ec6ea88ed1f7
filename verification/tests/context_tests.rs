use lrama::context::{Context, ContextError, MemoryStats, DEFAULT_ALIGNMENT};
use lrama::tensor::TensorType;

#[test]
fn test_context_creation() {
    let ctx = Context::new(1024 * 1024).unwrap();
    assert_eq!(ctx.total_size(), 1024 * 1024);
    assert_eq!(ctx.used_size(), 0);
}

#[test]
fn test_tensor_allocation() {
    let mut ctx = Context::new(1024 * 1024).unwrap();

    let tensor = ctx.new_tensor_2d(TensorType::F32, 10, 20).unwrap();
    assert_eq!(tensor.n_elements(), 200);
    assert_eq!(tensor.size_bytes(), 800);
    assert!(tensor.data().is_some());

    assert_eq!(ctx.stats().num_allocations, 1);
    assert!(ctx.used_size() >= 800);
}

#[test]
fn test_multiple_allocations() {
    let mut ctx = Context::new(1024 * 1024).unwrap();

    let t1 = ctx.new_tensor_1d(TensorType::F32, 100).unwrap();
    let t2 = ctx.new_tensor_2d(TensorType::F16, 50, 50).unwrap();
    let t3 = ctx.new_tensor_3d(TensorType::I32, 10, 10, 10).unwrap();

    assert!(t1.data().is_some());
    assert!(t2.data().is_some());
    assert!(t3.data().is_some());

    assert_eq!(ctx.stats().num_allocations, 3);
}

#[test]
fn test_context_reset() {
    let mut ctx = Context::new(1024 * 1024).unwrap();

    let _ = ctx.new_tensor_1d(TensorType::F32, 100).unwrap();
    assert!(ctx.used_size() > 0);

    ctx.reset();
    assert_eq!(ctx.used_size(), 0);
    assert_eq!(ctx.stats().num_allocations, 0);
}

#[test]
fn test_memory_stats() {
    let mut ctx = Context::new(1024).unwrap();

    let stats = ctx.stats();
    assert_eq!(stats.total_allocated, 1024);
    assert_eq!(stats.used, 0);
    assert_eq!(stats.num_allocations, 0);

    let _ = ctx.new_tensor_1d(TensorType::F32, 10).unwrap();

    let stats = ctx.stats();
    assert!(stats.used > 0);
    assert_eq!(stats.num_allocations, 1);
    // utilization: used / total as a fraction
    assert!((stats.used as f64) / (stats.total_allocated as f64) > 0.0);
}

#[test]
fn test_alignment() {
    let mut ctx = Context::with_alignment(1024, 64).unwrap();
    let tensor = ctx.new_tensor_1d(TensorType::F32, 10).unwrap();

    let offset = tensor.data().unwrap().offset();
    assert_eq!(offset % 64, 0, "Pointer should be 64-byte aligned");
}

#[test]
fn test_fixed_size_context() {
    let mut ctx = Context::with_fixed_size(1024).unwrap();

    // This should succeed
    let _ = ctx.new_tensor_1d(TensorType::F32, 10).unwrap();

    // This should fail (too large)
    let result = ctx.new_tensor_1d(TensorType::F32, 10000);
    assert!(result.is_err());
}

#[test]
fn test_growing_context() {
    let mut ctx = Context::new(100).unwrap(); // Small initial size

    // Allocate more than initial size
    let t1 = ctx.new_tensor_1d(TensorType::F32, 100).unwrap();
    let t2 = ctx.new_tensor_1d(TensorType::F32, 100).unwrap();

    assert!(t1.data().is_some());
    assert!(t2.data().is_some());
    assert!(ctx.total_size() > 100); // Should have grown
}

#[test]
fn invalid_alignment_is_refused() {
    assert_eq!(Context::with_alignment(1024, 48).err(), Some(ContextError::InvalidAlignment(48)));
    assert_eq!(Context::with_alignment(1024, 0).err(), Some(ContextError::InvalidAlignment(0)));
    assert!(Context::with_alignment(1024, 16).is_ok());
}

#[test]
fn default_alignment_is_used() {
    let ctx = Context::new(256).unwrap();
    assert_eq!(ctx.alignment(), DEFAULT_ALIGNMENT);
    assert_eq!(ctx.available_size(), 256);
}

#[test]
fn allocations_are_aligned_and_counted() {
    let mut ctx = Context::new(4096).unwrap();
    let a = ctx.new_tensor_1d(TensorType::I8, 3).unwrap();
    let b = ctx.new_tensor_1d(TensorType::I8, 3).unwrap();
    let pa = a.data().unwrap();
    let pb = b.data().unwrap();
    assert_eq!(pa.offset() % 32, 0);
    assert_eq!(pb.offset() % 32, 0);
    assert_ne!((pa.block(), pa.offset()), (pb.block(), pb.offset()));
    assert_ne!(a.id(), b.id());
    assert_eq!(ctx.used_size(), 6);
    assert_eq!(ctx.stats().peak_usage, 6);
}

#[test]
fn fixed_context_reports_out_of_memory() {
    let mut ctx = Context::with_fixed_size(64).unwrap();
    let err = ctx.new_tensor_1d(TensorType::F32, 100).unwrap_err();
    assert_eq!(err, ContextError::OutOfMemory { requested: 400, available: 64 });
}

#[test]
fn stats_available() {
    let s = MemoryStats { total_allocated: 10, used: 4, num_allocations: 1, peak_usage: 4 };
    assert_eq!(s.available(), 6);
    let s = MemoryStats { total_allocated: 3, used: 4, num_allocations: 1, peak_usage: 4 };
    assert_eq!(s.available(), 0);
}

#[test]
fn tensor_data_roundtrip() {
    let mut ctx = Context::new(1024).unwrap();
    let t = ctx.new_tensor_1d(TensorType::I8, 4).unwrap();
    ctx.set_tensor_data_bytes(&t, &[1, 2, 3, 4]).unwrap();
    assert_eq!(ctx.get_tensor_data_bytes(&t).unwrap(), &[1, 2, 3, 4]);
    // wrong length is refused
    assert!(ctx.set_tensor_data_bytes(&t, &[1, 2, 3]).is_err());
    // a tensor without data is refused
    let bare = lrama::tensor::Tensor::new(TensorType::I8, &[4]);
    assert!(ctx.get_tensor_data_bytes(&bare).is_err());
}

#[test]
fn reset_keeps_capacity() {
    let mut ctx = Context::new(100).unwrap();
    let _ = ctx.new_tensor_1d(TensorType::F32, 100).unwrap();
    let grown = ctx.total_size();
    ctx.reset();
    assert_eq!(ctx.used_size(), 0);
    assert_eq!(ctx.total_size(), grown);
}

fn check_stats(ctx: &Context) {
    let s = ctx.stats();
    assert!(s.used <= s.total_allocated);
    assert!(s.peak_usage >= s.used);
    assert_eq!(s.available(), s.total_allocated - s.used);
    assert_eq!(s.available(), ctx.available_size());
}

#[test]
fn stats_stay_consistent_over_calls() {
    let mut ctx = Context::new(256).unwrap();
    check_stats(&ctx);
    for n in [10usize, 40, 3, 64, 100] {
        ctx.new_tensor_1d(TensorType::F32, n).unwrap();
        check_stats(&ctx);
    }
    let peak = ctx.stats().peak_usage;
    assert!(ctx.total_size() > 256);
    ctx.reset();
    check_stats(&ctx);
    assert_eq!(ctx.stats().used, 0);
    assert_eq!(ctx.stats().peak_usage, peak);
    ctx.new_tensor_2d(TensorType::F16, 4, 4).unwrap();
    check_stats(&ctx);
}

#[test]
fn fixed_context_never_grows() {
    let mut ctx = Context::with_fixed_size(256).unwrap();
    assert_eq!(ctx.total_size(), 256);
    ctx.new_tensor_1d(TensorType::F32, 16).unwrap();
    assert_eq!(ctx.total_size(), 256);
    ctx.new_tensor_1d(TensorType::F32, 16).unwrap();
    assert_eq!(ctx.total_size(), 256);
    let before = ctx.stats();
    let refused = ctx.new_tensor_1d(TensorType::F32, 40);
    assert_eq!(
        refused.err(),
        Some(ContextError::OutOfMemory { requested: 160, available: 128 })
    );
    assert_eq!(ctx.stats(), before);
    assert_eq!(ctx.total_size(), 256);
    ctx.reset();
    assert_eq!(ctx.total_size(), 256);
    ctx.new_tensor_1d(TensorType::F32, 40).unwrap();
    assert_eq!(ctx.total_size(), 256);
}
