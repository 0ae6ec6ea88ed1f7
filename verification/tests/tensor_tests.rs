use lrama::tensor::{OpType, Tensor, TensorFlags, TensorType};

#[test]
fn test_tensor_creation() {
    let tensor = Tensor::new(TensorType::F32, &[2, 3, 4]);
    assert_eq!(tensor.n_dims(), 3);
    assert_eq!(tensor.n_elements(), 24);
    assert_eq!(tensor.ne[0], 2);
    assert_eq!(tensor.ne[1], 3);
    assert_eq!(tensor.ne[2], 4);
}

#[test]
fn test_tensor_size() {
    let tensor = Tensor::new(TensorType::F32, &[10, 20]);
    assert_eq!(tensor.size_bytes(), 10 * 20 * 4);

    let tensor_f16 = Tensor::new(TensorType::F16, &[10, 20]);
    assert_eq!(tensor_f16.size_bytes(), 10 * 20 * 2);
}

#[test]
fn test_tensor_contiguous() {
    let tensor = Tensor::new(TensorType::F32, &[2, 3]);
    assert!(tensor.is_contiguous());
}

#[test]
fn test_tensor_shapes() {
    let scalar = Tensor::new(TensorType::F32, &[1]);
    assert!(scalar.is_scalar());

    let vector = Tensor::new(TensorType::F32, &[10]);
    assert!(vector.is_vector());

    let matrix = Tensor::new(TensorType::F32, &[10, 20]);
    assert!(matrix.is_matrix());
}

#[test]
fn test_tensor_type_properties() {
    assert_eq!(TensorType::F32.element_size(), 4);
    assert_eq!(TensorType::F16.element_size(), 2);
    assert_eq!(TensorType::I8.element_size(), 1);

    assert!(!TensorType::F32.is_quantized());
    assert!(TensorType::Q4_0.is_quantized());

    assert_eq!(TensorType::Q4_0.block_size(), 32);
    assert_eq!(TensorType::Q4_K.block_size(), 256);
}

#[test]
fn test_tensor_name() {
    let mut tensor = Tensor::new(TensorType::F32, &[2, 3]);
    tensor.set_name("test_tensor");
    assert_eq!(tensor.name(), "test_tensor");
}

#[test]
fn new_tensor_pads_shape_and_strides() {
    let t = Tensor::new(TensorType::F32, &[3, 5]);
    assert_eq!(t.ne, [3, 5, 1, 1]);
    assert_eq!(t.nb, [4, 12, 60, 60]);
    assert_eq!(t.op, OpType::NoOp);
    assert!(t.data().is_none());
    assert_eq!(t.id(), 0);
    assert_eq!(t.name(), "");
}

#[test]
fn quantized_size_counts_blocks() {
    // 64 Q4_0 elements are two blocks of 18 bytes
    let t = Tensor::new(TensorType::Q4_0, &[64]);
    assert_eq!(t.size_bytes(), 36);
    assert_eq!(TensorType::Q4_0.type_size(), 18);
    assert_eq!(TensorType::Q4_K.bytes_per_block(), 144);
}

#[test]
fn type_names() {
    assert_eq!(TensorType::F32.name(), "f32");
    assert_eq!(TensorType::Q8_0.name(), "q8_0");
}

#[test]
fn shape_predicates_exclusive() {
    let t3 = Tensor::new(TensorType::F32, &[2, 3, 4]);
    assert!(!t3.is_scalar());
    assert!(!t3.is_vector());
    assert!(!t3.is_matrix());
    let v = Tensor::new(TensorType::F32, &[7]);
    assert!(!v.is_matrix());
    assert!(!v.is_scalar());
}

#[test]
fn flags_bits() {
    let f = TensorFlags::input();
    assert!(f.is_input());
    assert!(!f.is_output());
    assert!(!TensorFlags::none().is_param());
    assert!(TensorFlags::param().is_param());
    assert!(TensorFlags::output().is_output());
    assert_eq!(TensorFlags::new(), TensorFlags::none());
}

#[test]
fn clone_keeps_identity_and_shape() {
    let mut t = Tensor::new(TensorType::F16, &[4, 4]);
    t.set_name("w");
    let c = t.clone();
    assert_eq!(c.ne, t.ne);
    assert_eq!(c.nb, t.nb);
    assert_eq!(c.name(), "w");
    assert_eq!(c.id(), t.id());
}

fn all_types() -> Vec<TensorType> {
    vec![
        TensorType::F32, TensorType::F16, TensorType::BF16, TensorType::F64,
        TensorType::I8, TensorType::I16, TensorType::I32, TensorType::I64,
        TensorType::Q4_0, TensorType::Q4_1, TensorType::Q5_0, TensorType::Q5_1,
        TensorType::Q8_0, TensorType::Q8_1, TensorType::Q2_K, TensorType::Q3_K,
        TensorType::Q4_K, TensorType::Q5_K, TensorType::Q6_K, TensorType::Q8_K,
        TensorType::IQ2_XXS, TensorType::IQ2_XS, TensorType::IQ3_XXS, TensorType::IQ1_S,
        TensorType::IQ4_NL, TensorType::IQ3_S, TensorType::IQ2_S, TensorType::IQ4_XS,
        TensorType::IQ1_M, TensorType::Q4_0_4_4, TensorType::Q4_0_4_8, TensorType::Q4_0_8_8,
        TensorType::TQ1_0, TensorType::TQ2_0, TensorType::IQ4_NL_4_4, TensorType::IQ4_NL_4_8,
        TensorType::IQ4_NL_8_8,
    ]
}

#[test]
fn type_names_are_distinct() {
    let types = all_types();
    for (i, a) in types.iter().enumerate() {
        for (j, b) in types.iter().enumerate() {
            if i != j {
                assert_ne!(a.name(), b.name());
            }
        }
    }
    assert_eq!(TensorType::Q4_K.name(), "q4_k");
    assert_eq!(TensorType::BF16.name(), "bf16");
    assert_eq!(TensorType::IQ4_NL_4_4.name(), "iq4_nl_4_4");
}

#[test]
fn fresh_tensors_are_contiguous() {
    let shapes: [&[usize]; 5] = [&[7], &[2, 3], &[4, 1, 5], &[2, 3, 4, 5], &[]];
    for t in all_types() {
        for shape in shapes.iter() {
            let tensor = Tensor::new(t, shape);
            assert!(tensor.is_contiguous());
        }
    }
    let mut t = Tensor::new(TensorType::F32, &[2, 3]);
    t.nb[1] = 9;
    assert!(!t.is_contiguous());
    let mut t = Tensor::new(TensorType::F32, &[2, 3]);
    t.nb[0] = 8;
    assert!(!t.is_contiguous());
}
