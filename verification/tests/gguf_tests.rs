use lrama::gguf::error::Error;
use lrama::gguf::format::{GGUFVersion, GGUF_MAGIC, GGUF_VERSION};
use lrama::gguf::metadata::{MetadataArray, MetadataValue, MetadataValueType};
use lrama::gguf::reader::GGUFReader;
use lrama::gguf::tensor::{GGMLType, TensorInfo};
use lrama::gguf::writer::GGUFWriter;
use lrama::tensor::TensorType;

#[test]
fn test_magic_constant() {
    assert_eq!(GGUF_MAGIC, 0x46554747); // 'GGUF' in little-endian
}

#[test]
fn test_align_offset() {
    assert_eq!(GGUFReader::align_offset(0, 32), 0);
    assert_eq!(GGUFReader::align_offset(1, 32), 32);
    assert_eq!(GGUFReader::align_offset(31, 32), 32);
    assert_eq!(GGUFReader::align_offset(32, 32), 32);
    assert_eq!(GGUFReader::align_offset(33, 32), 64);
}

fn sample_file() -> (Vec<u8>, Vec<u8>) {
    let mut w = GGUFWriter::new();
    w.add_metadata("general.name".to_string(), MetadataValue::String("tiny".to_string()));
    w.add_metadata("llama.block_count".to_string(), MetadataValue::UInt32(2));
    w.add_metadata(
        "tokenizer.ids".to_string(),
        MetadataValue::Array(MetadataArray {
            value_type: MetadataValueType::UInt32,
            values: vec![MetadataValue::UInt32(7), MetadataValue::UInt32(9)],
        }),
    );
    w.add_tensor(TensorInfo::new("w".to_string(), vec![2, 3], GGMLType::F32, 0));
    w.add_tensor(TensorInfo::new("b".to_string(), vec![3], GGMLType::F32, 32));
    w.write_header().unwrap();
    let header_len = w.bytes().len();
    assert_eq!(header_len % 32, 0);
    let mut data: Vec<u8> = (0u8..24).collect();
    data.extend(std::iter::repeat(0u8).take(8));
    data.extend(100u8..112);
    w.write_tensor_data(&data).unwrap();
    (w.finalize().unwrap(), data)
}

#[test]
fn written_header_reads_back() {
    let (bytes, data) = sample_file();
    let r = GGUFReader::from_bytes(bytes).unwrap();
    assert_eq!(r.version(), GGUFVersion::V3);
    assert_eq!(r.tensor_count(), 2);
    assert_eq!(r.metadata().len(), 3);
    assert_eq!(r.get_metadata("general.name").unwrap().as_string().unwrap(), "tiny");
    assert_eq!(r.get_metadata("llama.block_count").unwrap().as_u32().unwrap(), 2);
    match r.get_metadata("tokenizer.ids").unwrap().as_array().unwrap() {
        arr => {
            assert_eq!(arr.value_type, MetadataValueType::UInt32);
            assert_eq!(arr.values.len(), 2);
            assert_eq!(arr.values[1].as_u32().unwrap(), 9);
        }
    }
    assert!(r.get_metadata("missing").is_none());
    let info = r.get_tensor_info("w").unwrap();
    assert_eq!(info.dimensions, vec![2, 3]);
    assert_eq!(info.n_dims, 2);
    assert_eq!(info.tensor_type, GGMLType::F32);
    assert_eq!(r.tensor_names(), vec!["w", "b"]);
    assert_eq!(r.get_tensor_data("w").unwrap(), &data[0..24]);
    assert_eq!(r.get_tensor_data("b").unwrap(), &data[32..44]);
    assert!(matches!(r.get_tensor_data("zz"), Err(Error::TensorNotFound(n)) if n == "zz"));
}

#[test]
fn later_metadata_replaces_earlier() {
    let mut w = GGUFWriter::new();
    w.add_metadata("k".to_string(), MetadataValue::UInt8(1));
    w.add_metadata("k".to_string(), MetadataValue::Bool(true));
    w.write_header().unwrap();
    let r = GGUFReader::from_bytes(w.finalize().unwrap()).unwrap();
    assert_eq!(r.metadata().len(), 1);
    assert!(r.get_metadata("k").unwrap().as_bool().unwrap());
}

#[test]
fn custom_alignment_is_honoured() {
    let mut w = GGUFWriter::new();
    w.set_alignment(64);
    w.add_metadata("general.alignment".to_string(), MetadataValue::UInt32(64));
    w.add_tensor(TensorInfo::new("t".to_string(), vec![4], GGMLType::I8, 0));
    w.write_header().unwrap();
    assert_eq!(w.bytes().len() % 64, 0);
    w.write_tensor_data(&[1, 2, 3, 4]).unwrap();
    let r = GGUFReader::from_bytes(w.finalize().unwrap()).unwrap();
    assert_eq!(r.get_tensor_data("t").unwrap(), &[1, 2, 3, 4]);
}

fn header(magic: u32, version: u32, n_tensors: u64, n_kv: u64) -> Vec<u8> {
    let mut v = Vec::new();
    v.extend_from_slice(&magic.to_le_bytes());
    v.extend_from_slice(&version.to_le_bytes());
    v.extend_from_slice(&n_tensors.to_le_bytes());
    v.extend_from_slice(&n_kv.to_le_bytes());
    v
}

fn string(v: &mut Vec<u8>, s: &[u8]) {
    v.extend_from_slice(&(s.len() as u64).to_le_bytes());
    v.extend_from_slice(s);
}

#[test]
fn short_data_is_unexpected_eof() {
    assert!(matches!(GGUFReader::from_bytes(vec![0x47, 0x47]), Err(Error::UnexpectedEof)));
    let mut h = header(GGUF_MAGIC, 3, 0, 1);
    string(&mut h, b"key");
    assert!(matches!(GGUFReader::from_bytes(h), Err(Error::UnexpectedEof)));
}

#[test]
fn wrong_magic_and_version() {
    let h = header(0x58585858, 3, 0, 0);
    assert!(matches!(
        GGUFReader::from_bytes(h),
        Err(Error::InvalidMagic { expected: 0x46554747, got: 0x58585858 })
    ));
    let h = header(GGUF_MAGIC, 7, 0, 0);
    assert!(matches!(GGUFReader::from_bytes(h), Err(Error::UnsupportedVersion(7))));
    let h = header(GGUF_MAGIC, 1, 0, 0);
    assert_eq!(GGUFReader::from_bytes(h).unwrap().version(), GGUFVersion::V1);
    assert_eq!(GGUFVersion::from_u32(GGUF_VERSION), Some(GGUFVersion::V3));
    assert_eq!(GGUFVersion::V2.as_u32(), 2);
}

#[test]
fn bad_types_and_strings() {
    let mut h = header(GGUF_MAGIC, 3, 0, 1);
    string(&mut h, b"k");
    h.extend_from_slice(&99u32.to_le_bytes());
    assert!(matches!(GGUFReader::from_bytes(h), Err(Error::InvalidMetadataType(99))));

    let mut h = header(GGUF_MAGIC, 3, 0, 1);
    string(&mut h, &[0xff, 0xfe]);
    h.extend_from_slice(&0u32.to_le_bytes());
    h.push(1);
    assert!(matches!(GGUFReader::from_bytes(h), Err(Error::InvalidString(b)) if b == vec![0xff, 0xfe]));

    let mut h = header(GGUF_MAGIC, 3, 1, 0);
    string(&mut h, b"t");
    h.extend_from_slice(&1u32.to_le_bytes());
    h.extend_from_slice(&4u64.to_le_bytes());
    h.extend_from_slice(&5u32.to_le_bytes());
    h.extend_from_slice(&0u64.to_le_bytes());
    assert!(matches!(GGUFReader::from_bytes(h), Err(Error::InvalidTensorType(5))));
}

#[test]
fn zero_alignment_is_an_error() {
    let mut h = header(GGUF_MAGIC, 3, 0, 1);
    string(&mut h, b"general.alignment");
    h.extend_from_slice(&4u32.to_le_bytes());
    h.extend_from_slice(&0u32.to_le_bytes());
    let len = h.len() as u64;
    assert!(matches!(
        GGUFReader::from_bytes(h),
        Err(Error::AlignmentError { offset, alignment: 0 }) if offset == len
    ));
}

#[test]
fn missing_tensor_bytes() {
    let mut w = GGUFWriter::new();
    w.add_tensor(TensorInfo::new("t".to_string(), vec![8], GGMLType::F32, 0));
    w.write_header().unwrap();
    w.write_tensor_data(&[0; 16]).unwrap();
    let bytes = w.finalize().unwrap();
    let total = bytes.len() as u64;
    let r = GGUFReader::from_bytes(bytes).unwrap();
    assert!(matches!(
        r.get_tensor_data("t"),
        Err(Error::FileTooSmall { expected, got }) if got == total && expected == total + 16
    ));
}

#[test]
fn nested_array_cannot_be_written() {
    let mut w = GGUFWriter::new();
    let inner = MetadataValue::Array(MetadataArray { value_type: MetadataValueType::UInt8, values: vec![] });
    w.add_metadata(
        "nested".to_string(),
        MetadataValue::Array(MetadataArray { value_type: MetadataValueType::Array, values: vec![inner] }),
    );
    assert!(matches!(w.write_header(), Err(Error::InvalidMetadataType(9))));
}

#[test]
fn value_accessors() {
    let v = MetadataValue::String("x".to_string());
    assert!(matches!(
        v.as_u32(),
        Err(Error::MetadataTypeMismatch { expected, got }) if expected == "UInt32" && got == "String"
    ));
    assert_eq!(MetadataValue::Int64(-3).as_i64().unwrap(), -3);
    assert_eq!(MetadataValue::Float32(1.5f32.to_bits()).as_f32_bits().unwrap(), 1.5f32.to_bits());
    assert_eq!(MetadataValue::UInt16(9).value_type(), MetadataValueType::UInt16);
    assert_eq!(MetadataValueType::from_u32(8).unwrap(), MetadataValueType::String);
    assert!(matches!(MetadataValueType::from_u32(13), Err(Error::InvalidMetadataType(13))));
    assert_eq!(MetadataValueType::Float64.as_u32(), 12);
}

#[test]
fn tensor_types_and_sizes() {
    assert_eq!(GGMLType::from_u32(2).unwrap(), GGMLType::Q4_0);
    assert!(matches!(GGMLType::from_u32(4), Err(Error::InvalidTensorType(4))));
    assert_eq!(GGMLType::Q8_0.as_u32(), 8);
    assert_eq!(GGMLType::Q4_0.tensor_size(64), 36);
    assert_eq!(GGMLType::F16.tensor_size(10), 20);
    let info = TensorInfo::new("q".to_string(), vec![32, 4], GGMLType::Q4_0, 0);
    assert_eq!(info.n_elements(), 128);
    assert_eq!(info.size_bytes(), 72);
}

#[test]
fn element_types_carry_their_ggml_numbers() {
    assert_eq!(TensorType::F32.ggml_id(), 0);
    assert_eq!(TensorType::F16.ggml_id(), 1);
    assert_eq!(TensorType::BF16.ggml_id(), 30);
    assert_eq!(TensorType::F64.ggml_id(), 28);
    assert_eq!(TensorType::I8.ggml_id(), 24);
    assert_eq!(TensorType::Q4_K.ggml_id(), 12);
    assert_eq!(TensorType::IQ1_M.ggml_id(), 29);
    assert_eq!(TensorType::IQ4_NL_8_8.ggml_id(), 38);
    let all = [
        TensorType::F32, TensorType::F16, TensorType::BF16, TensorType::F64,
        TensorType::I8, TensorType::I16, TensorType::I32, TensorType::I64,
        TensorType::Q4_0, TensorType::Q4_1, TensorType::Q5_0, TensorType::Q5_1,
        TensorType::Q8_0, TensorType::Q8_1, TensorType::Q2_K, TensorType::Q3_K,
        TensorType::Q4_K, TensorType::Q5_K, TensorType::Q6_K, TensorType::Q8_K,
        TensorType::IQ2_XXS, TensorType::IQ2_XS, TensorType::IQ3_XXS, TensorType::IQ1_S,
        TensorType::IQ4_NL, TensorType::IQ3_S, TensorType::IQ2_S, TensorType::IQ4_XS,
        TensorType::IQ1_M, TensorType::Q4_0_4_4, TensorType::Q4_0_4_8, TensorType::Q4_0_8_8,
        TensorType::TQ1_0, TensorType::TQ2_0, TensorType::IQ4_NL_4_4, TensorType::IQ4_NL_4_8,
        TensorType::IQ4_NL_8_8,
    ];
    for t in all {
        let g = GGMLType::from_u32(t.ggml_id()).unwrap();
        assert_eq!(g.as_u32(), t.ggml_id());
        assert_eq!(g.block_size(), t.block_size());
        assert_eq!(g.bytes_per_block(), t.bytes_per_block());
        assert_eq!(g.element_size(), t.element_size());
    }
}
