use lrama::gguf::metadata::{MetadataArray, MetadataValue, MetadataValueType};
use lrama::gguf::reader::GGUFReader;
use lrama::gguf::writer::GGUFWriter;
use lrama::tokenizer::{Tokenizer, TokenizerError};

fn reader_with(entries: Vec<(&str, MetadataValue)>) -> GGUFReader {
    let mut w = GGUFWriter::new();
    for (k, v) in entries {
        w.add_metadata(k.to_string(), v);
    }
    w.write_header().unwrap();
    GGUFReader::from_bytes(w.finalize().unwrap()).unwrap()
}

fn strings(tokens: &[&str]) -> MetadataValue {
    MetadataValue::Array(MetadataArray {
        value_type: MetadataValueType::String,
        values: tokens.iter().map(|t| MetadataValue::String(t.to_string())).collect(),
    })
}

fn sample() -> Tokenizer {
    let vocab = ["<unk>", "<s>", "</s>", "h", "he", "hello", " ", "world", "<0x21>", "\n", "é"];
    Tokenizer::from_gguf(&reader_with(vec![("tokenizer.ggml.tokens", strings(&vocab))])).unwrap()
}

#[test]
fn test_tokenizer_basic() {
    let tok = sample();
    assert_eq!(tok.vocab_size(), 11);
    assert_eq!(tok.bos_token, 1);
    assert_eq!(tok.eos_token, 2);
    assert_eq!(tok.nl_token, Some(9));
}

#[test]
fn greedy_longest_match_and_byte_fallback() {
    let tok = sample();
    assert!(tok.can_encode("hello world!"));
    assert_eq!(tok.encode("hello world!", true), vec![1, 5, 6, 7, 8]);
    assert_eq!(tok.encode("hel", false), vec![4, 0]);
    assert_eq!(tok.encode("", true), vec![1]);
    assert_eq!(tok.encode("é", false), vec![10]);
}

#[test]
fn text_that_would_cut_a_character_is_refused() {
    let tok = sample();
    // "ü" is two bytes and no token holds it: the greedy search would cut it
    assert!(!tok.can_encode("ü"));
    assert!(!tok.can_encode("hé"));
    assert!(tok.can_encode("éh"));
}

#[test]
fn decode_skips_special_tokens() {
    let tok = sample();
    assert_eq!(tok.decode(&[1, 5, 6, 7, 8, 2]), "hello world!");
    assert_eq!(tok.decode(&[99, 3]), "h");
    assert_eq!(tok.decode(&[9]), "\n");
}

#[test]
fn special_ids_from_metadata() {
    let vocab = ["a", "b", "\\n"];
    let r = reader_with(vec![
        ("tokenizer.ggml.tokens", strings(&vocab)),
        ("tokenizer.ggml.bos_token_id", MetadataValue::UInt32(0)),
        ("tokenizer.ggml.eos_token_id", MetadataValue::UInt32(1)),
    ]);
    let tok = Tokenizer::from_gguf(&r).unwrap();
    assert_eq!(tok.bos_token, 0);
    assert_eq!(tok.eos_token, 1);
    assert_eq!(tok.nl_token, Some(2));
    assert_eq!(tok.decode(&[0, 1, 2]), "\\n");
    // an id of another type is ignored
    let r = reader_with(vec![
        ("tokenizer.ggml.tokens", strings(&vocab)),
        ("tokenizer.ggml.bos_token_id", MetadataValue::UInt8(0)),
    ]);
    assert_eq!(Tokenizer::from_gguf(&r).unwrap().bos_token, 1);
}

#[test]
fn loading_errors() {
    let r = reader_with(vec![]);
    assert_eq!(Tokenizer::from_gguf(&r).unwrap_err(), TokenizerError::MissingTokens);
    let r = reader_with(vec![("tokenizer.ggml.tokens", MetadataValue::UInt32(3))]);
    assert_eq!(Tokenizer::from_gguf(&r).unwrap_err(), TokenizerError::TokensNotArray);
    let r = reader_with(vec![(
        "tokenizer.ggml.tokens",
        MetadataValue::Array(MetadataArray {
            value_type: MetadataValueType::UInt32,
            values: vec![MetadataValue::UInt32(1)],
        }),
    )]);
    let e = Tokenizer::from_gguf(&r).unwrap_err();
    assert_eq!(e, TokenizerError::ExpectedStringToken);
    assert_eq!(e.message(), "Expected string token");
    assert_eq!(TokenizerError::MissingTokens.message(), "Missing tokenizer.ggml.tokens");
}

#[test]
fn decoding_is_piecewise() {
    let tok = sample();
    let a: &[u32] = &[1, 5, 6];
    let b: &[u32] = &[7, 8, 10, 99, 2];
    let ab = [a, b].concat();
    assert_eq!(tok.decode(&ab), tok.decode(a) + &tok.decode(b));
    assert_eq!(tok.decode(&ab), "hello world!é");
    assert!(tok.decode(&[tok.bos_token, tok.eos_token]).is_empty());
    assert!(tok.decode(&[]).is_empty());
    assert!(tok.decode(&[11, 500]).is_empty());
}
