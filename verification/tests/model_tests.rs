use lrama::generation::{generation_step, may_continue, GenStep, StopReason};
use lrama::gguf::metadata::{MetadataArray, MetadataValue, MetadataValueType};
use lrama::gguf::reader::GGUFReader;
use lrama::gguf::writer::GGUFWriter;
use lrama::hparams::{model_hparams, HParamKey, HParams, HParamsError};

fn reader_with(entries: Vec<(&str, MetadataValue)>) -> GGUFReader {
    let mut w = GGUFWriter::new();
    for (k, v) in entries {
        w.add_metadata(k.to_string(), v);
    }
    w.write_header().unwrap();
    GGUFReader::from_bytes(w.finalize().unwrap()).unwrap()
}

fn tokens(n: usize) -> MetadataValue {
    MetadataValue::Array(MetadataArray {
        value_type: MetadataValueType::String,
        values: (0..n).map(|i| MetadataValue::String(format!("t{}", i))).collect(),
    })
}

fn full() -> Vec<(&'static str, MetadataValue)> {
    vec![
        ("llama.embedding_length", MetadataValue::UInt32(64)),
        ("llama.attention.head_count", MetadataValue::UInt32(8)),
        ("llama.block_count", MetadataValue::UInt32(2)),
        ("tokenizer.ggml.tokens", tokens(5)),
    ]
}

#[test]
fn hparams_with_defaults() {
    let r = reader_with(full());
    assert_eq!(
        model_hparams(&r),
        Ok(HParams { n_vocab: 5, n_embd: 64, n_head: 8, n_head_kv: 8, n_layer: 2, n_ctx: 2048 })
    );
}

#[test]
fn hparams_with_every_key() {
    let mut e = full();
    e.push(("llama.context_length", MetadataValue::UInt32(512)));
    e.push(("llama.attention.head_count_kv", MetadataValue::UInt32(2)));
    let r = reader_with(e);
    assert_eq!(
        model_hparams(&r),
        Ok(HParams { n_vocab: 5, n_embd: 64, n_head: 8, n_head_kv: 2, n_layer: 2, n_ctx: 512 })
    );
}

#[test]
fn hparams_missing_keys() {
    for (i, key) in [HParamKey::EmbeddingLength, HParamKey::HeadCount, HParamKey::BlockCount, HParamKey::TokenizerTokens]
        .into_iter()
        .enumerate()
    {
        let mut e = full();
        e.remove(i);
        let r = reader_with(e);
        assert_eq!(model_hparams(&r), Err(HParamsError::Missing(key)));
    }
    assert_eq!(HParamKey::EmbeddingLength.key(), "llama.embedding_length");
    assert_eq!(HParamKey::TokenizerTokens.key(), "tokenizer.ggml.tokens");
}

#[test]
fn hparams_wrong_types() {
    let mut e = full();
    e[0] = ("llama.embedding_length", MetadataValue::UInt64(64));
    assert_eq!(model_hparams(&reader_with(e)), Err(HParamsError::Missing(HParamKey::EmbeddingLength)));
    let mut e = full();
    e[3] = ("tokenizer.ggml.tokens", MetadataValue::String("abc".to_string()));
    assert_eq!(model_hparams(&reader_with(e)), Err(HParamsError::TokensNotArray));
    let mut e = full();
    e.push(("llama.context_length", MetadataValue::Int32(512)));
    assert_eq!(model_hparams(&reader_with(e)).unwrap().n_ctx, 2048);
}

#[test]
fn generation_decisions() {
    assert_eq!(may_continue(3, 10, 0, 4), None);
    assert_eq!(may_continue(10, 10, 0, 4), Some(StopReason::ContextLimit));
    assert_eq!(may_continue(3, 10, 4, 4), Some(StopReason::Budget));
    assert_eq!(may_continue(10, 10, 4, 4), Some(StopReason::Budget));
    assert_eq!(generation_step(3, 10, 0, 4, 7, 2), GenStep::Continue { token: 7, pos: 4 });
    assert_eq!(generation_step(3, 10, 0, 4, 2, 2), GenStep::Stop(StopReason::EndOfText));
    assert_eq!(generation_step(3, 10, 3, 4, 7, 2), GenStep::Last { token: 7, reason: StopReason::Budget });
    assert_eq!(generation_step(9, 10, 0, 4, 7, 2), GenStep::Last { token: 7, reason: StopReason::ContextLimit });
}

#[test]
fn generation_loop_respects_budget_and_context() {
    // Draws are fixed; the loop follows the library's decisions.
    let run = |prompt_len: usize, n_ctx: usize, n_predict: usize, draws: &[u32], eos: u32| {
        let mut out = Vec::new();
        let mut positions = Vec::new();
        let mut pos = prompt_len;
        let mut stop = may_continue(pos, n_ctx, 0, n_predict);
        let mut k = 0;
        while stop.is_none() {
            positions.push(pos);
            let next = draws[k];
            k += 1;
            match generation_step(pos, n_ctx, out.len(), n_predict, next, eos) {
                GenStep::Continue { token, pos: p } => {
                    out.push(token);
                    pos = p;
                }
                GenStep::Last { token, reason } => {
                    out.push(token);
                    stop = Some(reason);
                }
                GenStep::Stop(reason) => stop = Some(reason),
            }
        }
        (out, positions, stop.unwrap())
    };
    assert_eq!(run(2, 100, 3, &[5, 6, 7, 8], 0), (vec![5, 6, 7], vec![2, 3, 4], StopReason::Budget));
    assert_eq!(run(2, 4, 10, &[5, 6, 7, 8], 0), (vec![5, 6], vec![2, 3], StopReason::ContextLimit));
    assert_eq!(run(2, 100, 10, &[5, 0, 7], 0), (vec![5], vec![2, 3], StopReason::EndOfText));
    assert_eq!(run(4, 4, 10, &[], 0), (vec![], vec![], StopReason::ContextLimit));
}
