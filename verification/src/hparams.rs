//! Hyperparameters of a LLaMA model, read from the metadata of its GGUF file.

use vstd::prelude::*;
use crate::entries::lookup;
use crate::gguf::metadata::{MetaView, MetadataValue};
use crate::gguf::reader::{GGUFReader, ReaderView};

verus! {

/// A metadata key that a model cannot be loaded without.
#[derive(Debug, Clone, Copy, PartialEq, Eq, Structural)]
pub enum HParamKey {
    EmbeddingLength,
    HeadCount,
    BlockCount,
    TokenizerTokens,
}

impl HParamKey {
    pub open spec fn spec_key(self) -> Seq<char> {
        match self {
            HParamKey::EmbeddingLength => "llama.embedding_length"@,
            HParamKey::HeadCount => "llama.attention.head_count"@,
            HParamKey::BlockCount => "llama.block_count"@,
            HParamKey::TokenizerTokens => "tokenizer.ggml.tokens"@,
        }
    }

    /// The metadata key itself.
    pub fn key(self) -> (r: &'static str)
        ensures
            r@ == self.spec_key(),
    {
        match self {
            HParamKey::EmbeddingLength => "llama.embedding_length",
            HParamKey::HeadCount => "llama.attention.head_count",
            HParamKey::BlockCount => "llama.block_count",
            HParamKey::TokenizerTokens => "tokenizer.ggml.tokens",
        }
    }
}

/// Why the hyperparameters could not be read.
#[derive(Debug, Clone, Copy, PartialEq, Eq, Structural)]
pub enum HParamsError {
    /// The key is absent, or (for a number) not stored as a `u32`.
    Missing(HParamKey),
    /// The token list is not an array.
    TokensNotArray,
}

/// Model dimensions.
#[derive(Debug, Clone, Copy, PartialEq, Eq, Structural)]
pub struct HParams {
    pub n_vocab: usize,
    pub n_embd: usize,
    pub n_head: usize,
    /// Heads of the key and value projections (grouped-query attention).
    pub n_head_kv: usize,
    pub n_layer: usize,
    pub n_ctx: usize,
}

/// Context length of a model whose file does not give one.
pub const DEFAULT_N_CTX: usize = 2048;

/// The `u32` stored under `key`, if there is one.
pub open spec fn meta_u32(md: Seq<(Seq<char>, MetaView)>, key: Seq<char>) -> Option<u32> {
    match lookup(md, key) {
        Some(MetaView::UInt32(x)) => Some(x),
        _ => None,
    }
}

/// The hyperparameters that a file's metadata describes: the embedding
/// length, head count and block count are required `u32` values; the
/// key-value head count defaults to the head count and the context length
/// to 2048; the vocabulary size is the length of the token array.
pub open spec fn spec_hparams(r: ReaderView) -> Result<HParams, HParamsError> {
    let md = r.metadata;
    match meta_u32(md, "llama.embedding_length"@) {
        None => Err(HParamsError::Missing(HParamKey::EmbeddingLength)),
        Some(n_embd) => match meta_u32(md, "llama.attention.head_count"@) {
            None => Err(HParamsError::Missing(HParamKey::HeadCount)),
            Some(n_head) => match meta_u32(md, "llama.block_count"@) {
                None => Err(HParamsError::Missing(HParamKey::BlockCount)),
                Some(n_layer) => {
                    let n_head_kv = match meta_u32(md, "llama.attention.head_count_kv"@) {
                        Some(k) => k,
                        None => n_head,
                    };
                    let n_ctx = match meta_u32(md, "llama.context_length"@) {
                        Some(c) => c as usize,
                        None => DEFAULT_N_CTX,
                    };
                    match lookup(md, "tokenizer.ggml.tokens"@) {
                        None => Err(HParamsError::Missing(HParamKey::TokenizerTokens)),
                        Some(MetaView::Array(_, values)) => Ok(
                            HParams {
                                n_vocab: values.len() as usize,
                                n_embd: n_embd as usize,
                                n_head: n_head as usize,
                                n_head_kv: n_head_kv as usize,
                                n_layer: n_layer as usize,
                                n_ctx,
                            },
                        ),
                        Some(_) => Err(HParamsError::TokensNotArray),
                    }
                },
            },
        },
    }
}

/// The `u32` stored in the reader's metadata under `key`.
fn metadata_u32(r: &GGUFReader, key: &str) -> (v: Option<u32>)
    ensures
        v == meta_u32(r@.metadata, key@),
{
    match r.get_metadata(key) {
        Some(x) => match x.as_u32() {
            Ok(n) => Some(n),
            Err(_) => None,
        },
        None => None,
    }
}

/// Read the model dimensions from a GGUF file's metadata.
pub fn model_hparams(r: &GGUFReader) -> (h: Result<HParams, HParamsError>)
    ensures
        h == spec_hparams(r@),
{
    let n_embd = match metadata_u32(r, "llama.embedding_length") {
        Some(v) => v,
        None => return Err(HParamsError::Missing(HParamKey::EmbeddingLength)),
    };
    let n_head = match metadata_u32(r, "llama.attention.head_count") {
        Some(v) => v,
        None => return Err(HParamsError::Missing(HParamKey::HeadCount)),
    };
    let n_layer = match metadata_u32(r, "llama.block_count") {
        Some(v) => v,
        None => return Err(HParamsError::Missing(HParamKey::BlockCount)),
    };
    let n_head_kv = match metadata_u32(r, "llama.attention.head_count_kv") {
        Some(v) => v,
        None => n_head,
    };
    let n_ctx = match metadata_u32(r, "llama.context_length") {
        Some(v) => v as usize,
        None => DEFAULT_N_CTX,
    };
    let n_vocab = match r.get_metadata("tokenizer.ggml.tokens") {
        None => return Err(HParamsError::Missing(HParamKey::TokenizerTokens)),
        Some(MetadataValue::Array(a)) => a.values.len(),
        Some(_) => return Err(HParamsError::TokensNotArray),
    };
    Ok(
        HParams {
            n_vocab,
            n_embd: n_embd as usize,
            n_head: n_head as usize,
            n_head_kv: n_head_kv as usize,
            n_layer: n_layer as usize,
            n_ctx,
        },
    )
}

/// The dimensions come from the `u32` values stored under their keys; a
/// missing context length means 2048 and a missing key-value head count
/// means the head count; the vocabulary has one entry per element of the
/// token array.
pub proof fn lemma_hparams_from_metadata(
    r: ReaderView,
    n_embd: u32,
    n_head: u32,
    n_layer: u32,
    vt: crate::gguf::metadata::MetadataValueType,
    tokens: Seq<MetaView>,
)
    requires
        lookup(r.metadata, "llama.embedding_length"@) == Some(MetaView::UInt32(n_embd)),
        lookup(r.metadata, "llama.attention.head_count"@) == Some(MetaView::UInt32(n_head)),
        lookup(r.metadata, "llama.block_count"@) == Some(MetaView::UInt32(n_layer)),
        lookup(r.metadata, "tokenizer.ggml.tokens"@) == Some(MetaView::Array(vt, tokens)),
    ensures
        spec_hparams(r) matches Ok(h) && {
            &&& h.n_embd == n_embd
            &&& h.n_head == n_head
            &&& h.n_layer == n_layer
            &&& h.n_vocab == tokens.len() as usize
            &&& h.n_ctx == match lookup(r.metadata, "llama.context_length"@) {
                Some(MetaView::UInt32(c)) => c as usize,
                _ => 2048usize,
            }
            &&& h.n_head_kv == match lookup(r.metadata, "llama.attention.head_count_kv"@) {
                Some(MetaView::UInt32(k)) => k as usize,
                _ => n_head as usize,
            }
        },
{
}

} // verus!
