//! Tensor graph construction, arena allocation, automatic differentiation
//! bookkeeping, the GGUF container format and a greedy tokenizer, with
//! contracts checked by Verus.

pub mod tensor;
pub mod context;
pub mod text;
pub mod entries;
pub mod ops;
pub mod ops_advanced;
pub mod topo;
pub mod graph;
pub mod depth;
pub mod autodiff;
pub mod grad_flow;
pub mod backend;
pub mod compute;
pub mod simd;
pub mod gguf;
pub mod tokenizer;
pub mod hparams;
pub mod generation;
pub mod kv_cache;
