//! GGUF (GGML Universal File) container format: a header, typed metadata
//! key-value pairs, tensor descriptions and aligned tensor data, all little-endian.

pub mod format;
pub mod error;
pub mod metadata;
pub mod tensor;
pub mod bytes;
pub mod reader;
pub mod writer;
pub mod roundtrip;
