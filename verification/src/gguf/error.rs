//! Errors of reading and writing GGUF data.

use vstd::prelude::*;

verus! {

#[derive(Debug)]
pub enum Error {
    /// The data ends before the item being read is complete
    UnexpectedEof,
    InvalidMagic { expected: u32, got: u32 },
    UnsupportedVersion(u32),
    InvalidMetadataType(u32),
    InvalidTensorType(u32),
    /// The bytes of a string are not valid UTF-8
    InvalidString(Vec<u8>),
    TensorNotFound(String),
    InvalidDimensions,
    AlignmentError { offset: u64, alignment: u64 },
    FileTooSmall { expected: u64, got: u64 },
    InvalidMetadataKey(String),
    MetadataTypeMismatch { expected: String, got: String },
}

/// An error with its texts and bytes as sequences.
pub enum ErrorView {
    UnexpectedEof,
    InvalidMagic { expected: u32, got: u32 },
    UnsupportedVersion(u32),
    InvalidMetadataType(u32),
    InvalidTensorType(u32),
    InvalidString(Seq<u8>),
    TensorNotFound(Seq<char>),
    InvalidDimensions,
    AlignmentError { offset: u64, alignment: u64 },
    FileTooSmall { expected: u64, got: u64 },
    InvalidMetadataKey(Seq<char>),
    MetadataTypeMismatch { expected: Seq<char>, got: Seq<char> },
}

impl View for Error {
    type V = ErrorView;

    open spec fn view(&self) -> ErrorView {
        match self {
            Error::UnexpectedEof => ErrorView::UnexpectedEof,
            Error::InvalidMagic { expected, got } => ErrorView::InvalidMagic {
                expected: *expected,
                got: *got,
            },
            Error::UnsupportedVersion(v) => ErrorView::UnsupportedVersion(*v),
            Error::InvalidMetadataType(v) => ErrorView::InvalidMetadataType(*v),
            Error::InvalidTensorType(v) => ErrorView::InvalidTensorType(*v),
            Error::InvalidString(b) => ErrorView::InvalidString(b@),
            Error::TensorNotFound(n) => ErrorView::TensorNotFound(n@),
            Error::InvalidDimensions => ErrorView::InvalidDimensions,
            Error::AlignmentError { offset, alignment } => ErrorView::AlignmentError {
                offset: *offset,
                alignment: *alignment,
            },
            Error::FileTooSmall { expected, got } => ErrorView::FileTooSmall {
                expected: *expected,
                got: *got,
            },
            Error::InvalidMetadataKey(k) => ErrorView::InvalidMetadataKey(k@),
            Error::MetadataTypeMismatch { expected, got } => ErrorView::MetadataTypeMismatch {
                expected: expected@,
                got: got@,
            },
        }
    }
}

/// A result seen through the views of its error.
pub open spec fn res_view<T>(r: Result<T, Error>) -> Result<T, ErrorView> {
    match r {
        Ok(v) => Ok(v),
        Err(e) => Err(e@),
    }
}

} // verus!
