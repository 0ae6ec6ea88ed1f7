//! Tensor element types and tensor descriptions of GGUF files.

use vstd::prelude::*;
use crate::gguf::error::{Error, ErrorView};
use crate::tensor::TensorType;

verus! {

/// GGML tensor data types
#[derive(Debug, Clone, Copy, PartialEq, Eq, Hash, Structural)]
#[allow(non_camel_case_types)]
pub enum GGMLType {
    F32,
    F16,
    Q4_0,
    Q4_1,
    Q5_0,
    Q5_1,
    Q8_0,
    Q8_1,
    Q2_K,
    Q3_K,
    Q4_K,
    Q5_K,
    Q6_K,
    Q8_K,
    IQ2_XXS,
    IQ2_XS,
    IQ3_XXS,
    IQ1_S,
    IQ4_NL,
    IQ3_S,
    IQ2_S,
    IQ4_XS,
    I8,
    I16,
    I32,
    I64,
    F64,
    IQ1_M,
    BF16,
    Q4_0_4_4,
    Q4_0_4_8,
    Q4_0_8_8,
    TQ1_0,
    TQ2_0,
    IQ4_NL_4_4,
    IQ4_NL_4_8,
    IQ4_NL_8_8,
}

impl GGMLType {
    pub open spec fn spec_as_u32(self) -> u32 {
        match self {
            GGMLType::F32 => 0,
            GGMLType::F16 => 1,
            GGMLType::Q4_0 => 2,
            GGMLType::Q4_1 => 3,
            GGMLType::Q5_0 => 6,
            GGMLType::Q5_1 => 7,
            GGMLType::Q8_0 => 8,
            GGMLType::Q8_1 => 9,
            GGMLType::Q2_K => 10,
            GGMLType::Q3_K => 11,
            GGMLType::Q4_K => 12,
            GGMLType::Q5_K => 13,
            GGMLType::Q6_K => 14,
            GGMLType::Q8_K => 15,
            GGMLType::IQ2_XXS => 16,
            GGMLType::IQ2_XS => 17,
            GGMLType::IQ3_XXS => 18,
            GGMLType::IQ1_S => 19,
            GGMLType::IQ4_NL => 20,
            GGMLType::IQ3_S => 21,
            GGMLType::IQ2_S => 22,
            GGMLType::IQ4_XS => 23,
            GGMLType::I8 => 24,
            GGMLType::I16 => 25,
            GGMLType::I32 => 26,
            GGMLType::I64 => 27,
            GGMLType::F64 => 28,
            GGMLType::IQ1_M => 29,
            GGMLType::BF16 => 30,
            GGMLType::Q4_0_4_4 => 31,
            GGMLType::Q4_0_4_8 => 32,
            GGMLType::Q4_0_8_8 => 33,
            GGMLType::TQ1_0 => 34,
            GGMLType::TQ2_0 => 35,
            GGMLType::IQ4_NL_4_4 => 36,
            GGMLType::IQ4_NL_4_8 => 37,
            GGMLType::IQ4_NL_8_8 => 38,
        }
    }

    pub open spec fn spec_from_u32(v: u32) -> Option<GGMLType> {
        if v == 0 {
            Some(GGMLType::F32)
        } else if v == 1 {
            Some(GGMLType::F16)
        } else if v == 2 {
            Some(GGMLType::Q4_0)
        } else if v == 3 {
            Some(GGMLType::Q4_1)
        } else if v == 6 {
            Some(GGMLType::Q5_0)
        } else if v == 7 {
            Some(GGMLType::Q5_1)
        } else if v == 8 {
            Some(GGMLType::Q8_0)
        } else if v == 9 {
            Some(GGMLType::Q8_1)
        } else if v == 10 {
            Some(GGMLType::Q2_K)
        } else if v == 11 {
            Some(GGMLType::Q3_K)
        } else if v == 12 {
            Some(GGMLType::Q4_K)
        } else if v == 13 {
            Some(GGMLType::Q5_K)
        } else if v == 14 {
            Some(GGMLType::Q6_K)
        } else if v == 15 {
            Some(GGMLType::Q8_K)
        } else if v == 16 {
            Some(GGMLType::IQ2_XXS)
        } else if v == 17 {
            Some(GGMLType::IQ2_XS)
        } else if v == 18 {
            Some(GGMLType::IQ3_XXS)
        } else if v == 19 {
            Some(GGMLType::IQ1_S)
        } else if v == 20 {
            Some(GGMLType::IQ4_NL)
        } else if v == 21 {
            Some(GGMLType::IQ3_S)
        } else if v == 22 {
            Some(GGMLType::IQ2_S)
        } else if v == 23 {
            Some(GGMLType::IQ4_XS)
        } else if v == 24 {
            Some(GGMLType::I8)
        } else if v == 25 {
            Some(GGMLType::I16)
        } else if v == 26 {
            Some(GGMLType::I32)
        } else if v == 27 {
            Some(GGMLType::I64)
        } else if v == 28 {
            Some(GGMLType::F64)
        } else if v == 29 {
            Some(GGMLType::IQ1_M)
        } else if v == 30 {
            Some(GGMLType::BF16)
        } else if v == 31 {
            Some(GGMLType::Q4_0_4_4)
        } else if v == 32 {
            Some(GGMLType::Q4_0_4_8)
        } else if v == 33 {
            Some(GGMLType::Q4_0_8_8)
        } else if v == 34 {
            Some(GGMLType::TQ1_0)
        } else if v == 35 {
            Some(GGMLType::TQ2_0)
        } else if v == 36 {
            Some(GGMLType::IQ4_NL_4_4)
        } else if v == 37 {
            Some(GGMLType::IQ4_NL_4_8)
        } else if v == 38 {
            Some(GGMLType::IQ4_NL_8_8)
        } else {
            None
        }
    }

    pub open spec fn spec_element_size(self) -> usize {
        match self {
            GGMLType::F32 => 4,
            GGMLType::F16 => 2,
            GGMLType::I8 => 1,
            GGMLType::I16 => 2,
            GGMLType::I32 => 4,
            GGMLType::I64 => 8,
            GGMLType::F64 => 8,
            GGMLType::BF16 => 2,
            _ => 0,
        }
    }

    pub open spec fn spec_block_size(self) -> usize {
        match self {
            GGMLType::F32 => 1,
            GGMLType::F16 => 1,
            GGMLType::Q4_0 => 32,
            GGMLType::Q4_1 => 32,
            GGMLType::Q5_0 => 32,
            GGMLType::Q5_1 => 32,
            GGMLType::Q8_0 => 32,
            GGMLType::Q8_1 => 32,
            GGMLType::Q2_K => 256,
            GGMLType::Q3_K => 256,
            GGMLType::Q4_K => 256,
            GGMLType::Q5_K => 256,
            GGMLType::Q6_K => 256,
            GGMLType::Q8_K => 256,
            GGMLType::IQ2_XXS => 256,
            GGMLType::IQ2_XS => 256,
            GGMLType::IQ3_XXS => 256,
            GGMLType::IQ1_S => 256,
            GGMLType::IQ4_NL => 256,
            GGMLType::IQ3_S => 256,
            GGMLType::IQ2_S => 256,
            GGMLType::IQ4_XS => 256,
            GGMLType::I8 => 1,
            GGMLType::I16 => 1,
            GGMLType::I32 => 1,
            GGMLType::I64 => 1,
            GGMLType::F64 => 1,
            GGMLType::IQ1_M => 256,
            GGMLType::BF16 => 1,
            GGMLType::Q4_0_4_4 => 32,
            GGMLType::Q4_0_4_8 => 32,
            GGMLType::Q4_0_8_8 => 32,
            GGMLType::TQ1_0 => 256,
            GGMLType::TQ2_0 => 256,
            GGMLType::IQ4_NL_4_4 => 256,
            GGMLType::IQ4_NL_4_8 => 256,
            GGMLType::IQ4_NL_8_8 => 256,
        }
    }

    pub open spec fn spec_bytes_per_block(self) -> usize {
        match self {
            GGMLType::F32 => 4,
            GGMLType::F16 => 2,
            GGMLType::Q4_0 => 18,
            GGMLType::Q4_1 => 20,
            GGMLType::Q5_0 => 22,
            GGMLType::Q5_1 => 24,
            GGMLType::Q8_0 => 34,
            GGMLType::Q8_1 => 36,
            GGMLType::Q2_K => 82,
            GGMLType::Q3_K => 110,
            GGMLType::Q4_K => 144,
            GGMLType::Q5_K => 176,
            GGMLType::Q6_K => 210,
            GGMLType::Q8_K => 292,
            GGMLType::IQ2_XXS => 66,
            GGMLType::IQ2_XS => 74,
            GGMLType::IQ3_XXS => 98,
            GGMLType::IQ1_S => 50,
            GGMLType::IQ4_NL => 130,
            GGMLType::IQ3_S => 106,
            GGMLType::IQ2_S => 82,
            GGMLType::IQ4_XS => 136,
            GGMLType::I8 => 1,
            GGMLType::I16 => 2,
            GGMLType::I32 => 4,
            GGMLType::I64 => 8,
            GGMLType::F64 => 8,
            GGMLType::IQ1_M => 56,
            GGMLType::BF16 => 2,
            GGMLType::Q4_0_4_4 => 18,
            GGMLType::Q4_0_4_8 => 18,
            GGMLType::Q4_0_8_8 => 18,
            GGMLType::TQ1_0 => 66,
            GGMLType::TQ2_0 => 130,
            GGMLType::IQ4_NL_4_4 => 130,
            GGMLType::IQ4_NL_4_8 => 130,
            GGMLType::IQ4_NL_8_8 => 130,
        }
    }

    /// Bytes taken by `n` elements: whole blocks, the last one possibly partial.
    pub open spec fn spec_tensor_size(self, n: int) -> int {
        ((n + self.spec_block_size() - 1) / (self.spec_block_size() as int)) * (
        self.spec_bytes_per_block() as int)
    }

    /// The size of `n` elements is computable without overflow.
    pub open spec fn size_computable(self, n: int) -> bool {
        &&& n + self.spec_block_size() <= usize::MAX
        &&& self.spec_tensor_size(n) <= usize::MAX
    }

    pub fn from_u32(v: u32) -> (r: Result<Self, Error>)
        ensures
            match Self::spec_from_u32(v) {
                Some(t) => r == Ok::<Self, Error>(t),
                None => r matches Err(e) && e@ == ErrorView::InvalidTensorType(v),
            },
    {
        match v {
            0 => Ok(Self::F32),
            1 => Ok(Self::F16),
            2 => Ok(Self::Q4_0),
            3 => Ok(Self::Q4_1),
            6 => Ok(Self::Q5_0),
            7 => Ok(Self::Q5_1),
            8 => Ok(Self::Q8_0),
            9 => Ok(Self::Q8_1),
            10 => Ok(Self::Q2_K),
            11 => Ok(Self::Q3_K),
            12 => Ok(Self::Q4_K),
            13 => Ok(Self::Q5_K),
            14 => Ok(Self::Q6_K),
            15 => Ok(Self::Q8_K),
            16 => Ok(Self::IQ2_XXS),
            17 => Ok(Self::IQ2_XS),
            18 => Ok(Self::IQ3_XXS),
            19 => Ok(Self::IQ1_S),
            20 => Ok(Self::IQ4_NL),
            21 => Ok(Self::IQ3_S),
            22 => Ok(Self::IQ2_S),
            23 => Ok(Self::IQ4_XS),
            24 => Ok(Self::I8),
            25 => Ok(Self::I16),
            26 => Ok(Self::I32),
            27 => Ok(Self::I64),
            28 => Ok(Self::F64),
            29 => Ok(Self::IQ1_M),
            30 => Ok(Self::BF16),
            31 => Ok(Self::Q4_0_4_4),
            32 => Ok(Self::Q4_0_4_8),
            33 => Ok(Self::Q4_0_8_8),
            34 => Ok(Self::TQ1_0),
            35 => Ok(Self::TQ2_0),
            36 => Ok(Self::IQ4_NL_4_4),
            37 => Ok(Self::IQ4_NL_4_8),
            38 => Ok(Self::IQ4_NL_8_8),
            _ => Err(Error::InvalidTensorType(v)),
        }
    }

    pub fn as_u32(self) -> (r: u32)
        ensures
            r == self.spec_as_u32(),
            Self::spec_from_u32(r) == Some(self),
    {
        match self {
            Self::F32 => 0,
            Self::F16 => 1,
            Self::Q4_0 => 2,
            Self::Q4_1 => 3,
            Self::Q5_0 => 6,
            Self::Q5_1 => 7,
            Self::Q8_0 => 8,
            Self::Q8_1 => 9,
            Self::Q2_K => 10,
            Self::Q3_K => 11,
            Self::Q4_K => 12,
            Self::Q5_K => 13,
            Self::Q6_K => 14,
            Self::Q8_K => 15,
            Self::IQ2_XXS => 16,
            Self::IQ2_XS => 17,
            Self::IQ3_XXS => 18,
            Self::IQ1_S => 19,
            Self::IQ4_NL => 20,
            Self::IQ3_S => 21,
            Self::IQ2_S => 22,
            Self::IQ4_XS => 23,
            Self::I8 => 24,
            Self::I16 => 25,
            Self::I32 => 26,
            Self::I64 => 27,
            Self::F64 => 28,
            Self::IQ1_M => 29,
            Self::BF16 => 30,
            Self::Q4_0_4_4 => 31,
            Self::Q4_0_4_8 => 32,
            Self::Q4_0_8_8 => 33,
            Self::TQ1_0 => 34,
            Self::TQ2_0 => 35,
            Self::IQ4_NL_4_4 => 36,
            Self::IQ4_NL_4_8 => 37,
            Self::IQ4_NL_8_8 => 38,
        }
    }

    /// Returns the size in bytes of a single element of this type
    /// (0 for quantized types, whose sizes go by blocks)
    pub fn element_size(self) -> (r: usize)
        ensures
            r == self.spec_element_size(),
    {
        match self {
            Self::F32 | Self::I32 => 4,
            Self::F16 | Self::BF16 | Self::I16 => 2,
            Self::I8 => 1,
            Self::I64 | Self::F64 => 8,
            _ => 0,
        }
    }

    /// Returns the block size for quantized types
    pub fn block_size(self) -> (r: usize)
        ensures
            r == self.spec_block_size(),
            r >= 1,
    {
        match self {
            Self::F32 => 1,
            Self::F16 => 1,
            Self::Q4_0 => 32,
            Self::Q4_1 => 32,
            Self::Q5_0 => 32,
            Self::Q5_1 => 32,
            Self::Q8_0 => 32,
            Self::Q8_1 => 32,
            Self::Q2_K => 256,
            Self::Q3_K => 256,
            Self::Q4_K => 256,
            Self::Q5_K => 256,
            Self::Q6_K => 256,
            Self::Q8_K => 256,
            Self::IQ2_XXS => 256,
            Self::IQ2_XS => 256,
            Self::IQ3_XXS => 256,
            Self::IQ1_S => 256,
            Self::IQ4_NL => 256,
            Self::IQ3_S => 256,
            Self::IQ2_S => 256,
            Self::IQ4_XS => 256,
            Self::I8 => 1,
            Self::I16 => 1,
            Self::I32 => 1,
            Self::I64 => 1,
            Self::F64 => 1,
            Self::IQ1_M => 256,
            Self::BF16 => 1,
            Self::Q4_0_4_4 => 32,
            Self::Q4_0_4_8 => 32,
            Self::Q4_0_8_8 => 32,
            Self::TQ1_0 => 256,
            Self::TQ2_0 => 256,
            Self::IQ4_NL_4_4 => 256,
            Self::IQ4_NL_4_8 => 256,
            Self::IQ4_NL_8_8 => 256,
        }
    }

    /// Returns the number of bytes per block for quantized types
    pub fn bytes_per_block(self) -> (r: usize)
        ensures
            r == self.spec_bytes_per_block(),
    {
        match self {
            Self::F32 => 4,
            Self::F16 => 2,
            Self::Q4_0 => 18,
            Self::Q4_1 => 20,
            Self::Q5_0 => 22,
            Self::Q5_1 => 24,
            Self::Q8_0 => 34,
            Self::Q8_1 => 36,
            Self::Q2_K => 82,
            Self::Q3_K => 110,
            Self::Q4_K => 144,
            Self::Q5_K => 176,
            Self::Q6_K => 210,
            Self::Q8_K => 292,
            Self::IQ2_XXS => 66,
            Self::IQ2_XS => 74,
            Self::IQ3_XXS => 98,
            Self::IQ1_S => 50,
            Self::IQ4_NL => 130,
            Self::IQ3_S => 106,
            Self::IQ2_S => 82,
            Self::IQ4_XS => 136,
            Self::I8 => 1,
            Self::I16 => 2,
            Self::I32 => 4,
            Self::I64 => 8,
            Self::F64 => 8,
            Self::IQ1_M => 56,
            Self::BF16 => 2,
            Self::Q4_0_4_4 => 18,
            Self::Q4_0_4_8 => 18,
            Self::Q4_0_8_8 => 18,
            Self::TQ1_0 => 66,
            Self::TQ2_0 => 130,
            Self::IQ4_NL_4_4 => 130,
            Self::IQ4_NL_4_8 => 130,
            Self::IQ4_NL_8_8 => 130,
        }
    }

    /// Calculate the total size in bytes for a tensor with given number of elements
    pub fn tensor_size(self, n_elements: usize) -> (r: usize)
        requires
            self.size_computable(n_elements as int),
        ensures
            r == self.spec_tensor_size(n_elements as int),
    {
        let block_size = self.block_size();
        let bytes_per_block = self.bytes_per_block();
        let n_blocks = (n_elements + block_size - 1) / block_size;
        n_blocks * bytes_per_block
    }
}

/// Product of the dimensions.
pub open spec fn dims_product(d: Seq<u64>) -> int
    decreases d.len(),
{
    if d.len() == 0 {
        1
    } else {
        dims_product(d.drop_last()) * d.last()
    }
}

/// Every partial product of the dimensions fits in a `u64`.
pub open spec fn product_fits_u64(d: Seq<u64>) -> bool {
    forall|k: int| 0 <= k <= d.len() ==> #[trigger] dims_product(d.take(k)) <= u64::MAX
}

/// Information about a tensor in a GGUF file
#[derive(Debug, Clone)]
pub struct TensorInfo {
    pub name: String,
    pub n_dims: usize,
    pub dimensions: Vec<u64>,
    pub tensor_type: GGMLType,
    pub offset: u64,
}

impl TensorInfo {
    pub fn new(name: String, dimensions: Vec<u64>, tensor_type: GGMLType, offset: u64) -> (r: Self)
        ensures
            r.name@ == name@,
            r.n_dims == dimensions@.len(),
            r.dimensions@ == dimensions@,
            r.tensor_type == tensor_type,
            r.offset == offset,
    {
        let n_dims = dimensions.len();
        Self { name, n_dims, dimensions, tensor_type, offset }
    }

    /// Calculate the total number of elements in this tensor
    pub fn n_elements(&self) -> (r: u64)
        requires
            product_fits_u64(self.dimensions@),
        ensures
            r == dims_product(self.dimensions@),
    {
        let mut p: u64 = 1;
        let mut i: usize = 0;
        while i < self.dimensions.len()
            invariant
                i <= self.dimensions@.len(),
                product_fits_u64(self.dimensions@),
                p == dims_product(self.dimensions@.take(i as int)),
            decreases self.dimensions@.len() - i,
        {
            proof {
                assert(self.dimensions@.take(i + 1).drop_last() =~= self.dimensions@.take(i as int));
                assert(dims_product(self.dimensions@.take(i + 1)) <= u64::MAX);
            }
            p = p * self.dimensions[i];
            i = i + 1;
        }
        assert(self.dimensions@.take(i as int) =~= self.dimensions@);
        p
    }

    /// Calculate the size in bytes of this tensor's data
    pub fn size_bytes(&self) -> (r: usize)
        requires
            product_fits_u64(self.dimensions@),
            dims_product(self.dimensions@) <= usize::MAX,
            self.tensor_type.size_computable(dims_product(self.dimensions@)),
        ensures
            r == self.tensor_type.spec_tensor_size(dims_product(self.dimensions@)),
    {
        self.tensor_type.tensor_size(self.n_elements() as usize)
    }
}

/// The tensor element types and the GGUF type table describe the same storage:
/// the GGUF entry under an element type's GGML number exists and has the same
/// block size, bytes per block and element size.
pub proof fn lemma_type_tables_agree(t: TensorType)
    ensures
        GGMLType::spec_from_u32(t.spec_ggml_id()) is Some,
        GGMLType::spec_from_u32(t.spec_ggml_id()).unwrap().spec_as_u32() == t.spec_ggml_id(),
        GGMLType::spec_from_u32(t.spec_ggml_id()).unwrap().spec_block_size()
            == t.spec_block_size(),
        GGMLType::spec_from_u32(t.spec_ggml_id()).unwrap().spec_bytes_per_block()
            == t.spec_bytes_per_block(),
        GGMLType::spec_from_u32(t.spec_ggml_id()).unwrap().spec_element_size()
            == t.spec_element_size(),
{
}

} // verus!
